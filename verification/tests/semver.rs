use cog_core::version::{choose_target, ManualTarget, Version};

fn full(major: u64, minor: u64, patch: u64, pre: Option<&str>, build: Option<&str>) -> Version {
    Version { major, minor, patch, pre: pre.map(|s| s.to_string()), build: build.map(|s| s.to_string()) }
}

#[test]
fn parse_plain_versions() {
    assert_eq!(Version::parse("1.2.3"), Some(Version::new(1, 2, 3)));
    assert_eq!(Version::parse("0.0.0"), Some(Version::new(0, 0, 0)));
    assert_eq!(Version::parse("10.20.30"), Some(Version::new(10, 20, 30)));
    assert_eq!(
        Version::parse("18446744073709551615.0.18446744073709551615"),
        Some(Version::new(u64::MAX, 0, u64::MAX))
    );
}

#[test]
fn parse_pre_release_and_build() {
    assert_eq!(Version::parse("1.0.0-alpha"), Some(full(1, 0, 0, Some("alpha"), None)));
    assert_eq!(Version::parse("1.0.0-alpha.1"), Some(full(1, 0, 0, Some("alpha.1"), None)));
    assert_eq!(Version::parse("1.0.0-0.3.7"), Some(full(1, 0, 0, Some("0.3.7"), None)));
    assert_eq!(Version::parse("1.0.0-x-y-z.--"), Some(full(1, 0, 0, Some("x-y-z.--"), None)));
    assert_eq!(Version::parse("1.0.0+20130313144700"), Some(full(1, 0, 0, None, Some("20130313144700"))));
    assert_eq!(Version::parse("1.0.0+001"), Some(full(1, 0, 0, None, Some("001"))));
    assert_eq!(
        Version::parse("1.0.0-beta.11+exp.sha.5114f85"),
        Some(full(1, 0, 0, Some("beta.11"), Some("exp.sha.5114f85")))
    );
    assert_eq!(Version::parse("1.0.0-0a"), Some(full(1, 0, 0, Some("0a"), None)));
}

#[test]
fn parse_rejects() {
    for bad in [
        "", "1", "1.2", "1.2.", "1.2.3.", "1.2.3.4", ".1.2", "a.b.c", "v1.2.3", "01.2.3", "1.02.3", "1.2.03",
        "1..3", "-1.2.3", "1.2.3-", "1.2.3+", "1.2.3-+b", "1.2.3-a..b", "1.2.3-.a", "1.2.3-a.", "1.2.3-01",
        "1.2.3-a.00", "1.2.3-a_b", "1.2.3+a+b", "1.2.3+a..b", "1.2.3 ", " 1.2.3", "1.2.3-é",
        "18446744073709551616.0.0", "0.99999999999999999999999.0", "1.2.340282366920938463463374607431768211456",
    ] {
        assert_eq!(Version::parse(bad), None, "{:?}", bad);
    }
}

#[test]
fn text_and_back() {
    for v in [
        Version::new(0, 0, 0),
        Version::new(1, 2, 3),
        Version::new(u64::MAX, u64::MAX, u64::MAX),
        full(3, 0, 1, Some("rc.2"), None),
        full(3, 0, 1, None, Some("b-7")),
        full(3, 0, 1, Some("0"), Some("00")),
    ] {
        assert_eq!(Version::parse(&v.to_text()), Some(v.clone()));
    }
}

#[test]
fn pre_release_tag() {
    assert_eq!(Version::new(1, 3, 0).with_pre_release("rc.1"), Some(full(1, 3, 0, Some("rc.1"), None)));
    assert_eq!(full(1, 3, 0, Some("a"), Some("b")).with_pre_release("beta"), Some(full(1, 3, 0, Some("beta"), Some("b"))));
    assert_eq!(Version::new(1, 3, 0).with_pre_release(""), None);
    assert_eq!(Version::new(1, 3, 0).with_pre_release("rc..1"), None);
    assert_eq!(Version::new(1, 3, 0).with_pre_release("rc.01"), None);
    assert_eq!(Version::new(1, 3, 0).with_pre_release("rc+1"), None);
}

#[test]
fn bump_options() {
    let v = Version::new(9, 9, 9);
    assert_eq!(
        choose_target(Some(v.clone()), true, true, true, true),
        Some(Some(ManualTarget::Explicit(v)))
    );
    assert_eq!(choose_target(None, true, true, true, true), Some(None));
    assert_eq!(choose_target(None, false, true, true, true), Some(Some(ManualTarget::ForceMajor)));
    assert_eq!(choose_target(None, false, false, true, true), Some(Some(ManualTarget::ForceMinor)));
    assert_eq!(choose_target(None, false, false, false, true), Some(Some(ManualTarget::ForcePatch)));
    assert_eq!(choose_target(None, false, false, false, false), None);
}
