use cog_core::commit::CommitRecord;
use cog_core::parser::parse;
use cog_core::version::{
    detect_increment, next_version, Increment, ManualTarget, Version, VersionError,
    VersionIncrementDecision,
};

fn types() -> Vec<String> {
    ["feat", "fix", "chore", "docs", "style", "refactor", "perf", "test", "build", "ci", "revert"]
        .iter()
        .map(|t| t.to_string())
        .collect()
}

fn record(message: &str) -> CommitRecord {
    let m = parse(message, &types()).unwrap();
    CommitRecord {
        commit_type: m.commit_type,
        scope: m.scope,
        description: m.description,
        body: m.body,
        breaking: m.breaking,
        footers: m.footers,
        source_hash: String::new(),
        author: String::new(),
        timestamp: 0,
    }
}

fn records(messages: &[&str]) -> Vec<CommitRecord> {
    messages.iter().map(|m| record(m)).collect()
}

fn bump(major: u64, minor: u64, patch: u64) -> Result<VersionIncrementDecision, VersionError> {
    Ok(VersionIncrementDecision::Bump(Version::new(major, minor, patch)))
}

#[test]
fn fix_and_feat_give_minor() {
    let rs = records(&["fix: correct off-by-one", "feat: add config option"]);
    assert_eq!(next_version(&Version::new(1, 2, 3), &rs, None), bump(1, 3, 0));
    let rs = records(&["feat: add config option", "fix: correct off-by-one"]);
    assert_eq!(next_version(&Version::new(1, 2, 3), &rs, None), bump(1, 3, 0));
}

#[test]
fn breaking_feat_gives_major() {
    let rs = records(&["feat!: drop support for v1 API"]);
    assert_eq!(next_version(&Version::new(1, 2, 3), &rs, None), bump(2, 0, 0));
}

#[test]
fn chore_gives_no_bump() {
    let rs = records(&["chore: update deps"]);
    assert_eq!(
        next_version(&Version::new(1, 2, 3), &rs, None),
        Ok(VersionIncrementDecision::NoApplicableCommits)
    );
}

#[test]
fn empty_set_gives_no_bump() {
    assert_eq!(
        next_version(&Version::new(1, 2, 3), &Vec::new(), None),
        Ok(VersionIncrementDecision::NoApplicableCommits)
    );
}

#[test]
fn fix_or_perf_gives_patch() {
    assert_eq!(next_version(&Version::new(1, 2, 3), &records(&["fix: a"]), None), bump(1, 2, 4));
    assert_eq!(next_version(&Version::new(1, 2, 3), &records(&["perf: a"]), None), bump(1, 2, 4));
    assert_eq!(
        next_version(&Version::new(0, 0, 0), &records(&["docs: a", "perf: b", "ci: c"]), None),
        bump(0, 0, 1)
    );
}

#[test]
fn breaking_of_any_type_gives_major() {
    let rs = records(&["feat: a", "fix: b", "chore!: c"]);
    assert_eq!(next_version(&Version::new(1, 2, 3), &rs, None), bump(2, 0, 0));
    let rs = records(&["docs: a\n\nBREAKING CHANGE: b", "feat: c"]);
    assert_eq!(next_version(&Version::new(4, 5, 6), &rs, None), bump(5, 0, 0));
}

#[test]
fn breaking_from_zero_goes_to_one() {
    let rs = records(&["fix!: a"]);
    assert_eq!(next_version(&Version::new(0, 4, 1), &rs, None), bump(1, 0, 0));
}

#[test]
fn other_types_give_no_bump() {
    let rs = records(&["docs: a", "style: b", "refactor: c", "test: d", "build: e", "ci: f", "revert: g"]);
    assert_eq!(
        next_version(&Version::new(1, 2, 3), &rs, None),
        Ok(VersionIncrementDecision::NoApplicableCommits)
    );
    assert_eq!(detect_increment(&rs), None);
}

#[test]
fn bump_drops_pre_release_and_build() {
    let cur = Version {
        major: 1,
        minor: 2,
        patch: 3,
        pre: Some("rc.1".to_string()),
        build: Some("abc".to_string()),
    };
    assert_eq!(next_version(&cur, &records(&["fix: a"]), None), bump(1, 2, 4));
    assert_eq!(next_version(&cur, &Vec::new(), Some(ManualTarget::ForceMinor)), bump(1, 3, 0));
}

#[test]
fn manual_target_decides_alone() {
    let rs = records(&["feat!: a"]);
    let cur = Version::new(1, 2, 3);
    assert_eq!(next_version(&cur, &rs, Some(ManualTarget::ForcePatch)), bump(1, 2, 4));
    assert_eq!(next_version(&cur, &rs, Some(ManualTarget::ForceMinor)), bump(1, 3, 0));
    assert_eq!(next_version(&cur, &Vec::new(), Some(ManualTarget::ForceMajor)), bump(2, 0, 0));
    let explicit = Version {
        major: 0,
        minor: 1,
        patch: 0,
        pre: Some("alpha".to_string()),
        build: Some("7".to_string()),
    };
    assert_eq!(
        next_version(&cur, &rs, Some(ManualTarget::Explicit(explicit.clone()))),
        Ok(VersionIncrementDecision::Bump(explicit))
    );
}

#[test]
fn overflow_is_an_error() {
    let top = u64::MAX;
    assert_eq!(
        next_version(&Version::new(top, 0, 0), &records(&["feat!: a"]), None),
        Err(VersionError::NumericOverflow)
    );
    assert_eq!(
        next_version(&Version::new(1, top, 0), &records(&["feat: a"]), None),
        Err(VersionError::NumericOverflow)
    );
    assert_eq!(
        next_version(&Version::new(1, 2, top), &Vec::new(), Some(ManualTarget::ForcePatch)),
        Err(VersionError::NumericOverflow)
    );
    assert_eq!(next_version(&Version::new(top, top, top - 1), &records(&["fix: a"]), None), bump(top, top, top));
    assert_eq!(Version::new(top, 1, 1).raise(Increment::Minor), Ok(Version::new(top, 2, 0)));
}

#[test]
fn same_input_same_decision() {
    let rs = records(&["fix: a", "feat: b"]);
    let cur = Version::new(3, 1, 4);
    assert_eq!(next_version(&cur, &rs, None), next_version(&cur, &rs, None));
}

#[test]
fn version_text() {
    assert_eq!(Version::new(1, 2, 3).to_text(), "1.2.3");
    assert_eq!(Version::new(0, 0, 0).to_text(), "0.0.0");
    assert_eq!(Version::new(10, 200, 3405).to_text(), "10.200.3405");
    assert_eq!(
        Version::new(u64::MAX, 9, 10).to_text(),
        "18446744073709551615.9.10"
    );
    let v = Version {
        major: 1,
        minor: 0,
        patch: 0,
        pre: Some("rc.1".to_string()),
        build: Some("build.5".to_string()),
    };
    assert_eq!(v.to_text(), "1.0.0-rc.1+build.5");
    let v = Version { major: 1, minor: 0, patch: 0, pre: None, build: Some("x".to_string()) };
    assert_eq!(v.to_text(), "1.0.0+x");
}
