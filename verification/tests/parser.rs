use cog_core::commit::{CommitViolation, Footer, RawCommit, ViolationReason};
use cog_core::parser::{parse, parse_commit, Message};

fn types() -> Vec<String> {
    ["feat", "fix", "chore", "docs", "style", "refactor", "perf", "test", "build", "ci", "revert"]
        .iter()
        .map(|t| t.to_string())
        .collect()
}

fn ok(message: &str) -> Message {
    match parse(message, &types()) {
        Ok(m) => m,
        Err(e) => panic!("{:?} for {:?}", e, message),
    }
}

fn err(message: &str) -> ViolationReason {
    match parse(message, &types()) {
        Ok(m) => panic!("{:?} for {:?}", m, message),
        Err(e) => e,
    }
}

#[test]
fn header_with_scope() {
    let m = ok("feat(parser): support nested scopes");
    assert_eq!(m.commit_type, "feat");
    assert_eq!(m.scope, Some("parser".to_string()));
    assert!(!m.breaking);
    assert_eq!(m.description, "support nested scopes");
    assert_eq!(m.body, None);
    assert!(m.footers.is_empty());
}

#[test]
fn breaking_change_footer_sets_breaking() {
    let m = ok("fix: something\n\nBREAKING CHANGE: removes old field");
    assert_eq!(m.commit_type, "fix");
    assert_eq!(m.scope, None);
    assert!(m.breaking);
    assert_eq!(m.description, "something");
    assert_eq!(m.body, None);
    assert_eq!(
        m.footers,
        vec![Footer { token: "BREAKING CHANGE".to_string(), value: "removes old field".to_string() }]
    );
}

#[test]
fn bang_sets_breaking() {
    let m = ok("feat!: drop support for v1 API");
    assert!(m.breaking);
    assert_eq!(m.commit_type, "feat");
    assert_eq!(m.description, "drop support for v1 API");
    let m = ok("feat(api)!: drop it");
    assert!(m.breaking);
    assert_eq!(m.scope, Some("api".to_string()));
}

#[test]
fn bang_and_footer_together() {
    let m = ok("refactor!: new layout\n\nBREAKING-CHANGE: paths moved");
    assert!(m.breaking);
    assert_eq!(m.footers.len(), 1);
    assert_eq!(m.footers[0].token, "BREAKING-CHANGE");
    assert_eq!(m.footers[0].value, "paths moved");
}

#[test]
fn breaking_token_followed_by_space() {
    let m = ok("fix: a\n\nBREAKING CHANGE the old field is gone");
    assert!(m.breaking);
    assert_eq!(m.footers[0].token, "BREAKING CHANGE");
    assert_eq!(m.footers[0].value, "the old field is gone");
}

#[test]
fn near_miss_of_breaking_token_does_not_break() {
    let m = ok("fix: a\n\nBREAKING CHANGES: none really");
    assert!(!m.breaking);
    assert!(m.footers.is_empty());
    assert_eq!(m.body, Some("BREAKING CHANGES: none really".to_string()));
    let m = ok("fix: a\n\nbreaking change: lower case");
    assert!(!m.breaking);
}

#[test]
fn unknown_type() {
    assert_eq!(err("wip: something"), ViolationReason::UnknownType);
    assert_eq!(err("Feat: case matters"), ViolationReason::UnknownType);
    assert_eq!(err("feature(x): y"), ViolationReason::UnknownType);
}

#[test]
fn empty_scope() {
    assert_eq!(err("feat(): nothing between"), ViolationReason::EmptyScope);
    assert_eq!(err("fix()!: nothing between"), ViolationReason::EmptyScope);
}

#[test]
fn missing_description() {
    assert_eq!(err("feat:"), ViolationReason::MissingDescription);
    assert_eq!(err("feat: "), ViolationReason::MissingDescription);
    assert_eq!(err("feat:  \t "), ViolationReason::MissingDescription);
    assert_eq!(err("feat(scope): \nbody"), ViolationReason::MissingDescription);
}

#[test]
fn malformed_header() {
    assert_eq!(err(""), ViolationReason::MalformedHeader);
    assert_eq!(err("no colon here"), ViolationReason::MalformedHeader);
    assert_eq!(err(": no type"), ViolationReason::MalformedHeader);
    assert_eq!(err("feat add: space in type"), ViolationReason::MalformedHeader);
    assert_eq!(err("feat(open: never closed"), ViolationReason::MalformedHeader);
    assert_eq!(err("feat(a)b: text after scope"), ViolationReason::MalformedHeader);
    assert_eq!(err("feat:no space"), ViolationReason::MalformedHeader);
    assert_eq!(err("feat\n: colon on the second line"), ViolationReason::MalformedHeader);
    assert_eq!(err("feat!!: two marks"), ViolationReason::MalformedHeader);
}

#[test]
fn shape_is_checked_before_type() {
    assert_eq!(err("wip add: space in type"), ViolationReason::MalformedHeader);
    assert_eq!(err("wip(): x"), ViolationReason::UnknownType);
    assert_eq!(err("wip:"), ViolationReason::UnknownType);
    assert_eq!(err("feat():"), ViolationReason::EmptyScope);
}

#[test]
fn description_is_trimmed() {
    let m = ok("fix:   spaced out  \t\r\nnext line");
    assert_eq!(m.description, "spaced out");
}

#[test]
fn scope_may_hold_a_colon() {
    let m = ok("feat(a:b): c");
    assert_eq!(m.scope, Some("a:b".to_string()));
    assert_eq!(m.description, "c");
}

#[test]
fn body_and_footers() {
    let m = ok("fix(core): handle empty input\n\nThe parser used to\nfail on it.\n\nSigned-off-by: Z\nRefs #133\n");
    assert_eq!(m.body, Some("The parser used to\nfail on it.".to_string()));
    assert_eq!(
        m.footers,
        vec![
            Footer { token: "Signed-off-by".to_string(), value: "Z".to_string() },
            Footer { token: "Refs".to_string(), value: "133".to_string() },
        ]
    );
    assert!(!m.breaking);
}

#[test]
fn footer_value_runs_to_next_footer() {
    let m = ok("feat: x\n\nBREAKING CHANGE: first line\nsecond line\n\nAcked-by: someone");
    assert_eq!(m.footers.len(), 2);
    assert_eq!(m.footers[0].value, "first line\nsecond line");
    assert_eq!(m.footers[1].token, "Acked-by");
    assert_eq!(m.footers[1].value, "someone");
    assert_eq!(m.body, None);
}

#[test]
fn body_without_footers() {
    let m = ok("docs: explain\n\n  just a body  \n");
    assert_eq!(m.body, Some("just a body".to_string()));
    assert!(m.footers.is_empty());
}

#[test]
fn non_ascii_text() {
    let m = ok("feat(café): añade «señal» ✓\n\nCorps du méssage\n\nRefs #9");
    assert_eq!(m.scope, Some("café".to_string()));
    assert_eq!(m.description, "añade «señal» ✓");
    assert_eq!(m.body, Some("Corps du méssage".to_string()));
    assert_eq!(m.footers[0].value, "9");
}

#[test]
fn custom_type_is_recognized_when_listed() {
    let mut ts = types();
    assert_eq!(parse("wip: x", &ts).unwrap_err(), ViolationReason::UnknownType);
    ts.push("wip".to_string());
    assert_eq!(parse("wip: x", &ts).unwrap().commit_type, "wip");
    assert_eq!(parse("feat: x", &Vec::new()).unwrap_err(), ViolationReason::UnknownType);
}

#[test]
fn parsing_twice_gives_the_same() {
    let text = "feat(a)!: b\n\nbody\n\nRefs #1";
    assert_eq!(parse(text, &types()), parse(text, &types()));
    let mut reversed = types();
    reversed.reverse();
    assert_eq!(parse(text, &types()), parse(text, &reversed));
}

#[test]
fn record_keeps_provenance() {
    let raw = RawCommit {
        message: "perf(db): cache lookups".to_string(),
        source_hash: "0123456789abcdef".to_string(),
        author: "Ada".to_string(),
        timestamp: 1_600_000_000,
    };
    let r = parse_commit(&raw, &types()).unwrap();
    assert_eq!(r.commit_type, "perf");
    assert_eq!(r.scope, Some("db".to_string()));
    assert_eq!(r.description, "cache lookups");
    assert_eq!(r.source_hash, "0123456789abcdef");
    assert_eq!(r.author, "Ada");
    assert_eq!(r.timestamp, 1_600_000_000);
}

#[test]
fn violation_keeps_hash_and_message() {
    let raw = RawCommit {
        message: "Merge branch 'main'".to_string(),
        source_hash: "deadbeef".to_string(),
        author: "Bob".to_string(),
        timestamp: -5,
    };
    assert_eq!(
        parse_commit(&raw, &types()),
        Err(CommitViolation {
            source_hash: "deadbeef".to_string(),
            raw_message: "Merge branch 'main'".to_string(),
            reason: ViolationReason::MalformedHeader,
        })
    );
}

#[test]
fn reason_codes() {
    assert_eq!(ViolationReason::UnknownType.code(), "UnknownType");
    assert_eq!(ViolationReason::EmptyScope.code(), "EmptyScope");
    assert_eq!(ViolationReason::MissingDescription.code(), "MissingDescription");
    assert_eq!(ViolationReason::MalformedHeader.code(), "MalformedHeader");
    assert!(ViolationReason::EmptyScope.detail().contains("scope"));
}
