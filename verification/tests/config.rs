use cog_core::commit::{CommitRecord, RawCommit, ViolationReason};
use cog_core::config::{builtin_types, title_for, type_names, CommitType, Config};
use cog_core::parser::{parse, parse_all, Message};
use cog_core::render::TemplateSelector;

#[test]
fn builtin_table_in_order() {
    let names = type_names(&builtin_types());
    assert_eq!(
        names,
        vec!["feat", "fix", "perf", "revert", "docs", "style", "refactor", "test", "build", "ci", "chore"]
    );
    let c = Config::standard();
    assert_eq!(c.recognized_types(), names);
    assert_eq!(c.default_template, TemplateSelector::Default);
}

#[test]
fn declared_types_extend_the_table() {
    let c = Config::new(
        &vec![CommitType::new("wip", "Work"), CommitType::new("fix", "Repairs")],
        TemplateSelector::FullHash,
    );
    let names = c.recognized_types();
    assert_eq!(names.len(), 13);
    assert_eq!(names[11], "wip");
    assert_eq!(names[12], "fix");
    assert_eq!(title_for(&c.types, &"wip".to_string()), "Work");
    assert_eq!(title_for(&c.types, &"fix".to_string()), "Repairs");
    assert_eq!(title_for(&c.types, &"feat".to_string()), "Features");
    assert_eq!(title_for(&c.types, &"other".to_string()), "other");
    assert!(parse("wip: x", &names).is_ok());
    assert_eq!(parse("wip: x", &Config::standard().recognized_types()), Err(ViolationReason::UnknownType));
}

#[test]
fn requested_template_goes_before_the_configured_one() {
    let c = Config::new(&Vec::new(), TemplateSelector::Custom("house.tpl".to_string()));
    assert_eq!(c.template_or_default(None), TemplateSelector::Custom("house.tpl".to_string()));
    assert_eq!(c.template_or_default(Some(TemplateSelector::Remote)), TemplateSelector::Remote);
}

fn raw(message: &str, hash: &str, time: i64) -> RawCommit {
    RawCommit {
        message: message.to_string(),
        source_hash: hash.to_string(),
        author: "someone".to_string(),
        timestamp: time,
    }
}

#[test]
fn batch_keeps_order_and_never_stops() {
    let raws = vec![
        raw("feat: one", "h1", 1),
        raw("not conventional", "h2", 2),
        raw("fix(x): two", "h3", 3),
        raw("feat(): empty", "h4", 4),
        raw("what: ever", "h5", 5),
        raw("docs:", "h6", 6),
        raw("chore: three", "h7", 7),
    ];
    let report = parse_all(&raws, &Config::standard().recognized_types());
    let hashes: Vec<&str> = report.records.iter().map(|r| r.source_hash.as_str()).collect();
    assert_eq!(hashes, vec!["h1", "h3", "h7"]);
    let bad: Vec<(&str, ViolationReason)> =
        report.violations.iter().map(|v| (v.source_hash.as_str(), v.reason)).collect();
    assert_eq!(
        bad,
        vec![
            ("h2", ViolationReason::MalformedHeader),
            ("h4", ViolationReason::EmptyScope),
            ("h5", ViolationReason::UnknownType),
            ("h6", ViolationReason::MissingDescription),
        ]
    );
    assert_eq!(report.violations[0].raw_message, "not conventional");
    let empty = parse_all(&Vec::new(), &Config::standard().recognized_types());
    assert!(empty.records.is_empty() && empty.violations.is_empty());
}

fn message(commit_type: &str, scope: Option<&str>, description: &str, breaking: bool) -> Message {
    Message {
        commit_type: commit_type.to_string(),
        scope: scope.map(|s| s.to_string()),
        description: description.to_string(),
        body: None,
        breaking,
        footers: Vec::new(),
    }
}

#[test]
fn header_text() {
    assert_eq!(message("feat", None, "add it", false).header(), "feat: add it");
    assert_eq!(message("feat", Some("cli"), "add it", false).header(), "feat(cli): add it");
    assert_eq!(message("fix", None, "mend it", true).header(), "fix!: mend it");
    assert_eq!(message("fix", Some("a b"), "mend it", true).header(), "fix(a b)!: mend it");
}

#[test]
fn header_round_trip() {
    let types = Config::standard().recognized_types();
    for m in [
        message("feat", None, "add it", false),
        message("feat", Some("cli"), "add: it (now)!", false),
        message("fix", None, "x", true),
        message("perf", Some("a(b: c!"), "d  e", true),
    ] {
        assert_eq!(parse(&m.header(), &types), Ok(m.clone()));
    }
    // a message that parsing gave, written and parsed again, loses only body and footers
    let parsed = parse("fix(io)!: close\n\nbody\n\nRefs #3", &types).unwrap();
    let again = parse(&parsed.header(), &types).unwrap();
    assert_eq!(again.commit_type, parsed.commit_type);
    assert_eq!(again.scope, parsed.scope);
    assert_eq!(again.description, parsed.description);
    assert_eq!(again.breaking, parsed.breaking);
    assert_eq!(again.body, None);
    assert!(again.footers.is_empty());
    let footer_only = parse("fix: close\n\nBREAKING CHANGE: gone", &types).unwrap();
    assert_eq!(footer_only.header(), "fix!: close");
}

#[test]
fn whole_message_text() {
    let types = Config::standard().recognized_types();
    let mut m = message("feat", Some("api"), "add it", false);
    assert_eq!(m.to_text(), "feat(api): add it");
    m.body = Some("A body\nof two lines.".to_string());
    assert_eq!(m.to_text(), "feat(api): add it\n\nA body\nof two lines.");
    m.footers = vec![
        cog_core::commit::Footer { token: "Signed-off-by".to_string(), value: "Z".to_string() },
        cog_core::commit::Footer { token: "BREAKING CHANGE".to_string(), value: "all of it".to_string() },
    ];
    assert_eq!(
        m.to_text(),
        "feat(api): add it\n\nA body\nof two lines.\n\nSigned-off-by: Z\nBREAKING CHANGE: all of it"
    );
    let parsed = parse(&m.to_text(), &types).unwrap();
    assert!(parsed.breaking);
    assert_eq!(parsed.body, m.body);
    assert_eq!(parsed.footers, m.footers);
    m.body = None;
    assert_eq!(m.to_text(), "feat(api): add it\n\nSigned-off-by: Z\nBREAKING CHANGE: all of it");
}

#[test]
fn record_copy_is_equal() {
    let r = CommitRecord {
        commit_type: "fix".to_string(),
        scope: Some("a".to_string()),
        description: "b".to_string(),
        body: Some("c".to_string()),
        breaking: true,
        footers: vec![cog_core::commit::Footer { token: "T".to_string(), value: "v".to_string() }],
        source_hash: "h".to_string(),
        author: "me".to_string(),
        timestamp: -1,
    };
    assert_eq!(r.duplicate(), r);
}

#[test]
fn violation_entry() {
    let v = cog_core::commit::CommitViolation {
        source_hash: "abc123".to_string(),
        raw_message: "Merge branch 'x'\n\ninto y".to_string(),
        reason: ViolationReason::MalformedHeader,
    };
    assert_eq!(
        v.describe(),
        "abc123 MalformedHeader: the first line is not of the form `type(scope)!: description`\n    Merge branch 'x'"
    );
}

#[test]
fn log_line_of_a_record() {
    let types = Config::standard().recognized_types();
    let r = cog_core::parser::parse_commit(&raw("fix(io)!: close the file\n\nbody", "abc123", 7), &types).unwrap();
    assert_eq!(r.log_line(), "abc123 fix(io)!: close the file - someone");
    let r = cog_core::parser::parse_commit(&raw("docs: explain", "d0c", 7), &types).unwrap();
    assert_eq!(r.log_line(), "d0c docs: explain - someone");
}

#[test]
fn strict_and_tolerant_passes() {
    let types = Config::standard().recognized_types();
    let raws = vec![raw("feat: one", "h1", 1), raw("nope", "h2", 2), raw("fix: two", "h3", 3)];
    let strict = parse_all(&raws, &types).conclude(false).unwrap_err();
    assert_eq!(strict.len(), 1);
    assert_eq!(strict[0].source_hash, "h2");
    let tolerant = parse_all(&raws, &types).conclude(true).unwrap();
    assert_eq!(tolerant.len(), 2);
    let clean = parse_all(&raws[..1].to_vec(), &types).conclude(false).unwrap();
    assert_eq!(clean.len(), 1);
    assert_eq!(parse_all(&Vec::new(), &types).conclude(false), Ok(Vec::new()));
}
