use cog_core::commit::CommitRecord;
use cog_core::filter::{conditions, filter, suppresses_errors, FilterPredicate};

fn record(commit_type: &str, scope: Option<&str>, author: &str, breaking: bool, n: i64) -> CommitRecord {
    CommitRecord {
        commit_type: commit_type.to_string(),
        scope: scope.map(|s| s.to_string()),
        description: format!("change {}", n),
        body: None,
        breaking,
        footers: Vec::new(),
        source_hash: format!("{:040x}", n),
        author: author.to_string(),
        timestamp: n,
    }
}

fn sample() -> Vec<CommitRecord> {
    vec![
        record("feat", Some("api"), "ada", false, 1),
        record("fix", None, "bob", false, 2),
        record("feat", Some("cli"), "bob", true, 3),
        record("docs", Some("api"), "ada", false, 4),
        record("fix", Some("api"), "cy", true, 5),
    ]
}

fn names(ns: &[&str]) -> Vec<String> {
    ns.iter().map(|n| n.to_string()).collect()
}

fn times(rs: &[CommitRecord]) -> Vec<i64> {
    rs.iter().map(|r| r.timestamp).collect()
}

#[test]
fn no_predicate_keeps_everything() {
    let rs = sample();
    assert_eq!(filter(&rs, &Vec::new()), rs);
    assert_eq!(filter(&Vec::new(), &Vec::new()), Vec::new());
}

#[test]
fn type_predicate_is_an_alternative() {
    let rs = sample();
    let kept = filter(&rs, &vec![FilterPredicate::TypeIs(names(&["feat", "docs"]))]);
    assert_eq!(times(&kept), vec![1, 3, 4]);
    let kept = filter(&rs, &vec![FilterPredicate::TypeIs(names(&[]))]);
    assert!(kept.is_empty());
}

#[test]
fn scope_predicate_needs_a_scope() {
    let rs = sample();
    let kept = filter(&rs, &vec![FilterPredicate::ScopeIs(names(&["api"]))]);
    assert_eq!(times(&kept), vec![1, 4, 5]);
    let kept = filter(&rs, &vec![FilterPredicate::ScopeIs(names(&[""]))]);
    assert!(kept.is_empty());
}

#[test]
fn author_predicate() {
    let rs = sample();
    let kept = filter(&rs, &vec![FilterPredicate::AuthorIs(names(&["bob", "cy"]))]);
    assert_eq!(times(&kept), vec![2, 3, 5]);
}

#[test]
fn breaking_predicate() {
    let rs = sample();
    let kept = filter(&rs, &vec![FilterPredicate::IsBreaking]);
    assert_eq!(times(&kept), vec![3, 5]);
}

#[test]
fn predicates_hold_together() {
    let rs = sample();
    let ps = vec![
        FilterPredicate::TypeIs(names(&["feat", "fix"])),
        FilterPredicate::ScopeIs(names(&["api"])),
        FilterPredicate::IsBreaking,
    ];
    assert_eq!(times(&filter(&rs, &ps)), vec![5]);
    let ps = vec![
        FilterPredicate::TypeIs(names(&["feat"])),
        FilterPredicate::TypeIs(names(&["fix"])),
    ];
    assert!(filter(&rs, &ps).is_empty());
}

#[test]
fn suppress_errors_is_no_condition_on_commits() {
    let rs = sample();
    assert_eq!(filter(&rs, &vec![FilterPredicate::SuppressErrors]), rs);
    let ps = vec![FilterPredicate::SuppressErrors, FilterPredicate::IsBreaking];
    assert_eq!(times(&filter(&rs, &ps)), vec![3, 5]);
    assert!(suppresses_errors(&ps));
    assert!(!suppresses_errors(&vec![FilterPredicate::IsBreaking]));
    assert!(!suppresses_errors(&Vec::new()));
}

#[test]
fn kept_commits_are_unchanged_and_in_order() {
    let rs = sample();
    let kept = filter(&rs, &vec![FilterPredicate::AuthorIs(names(&["ada"]))]);
    assert_eq!(kept, vec![rs[0].clone(), rs[3].clone()]);
}

#[test]
fn conditions_from_options() {
    assert_eq!(conditions(None, None, None, false, false), Vec::new());
    assert_eq!(
        conditions(Some(names(&["feat", "fix"])), Some(names(&["api"])), Some(names(&["ada"])), true, true),
        vec![
            FilterPredicate::TypeIs(names(&["feat", "fix"])),
            FilterPredicate::ScopeIs(names(&["api"])),
            FilterPredicate::AuthorIs(names(&["ada"])),
            FilterPredicate::IsBreaking,
            FilterPredicate::SuppressErrors,
        ]
    );
    assert_eq!(
        conditions(None, Some(names(&["cli"])), None, false, true),
        vec![FilterPredicate::ScopeIs(names(&["cli"])), FilterPredicate::SuppressErrors]
    );
    let rs = sample();
    let ps = conditions(Some(names(&["feat"])), None, Some(names(&["bob"])), false, false);
    assert_eq!(times(&filter(&rs, &ps)), vec![3]);
}
