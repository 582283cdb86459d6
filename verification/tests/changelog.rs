use cog_core::arrange::arrange;
use cog_core::changelog::{
    assemble, assemble_release, by_time, ChangelogDocument, ChangelogRelease, ChangelogSection,
    ReleaseCommits,
};
use cog_core::commit::CommitRecord;
use cog_core::config::{builtin_types, type_table, CommitType};
use cog_core::order::order_newest_first;
use cog_core::render::{render, render_with, RenderError, TemplateFile, TemplateSelector};
use cog_core::template::{RemoteContext, Template};

fn commit(commit_type: &str, scope: Option<&str>, description: &str, breaking: bool, hash: &str, author: &str, time: i64) -> CommitRecord {
    CommitRecord {
        commit_type: commit_type.to_string(),
        scope: scope.map(|s| s.to_string()),
        description: description.to_string(),
        body: None,
        breaking,
        footers: Vec::new(),
        source_hash: hash.to_string(),
        author: author.to_string(),
        timestamp: time,
    }
}

fn release(label: &str, time: i64, commits: Vec<CommitRecord>) -> ReleaseCommits {
    ReleaseCommits { label: label.to_string(), timestamp: time, commits }
}

fn remote() -> RemoteContext {
    RemoteContext::new("github.com".to_string(), "cog".to_string(), "acme".to_string())
}

fn descriptions(cs: &[CommitRecord]) -> Vec<&str> {
    cs.iter().map(|c| c.description.as_str()).collect()
}

#[test]
fn order_is_newest_first_and_stable() {
    assert_eq!(order_newest_first(&vec![]), Vec::<usize>::new());
    assert_eq!(order_newest_first(&vec![5]), vec![0]);
    assert_eq!(order_newest_first(&vec![1, 2, 3]), vec![2, 1, 0]);
    assert_eq!(order_newest_first(&vec![3, 2, 1]), vec![0, 1, 2]);
    assert_eq!(order_newest_first(&vec![2, 7, 2, 9, 7, -1]), vec![3, 1, 4, 0, 2, 5]);
    assert_eq!(order_newest_first(&vec![4, 4, 4]), vec![0, 1, 2]);
    assert_eq!(order_newest_first(&vec![i64::MIN, i64::MAX, 0]), vec![1, 2, 0]);
}

#[test]
fn commits_by_time() {
    let cs = vec![
        commit("feat", None, "a", false, "1", "x", 10),
        commit("feat", None, "b", false, "2", "x", 30),
        commit("feat", None, "c", false, "3", "x", 10),
        commit("feat", None, "d", false, "4", "x", 20),
    ];
    assert_eq!(descriptions(&by_time(&cs)), vec!["b", "d", "a", "c"]);
}

#[test]
fn newer_feature_is_listed_first() {
    let t1 = 1_000;
    let t2 = 2_000;
    let input = release(
        "1.3.0",
        3_000,
        vec![
            commit("feat", None, "older feature", false, "aaaaaaaaaaaa", "Ada", t1),
            commit("feat", None, "newer feature", false, "bbbbbbbbbbbb", "Bob", t2),
        ],
    );
    let doc = assemble(&builtin_types(), &vec![input]);
    let text = render(&doc, &TemplateSelector::Default, None, &TemplateFile::NotRead).unwrap();
    assert_eq!(
        text,
        "## 1.3.0\n\n#### Features\n- newer feature - (bbbbbbb) - Bob\n- older feature - (aaaaaaa) - Ada\n\n"
    );
    let features = text.find("#### Features").unwrap();
    let newer = text.find("newer feature").unwrap();
    let older = text.find("older feature").unwrap();
    assert!(features < newer && newer < older);
}

#[test]
fn render_orders_a_document_built_by_hand() {
    let section = |t: &str, title: &str, commits: Vec<CommitRecord>| ChangelogSection {
        commit_type: t.to_string(),
        title: title.to_string(),
        commits,
    };
    let doc = ChangelogDocument {
        releases: vec![
            ChangelogRelease {
                label: "1.0.0".to_string(),
                timestamp: 100,
                breaking: None,
                sections: vec![section("fix", "Bug Fixes", vec![commit("fix", None, "f", false, "1", "x", 1)])],
            },
            ChangelogRelease {
                label: "2.0.0".to_string(),
                timestamp: 200,
                breaking: None,
                sections: vec![
                    section("wip", "Work", vec![commit("wip", None, "w", false, "2", "x", 1)]),
                    section("chore", "Miscellaneous Chores", vec![commit("chore", None, "c", false, "3", "x", 1)]),
                    section(
                        "feat",
                        "Features",
                        vec![
                            commit("feat", None, "t1", false, "4", "x", 1),
                            commit("feat", None, "t2", false, "5", "x", 2),
                        ],
                    ),
                ],
            },
        ],
    };
    let arranged = arrange(&doc);
    assert_eq!(arranged.releases[0].label, "2.0.0");
    assert_eq!(arranged.releases[1].label, "1.0.0");
    let types: Vec<&str> = arranged.releases[0].sections.iter().map(|s| s.commit_type.as_str()).collect();
    assert_eq!(types, vec!["feat", "chore", "wip"]);
    assert_eq!(descriptions(&arranged.releases[0].sections[0].commits), vec!["t2", "t1"]);
    let text = render(&doc, &TemplateSelector::Default, None, &TemplateFile::NotRead).unwrap();
    assert_eq!(
        text,
        "## 2.0.0\n\n#### Features\n- t2 - (5) - x\n- t1 - (4) - x\n\n#### Miscellaneous Chores\n- c - (3) - x\n\n#### Work\n- w - (2) - x\n\n## 1.0.0\n\n#### Bug Fixes\n- f - (1) - x\n\n"
    );
    let as_it_stands = render_with(&doc, &Template::standard(), None).unwrap();
    assert!(as_it_stands.starts_with("## 1.0.0\n"));
}

#[test]
fn sections_follow_the_table() {
    let input = release(
        "0.2.0",
        50,
        vec![
            commit("chore", None, "bump deps", false, "c1", "x", 1),
            commit("wip", None, "half done", false, "w1", "x", 2),
            commit("fix", Some("io"), "close file", false, "f1", "x", 3),
            commit("zzz", None, "unknown kind", false, "z1", "x", 4),
            commit("feat", None, "add flag", true, "e1", "x", 5),
            commit("perf", None, "faster", false, "b7", "x", 6),
            commit("fix", None, "off by one", true, "f2", "x", 7),
        ],
    );
    let table = type_table(&vec![CommitType::new("wip", "Work in progress")]);
    let r = assemble_release(&table, &input);
    let types: Vec<&str> = r.sections.iter().map(|s| s.commit_type.as_str()).collect();
    assert_eq!(types, vec!["feat", "fix", "perf", "chore", "wip", "zzz"]);
    let titles: Vec<&str> = r.sections.iter().map(|s| s.title.as_str()).collect();
    assert_eq!(
        titles,
        vec!["Features", "Bug Fixes", "Performance Improvements", "Miscellaneous Chores", "Work in progress", "zzz"]
    );
    assert_eq!(descriptions(&r.sections[1].commits), vec!["off by one", "close file"]);
    assert_eq!(descriptions(r.breaking.as_ref().unwrap()), vec!["off by one", "add flag"]);
    assert_eq!(r.label, "0.2.0");
    assert_eq!(r.timestamp, 50);
}

#[test]
fn declared_type_gives_a_builtin_a_new_title() {
    let table = type_table(&vec![CommitType::new("feat", "New")]);
    let input = release("1", 0, vec![commit("fix", None, "a", false, "1", "x", 1), commit("feat", None, "b", false, "2", "x", 1)]);
    let r = assemble_release(&table, &input);
    let titles: Vec<&str> = r.sections.iter().map(|s| s.title.as_str()).collect();
    assert_eq!(titles, vec!["New", "Bug Fixes"]);
}

#[test]
fn release_without_breaking_changes_has_none() {
    let input = release("1", 0, vec![commit("fix", None, "a", false, "1", "x", 1)]);
    assert_eq!(assemble_release(&builtin_types(), &input).breaking, None);
    let empty = assemble_release(&builtin_types(), &release("0", 0, Vec::new()));
    assert!(empty.sections.is_empty());
    assert_eq!(empty.breaking, None);
}

#[test]
fn releases_newest_first() {
    let inputs = vec![
        release("1.0.0", 100, vec![commit("fix", None, "a", false, "1", "x", 1)]),
        release("1.2.0", 300, vec![commit("feat", None, "b", false, "2", "x", 2)]),
        release("1.1.0", 200, Vec::new()),
    ];
    let doc = assemble(&builtin_types(), &inputs);
    let labels: Vec<&str> = doc.releases.iter().map(|r| r.label.as_str()).collect();
    assert_eq!(labels, vec!["1.2.0", "1.1.0", "1.0.0"]);
    let text = render(&doc, &TemplateSelector::Default, None, &TemplateFile::NotRead).unwrap();
    assert_eq!(
        text,
        "## 1.2.0\n\n#### Features\n- b - (2) - x\n\n## 1.1.0\n\n## 1.0.0\n\n#### Bug Fixes\n- a - (1) - x\n\n"
    );
}

#[test]
fn breaking_changes_come_first() {
    let input = release(
        "2.0.0",
        9,
        vec![
            commit("fix", Some("core"), "plain fix", false, "1111111111", "Ada", 1),
            commit("feat", Some("api"), "drop v1", true, "2222222222", "Bob", 2),
        ],
    );
    let doc = assemble(&builtin_types(), &vec![input]);
    let text = render(&doc, &TemplateSelector::Default, None, &TemplateFile::NotRead).unwrap();
    assert_eq!(
        text,
        "## 2.0.0\n\n#### Breaking Changes\n- **(api)** [**breaking**] drop v1 - (2222222) - Bob\n\n#### Features\n- **(api)** [**breaking**] drop v1 - (2222222) - Bob\n\n#### Bug Fixes\n- **(core)** plain fix - (1111111) - Ada\n\n"
    );
}

#[test]
fn full_hash_template() {
    let input = release("1", 0, vec![commit("fix", None, "a", false, "0123456789abcdef", "x", 1)]);
    let doc = assemble(&builtin_types(), &vec![input]);
    let text = render(&doc, &TemplateSelector::FullHash, None, &TemplateFile::NotRead).unwrap();
    assert_eq!(text, "## 1\n\n#### Bug Fixes\n- a - (0123456789abcdef) - x\n\n");
    let with_remote = render(&doc, &TemplateSelector::FullHash, Some(&remote()), &TemplateFile::NotRead).unwrap();
    assert_eq!(with_remote, text);
}

#[test]
fn remote_template_needs_a_remote() {
    let input = release("1.0.0", 0, vec![commit("fix", None, "a", false, "0123456789abcdef", "x", 1)]);
    let doc = assemble(&builtin_types(), &vec![input]);
    assert_eq!(
        render(&doc, &TemplateSelector::Remote, None, &TemplateFile::NotRead),
        Err(RenderError::MissingRemoteContext)
    );
    let empty = ChangelogDocument { releases: Vec::new() };
    assert_eq!(
        render(&empty, &TemplateSelector::Remote, None, &TemplateFile::NotRead),
        Err(RenderError::MissingRemoteContext)
    );
    let text = render(&doc, &TemplateSelector::Remote, Some(&remote()), &TemplateFile::NotRead).unwrap();
    assert_eq!(
        text,
        "## [1.0.0](https://github.com/acme/cog/releases/tag/1.0.0)\n\n#### Bug Fixes\n- a - ([0123456](https://github.com/acme/cog/commit/0123456789abcdef)) - x\n\n"
    );
}

#[test]
fn empty_document_renders_empty() {
    let empty = ChangelogDocument { releases: Vec::new() };
    assert_eq!(render(&empty, &TemplateSelector::Default, None, &TemplateFile::NotRead), Ok(String::new()));
}

#[test]
fn custom_template() {
    let input = release(
        "1.0.0",
        -42,
        vec![commit("fix", Some("io"), "a", true, "0123456789", "Ada", 1)],
    );
    let doc = assemble(&builtin_types(), &vec![input]);
    let custom = TemplateSelector::Custom("my.tpl".to_string());
    let source = "# {{version}} at {{ timestamp }}\n== {{title}} of {{version}}\n* {{type}}{{scope}}: {{description}} by {{author}} [{{hash}}|{{short_hash}}] {{breaking}}\n";
    let text = render(&doc, &custom, None, &TemplateFile::Content(source.to_string())).unwrap();
    assert_eq!(
        text,
        "# 1.0.0 at -42\n\n== Breaking Changes of 1.0.0\n* fix**(io)** : a by Ada [0123456789|0123456] [**breaking**] \n\n== Bug Fixes of 1.0.0\n* fix**(io)** : a by Ada [0123456789|0123456] [**breaking**] \n\n"
    );
}

#[test]
fn custom_template_with_links_needs_a_remote() {
    let doc = assemble(&builtin_types(), &vec![release("1", 0, Vec::new())]);
    let custom = TemplateSelector::Custom("links.tpl".to_string());
    let file = TemplateFile::Content("{{version_link}}\n{{title}}\n{{commit_link}}".to_string());
    assert_eq!(render(&doc, &custom, None, &file), Err(RenderError::MissingRemoteContext));
    assert_eq!(
        render(&doc, &custom, Some(&remote()), &file),
        Ok("[1](https://github.com/acme/cog/releases/tag/1)\n\n".to_string())
    );
}

#[test]
fn custom_template_errors() {
    let doc = assemble(&builtin_types(), &vec![release("1", 0, Vec::new())]);
    let custom = TemplateSelector::Custom("t.tpl".to_string());
    assert_eq!(
        render(&doc, &custom, None, &TemplateFile::Unreadable("No such file or directory".to_string())),
        Err(RenderError::TemplateError("No such file or directory".to_string()))
    );
    assert_eq!(
        render(&doc, &custom, None, &TemplateFile::NotRead),
        Err(RenderError::TemplateError("the template file was not read".to_string()))
    );
    let broken = |source: &str| match render(&doc, &custom, None, &TemplateFile::Content(source.to_string())) {
        Err(RenderError::TemplateError(reason)) => reason,
        other => panic!("{:?}", other),
    };
    assert!(broken("one line").contains("three lines"));
    assert!(broken("a\nb\nc\nd").contains("three lines"));
    assert!(broken("{{version\nb\nc").contains("not closed"));
    assert!(broken("{{nonsense}}\nb\nc").contains("not a field"));
    assert!(broken("{{author}}\nb\nc").contains("no value"));
    assert!(broken("a\n{{hash}}\nc").contains("no value"));
    // a selector that needs no file does not look at it
    assert!(render(&doc, &TemplateSelector::Default, None, &TemplateFile::Unreadable("x".to_string())).is_ok());
}

#[test]
fn selector_from_argument() {
    assert_eq!(TemplateSelector::from_arg("default"), TemplateSelector::Default);
    assert_eq!(TemplateSelector::from_arg("full_hash"), TemplateSelector::FullHash);
    assert_eq!(TemplateSelector::from_arg("remote"), TemplateSelector::Remote);
    assert_eq!(TemplateSelector::from_arg("my/own.tpl"), TemplateSelector::Custom("my/own.tpl".to_string()));
    assert_eq!(TemplateSelector::from_arg("Default"), TemplateSelector::Custom("Default".to_string()));
    assert_eq!(TemplateSelector::from_arg("my/own.tpl").file_path(), Some(&"my/own.tpl".to_string()));
    assert_eq!(TemplateSelector::Remote.file_path(), None);
}

#[test]
fn rendering_twice_gives_the_same() {
    let input = release("1", 5, vec![commit("fix", None, "a", false, "1", "x", 1), commit("feat", None, "b", true, "2", "y", 1)]);
    let doc = assemble(&builtin_types(), &vec![input]);
    let one = render(&doc, &TemplateSelector::Remote, Some(&remote()), &TemplateFile::NotRead);
    let two = render(&doc, &TemplateSelector::Remote, Some(&remote()), &TemplateFile::NotRead);
    assert_eq!(one, two);
}

#[test]
fn render_collects_breaking_changes_itself() {
    let doc = ChangelogDocument {
        releases: vec![ChangelogRelease {
            label: "3.0.0".to_string(),
            timestamp: 1,
            breaking: None,
            sections: vec![
                ChangelogSection {
                    commit_type: "fix".to_string(),
                    title: "Bug Fixes".to_string(),
                    commits: vec![
                        commit("fix", None, "quiet", false, "1", "x", 5),
                        commit("fix", None, "loud", true, "2", "x", 6),
                    ],
                },
                ChangelogSection {
                    commit_type: "feat".to_string(),
                    title: "Features".to_string(),
                    commits: vec![commit("feat", None, "new", true, "3", "x", 7)],
                },
            ],
        }],
    };
    let arranged = arrange(&doc);
    assert_eq!(descriptions(arranged.releases[0].breaking.as_ref().unwrap()), vec!["new", "loud"]);
    let text = render(&doc, &TemplateSelector::Default, None, &TemplateFile::NotRead).unwrap();
    assert_eq!(
        text,
        "## 3.0.0\n\n#### Breaking Changes\n- [**breaking**] new - (3) - x\n- [**breaking**] loud - (2) - x\n\n#### Features\n- [**breaking**] new - (3) - x\n\n#### Bug Fixes\n- [**breaking**] loud - (2) - x\n- quiet - (1) - x\n\n"
    );
    // what the document held for the breaking changes is not taken over
    let mut stale = doc.clone();
    stale.releases[0].breaking = Some(vec![commit("docs", None, "stale", false, "9", "x", 9)]);
    assert_eq!(render(&stale, &TemplateSelector::Default, None, &TemplateFile::NotRead).unwrap(), text);
    // an assembled document is in order already
    let assembled = assemble(&builtin_types(), &vec![release("1", 0, vec![
        commit("fix", None, "a", true, "1", "x", 5),
        commit("feat", None, "b", true, "2", "x", 5),
        commit("wip", None, "c", false, "3", "x", 9),
    ])]);
    assert_eq!(arrange(&assembled), assembled);
}
