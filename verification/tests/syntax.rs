use cog_core::syntax::TemplateFault;
use cog_core::template::{Field, Piece, Template};

fn text(t: &str) -> Piece {
    Piece::Text(t.to_string())
}

#[test]
fn compile_three_lines() {
    let t = Template::compile("## {{version}}\n#### {{title}}\n- {{description}} ({{ short_hash }})").unwrap();
    assert_eq!(t.release, vec![text("## "), Piece::Field(Field::Version)]);
    assert_eq!(t.section, vec![text("#### "), Piece::Field(Field::Title)]);
    assert_eq!(
        t.commit,
        vec![text("- "), Piece::Field(Field::Description), text(" ("), Piece::Field(Field::ShortHash), text(")")]
    );
}

#[test]
fn compile_builtin_texts() {
    let t = Template::compile(
        "## {{version}}\n#### {{title}}\n- {{scope}}{{breaking}}{{description}} - ({{short_hash}}) - {{author}}\n",
    )
    .unwrap();
    assert_eq!(t, Template::standard());
    let t = Template::compile(
        "## {{version}}\n#### {{title}}\n- {{scope}}{{breaking}}{{description}} - ({{hash}}) - {{author}}",
    )
    .unwrap();
    assert_eq!(t, Template::full_hash());
    let t = Template::compile(
        "## {{version_link}}\n#### {{title}}\n- {{scope}}{{breaking}}{{description}} - ({{commit_link}}) - {{author}}",
    )
    .unwrap();
    assert_eq!(t, Template::remote());
    assert!(Template::remote().needs_remote());
    assert!(!Template::standard().needs_remote());
    assert!(!Template::full_hash().needs_remote());
}

#[test]
fn every_field_has_a_name() {
    let t = Template::compile(
        "\n\n{{version}}{{timestamp}}{{version_link}}{{title}}{{type}}{{scope}}{{breaking}}{{description}}{{hash}}{{short_hash}}{{commit_link}}{{author}}",
    )
    .unwrap();
    assert!(t.release.is_empty());
    assert!(t.section.is_empty());
    assert_eq!(
        t.commit,
        vec![
            Piece::Field(Field::Version),
            Piece::Field(Field::Timestamp),
            Piece::Field(Field::VersionLink),
            Piece::Field(Field::Title),
            Piece::Field(Field::Type),
            Piece::Field(Field::Scope),
            Piece::Field(Field::Breaking),
            Piece::Field(Field::Description),
            Piece::Field(Field::Hash),
            Piece::Field(Field::ShortHash),
            Piece::Field(Field::CommitLink),
            Piece::Field(Field::Author),
        ]
    );
}

#[test]
fn single_braces_are_text() {
    let t = Template::compile("{ a } {b\n}x{\n}}").unwrap();
    assert_eq!(t.release, vec![text("{ a } {b")]);
    assert_eq!(t.section, vec![text("}x{")]);
    assert_eq!(t.commit, vec![text("}}")]);
}

#[test]
fn line_count() {
    assert_eq!(Template::compile(""), Err(TemplateFault::LineCount));
    assert_eq!(Template::compile("a"), Err(TemplateFault::LineCount));
    assert_eq!(Template::compile("a\nb"), Err(TemplateFault::LineCount));
    assert_eq!(Template::compile("a\nb\nc\n\n"), Err(TemplateFault::LineCount));
    assert_eq!(Template::compile("a\nb\nc\nd"), Err(TemplateFault::LineCount));
    assert!(Template::compile("a\nb\nc").is_ok());
    assert!(Template::compile("a\nb\nc\n").is_ok());
    assert!(Template::compile("\n\n").is_ok());
}

#[test]
fn faults_in_fields() {
    assert_eq!(Template::compile("{{version\n\n"), Err(TemplateFault::Unterminated));
    assert_eq!(Template::compile("{{version}\n}}\n"), Err(TemplateFault::Unterminated));
    assert_eq!(Template::compile("{{}}\n\n"), Err(TemplateFault::UnknownField));
    assert_eq!(Template::compile("{{Version}}\n\n"), Err(TemplateFault::UnknownField));
    assert_eq!(Template::compile("{{ver sion}}\n\n"), Err(TemplateFault::UnknownField));
    assert_eq!(Template::compile("{{title}}\n\n"), Err(TemplateFault::Misplaced));
    assert_eq!(Template::compile("\n{{scope}}\n"), Err(TemplateFault::Misplaced));
    assert!(Template::compile("\n{{version}}\n{{title}}").is_ok());
    // the first fault of the first faulty line is reported
    assert_eq!(Template::compile("{{x}}{{\n{{\n"), Err(TemplateFault::UnknownField));
    assert_eq!(Template::compile("ok\n{{\n{{x}}"), Err(TemplateFault::Unterminated));
    assert_eq!(Template::compile("a\nb\nc\nd{{"), Err(TemplateFault::LineCount));
}

#[test]
fn fault_details() {
    assert!(TemplateFault::LineCount.detail().contains("three lines"));
    assert!(TemplateFault::Unterminated.detail().contains("not closed"));
    assert!(TemplateFault::UnknownField.detail().contains("not a field"));
    assert!(TemplateFault::Misplaced.detail().contains("no value"));
}
