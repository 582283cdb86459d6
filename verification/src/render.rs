//! Writing a changelog document out as text.
//!
//! Each release is written as its heading, a line feed, then its blocks and
//! a line feed. A block is an empty line, the heading of a section, a line
//! feed, and one line for each commit. The first block of a release holds
//! its breaking changes, where it has any; the blocks of its sections follow.

use vstd::prelude::*;
use vstd::string::*;
use crate::commit::{CommitRecord, CommitView, commit_views};
use crate::changelog::{
    ChangelogDocument,
    ChangelogRelease,
    ReleaseView,
    SectionView,
    section_views,
};
use crate::arrange::{arrange, arrange_spec};
use crate::syntax::compile_spec;
use crate::text::same_text;
use crate::template::{
    default_template,
    full_hash_template,
    remote_template,
    Template,
    TemplateView,
    RemoteContext,
    RemoteView,
    Scene,
    scene_of,
    line_text,
    push_line,
    uses_links,
    Field,
    PieceView,
    is_link,
    line_has_link,
};

verus! {

/// The failures of rendering.
#[derive(Clone, Debug, PartialEq, Eq)]
pub enum RenderError {
    /// The template holds links, and no remote was given to make them from.
    MissingRemoteContext,
    /// The template could not be read or is not well formed; with the reason.
    TemplateError(String),
}

/// What a [`RenderError`] holds, with texts as sequences of characters.
pub enum RenderErrorView {
    MissingRemoteContext,
    TemplateError(Seq<char>),
}

impl View for RenderError {
    type V = RenderErrorView;

    open spec fn view(&self) -> RenderErrorView {
        match self {
            RenderError::MissingRemoteContext => RenderErrorView::MissingRemoteContext,
            RenderError::TemplateError(reason) => RenderErrorView::TemplateError(reason@),
        }
    }
}

/// The view of an optional remote.
pub open spec fn remote_view(remote: Option<&RemoteContext>) -> Option<RemoteView> {
    match remote {
        Some(r) => Some(r@),
        None => None,
    }
}

/// The lines of the commits of one block.
pub open spec fn commits_text(
    t: TemplateView,
    label: Seq<char>,
    timestamp: i64,
    title: Seq<char>,
    commits: Seq<CommitView>,
    remote: Option<RemoteView>,
) -> Seq<char>
    decreases commits.len(),
{
    if commits.len() == 0 {
        Seq::<char>::empty()
    } else {
        commits_text(t, label, timestamp, title, commits.drop_last(), remote) + line_text(
            t.commit,
            Scene { label, timestamp, title: Some(title), commit: Some(commits.last()), remote },
        ) + "\n"@
    }
}

/// One block: an empty line, the heading of the section, its commits.
pub open spec fn block_text(
    t: TemplateView,
    label: Seq<char>,
    timestamp: i64,
    title: Seq<char>,
    commits: Seq<CommitView>,
    remote: Option<RemoteView>,
) -> Seq<char> {
    "\n"@ + line_text(t.section, Scene { label, timestamp, title: Some(title), commit: None, remote })
        + "\n"@ + commits_text(t, label, timestamp, title, commits, remote)
}

/// The blocks of the sections of a release, in their order.
pub open spec fn sections_text(
    t: TemplateView,
    label: Seq<char>,
    timestamp: i64,
    sections: Seq<SectionView>,
    remote: Option<RemoteView>,
) -> Seq<char>
    decreases sections.len(),
{
    if sections.len() == 0 {
        Seq::<char>::empty()
    } else {
        sections_text(t, label, timestamp, sections.drop_last(), remote) + block_text(
            t,
            label,
            timestamp,
            sections.last().title,
            sections.last().commits,
            remote,
        )
    }
}

/// The block of the breaking changes of a release; nothing where it has none.
pub open spec fn breaking_text(t: TemplateView, r: ReleaseView, remote: Option<RemoteView>) -> Seq<
    char,
> {
    match r.breaking {
        Some(commits) => if commits.len() > 0 {
            block_text(t, r.label, r.timestamp, "Breaking Changes"@, commits, remote)
        } else {
            Seq::<char>::empty()
        },
        None => Seq::<char>::empty(),
    }
}

/// One release: its heading, the breaking changes, the sections.
pub open spec fn release_text(t: TemplateView, r: ReleaseView, remote: Option<RemoteView>) -> Seq<
    char,
> {
    line_text(
        t.release,
        Scene { label: r.label, timestamp: r.timestamp, title: None, commit: None, remote },
    ) + "\n"@ + breaking_text(t, r, remote) + sections_text(
        t,
        r.label,
        r.timestamp,
        r.sections,
        remote,
    ) + "\n"@
}

/// The whole document: its releases, in their order.
pub open spec fn document_text(t: TemplateView, doc: Seq<ReleaseView>, remote: Option<RemoteView>)
    -> Seq<char>
    decreases doc.len(),
{
    if doc.len() == 0 {
        Seq::<char>::empty()
    } else {
        document_text(t, doc.drop_last(), remote) + release_text(t, doc.last(), remote)
    }
}

/// What rendering with a given template gives: the text of the document, or
/// `MissingRemoteContext` where the template holds a link and there is no remote.
pub open spec fn render_with_spec(t: TemplateView, doc: Seq<ReleaseView>, remote: Option<RemoteView>)
    -> Result<Seq<char>, RenderErrorView> {
    if uses_links(t) && remote is None {
        Err(RenderErrorView::MissingRemoteContext)
    } else {
        Ok(document_text(t, doc, remote))
    }
}

fn push_block(
    out: &mut String,
    template: &Template,
    label: &str,
    timestamp: i64,
    title: &str,
    commits: &Vec<CommitRecord>,
    remote: Option<&RemoteContext>,
)
    ensures
        final(out)@ == old(out)@ + block_text(
            template@,
            label@,
            timestamp,
            title@,
            commit_views(commits@),
            remote_view(remote),
        ),
{
    let ghost t = template@;
    let ghost cs = commit_views(commits@);
    let ghost rv = remote_view(remote);
    let ghost start = out@;
    out.append("\n");
    push_line(out, &template.section, label, timestamp, Some(title), None, remote);
    out.append("\n");
    let ghost head = "\n"@ + line_text(
        t.section,
        Scene { label: label@, timestamp, title: Some(title@), commit: None, remote: rv },
    ) + "\n"@;
    assert(scene_of(label, timestamp, Some(title), None, remote) == Scene {
        label: label@,
        timestamp,
        title: Some(title@),
        commit: None,
        remote: rv,
    });
    assert(out@ =~= start + head);
    let mut i: usize = 0;
    assert(out@ =~= start + head + commits_text(t, label@, timestamp, title@, cs.take(0), rv));
    while i < commits.len()
        invariant
            i <= commits.len(),
            t == template@,
            cs == commit_views(commits@),
            rv == remote_view(remote),
            out@ == start + head + commits_text(
                t,
                label@,
                timestamp,
                title@,
                cs.take(i as int),
                rv,
            ),
        decreases commits.len() - i,
    {
        proof {
            assert(cs.take(i + 1).drop_last() =~= cs.take(i as int));
            assert(cs.take(i + 1).last() == commits@[i as int]@);
            assert(scene_of(label, timestamp, Some(title), Some(&commits@[i as int]), remote)
                == Scene {
                label: label@,
                timestamp,
                title: Some(title@),
                commit: Some(commits@[i as int]@),
                remote: rv,
            });
        }
        push_line(out, &template.commit, label, timestamp, Some(title), Some(&commits[i]), remote);
        out.append("\n");
        assert(out@ =~= start + head + commits_text(
            t,
            label@,
            timestamp,
            title@,
            cs.take(i + 1),
            rv,
        ));
        i += 1;
    }
    assert(cs.take(commits.len() as int) =~= cs);
    assert(out@ =~= start + block_text(t, label@, timestamp, title@, cs, rv));
}

fn push_release(
    out: &mut String,
    template: &Template,
    release: &ChangelogRelease,
    remote: Option<&RemoteContext>,
)
    ensures
        final(out)@ == old(out)@ + release_text(template@, release@, remote_view(remote)),
{
    let ghost t = template@;
    let ghost r = release@;
    let ghost rv = remote_view(remote);
    let ghost start = out@;
    let label = release.label.as_str();
    let timestamp = release.timestamp;
    push_line(out, &template.release, label, timestamp, None, None, remote);
    out.append("\n");
    let ghost head = line_text(
        t.release,
        Scene { label: r.label, timestamp: r.timestamp, title: None, commit: None, remote: rv },
    ) + "\n"@;
    assert(scene_of(label, timestamp, None, None, remote) == Scene {
        label: r.label,
        timestamp: r.timestamp,
        title: None,
        commit: None,
        remote: rv,
    });
    assert(out@ =~= start + head);
    match &release.breaking {
        Some(commits) => {
            if commits.len() > 0 {
                push_block(out, template, label, timestamp, "Breaking Changes", commits, remote);
            }
        },
        None => {},
    }
    let ghost mid = head + breaking_text(t, r, rv);
    assert(out@ =~= start + mid);
    let ghost ss = section_views(release.sections@);
    let mut i: usize = 0;
    assert(out@ =~= start + mid + sections_text(t, r.label, r.timestamp, ss.take(0), rv));
    while i < release.sections.len()
        invariant
            i <= release.sections.len(),
            t == template@,
            r == release@,
            rv == remote_view(remote),
            ss == section_views(release.sections@),
            label@ == r.label,
            timestamp == r.timestamp,
            out@ == start + mid + sections_text(t, r.label, r.timestamp, ss.take(i as int), rv),
        decreases release.sections.len() - i,
    {
        proof {
            assert(ss.take(i + 1).drop_last() =~= ss.take(i as int));
            assert(ss.take(i + 1).last() == release.sections@[i as int]@);
        }
        let section = &release.sections[i];
        push_block(
            out,
            template,
            label,
            timestamp,
            section.title.as_str(),
            &section.commits,
            remote,
        );
        assert(out@ =~= start + mid + sections_text(t, r.label, r.timestamp, ss.take(i + 1), rv));
        i += 1;
    }
    assert(ss.take(release.sections.len() as int) =~= ss);
    out.append("\n");
    assert(out@ =~= start + release_text(t, r, rv));
}

/// Writes a document with a template.
///
/// The document is written as it stands: releases, sections and commits in
/// the order in which it holds them. A template that holds a link needs a
/// remote; without one nothing is written and `MissingRemoteContext` comes back.
pub fn render_with(doc: &ChangelogDocument, template: &Template, remote: Option<&RemoteContext>)
    -> (r: Result<String, RenderError>)
    ensures
        match render_with_spec(template@, doc@, remote_view(remote)) {
            Ok(text) => r is Ok && r->Ok_0@ == text,
            Err(e) => r is Err && r->Err_0@ == e,
        },
{
    if template.needs_remote() && remote.is_none() {
        return Err(RenderError::MissingRemoteContext);
    }
    let ghost t = template@;
    let ghost rv = remote_view(remote);
    let ghost rs = doc@;
    let mut out = String::new();
    let mut i: usize = 0;
    assert(out@ =~= document_text(t, rs.take(0), rv));
    while i < doc.releases.len()
        invariant
            i <= doc.releases.len(),
            t == template@,
            rv == remote_view(remote),
            rs == doc@,
            out@ == document_text(t, rs.take(i as int), rv),
        decreases doc.releases.len() - i,
    {
        proof {
            assert(rs.take(i + 1).drop_last() =~= rs.take(i as int));
            assert(rs.take(i + 1).last() == doc.releases@[i as int]@);
        }
        push_release(&mut out, template, &doc.releases[i], remote);
        i += 1;
    }
    assert(rs.take(doc.releases.len() as int) =~= rs);
    Ok(out)
}

/// Which template to write with.
#[derive(Clone, Debug, PartialEq, Eq)]
pub enum TemplateSelector {
    /// The built-in template.
    Default,
    /// The built-in template, with the whole hash of each commit.
    FullHash,
    /// The built-in template, with links to the remote.
    Remote,
    /// The template in the file at this path.
    Custom(String),
}

/// What a [`TemplateSelector`] holds, with texts as sequences of characters.
pub enum SelectorView {
    Default,
    FullHash,
    Remote,
    Custom(Seq<char>),
}

impl View for TemplateSelector {
    type V = SelectorView;

    open spec fn view(&self) -> SelectorView {
        match self {
            TemplateSelector::Default => SelectorView::Default,
            TemplateSelector::FullHash => SelectorView::FullHash,
            TemplateSelector::Remote => SelectorView::Remote,
            TemplateSelector::Custom(path) => SelectorView::Custom(path@),
        }
    }
}

/// What became of reading the file of a custom template. The library reads
/// no file: the caller does, and says here how it went.
#[derive(Clone, Debug, PartialEq, Eq)]
pub enum TemplateFile {
    /// No file was read.
    NotRead,
    /// The file could not be read, with the reason.
    Unreadable(String),
    /// What the file holds.
    Content(String),
}

/// What a [`TemplateFile`] holds, with texts as sequences of characters.
pub enum TemplateFileView {
    NotRead,
    Unreadable(Seq<char>),
    Content(Seq<char>),
}

impl View for TemplateFile {
    type V = TemplateFileView;

    open spec fn view(&self) -> TemplateFileView {
        match self {
            TemplateFile::NotRead => TemplateFileView::NotRead,
            TemplateFile::Unreadable(reason) => TemplateFileView::Unreadable(reason@),
            TemplateFile::Content(text) => TemplateFileView::Content(text@),
        }
    }
}

/// The selector that an argument names: `default`, `full_hash`, `remote`,
/// or else the path of a template file.
pub open spec fn selector_named(arg: Seq<char>) -> SelectorView {
    if arg == "default"@ {
        SelectorView::Default
    } else if arg == "full_hash"@ {
        SelectorView::FullHash
    } else if arg == "remote"@ {
        SelectorView::Remote
    } else {
        SelectorView::Custom(arg)
    }
}

impl TemplateSelector {
    /// Reads a selector from an argument.
    pub fn from_arg(arg: &str) -> (r: TemplateSelector)
        ensures
            r@ == selector_named(arg@),
    {
        if same_text(arg, "default") {
            TemplateSelector::Default
        } else if same_text(arg, "full_hash") {
            TemplateSelector::FullHash
        } else if same_text(arg, "remote") {
            TemplateSelector::Remote
        } else {
            TemplateSelector::Custom(arg.to_owned())
        }
    }

    /// A copy that holds the same values.
    pub fn duplicate(&self) -> (r: TemplateSelector)
        ensures
            r@ == self@,
    {
        match self {
            TemplateSelector::Default => TemplateSelector::Default,
            TemplateSelector::FullHash => TemplateSelector::FullHash,
            TemplateSelector::Remote => TemplateSelector::Remote,
            TemplateSelector::Custom(path) => TemplateSelector::Custom(path.clone()),
        }
    }

    /// The path of the file that the caller has to read, if there is one.
    pub fn file_path(&self) -> (r: Option<&String>)
        ensures
            match self {
                TemplateSelector::Custom(path) => r == Some(path),
                _ => r is None,
            },
    {
        match self {
            TemplateSelector::Custom(path) => Some(path),
            _ => None,
        }
    }
}

/// The template that a selector stands for, or why there is none.
pub open spec fn template_for(selector: SelectorView, file: TemplateFileView) -> Result<
    TemplateView,
    RenderErrorView,
> {
    match selector {
        SelectorView::Default => Ok(default_template()),
        SelectorView::FullHash => Ok(full_hash_template()),
        SelectorView::Remote => Ok(remote_template()),
        SelectorView::Custom(_) => match file {
            TemplateFileView::NotRead => Err(
                RenderErrorView::TemplateError("the template file was not read"@),
            ),
            TemplateFileView::Unreadable(reason) => Err(RenderErrorView::TemplateError(reason)),
            TemplateFileView::Content(text) => match compile_spec(text) {
                Ok(t) => Ok(t),
                Err(fault) => Err(RenderErrorView::TemplateError(fault.detail_text())),
            },
        },
    }
}

/// What rendering gives: the text of the arranged document under the
/// template that the selector stands for, or the reason why nothing is written.
pub open spec fn render_spec(
    doc: Seq<ReleaseView>,
    selector: SelectorView,
    remote: Option<RemoteView>,
    file: TemplateFileView,
) -> Result<Seq<char>, RenderErrorView> {
    match template_for(selector, file) {
        Err(e) => Err(e),
        Ok(t) => render_with_spec(t, arrange_spec(doc), remote),
    }
}

/// Finds the template that a selector stands for.
pub fn resolve_template(selector: &TemplateSelector, file: &TemplateFile) -> (r: Result<
    Template,
    RenderError,
>)
    ensures
        match template_for(selector@, file@) {
            Ok(t) => r is Ok && r->Ok_0@ == t,
            Err(e) => r is Err && r->Err_0@ == e,
        },
{
    match selector {
        TemplateSelector::Default => Ok(Template::standard()),
        TemplateSelector::FullHash => Ok(Template::full_hash()),
        TemplateSelector::Remote => Ok(Template::remote()),
        TemplateSelector::Custom(_) => match file {
            TemplateFile::NotRead => Err(
                RenderError::TemplateError("the template file was not read".to_owned()),
            ),
            TemplateFile::Unreadable(reason) => Err(RenderError::TemplateError(reason.clone())),
            TemplateFile::Content(text) => match Template::compile(text.as_str()) {
                Ok(t) => Ok(t),
                Err(fault) => Err(RenderError::TemplateError(fault.detail().to_owned())),
            },
        },
    }
}

/// Renders a changelog.
///
/// The document is put in order first: releases newest first, sections by
/// the rank of their type, commits newest first, and the breaking changes
/// of a release before its sections. Then it is written with the template
/// that the selector stands for. Nothing is written in part: a selector for
/// links without a remote gives `MissingRemoteContext`; a custom template
/// whose file was not read, could not be read or is not well formed gives
/// `TemplateError` with the reason.
pub fn render(
    doc: &ChangelogDocument,
    template: &TemplateSelector,
    remote: Option<&RemoteContext>,
    file: &TemplateFile,
) -> (r: Result<String, RenderError>)
    ensures
        match render_spec(doc@, template@, remote_view(remote), file@) {
            Ok(text) => r is Ok && r->Ok_0@ == text,
            Err(e) => r is Err && r->Err_0@ == e,
        },
{
    match resolve_template(template, file) {
        Err(e) => Err(e),
        Ok(t) => {
            let arranged = arrange(doc);
            render_with(&arranged, &t, remote)
        },
    }
}

/// Rendering is a function of what the inputs hold: two calls on
/// documents, selectors, remotes and files with the same values give the
/// same text or the same failure, whenever and in whatever order they are made.
pub proof fn law_render_is_deterministic(
    doc1: ChangelogDocument,
    doc2: ChangelogDocument,
    template1: TemplateSelector,
    template2: TemplateSelector,
    remote1: Option<&RemoteContext>,
    remote2: Option<&RemoteContext>,
    file1: TemplateFile,
    file2: TemplateFile,
)
    requires
        doc1@ == doc2@,
        template1@ == template2@,
        remote_view(remote1) == remote_view(remote2),
        file1@ == file2@,
    ensures
        render_spec(doc1@, template1@, remote_view(remote1), file1@) == render_spec(
            doc2@,
            template2@,
            remote_view(remote2),
            file2@,
        ),
{
}

/// The selector for links gives `MissingRemoteContext` without a remote,
/// whatever the document holds.
pub proof fn law_remote_needs_context(doc: Seq<ReleaseView>, file: TemplateFileView)
    ensures
        render_spec(doc, SelectorView::Remote, None, file) == Err::<Seq<char>, RenderErrorView>(
            RenderErrorView::MissingRemoteContext,
        ),
{
    let t = remote_template();
    assert(t.release[1] == PieceView::Field(Field::VersionLink));
    assert(is_link(t.release[1]));
    assert(line_has_link(t.release));
}

/// The two built-in templates without links never fail, with or without a remote.
pub proof fn law_plain_templates_succeed(
    doc: Seq<ReleaseView>,
    remote: Option<RemoteView>,
    file: TemplateFileView,
)
    ensures
        render_spec(doc, SelectorView::Default, remote, file) is Ok,
        render_spec(doc, SelectorView::FullHash, remote, file) is Ok,
{
    let t = default_template();
    assert(!line_has_link(t.release)) by {
        assert forall|i: int| 0 <= i < t.release.len() implies !is_link(#[trigger] t.release[i]) by {
            if i == 0 {
            } else {
                assert(i == 1);
            }
        }
    }
    assert(!line_has_link(t.section)) by {
        assert forall|i: int| 0 <= i < t.section.len() implies !is_link(#[trigger] t.section[i]) by {
            if i == 0 {
            } else {
                assert(i == 1);
            }
        }
    }
    assert(!line_has_link(t.commit)) by {
        assert forall|i: int| 0 <= i < t.commit.len() implies !is_link(#[trigger] t.commit[i]) by {
            assert(t.commit.len() == 8);
            assert(i == 0 || i == 1 || i == 2 || i == 3 || i == 4 || i == 5 || i == 6 || i == 7);
        }
    }
    let f = full_hash_template();
    assert(f.release == t.release);
    assert(f.section == t.section);
    assert(!line_has_link(f.commit)) by {
        assert forall|i: int| 0 <= i < f.commit.len() implies !is_link(#[trigger] f.commit[i]) by {
            assert(f.commit.len() == 8);
            assert(i == 0 || i == 1 || i == 2 || i == 3 || i == 4 || i == 5 || i == 6 || i == 7);
        }
    }
}

} // verus!
