//! Templates: what a changelog writes for a release, for a section and for a
//! commit. A template has one line of each kind, and a line is made of fixed
//! text and of fields, which stand for values of the thing that is written.

use vstd::prelude::*;
use vstd::string::*;
use crate::commit::{CommitRecord, CommitView};
use crate::text::{decimal, push_decimal, slice_of};

verus! {

/// The fields that a line of a template can hold.
#[derive(Clone, Copy, Debug, PartialEq, Eq, Structural)]
pub enum Field {
    /// The label of the release.
    Version,
    /// The time of the release, as a number.
    Timestamp,
    /// The label of the release, as a link to the release on the remote.
    VersionLink,
    /// The title of the section.
    Title,
    /// The type of the commit.
    Type,
    /// The scope of the commit, set off as `**(scope)** `; nothing without a scope.
    Scope,
    /// `[**breaking**] ` for a breaking commit; nothing otherwise.
    Breaking,
    /// The description of the commit.
    Description,
    /// The hash of the commit.
    Hash,
    /// The first seven characters of the hash.
    ShortHash,
    /// The short hash, as a link to the commit on the remote.
    CommitLink,
    /// The author of the commit.
    Author,
}

/// A part of a line: fixed text, or a field.
#[derive(Clone, Debug, PartialEq, Eq)]
pub enum Piece {
    Text(String),
    Field(Field),
}

/// What a [`Piece`] holds, with texts as sequences of characters.
pub enum PieceView {
    Text(Seq<char>),
    Field(Field),
}

impl View for Piece {
    type V = PieceView;

    open spec fn view(&self) -> PieceView {
        match self {
            Piece::Text(t) => PieceView::Text(t@),
            Piece::Field(f) => PieceView::Field(*f),
        }
    }
}

/// The views of the items of a list, in its order.
pub open spec fn piece_views(ps: Seq<Piece>) -> Seq<PieceView> {
    Seq::new(ps.len(), |i: int| ps[i]@)
}

/// The three lines of a template.
#[derive(Clone, Debug, PartialEq, Eq)]
pub struct Template {
    /// The heading of a release.
    pub release: Vec<Piece>,
    /// The heading of a section.
    pub section: Vec<Piece>,
    /// The line of a commit.
    pub commit: Vec<Piece>,
}

/// What a [`Template`] holds, with texts as sequences of characters.
pub struct TemplateView {
    pub release: Seq<PieceView>,
    pub section: Seq<PieceView>,
    pub commit: Seq<PieceView>,
}

impl View for Template {
    type V = TemplateView;

    open spec fn view(&self) -> TemplateView {
        TemplateView {
            release: piece_views(self.release@),
            section: piece_views(self.section@),
            commit: piece_views(self.commit@),
        }
    }
}

/// Where the repository lives, for links.
#[derive(Clone, Debug, PartialEq, Eq)]
pub struct RemoteContext {
    pub host: String,
    pub owner: String,
    pub repository: String,
}

/// What a [`Remote`] holds, with texts as sequences of characters.
pub struct RemoteView {
    pub host: Seq<char>,
    pub owner: Seq<char>,
    pub repository: Seq<char>,
}

impl View for RemoteContext {
    type V = RemoteView;

    open spec fn view(&self) -> RemoteView {
        RemoteView { host: self.host@, owner: self.owner@, repository: self.repository@ }
    }
}

impl RemoteContext {
    /// The remote at `host` that holds `repository` of `owner`.
    pub fn new(host: String, repository: String, owner: String) -> (r: RemoteContext)
        ensures
            r@ == (RemoteView { host: host@, owner: owner@, repository: repository@ }),
    {
        RemoteContext { host, owner, repository }
    }
}

/// What is being written: a release, within it perhaps a section, within
/// that perhaps a commit; and the remote, if links can be made.
pub struct Scene {
    pub label: Seq<char>,
    pub timestamp: i64,
    pub title: Option<Seq<char>>,
    pub commit: Option<CommitView>,
    pub remote: Option<RemoteView>,
}

/// A number with its sign, in decimal.
pub open spec fn signed_decimal(t: int) -> Seq<char> {
    if t < 0 {
        "-"@ + decimal((-t) as nat)
    } else {
        decimal(t as nat)
    }
}

/// The first seven characters of a hash, or all of a shorter one.
pub open spec fn short_hash(hash: Seq<char>) -> Seq<char> {
    if hash.len() > 7 {
        hash.subrange(0, 7)
    } else {
        hash
    }
}

/// The address of the repository on the remote.
pub open spec fn repository_url(r: RemoteView) -> Seq<char> {
    "https://"@ + r.host + "/"@ + r.owner + "/"@ + r.repository
}

/// The text `[text](target)` of a link.
pub open spec fn link(text: Seq<char>, target: Seq<char>) -> Seq<char> {
    "["@ + text + "]("@ + target + ")"@
}

/// What a field stands for in a scene. A field of something that the scene
/// lacks stands for nothing; a link without a remote is its bare text.
pub open spec fn field_text(f: Field, sc: Scene) -> Seq<char> {
    match f {
        Field::Version => sc.label,
        Field::Timestamp => signed_decimal(sc.timestamp as int),
        Field::VersionLink => match sc.remote {
            Some(r) => link(sc.label, repository_url(r) + "/releases/tag/"@ + sc.label),
            None => sc.label,
        },
        Field::Title => match sc.title {
            Some(t) => t,
            None => Seq::<char>::empty(),
        },
        _ => match sc.commit {
            None => Seq::<char>::empty(),
            Some(c) => match f {
                Field::Type => c.commit_type,
                Field::Scope => match c.scope {
                    Some(scope) => "**("@ + scope + ")** "@,
                    None => Seq::<char>::empty(),
                },
                Field::Breaking => if c.breaking {
                    "[**breaking**] "@
                } else {
                    Seq::<char>::empty()
                },
                Field::Description => c.description,
                Field::Hash => c.source_hash,
                Field::ShortHash => short_hash(c.source_hash),
                Field::CommitLink => match sc.remote {
                    Some(r) => link(
                        short_hash(c.source_hash),
                        repository_url(r) + "/commit/"@ + c.source_hash,
                    ),
                    None => short_hash(c.source_hash),
                },
                _ => c.author,
            },
        },
    }
}

/// The text of a piece in a scene.
pub open spec fn piece_text(p: PieceView, sc: Scene) -> Seq<char> {
    match p {
        PieceView::Text(t) => t,
        PieceView::Field(f) => field_text(f, sc),
    }
}

/// The text of a line in a scene: the texts of its pieces, one after the other.
pub open spec fn line_text(ps: Seq<PieceView>, sc: Scene) -> Seq<char>
    decreases ps.len(),
{
    if ps.len() == 0 {
        Seq::<char>::empty()
    } else {
        line_text(ps.drop_last(), sc) + piece_text(ps.last(), sc)
    }
}

/// Whether a field is a link.
pub open spec fn is_link(p: PieceView) -> bool {
    p == PieceView::Field(Field::VersionLink) || p == PieceView::Field(Field::CommitLink)
}

/// Whether a line holds a link.
pub open spec fn line_has_link(ps: Seq<PieceView>) -> bool {
    exists|i: int| 0 <= i < ps.len() && is_link(#[trigger] ps[i])
}

/// Whether a template holds a link, and so needs a remote.
pub open spec fn uses_links(t: TemplateView) -> bool {
    line_has_link(t.release) || line_has_link(t.section) || line_has_link(t.commit)
}

/// The template that is used where no other is asked for.
pub open spec fn default_template() -> TemplateView {
    TemplateView {
        release: seq![PieceView::Text("## "@), PieceView::Field(Field::Version)],
        section: seq![PieceView::Text("#### "@), PieceView::Field(Field::Title)],
        commit: seq![
            PieceView::Text("- "@),
            PieceView::Field(Field::Scope),
            PieceView::Field(Field::Breaking),
            PieceView::Field(Field::Description),
            PieceView::Text(" - ("@),
            PieceView::Field(Field::ShortHash),
            PieceView::Text(") - "@),
            PieceView::Field(Field::Author),
        ],
    }
}

/// The default template with the whole hash of each commit.
pub open spec fn full_hash_template() -> TemplateView {
    TemplateView {
        release: seq![PieceView::Text("## "@), PieceView::Field(Field::Version)],
        section: seq![PieceView::Text("#### "@), PieceView::Field(Field::Title)],
        commit: seq![
            PieceView::Text("- "@),
            PieceView::Field(Field::Scope),
            PieceView::Field(Field::Breaking),
            PieceView::Field(Field::Description),
            PieceView::Text(" - ("@),
            PieceView::Field(Field::Hash),
            PieceView::Text(") - "@),
            PieceView::Field(Field::Author),
        ],
    }
}

/// The default template with releases and commits as links to the remote.
pub open spec fn remote_template() -> TemplateView {
    TemplateView {
        release: seq![PieceView::Text("## "@), PieceView::Field(Field::VersionLink)],
        section: seq![PieceView::Text("#### "@), PieceView::Field(Field::Title)],
        commit: seq![
            PieceView::Text("- "@),
            PieceView::Field(Field::Scope),
            PieceView::Field(Field::Breaking),
            PieceView::Field(Field::Description),
            PieceView::Text(" - ("@),
            PieceView::Field(Field::CommitLink),
            PieceView::Text(") - "@),
            PieceView::Field(Field::Author),
        ],
    }
}

fn text_piece(t: &str) -> (p: Piece)
    ensures
        p@ == PieceView::Text(t@),
{
    Piece::Text(t.to_owned())
}

fn heading(mark: &str, f: Field) -> (line: Vec<Piece>)
    ensures
        piece_views(line@) == seq![PieceView::Text(mark@), PieceView::Field(f)],
{
    let mut line: Vec<Piece> = Vec::new();
    line.push(text_piece(mark));
    line.push(Piece::Field(f));
    assert(piece_views(line@) =~= seq![PieceView::Text(mark@), PieceView::Field(f)]);
    line
}

fn commit_line(hash: Field) -> (line: Vec<Piece>)
    ensures
        piece_views(line@) == seq![
            PieceView::Text("- "@),
            PieceView::Field(Field::Scope),
            PieceView::Field(Field::Breaking),
            PieceView::Field(Field::Description),
            PieceView::Text(" - ("@),
            PieceView::Field(hash),
            PieceView::Text(") - "@),
            PieceView::Field(Field::Author),
        ],
{
    let mut line: Vec<Piece> = Vec::new();
    line.push(text_piece("- "));
    line.push(Piece::Field(Field::Scope));
    line.push(Piece::Field(Field::Breaking));
    line.push(Piece::Field(Field::Description));
    line.push(text_piece(" - ("));
    line.push(Piece::Field(hash));
    line.push(text_piece(") - "));
    line.push(Piece::Field(Field::Author));
    assert(piece_views(line@) =~= seq![
        PieceView::Text("- "@),
        PieceView::Field(Field::Scope),
        PieceView::Field(Field::Breaking),
        PieceView::Field(Field::Description),
        PieceView::Text(" - ("@),
        PieceView::Field(hash),
        PieceView::Text(") - "@),
        PieceView::Field(Field::Author),
    ]);
    line
}

impl Template {
    /// The template that is used where no other is asked for.
    pub fn standard() -> (t: Template)
        ensures
            t@ == default_template(),
    {
        Template {
            release: heading("## ", Field::Version),
            section: heading("#### ", Field::Title),
            commit: commit_line(Field::ShortHash),
        }
    }

    /// The default template with the whole hash of each commit.
    pub fn full_hash() -> (t: Template)
        ensures
            t@ == full_hash_template(),
    {
        Template {
            release: heading("## ", Field::Version),
            section: heading("#### ", Field::Title),
            commit: commit_line(Field::Hash),
        }
    }

    /// The default template with releases and commits as links to the remote.
    pub fn remote() -> (t: Template)
        ensures
            t@ == remote_template(),
    {
        Template {
            release: heading("## ", Field::VersionLink),
            section: heading("#### ", Field::Title),
            commit: commit_line(Field::CommitLink),
        }
    }

    /// Whether the template holds a link, and so needs a remote.
    pub fn needs_remote(&self) -> (b: bool)
        ensures
            b == uses_links(self@),
    {
        has_link(&self.release) || has_link(&self.section) || has_link(&self.commit)
    }
}

fn has_link(line: &Vec<Piece>) -> (b: bool)
    ensures
        b == line_has_link(piece_views(line@)),
{
    let ghost ps = piece_views(line@);
    let mut i: usize = 0;
    while i < line.len()
        invariant
            i <= line.len(),
            ps == piece_views(line@),
            forall|j: int| 0 <= j < i ==> !is_link(#[trigger] ps[j]),
        decreases line.len() - i,
    {
        let found = match &line[i] {
            Piece::Field(Field::VersionLink) => true,
            Piece::Field(Field::CommitLink) => true,
            _ => false,
        };
        if found {
            assert(is_link(ps[i as int]));
            return true;
        }
        i += 1;
    }
    false
}

/// The scene for values as the writer holds them.
pub open spec fn scene_of(
    label: &str,
    timestamp: i64,
    title: Option<&str>,
    commit: Option<&CommitRecord>,
    remote: Option<&RemoteContext>,
) -> Scene {
    Scene {
        label: label@,
        timestamp,
        title: match title {
            Some(t) => Some(t@),
            None => None,
        },
        commit: match commit {
            Some(c) => Some(c@),
            None => None,
        },
        remote: match remote {
            Some(r) => Some(r@),
            None => None,
        },
    }
}

fn push_signed(out: &mut String, t: i64)
    ensures
        final(out)@ == old(out)@ + signed_decimal(t as int),
{
    if t < 0 {
        out.append("-");
        let magnitude: u64 = ((-(t + 1)) as u64) + 1;
        push_decimal(out, magnitude);
        assert(out@ =~= old(out)@ + ("-"@ + decimal((-t) as nat)));
    } else {
        push_decimal(out, t as u64);
    }
}

fn push_short_hash(out: &mut String, hash: &String)
    ensures
        final(out)@ == old(out)@ + short_hash(hash@),
{
    let n = hash.as_str().unicode_len();
    if n > 7 {
        let short = slice_of(hash.as_str(), 0, 7);
        out.append(short.as_str());
    } else {
        out.append(hash.as_str());
    }
}

fn push_repository_url(out: &mut String, r: &RemoteContext)
    ensures
        final(out)@ == old(out)@ + repository_url(r@),
{
    out.append("https://");
    out.append(r.host.as_str());
    out.append("/");
    out.append(r.owner.as_str());
    out.append("/");
    out.append(r.repository.as_str());
    assert(out@ =~= old(out)@ + repository_url(r@));
}

fn push_field(
    out: &mut String,
    f: Field,
    label: &str,
    timestamp: i64,
    title: Option<&str>,
    commit: Option<&CommitRecord>,
    remote: Option<&RemoteContext>,
)
    ensures
        final(out)@ == old(out)@ + field_text(
            f,
            scene_of(label, timestamp, title, commit, remote),
        ),
{
    let ghost start = out@;
    match f {
        Field::Version => {
            out.append(label);
        },
        Field::Timestamp => {
            push_signed(out, timestamp);
        },
        Field::VersionLink => match remote {
            Some(r) => {
                out.append("[");
                out.append(label);
                out.append("](");
                push_repository_url(out, r);
                out.append("/releases/tag/");
                out.append(label);
                out.append(")");
                assert(out@ =~= start + link(
                    label@,
                    repository_url(r@) + "/releases/tag/"@ + label@,
                ));
            },
            None => {
                out.append(label);
            },
        },
        Field::Title => match title {
            Some(t) => {
                out.append(t);
            },
            None => {
                assert(out@ =~= start + Seq::<char>::empty());
            },
        },
        _ => match commit {
            None => {
                assert(out@ =~= start + Seq::<char>::empty());
            },
            Some(c) => match f {
                Field::Type => {
                    out.append(c.commit_type.as_str());
                },
                Field::Scope => match &c.scope {
                    Some(scope) => {
                        out.append("**(");
                        out.append(scope.as_str());
                        out.append(")** ");
                        assert(out@ =~= start + ("**("@ + scope@ + ")** "@));
                    },
                    None => {
                        assert(out@ =~= start + Seq::<char>::empty());
                    },
                },
                Field::Breaking => {
                    if c.breaking {
                        out.append("[**breaking**] ");
                    } else {
                        assert(out@ =~= start + Seq::<char>::empty());
                    }
                },
                Field::Description => {
                    out.append(c.description.as_str());
                },
                Field::Hash => {
                    out.append(c.source_hash.as_str());
                },
                Field::ShortHash => {
                    push_short_hash(out, &c.source_hash);
                },
                Field::CommitLink => match remote {
                    Some(r) => {
                        out.append("[");
                        push_short_hash(out, &c.source_hash);
                        out.append("](");
                        push_repository_url(out, r);
                        out.append("/commit/");
                        out.append(c.source_hash.as_str());
                        out.append(")");
                        assert(out@ =~= start + link(
                            short_hash(c.source_hash@),
                            repository_url(r@) + "/commit/"@ + c.source_hash@,
                        ));
                    },
                    None => {
                        push_short_hash(out, &c.source_hash);
                    },
                },
                _ => {
                    out.append(c.author.as_str());
                },
            },
        },
    }
}

/// Appends the text of a line to `out`.
pub fn push_line(
    out: &mut String,
    line: &Vec<Piece>,
    label: &str,
    timestamp: i64,
    title: Option<&str>,
    commit: Option<&CommitRecord>,
    remote: Option<&RemoteContext>,
)
    ensures
        final(out)@ == old(out)@ + line_text(
            piece_views(line@),
            scene_of(label, timestamp, title, commit, remote),
        ),
{
    let ghost sc = scene_of(label, timestamp, title, commit, remote);
    let ghost ps = piece_views(line@);
    let ghost start = out@;
    let mut i: usize = 0;
    assert(out@ =~= start + line_text(ps.take(0), sc));
    while i < line.len()
        invariant
            i <= line.len(),
            ps == piece_views(line@),
            sc == scene_of(label, timestamp, title, commit, remote),
            out@ == start + line_text(ps.take(i as int), sc),
        decreases line.len() - i,
    {
        proof {
            assert(ps.take(i + 1).drop_last() =~= ps.take(i as int));
            assert(ps.take(i + 1).last() == line@[i as int]@);
        }
        match &line[i] {
            Piece::Text(t) => {
                out.append(t.as_str());
            },
            Piece::Field(f) => {
                push_field(out, *f, label, timestamp, title, commit, remote);
            },
        }
        assert(out@ =~= start + (line_text(ps.take(i as int), sc) + piece_text(
            line@[i as int]@,
            sc,
        )));
        i += 1;
    }
    assert(ps.take(line.len() as int) =~= ps);
}

} // verus!
