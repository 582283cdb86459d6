//! The records that the other modules pass around: what a repository hands
//! over for one commit, what parsing makes of it, and their mathematical views.

use vstd::prelude::*;
use vstd::string::*;
use crate::text::{CharClass, first_in, find, chars_of, slice_of};

verus! {

/// One trailer of a commit message: a token and the text that follows it.
#[derive(Clone, Debug, PartialEq, Eq)]
pub struct Footer {
    pub token: String,
    pub value: String,
}

/// What a [`Footer`] holds, with texts as sequences of characters.
pub struct FooterView {
    pub token: Seq<char>,
    pub value: Seq<char>,
}

impl View for Footer {
    type V = FooterView;

    open spec fn view(&self) -> FooterView {
        FooterView { token: self.token@, value: self.value@ }
    }
}

/// A commit as the repository gives it: the message and where it comes from.
#[derive(Clone, Debug, PartialEq, Eq)]
pub struct RawCommit {
    pub message: String,
    pub source_hash: String,
    pub author: String,
    pub timestamp: i64,
}

/// What a [`RawCommit`] holds, with texts as sequences of characters.
pub struct RawView {
    pub message: Seq<char>,
    pub source_hash: Seq<char>,
    pub author: Seq<char>,
    pub timestamp: i64,
}

impl View for RawCommit {
    type V = RawView;

    open spec fn view(&self) -> RawView {
        RawView {
            message: self.message@,
            source_hash: self.source_hash@,
            author: self.author@,
            timestamp: self.timestamp,
        }
    }
}

/// A commit whose message follows the grammar.
#[derive(Clone, Debug, PartialEq, Eq)]
pub struct CommitRecord {
    pub commit_type: String,
    pub scope: Option<String>,
    pub description: String,
    pub body: Option<String>,
    pub breaking: bool,
    pub footers: Vec<Footer>,
    pub source_hash: String,
    pub author: String,
    pub timestamp: i64,
}

/// What a [`CommitRecord`] holds, with texts as sequences of characters.
pub struct CommitView {
    pub commit_type: Seq<char>,
    pub scope: Option<Seq<char>>,
    pub description: Seq<char>,
    pub body: Option<Seq<char>>,
    pub breaking: bool,
    pub footers: Seq<FooterView>,
    pub source_hash: Seq<char>,
    pub author: Seq<char>,
    pub timestamp: i64,
}

/// The characters of an optional string.
pub open spec fn text_view(o: Option<String>) -> Option<Seq<char>> {
    match o {
        Some(s) => Some(s@),
        None => None,
    }
}

/// The views of the items of a list, in its order.
pub open spec fn footer_views(fs: Seq<Footer>) -> Seq<FooterView> {
    Seq::new(fs.len(), |i: int| fs[i]@)
}

/// The views of the items of a list, in its order.
pub open spec fn text_views(ts: Seq<String>) -> Seq<Seq<char>> {
    Seq::new(ts.len(), |i: int| ts[i]@)
}

impl View for CommitRecord {
    type V = CommitView;

    open spec fn view(&self) -> CommitView {
        CommitView {
            commit_type: self.commit_type@,
            scope: text_view(self.scope),
            description: self.description@,
            body: text_view(self.body),
            breaking: self.breaking,
            footers: footer_views(self.footers@),
            source_hash: self.source_hash@,
            author: self.author@,
            timestamp: self.timestamp,
        }
    }
}

/// The views of the items of a list, in its order.
pub open spec fn commit_views(rs: Seq<CommitRecord>) -> Seq<CommitView> {
    Seq::new(rs.len(), |i: int| rs[i]@)
}

/// Why a message is no conventional commit.
#[derive(Clone, Copy, Debug, PartialEq, Eq, Structural)]
pub enum ViolationReason {
    /// The header has the right shape but its type is not a recognized one.
    UnknownType,
    /// The header has parentheses with nothing between them.
    EmptyScope,
    /// Nothing but blanks follows the colon.
    MissingDescription,
    /// The first line does not have the shape of a header.
    MalformedHeader,
}

/// A commit whose message breaks the grammar, with the reason.
#[derive(Clone, Debug, PartialEq, Eq)]
pub struct CommitViolation {
    pub source_hash: String,
    pub raw_message: String,
    pub reason: ViolationReason,
}

/// What a [`CommitViolation`] holds, with texts as sequences of characters.
pub struct ViolationView {
    pub source_hash: Seq<char>,
    pub raw_message: Seq<char>,
    pub reason: ViolationReason,
}

impl View for CommitViolation {
    type V = ViolationView;

    open spec fn view(&self) -> ViolationView {
        ViolationView {
            source_hash: self.source_hash@,
            raw_message: self.raw_message@,
            reason: self.reason,
        }
    }
}

/// The views of the items of a list, in its order.
pub open spec fn violation_views(vs: Seq<CommitViolation>) -> Seq<ViolationView> {
    Seq::new(vs.len(), |i: int| vs[i]@)
}

/// A copy of an optional string.
pub fn copy_text(o: &Option<String>) -> (r: Option<String>)
    ensures
        text_view(r) == text_view(*o),
{
    match o {
        Some(s) => Some(s.clone()),
        None => None,
    }
}

impl Footer {
    /// A copy with the same token and value.
    pub fn duplicate(&self) -> (r: Footer)
        ensures
            r@ == self@,
    {
        Footer { token: self.token.clone(), value: self.value.clone() }
    }
}

/// A copy of a list of footers.
pub fn copy_footers(fs: &Vec<Footer>) -> (r: Vec<Footer>)
    ensures
        footer_views(r@) == footer_views(fs@),
{
    let mut r: Vec<Footer> = Vec::new();
    let mut i: usize = 0;
    while i < fs.len()
        invariant
            i <= fs.len(),
            r.len() == i,
            forall|j: int| 0 <= j < i ==> r@[j]@ == fs@[j]@,
        decreases fs.len() - i,
    {
        r.push(fs[i].duplicate());
        i += 1;
    }
    assert(footer_views(r@) =~= footer_views(fs@));
    r
}

impl CommitRecord {
    /// A copy that holds the same values.
    pub fn duplicate(&self) -> (r: CommitRecord)
        ensures
            r@ == self@,
    {
        CommitRecord {
            commit_type: self.commit_type.clone(),
            scope: copy_text(&self.scope),
            description: self.description.clone(),
            body: copy_text(&self.body),
            breaking: self.breaking,
            footers: copy_footers(&self.footers),
            source_hash: self.source_hash.clone(),
            author: self.author.clone(),
            timestamp: self.timestamp,
        }
    }
}

impl ViolationReason {
    /// The short code under which a report lists the reason.
    pub open spec fn code_text(self) -> Seq<char> {
        match self {
            ViolationReason::UnknownType => "UnknownType"@,
            ViolationReason::EmptyScope => "EmptyScope"@,
            ViolationReason::MissingDescription => "MissingDescription"@,
            ViolationReason::MalformedHeader => "MalformedHeader"@,
        }
    }

    /// A sentence that says what is wrong.
    pub open spec fn detail_text(self) -> Seq<char> {
        match self {
            ViolationReason::UnknownType => "the commit type is not one of the recognized types"@,
            ViolationReason::EmptyScope => "the scope between the parentheses is empty"@,
            ViolationReason::MissingDescription => "no description follows the colon"@,
            ViolationReason::MalformedHeader =>
                "the first line is not of the form `type(scope)!: description`"@,
        }
    }

    /// The short code under which a report lists the reason.
    pub fn code(&self) -> (r: &'static str)
        ensures
            r@ == self.code_text(),
    {
        match self {
            ViolationReason::UnknownType => "UnknownType",
            ViolationReason::EmptyScope => "EmptyScope",
            ViolationReason::MissingDescription => "MissingDescription",
            ViolationReason::MalformedHeader => "MalformedHeader",
        }
    }

    /// A sentence that says what is wrong.
    pub fn detail(&self) -> (r: &'static str)
        ensures
            r@ == self.detail_text(),
    {
        match self {
            ViolationReason::UnknownType => "the commit type is not one of the recognized types",
            ViolationReason::EmptyScope => "the scope between the parentheses is empty",
            ViolationReason::MissingDescription => "no description follows the colon",
            ViolationReason::MalformedHeader =>
                "the first line is not of the form `type(scope)!: description`",
        }
    }
}

/// The first line of a text.
pub open spec fn first_line(s: Seq<char>) -> Seq<char> {
    s.subrange(0, first_in(s, 0, CharClass::LineEnd))
}

/// The entry of a violation in a report: the hash of the commit, the code
/// of the reason, what it means, and on a line of its own the first line of
/// the message.
pub open spec fn violation_text(v: ViolationView) -> Seq<char> {
    v.source_hash + " "@ + v.reason.code_text() + ": "@ + v.reason.detail_text() + "\n    "@
        + first_line(v.raw_message)
}

impl CommitViolation {
    /// The entry of the violation in a report.
    pub fn describe(&self) -> (r: String)
        ensures
            r@ == violation_text(self@),
    {
        let chars = chars_of(self.raw_message.as_str());
        let end = find(&chars, 0, CharClass::LineEnd);
        let line = slice_of(self.raw_message.as_str(), 0, end);
        let mut r = self.source_hash.clone();
        r.append(" ");
        r.append(self.reason.code());
        r.append(": ");
        r.append(self.reason.detail());
        r.append("\n    ");
        r.append(line.as_str());
        r
    }
}

} // verus!
