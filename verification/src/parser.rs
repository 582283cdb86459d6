//! The grammar of a conventional commit message.
//!
//! The first line is the header, `type(scope)!: description`, where the scope
//! and the `!` are optional. The lines after it are the body, up to the first
//! line that begins a footer; a footer is a token, a separator and a value
//! that runs on to the next footer or to the end of the message.
//!
//! A header is looked at in a fixed order. Its shape comes first: a type that
//! is a non-empty run of characters other than blanks, `(`, `)`, `!` and `:`;
//! then, if a `(` follows, a scope up to the first `)` on the line; then an
//! optional `!`; then `:`; then the end of the line or a space. Only a header
//! of that shape is asked whether its type is recognized, then whether its
//! scope is empty, then whether it has a description.

use vstd::prelude::*;
use vstd::string::*;
use crate::commit::{
    CommitRecord,
    CommitView,
    CommitViolation,
    ViolationView,
    ViolationReason,
    Footer,
    FooterView,
    RawCommit,
    RawView,
    footer_views,
    commit_views,
    violation_views,
    text_view,
};
use crate::header::{valid_message, lemma_parsed_is_valid};
use crate::text::{
    CharClass,
    first_in,
    lemma_first_in,
    find,
    has_at,
    starts_at,
    chars_of,
    slice_of,
    text_is,
    trimmed,
    trimmed_range,
};

verus! {

/// What a message says, apart from where the commit comes from.
#[derive(Clone, Debug, PartialEq, Eq)]
pub struct Message {
    pub commit_type: String,
    pub scope: Option<String>,
    pub description: String,
    pub body: Option<String>,
    pub breaking: bool,
    pub footers: Vec<Footer>,
}

/// What a [`Message`] holds, with texts as sequences of characters.
pub struct MessageView {
    pub commit_type: Seq<char>,
    pub scope: Option<Seq<char>>,
    pub description: Seq<char>,
    pub body: Option<Seq<char>>,
    pub breaking: bool,
    pub footers: Seq<FooterView>,
}

impl View for Message {
    type V = MessageView;

    open spec fn view(&self) -> MessageView {
        MessageView {
            commit_type: self.commit_type@,
            scope: text_view(self.scope),
            description: self.description@,
            body: text_view(self.body),
            breaking: self.breaking,
            footers: footer_views(self.footers@),
        }
    }
}

/// The set of names that a list holds.
pub open spec fn name_set(types: Seq<String>) -> Set<Seq<char>> {
    Set::new(|t: Seq<char>| exists|i: int| 0 <= i < types.len() && (#[trigger] types[i])@ == t)
}

/// The places of a well-shaped header in its message.
pub struct HeaderShape {
    /// Where the type ends.
    pub type_end: int,
    /// Where the scope begins and ends, if there are parentheses.
    pub scope: Option<(int, int)>,
    /// Whether a `!` stands before the colon.
    pub bang: bool,
    /// Where the colon is.
    pub colon: int,
    /// Where the first line ends.
    pub line_end: int,
}

/// The shape of the header of `s`, or `None` where the first line has none.
pub open spec fn header_shape(s: Seq<char>) -> Option<HeaderShape> {
    let t = first_in(s, 0, CharClass::TypeEnd);
    if t == 0 || t >= s.len() {
        None
    } else {
        let scoped = s[t] == '(';
        let close = first_in(s, t + 1, CharClass::ScopeEnd);
        if scoped && (close >= s.len() || s[close] != ')') {
            None
        } else {
            let after = if scoped {
                close + 1
            } else {
                t
            };
            let bang = after < s.len() && s[after] == '!';
            let colon = if bang {
                after + 1
            } else {
                after
            };
            let line_end = first_in(s, 0, CharClass::LineEnd);
            if colon >= s.len() || s[colon] != ':' {
                None
            } else if colon + 1 < line_end && s[colon + 1] != ' ' {
                None
            } else {
                Some(
                    HeaderShape {
                        type_end: t,
                        scope: if scoped {
                            Some((t + 1, close))
                        } else {
                            None
                        },
                        bang,
                        colon,
                        line_end,
                    },
                )
            }
        }
    }
}

/// Where the line after the one that holds `i` begins, or the length of `s`.
pub open spec fn next_line(s: Seq<char>, i: int) -> int {
    let e = first_in(s, i, CharClass::LineEnd);
    if i <= e < s.len() {
        e + 1
    } else {
        s.len() as int
    }
}

/// One of the two tokens that mark a breaking change.
pub open spec fn is_breaking_token(t: Seq<char>) -> bool {
    t == "BREAKING CHANGE"@ || t == "BREAKING-CHANGE"@
}

/// Where the breaking-change token that begins at `i` ends, if one begins there.
pub open spec fn marker_end(s: Seq<char>, i: int) -> Option<int> {
    if has_at(s, i, "BREAKING CHANGE"@) {
        Some(i + "BREAKING CHANGE"@.len())
    } else if has_at(s, i, "BREAKING-CHANGE"@) {
        Some(i + "BREAKING-CHANGE"@.len())
    } else {
        None
    }
}

/// Where the token of the footer that begins at `i` ends and where its value
/// begins, or `None` where no footer begins at `i`.
///
/// A footer begins with a breaking-change token and then `:` or a space, or
/// with a non-empty run of letters, digits and hyphens and then `: ` or ` #`.
pub open spec fn footer_at(s: Seq<char>, i: int) -> Option<(int, int)> {
    let k = first_in(s, i, CharClass::TokenEnd);
    match marker_end(s, i) {
        Some(m) if m < s.len() && (s[m] == ':' || s[m] == ' ') => Some((m, m + 1)),
        _ => if i < k && k + 1 < s.len() && ((s[k] == ':' && s[k + 1] == ' ') || (s[k] == ' '
            && s[k + 1] == '#')) {
            Some((k, k + 2))
        } else {
            None
        },
    }
}

/// The first line at or after the line that begins at `i` on which a footer
/// begins, or the length of `s`.
pub open spec fn footer_start(s: Seq<char>, i: int) -> int
    decreases s.len() - i,
{
    if i < 0 || i >= s.len() {
        s.len() as int
    } else if footer_at(s, i) is Some {
        i
    } else {
        footer_start(s, next_line(s, i))
    }
}

/// The footer that begins at `i`: its value runs up to the next footer.
pub open spec fn footer_of(s: Seq<char>, i: int) -> FooterView {
    let (token_end, value_start) = footer_at(s, i)->0;
    FooterView {
        token: s.subrange(i, token_end),
        value: trimmed(s, value_start, footer_start(s, next_line(s, i)), CharClass::Text),
    }
}

/// The footers that begin on the line at `i` or on a later line.
pub open spec fn footers_from(s: Seq<char>, i: int) -> Seq<FooterView>
    decreases s.len() - i,
{
    if i < 0 || i >= s.len() {
        Seq::<FooterView>::empty()
    } else if footer_at(s, i) is Some {
        seq![footer_of(s, i)] + footers_from(s, next_line(s, i))
    } else {
        footers_from(s, next_line(s, i))
    }
}

/// Whether one of the footers has a breaking-change token.
pub open spec fn has_breaking_footer(fs: Seq<FooterView>) -> bool {
    exists|i: int| 0 <= i < fs.len() && is_breaking_token((#[trigger] fs[i]).token)
}

/// What a message with a header of shape `h` says.
pub open spec fn message_of(s: Seq<char>, h: HeaderShape) -> MessageView {
    let rest = next_line(s, 0);
    let footers = footers_from(s, rest);
    let body = trimmed(s, rest, footer_start(s, rest), CharClass::Text);
    MessageView {
        commit_type: s.subrange(0, h.type_end),
        scope: match h.scope {
            Some((a, b)) => Some(s.subrange(a, b)),
            None => None,
        },
        description: trimmed(s, h.colon + 1, h.line_end, CharClass::Ink),
        body: if body.len() == 0 {
            None
        } else {
            Some(body)
        },
        breaking: h.bang || has_breaking_footer(footers),
        footers,
    }
}

/// What parsing makes of a message, given the set of recognized types.
pub open spec fn parse_spec(s: Seq<char>, types: Set<Seq<char>>) -> Result<
    MessageView,
    ViolationReason,
> {
    match header_shape(s) {
        None => Err(ViolationReason::MalformedHeader),
        Some(h) => {
            if !types.contains(s.subrange(0, h.type_end)) {
                Err(ViolationReason::UnknownType)
            } else if h.scope matches Some((a, b)) && a == b {
                Err(ViolationReason::EmptyScope)
            } else if trimmed(s, h.colon + 1, h.line_end, CharClass::Ink).len() == 0 {
                Err(ViolationReason::MissingDescription)
            } else {
                Ok(message_of(s, h))
            }
        },
    }
}

/// The record for a message and the commit it belongs to.
pub open spec fn record_of(m: MessageView, raw: RawView) -> CommitView {
    CommitView {
        commit_type: m.commit_type,
        scope: m.scope,
        description: m.description,
        body: m.body,
        breaking: m.breaking,
        footers: m.footers,
        source_hash: raw.source_hash,
        author: raw.author,
        timestamp: raw.timestamp,
    }
}

/// What parsing makes of a raw commit: a record or a violation, never both.
pub open spec fn parse_commit_spec(raw: RawView, types: Set<Seq<char>>) -> Result<
    CommitView,
    ViolationView,
> {
    match parse_spec(raw.message, types) {
        Ok(m) => Ok(record_of(m, raw)),
        Err(reason) => Err(
            ViolationView { source_hash: raw.source_hash, raw_message: raw.message, reason },
        ),
    }
}

/// Whether `t` is one of the names in `types`.
pub fn has_name(types: &Vec<String>, t: &String) -> (r: bool)
    ensures
        r == name_set(types@).contains(t@),
{
    let mut i: usize = 0;
    while i < types.len()
        invariant
            i <= types.len(),
            forall|j: int| 0 <= j < i ==> (#[trigger] types@[j])@ != t@,
        decreases types.len() - i,
    {
        if types[i] == *t {
            return true;
        }
        i += 1;
    }
    false
}

fn line_after(v: &Vec<char>, i: usize) -> (r: usize)
    requires
        i <= v.len(),
    ensures
        r == next_line(v@, i as int),
        i <= r <= v.len(),
        i < v.len() ==> i < r,
{
    let e = find(v, i, CharClass::LineEnd);
    if e < v.len() {
        e + 1
    } else {
        v.len()
    }
}

/// The two breaking-change tokens, as characters.
struct Markers {
    spaced: Vec<char>,
    hyphened: Vec<char>,
}

impl Markers {
    spec fn ready(&self) -> bool {
        self.spaced@ == "BREAKING CHANGE"@ && self.hyphened@ == "BREAKING-CHANGE"@
    }

    fn new() -> (m: Markers)
        ensures
            m.ready(),
    {
        Markers { spaced: chars_of("BREAKING CHANGE"), hyphened: chars_of("BREAKING-CHANGE") }
    }
}

fn footer_bounds(v: &Vec<char>, i: usize, markers: &Markers) -> (r: Option<(usize, usize)>)
    requires
        i <= v.len(),
        markers.ready(),
    ensures
        match footer_at(v@, i as int) {
            Some((a, b)) => r == Some((a as usize, b as usize)) && i <= a < b <= v.len(),
            None => r is None,
        },
{
    let n = v.len();
    let marker: Option<usize> = if starts_at(v, i, &markers.spaced) {
        Some(i + markers.spaced.len())
    } else if starts_at(v, i, &markers.hyphened) {
        Some(i + markers.hyphened.len())
    } else {
        None
    };
    assert(match marker_end(v@, i as int) {
        Some(m) => marker == Some(m as usize) && i <= m <= n,
        None => marker is None,
    });
    if let Some(m) = marker {
        if m < n && (v[m] == ':' || v[m] == ' ') {
            return Some((m, m + 1));
        }
    }
    let k = find(v, i, CharClass::TokenEnd);
    if i < k && k < n - 1 && ((v[k] == ':' && v[k + 1] == ' ') || (v[k] == ' ' && v[k + 1]
        == '#')) {
        Some((k, k + 2))
    } else {
        None
    }
}

fn find_footer(v: &Vec<char>, i: usize, markers: &Markers) -> (r: usize)
    requires
        i <= v.len(),
        markers.ready(),
    ensures
        r == footer_start(v@, i as int),
        i <= r <= v.len(),
        r < v.len() ==> footer_at(v@, r as int) is Some,
{
    let mut r: usize = i;
    while r < v.len()
        invariant
            i <= r <= v.len(),
            markers.ready(),
            footer_start(v@, r as int) == footer_start(v@, i as int),
        decreases v.len() - r,
    {
        if footer_bounds(v, r, markers).is_some() {
            return r;
        }
        r = line_after(v, r);
    }
    r
}

/// The footers on the lines after a line that begins no footer are those from
/// the next line that begins one.
proof fn lemma_footers_skip(s: Seq<char>, i: int)
    requires
        0 <= i <= s.len(),
    ensures
        footers_from(s, i) == footers_from(s, footer_start(s, i)),
        i <= footer_start(s, i) <= s.len(),
    decreases s.len() - i,
{
    if i < s.len() && footer_at(s, i) is None {
        lemma_first_in(s, i, CharClass::LineEnd);
        lemma_footers_skip(s, next_line(s, i));
    }
}

proof fn lemma_breaking_footer_push(fs: Seq<FooterView>, f: FooterView)
    ensures
        has_breaking_footer(fs.push(f)) == (has_breaking_footer(fs) || is_breaking_token(
            f.token,
        )),
{
    let ext = fs.push(f);
    if has_breaking_footer(fs) {
        let i = choose|i: int| 0 <= i < fs.len() && is_breaking_token((#[trigger] fs[i]).token);
        assert(is_breaking_token(ext[i].token));
    }
    if is_breaking_token(f.token) {
        assert(is_breaking_token(ext[fs.len() as int].token));
    }
    if has_breaking_footer(ext) {
        let i = choose|i: int| 0 <= i < ext.len() && is_breaking_token((#[trigger] ext[i]).token);
        if i < fs.len() {
            assert(is_breaking_token(fs[i].token));
        }
    }
}

/// Reads the footers of `v` from the first footer line `start` on.
fn read_footers(message: &str, v: &Vec<char>, start: usize, markers: &Markers) -> (r: (
    Vec<Footer>,
    bool,
))
    requires
        v@ == message@,
        start <= v.len(),
        start < v.len() ==> footer_at(v@, start as int) is Some,
        markers.ready(),
    ensures
        footer_views(r.0@) == footers_from(v@, start as int),
        r.1 == has_breaking_footer(footers_from(v@, start as int)),
{
    let ghost s = v@;
    let mut footers: Vec<Footer> = Vec::new();
    let mut breaking = false;
    let mut pos: usize = start;
    assert(footer_views(footers@) =~= Seq::<FooterView>::empty());
    assert(Seq::<FooterView>::empty() + footers_from(s, pos as int) =~= footers_from(
        s,
        start as int,
    ));
    while pos < v.len()
        invariant
            s == v@,
            v@ == message@,
            markers.ready(),
            pos <= v.len(),
            pos < v.len() ==> footer_at(s, pos as int) is Some,
            footer_views(footers@) + footers_from(s, pos as int) == footers_from(s, start as int),
            breaking == has_breaking_footer(footer_views(footers@)),
        decreases v.len() - pos,
    {
        let bounds = footer_bounds(v, pos, markers);
        let (token_end, value_start) = bounds.unwrap();
        let following = line_after(v, pos);
        let next = find_footer(v, following, markers);
        let (a, b) = trimmed_range(v, value_start, next, CharClass::Text);
        let token = slice_of(message, pos, token_end);
        let value = slice_of(message, a, b);
        let marks = text_is(&token, "BREAKING CHANGE") || text_is(&token, "BREAKING-CHANGE");
        let footer = Footer { token, value };
        proof {
            let before = footer_views(footers@);
            lemma_footers_skip(s, following as int);
            lemma_breaking_footer_push(before, footer@);
            assert(footer@ == footer_of(s, pos as int));
            assert(footer_views(footers@.push(footer)) =~= before.push(footer@));
            assert(before.push(footer@) + footers_from(s, next as int) =~= before + (seq![
                footer_of(s, pos as int),
            ] + footers_from(s, following as int)));
        }
        if marks {
            breaking = true;
        }
        footers.push(footer);
        pos = next;
    }
    proof {
        assert(footer_views(footers@) + Seq::<FooterView>::empty() =~= footer_views(footers@));
    }
    (footers, breaking)
}

/// Parses one commit message against the recognized types.
///
/// The header decides between a message and a violation, in this order:
/// a first line that has not the shape of a header is `MalformedHeader`; a
/// type that is not recognized is `UnknownType`; empty parentheses are
/// `EmptyScope`; nothing but blanks after the colon is `MissingDescription`.
/// Otherwise the message comes back, with `breaking` set by a `!` before the
/// colon or by a breaking-change footer.
pub fn parse(raw_message: &str, recognized_types: &Vec<String>) -> (r: Result<
    Message,
    ViolationReason,
>)
    ensures
        match parse_spec(raw_message@, name_set(recognized_types@)) {
            Ok(m) => r is Ok && r->Ok_0@ == m && valid_message(m, name_set(recognized_types@)),
            Err(e) => r is Err && r->Err_0 == e,
        },
{
    proof {
        if parse_spec(raw_message@, name_set(recognized_types@)) is Ok {
            lemma_parsed_is_valid(raw_message@, name_set(recognized_types@));
        }
    }
    let v = chars_of(raw_message);
    let ghost s = v@;
    let n = v.len();
    let t = find(&v, 0, CharClass::TypeEnd);
    if t == 0 || t >= n {
        return Err(ViolationReason::MalformedHeader);
    }
    let scoped = v[t] == '(';
    let close = find(&v, t + 1, CharClass::ScopeEnd);
    if scoped && (close >= n || v[close] != ')') {
        return Err(ViolationReason::MalformedHeader);
    }
    let after = if scoped {
        close + 1
    } else {
        t
    };
    let bang = after < n && v[after] == '!';
    let colon = if bang {
        after + 1
    } else {
        after
    };
    let line_end = find(&v, 0, CharClass::LineEnd);
    if colon >= n || v[colon] != ':' {
        return Err(ViolationReason::MalformedHeader);
    }
    if colon + 1 < line_end && v[colon + 1] != ' ' {
        return Err(ViolationReason::MalformedHeader);
    }
    let commit_type = slice_of(raw_message, 0, t);
    if !has_name(recognized_types, &commit_type) {
        return Err(ViolationReason::UnknownType);
    }
    if scoped && close == t + 1 {
        return Err(ViolationReason::EmptyScope);
    }
    let (da, db) = trimmed_range(&v, colon + 1, line_end, CharClass::Ink);
    if da == db {
        return Err(ViolationReason::MissingDescription);
    }
    let description = slice_of(raw_message, da, db);
    let scope = if scoped {
        Some(slice_of(raw_message, t + 1, close))
    } else {
        None
    };
    let markers = Markers::new();
    let rest = line_after(&v, 0);
    let first_footer = find_footer(&v, rest, &markers);
    let (ba, bb) = trimmed_range(&v, rest, first_footer, CharClass::Text);
    let body = if ba == bb {
        None
    } else {
        Some(slice_of(raw_message, ba, bb))
    };
    proof {
        lemma_footers_skip(s, rest as int);
    }
    let (footers, marked) = read_footers(raw_message, &v, first_footer, &markers);
    Ok(Message { commit_type, scope, description, body, breaking: bang || marked, footers })
}

/// Parses a raw commit: the record of a message that follows the grammar,
/// with hash, author and time as they came, or the violation with the hash,
/// the message and the reason.
pub fn parse_commit(raw: &RawCommit, recognized_types: &Vec<String>) -> (r: Result<
    CommitRecord,
    CommitViolation,
>)
    ensures
        match parse_commit_spec(raw@, name_set(recognized_types@)) {
            Ok(c) => r is Ok && r->Ok_0@ == c,
            Err(e) => r is Err && r->Err_0@ == e,
        },
{
    match parse(raw.message.as_str(), recognized_types) {
        Ok(m) => Ok(
            CommitRecord {
                commit_type: m.commit_type,
                scope: m.scope,
                description: m.description,
                body: m.body,
                breaking: m.breaking,
                footers: m.footers,
                source_hash: raw.source_hash.clone(),
                author: raw.author.clone(),
                timestamp: raw.timestamp,
            },
        ),
        Err(reason) => Err(
            CommitViolation {
                source_hash: raw.source_hash.clone(),
                raw_message: raw.message.clone(),
                reason,
            },
        ),
    }
}

/// Parsing is a function of the characters of the message and of the set
/// of recognized types: two calls on messages with the same characters give
/// the same, whenever they are made, and the order in which the types are
/// listed, and a name listed twice, make no difference.
pub proof fn law_parse_is_deterministic(
    message1: &str,
    message2: &str,
    types1: Seq<String>,
    types2: Seq<String>,
)
    requires
        message1@ == message2@,
        forall|t: Seq<char>| name_set(types1).contains(t) == name_set(types2).contains(t),
    ensures
        parse_spec(message1@, name_set(types1)) == parse_spec(message2@, name_set(types2)),
{
    assert(name_set(types1) =~= name_set(types2));
}

/// The parts of a report on a batch of raw commits.
#[derive(Clone, Debug, PartialEq, Eq)]
pub struct ParseReport {
    /// The records of the commits that follow the grammar, in input order.
    pub records: Vec<CommitRecord>,
    /// The violations of the others, in input order.
    pub violations: Vec<CommitViolation>,
}

/// The records of those of `raws` that follow the grammar, in their order.
pub open spec fn accepted(raws: Seq<RawView>, types: Set<Seq<char>>) -> Seq<CommitView>
    decreases raws.len(),
{
    if raws.len() == 0 {
        Seq::<CommitView>::empty()
    } else {
        let before = accepted(raws.drop_last(), types);
        match parse_commit_spec(raws.last(), types) {
            Ok(c) => before.push(c),
            Err(_) => before,
        }
    }
}

/// The violations of those of `raws` that break the grammar, in their order.
pub open spec fn rejected(raws: Seq<RawView>, types: Set<Seq<char>>) -> Seq<ViolationView>
    decreases raws.len(),
{
    if raws.len() == 0 {
        Seq::<ViolationView>::empty()
    } else {
        let before = rejected(raws.drop_last(), types);
        match parse_commit_spec(raws.last(), types) {
            Ok(_) => before,
            Err(v) => before.push(v),
        }
    }
}

/// The views of the items of a list, in its order.
pub open spec fn raw_views(raws: Seq<RawCommit>) -> Seq<RawView> {
    Seq::new(raws.len(), |i: int| raws[i]@)
}

/// Parses every commit of a batch. No commit stops the batch: each one adds
/// a record or a violation, and both lists keep the order of the input.
pub fn parse_all(raws: &Vec<RawCommit>, recognized_types: &Vec<String>) -> (r: ParseReport)
    ensures
        commit_views(r.records@) == accepted(raw_views(raws@), name_set(recognized_types@)),
        violation_views(r.violations@) == rejected(
            raw_views(raws@),
            name_set(recognized_types@),
        ),
        r.records.len() + r.violations.len() == raws.len(),
{
    let ghost all = raw_views(raws@);
    let ghost types = name_set(recognized_types@);
    let mut records: Vec<CommitRecord> = Vec::new();
    let mut violations: Vec<CommitViolation> = Vec::new();
    let mut i: usize = 0;
    assert(commit_views(records@) =~= accepted(all.take(0), types));
    assert(violation_views(violations@) =~= rejected(all.take(0), types));
    while i < raws.len()
        invariant
            i <= raws.len(),
            all == raw_views(raws@),
            types == name_set(recognized_types@),
            commit_views(records@) == accepted(all.take(i as int), types),
            violation_views(violations@) == rejected(all.take(i as int), types),
            records.len() + violations.len() == i,
        decreases raws.len() - i,
    {
        let ghost old_records = commit_views(records@);
        let ghost old_violations = violation_views(violations@);
        proof {
            assert(all.take(i + 1).drop_last() =~= all.take(i as int));
            assert(all.take(i + 1).last() == raws@[i as int]@);
        }
        match parse_commit(&raws[i], recognized_types) {
            Ok(c) => {
                records.push(c);
                assert(commit_views(records@) =~= old_records.push(c@));
            },
            Err(v) => {
                violations.push(v);
                assert(violation_views(violations@) =~= old_violations.push(v@));
            },
        }
        i += 1;
    }
    proof {
        assert(all.take(raws.len() as int) =~= all);
    }
    ParseReport { records, violations }
}

/// What a caller makes of a report: the records, where every commit
/// follows the grammar or violations are tolerated; else the violations.
pub open spec fn conclusion(
    records: Seq<CommitView>,
    violations: Seq<ViolationView>,
    tolerate: bool,
) -> Result<Seq<CommitView>, Seq<ViolationView>> {
    if tolerate || violations.len() == 0 {
        Ok(records)
    } else {
        Err(violations)
    }
}

impl ParseReport {
    /// Ends a validation pass. A strict pass (`tolerate` is false) fails on
    /// the first violation there is, and hands all of them back; a tolerant
    /// one goes on with the records.
    pub fn conclude(self, tolerate: bool) -> (r: Result<Vec<CommitRecord>, Vec<CommitViolation>>)
        ensures
            match conclusion(
                commit_views(self.records@),
                violation_views(self.violations@),
                tolerate,
            ) {
                Ok(records) => r is Ok && commit_views(r->Ok_0@) == records,
                Err(violations) => r is Err && violation_views(r->Err_0@) == violations,
            },
    {
        if tolerate || self.violations.len() == 0 {
            Ok(self.records)
        } else {
            Err(self.violations)
        }
    }
}

} // verus!
