//! The syntax of a template file.
//!
//! A template file has three lines: the heading of a release, the heading
//! of a section, the line of a commit. A line is written out as it is, but
//! for fields, which stand between `{{` and `}}`; blanks around the name of
//! a field do not count. The heading of a release can hold the fields of a
//! release, that of a section those of a release and of a section, the line
//! of a commit any field.

use vstd::prelude::*;
use vstd::string::*;
use crate::template::{Field, Piece, PieceView, Template, TemplateView, piece_views};
use crate::text::{CharClass, first_in, find, chars_of, slice_of, text_is, trimmed, trimmed_range};

verus! {

/// What can be wrong with a template file.
#[derive(Clone, Copy, Debug, PartialEq, Eq, Structural)]
pub enum TemplateFault {
    /// The file has fewer or more than three lines.
    LineCount,
    /// A `{{` has no `}}` after it on its line.
    Unterminated,
    /// The name between `{{` and `}}` is not the name of a field.
    UnknownField,
    /// The field belongs to something that the line is not written for.
    Misplaced,
}

impl TemplateFault {
    /// A sentence that says what is wrong.
    pub open spec fn detail_text(self) -> Seq<char> {
        match self {
            TemplateFault::LineCount =>
                "a template has three lines: release heading, section heading, commit line"@,
            TemplateFault::Unterminated => "a `{{` is not closed by `}}` on its line"@,
            TemplateFault::UnknownField => "the name between `{{` and `}}` is not a field"@,
            TemplateFault::Misplaced => "a field stands on a line that has no value for it"@,
        }
    }

    /// A sentence that says what is wrong.
    pub fn detail(&self) -> (r: &'static str)
        ensures
            r@ == self.detail_text(),
    {
        match self {
            TemplateFault::LineCount =>
                "a template has three lines: release heading, section heading, commit line",
            TemplateFault::Unterminated => "a `{{` is not closed by `}}` on its line",
            TemplateFault::UnknownField => "the name between `{{` and `}}` is not a field",
            TemplateFault::Misplaced => "a field stands on a line that has no value for it",
        }
    }
}

/// The first index `j` with `i <= j` and `j + 1 < hi` at which `c` stands
/// twice in a row, or `hi` where there is none.
pub open spec fn find_pair(s: Seq<char>, i: int, hi: int, c: char) -> int
    decreases hi - i,
{
    if i < 0 || i + 1 >= hi {
        hi
    } else if s[i] == c && s[i + 1] == c {
        i
    } else {
        find_pair(s, i + 1, hi, c)
    }
}

/// Whether `c` stands at `j` and again right after it.
pub open spec fn is_pair_at(s: Seq<char>, j: int, c: char) -> bool {
    s[j] == c && s[j + 1] == c
}

/// Where a search for a pair ends: no pair lies before it, and it is `hi` or
/// the place of a pair.
pub proof fn lemma_find_pair(s: Seq<char>, i: int, hi: int, c: char)
    requires
        0 <= i <= hi,
    ensures
        i <= find_pair(s, i, hi, c) <= hi,
        find_pair(s, i, hi, c) < hi ==> find_pair(s, i, hi, c) + 1 < hi && is_pair_at(
            s,
            find_pair(s, i, hi, c),
            c,
        ),
        forall|j: int| i <= j < find_pair(s, i, hi, c) && j + 1 < hi ==> !is_pair_at(s, j, c),
    decreases hi - i,
{
    if i + 1 < hi && !(s[i] == c && s[i + 1] == c) {
        lemma_find_pair(s, i + 1, hi, c);
    }
}

proof fn lemma_find_pair_unique(s: Seq<char>, i: int, hi: int, c: char, r: int)
    requires
        0 <= i <= r <= hi,
        r < hi ==> r + 1 < hi && is_pair_at(s, r, c),
        forall|j: int| i <= j < r && j + 1 < hi ==> !is_pair_at(s, j, c),
    ensures
        find_pair(s, i, hi, c) == r,
    decreases hi - i,
{
    if i + 1 < hi && i < r {
        assert(!is_pair_at(s, i, c));
        lemma_find_pair_unique(s, i + 1, hi, c, r);
    }
}

/// The field with a given name.
pub open spec fn field_named(name: Seq<char>) -> Option<Field> {
    if name == "version"@ {
        Some(Field::Version)
    } else if name == "timestamp"@ {
        Some(Field::Timestamp)
    } else if name == "version_link"@ {
        Some(Field::VersionLink)
    } else if name == "title"@ {
        Some(Field::Title)
    } else if name == "type"@ {
        Some(Field::Type)
    } else if name == "scope"@ {
        Some(Field::Scope)
    } else if name == "breaking"@ {
        Some(Field::Breaking)
    } else if name == "description"@ {
        Some(Field::Description)
    } else if name == "hash"@ {
        Some(Field::Hash)
    } else if name == "short_hash"@ {
        Some(Field::ShortHash)
    } else if name == "commit_link"@ {
        Some(Field::CommitLink)
    } else if name == "author"@ {
        Some(Field::Author)
    } else {
        None
    }
}

/// What a field belongs to: 0 for a release, 1 for a section, 2 for a commit.
pub open spec fn field_level(f: Field) -> int {
    match f {
        Field::Version => 0,
        Field::Timestamp => 0,
        Field::VersionLink => 0,
        Field::Title => 1,
        _ => 2,
    }
}

/// The piece for the fixed text `s[a..b]`; nothing for an empty range.
pub open spec fn text_run(s: Seq<char>, a: int, b: int) -> Seq<PieceView> {
    if a < b {
        seq![PieceView::Text(s.subrange(a, b))]
    } else {
        Seq::<PieceView>::empty()
    }
}

/// The pieces of the line `s[i..hi]`, written for the given level, or the
/// first fault in it.
pub open spec fn pieces_spec(s: Seq<char>, i: int, hi: int, level: int) -> Result<
    Seq<PieceView>,
    TemplateFault,
>
    decreases hi - i,
{
    let open = find_pair(s, i, hi, '{');
    if open >= hi {
        Ok(text_run(s, i, hi))
    } else {
        let close = find_pair(s, open + 2, hi, '}');
        if close >= hi {
            Err(TemplateFault::Unterminated)
        } else {
            match field_named(trimmed(s, open + 2, close, CharClass::Ink)) {
                None => Err(TemplateFault::UnknownField),
                Some(f) => if field_level(f) > level {
                    Err(TemplateFault::Misplaced)
                } else {
                    proof {
                        lemma_find_pair(s, i, hi, '{');
                        lemma_find_pair(s, open + 2, hi, '}');
                    }
                    match pieces_spec(s, close + 2, hi, level) {
                        Err(e) => Err(e),
                        Ok(rest) => Ok(text_run(s, i, open) + seq![PieceView::Field(f)] + rest),
                    }
                },
            }
        }
    }
}

/// The template that a file holds, or the first fault in it.
pub open spec fn compile_spec(s: Seq<char>) -> Result<TemplateView, TemplateFault> {
    let e1 = first_in(s, 0, CharClass::LineEnd);
    let e2 = first_in(s, e1 + 1, CharClass::LineEnd);
    let e3 = first_in(s, e2 + 1, CharClass::LineEnd);
    if e1 >= s.len() || e2 >= s.len() || e3 + 1 < s.len() {
        Err(TemplateFault::LineCount)
    } else {
        match pieces_spec(s, 0, e1, 0) {
            Err(e) => Err(e),
            Ok(release) => match pieces_spec(s, e1 + 1, e2, 1) {
                Err(e) => Err(e),
                Ok(section) => match pieces_spec(s, e2 + 1, e3, 2) {
                    Err(e) => Err(e),
                    Ok(commit) => Ok(TemplateView { release, section, commit }),
                },
            },
        }
    }
}

fn scan_pair(v: &Vec<char>, i: usize, hi: usize, c: char) -> (r: usize)
    requires
        i <= hi <= v.len(),
    ensures
        r == find_pair(v@, i as int, hi as int, c),
        i <= r <= hi,
        r < hi ==> r + 1 < hi,
{
    let mut r: usize = i;
    while hi - r >= 2 && !(v[r] == c && v[r + 1] == c)
        invariant
            i <= r <= hi <= v.len(),
            forall|j: int| i <= j < r && j + 1 < hi ==> !is_pair_at(v@, j, c),
        decreases hi - r,
    {
        r += 1;
    }
    let r = if hi - r >= 2 {
        r
    } else {
        hi
    };
    proof {
        lemma_find_pair_unique(v@, i as int, hi as int, c, r as int);
    }
    r
}

fn field_by_name(name: &String) -> (r: Option<Field>)
    ensures
        r == field_named(name@),
{
    if text_is(name, "version") {
        Some(Field::Version)
    } else if text_is(name, "timestamp") {
        Some(Field::Timestamp)
    } else if text_is(name, "version_link") {
        Some(Field::VersionLink)
    } else if text_is(name, "title") {
        Some(Field::Title)
    } else if text_is(name, "type") {
        Some(Field::Type)
    } else if text_is(name, "scope") {
        Some(Field::Scope)
    } else if text_is(name, "breaking") {
        Some(Field::Breaking)
    } else if text_is(name, "description") {
        Some(Field::Description)
    } else if text_is(name, "hash") {
        Some(Field::Hash)
    } else if text_is(name, "short_hash") {
        Some(Field::ShortHash)
    } else if text_is(name, "commit_link") {
        Some(Field::CommitLink)
    } else if text_is(name, "author") {
        Some(Field::Author)
    } else {
        None
    }
}

fn level_of(f: Field) -> (r: u8)
    ensures
        r == field_level(f),
{
    match f {
        Field::Version => 0,
        Field::Timestamp => 0,
        Field::VersionLink => 0,
        Field::Title => 1,
        _ => 2,
    }
}

/// `acc` put before what `r` holds.
spec fn after(acc: Seq<PieceView>, r: Result<Seq<PieceView>, TemplateFault>) -> Result<
    Seq<PieceView>,
    TemplateFault,
> {
    match r {
        Ok(rest) => Ok(acc + rest),
        Err(e) => Err(e),
    }
}

fn read_line(source: &str, v: &Vec<char>, lo: usize, hi: usize, level: u8) -> (r: Result<
    Vec<Piece>,
    TemplateFault,
>)
    requires
        v@ == source@,
        lo <= hi <= v.len(),
    ensures
        match pieces_spec(v@, lo as int, hi as int, level as int) {
            Ok(ps) => r is Ok && piece_views(r->Ok_0@) == ps,
            Err(e) => r == Err::<Vec<Piece>, TemplateFault>(e),
        },
{
    let ghost s = v@;
    let ghost goal = pieces_spec(s, lo as int, hi as int, level as int);
    let mut pieces: Vec<Piece> = Vec::new();
    let mut pos: usize = lo;
    assert(piece_views(pieces@) =~= Seq::<PieceView>::empty());
    assert(goal == after(piece_views(pieces@), goal)) by {
        if let Ok(ps) = goal {
            assert(Seq::<PieceView>::empty() + ps =~= ps);
        }
    }
    loop
        invariant
            s == v@,
            v@ == source@,
            lo <= pos <= hi <= v.len(),
            goal == pieces_spec(s, lo as int, hi as int, level as int),
            goal == after(piece_views(pieces@), pieces_spec(s, pos as int, hi as int, level as int)),
        decreases hi - pos,
    {
        let ghost acc = piece_views(pieces@);
        let open = scan_pair(v, pos, hi, '{');
        if open >= hi {
            if pos < hi {
                let run = Piece::Text(slice_of(source, pos, hi));
                pieces.push(run);
                assert(piece_views(pieces@) =~= acc + text_run(s, pos as int, hi as int));
            } else {
                assert(piece_views(pieces@) =~= acc + text_run(s, pos as int, hi as int));
            }
            return Ok(pieces);
        }
        let close = scan_pair(v, open + 2, hi, '}');
        if close >= hi {
            return Err(TemplateFault::Unterminated);
        }
        let (a, b) = trimmed_range(v, open + 2, close, CharClass::Ink);
        let name = slice_of(source, a, b);
        let field = match field_by_name(&name) {
            None => {
                return Err(TemplateFault::UnknownField);
            },
            Some(f) => f,
        };
        if level_of(field) > level {
            return Err(TemplateFault::Misplaced);
        }
        if pos < open {
            pieces.push(Piece::Text(slice_of(source, pos, open)));
        }
        let ghost mid = piece_views(pieces@);
        assert(mid =~= acc + text_run(s, pos as int, open as int));
        pieces.push(Piece::Field(field));
        proof {
            let now = piece_views(pieces@);
            assert(now =~= acc + (text_run(s, pos as int, open as int) + seq![
                PieceView::Field(field),
            ]));
            let tail = pieces_spec(s, close + 2, hi as int, level as int);
            if let Ok(rest) = tail {
                assert(now + rest =~= acc + (text_run(s, pos as int, open as int) + seq![
                    PieceView::Field(field),
                ] + rest));
            }
        }
        pos = close + 2;
    }
}

impl Template {
    /// Reads a template from the text of a template file.
    pub fn compile(source: &str) -> (r: Result<Template, TemplateFault>)
        ensures
            match compile_spec(source@) {
                Ok(t) => r is Ok && r->Ok_0@ == t,
                Err(e) => r == Err::<Template, TemplateFault>(e),
            },
    {
        let v = chars_of(source);
        let n = v.len();
        let e1 = find(&v, 0, CharClass::LineEnd);
        if e1 >= n {
            return Err(TemplateFault::LineCount);
        }
        let e2 = find(&v, e1 + 1, CharClass::LineEnd);
        if e2 >= n {
            return Err(TemplateFault::LineCount);
        }
        let e3 = find(&v, e2 + 1, CharClass::LineEnd);
        if e3 < n && e3 + 1 < n {
            return Err(TemplateFault::LineCount);
        }
        let release = match read_line(source, &v, 0, e1, 0) {
            Err(e) => {
                return Err(e);
            },
            Ok(line) => line,
        };
        let section = match read_line(source, &v, e1 + 1, e2, 1) {
            Err(e) => {
                return Err(e);
            },
            Ok(line) => line,
        };
        let commit = match read_line(source, &v, e2 + 1, e3, 2) {
            Err(e) => {
                return Err(e);
            },
            Ok(line) => line,
        };
        Ok(Template { release, section, commit })
    }
}

} // verus!
