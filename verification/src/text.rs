//! Character classes and scanning on character sequences.
//!
//! Everything the grammar modules need to find a position in a message:
//! the first character of a class at or after an index, the end of a run
//! once trailing characters are stripped, and the decimal form of a number.

use vstd::prelude::*;
use vstd::string::*;

verus! {

/// The classes of characters that a scan can look for.
#[derive(Clone, Copy, Debug)]
pub enum CharClass {
    /// What ends a commit type: a blank, a line feed, or one of `(`, `)`, `!`, `:`.
    TypeEnd,
    /// What ends a scope: `)` or a line feed.
    ScopeEnd,
    /// A line feed.
    LineEnd,
    /// Anything but a blank (a line feed counts as ink).
    Ink,
    /// Anything but a blank or a line feed.
    Text,
    /// Anything that cannot stand in a footer token.
    TokenEnd,
    /// Anything but an ASCII digit.
    NumberEnd,
    /// A dot.
    Dot,
    /// A plus sign.
    Plus,
}

/// Space, tab and carriage return.
pub open spec fn is_blank(c: char) -> bool {
    c == ' ' || c == '\t' || c == '\r'
}

/// ASCII letters, ASCII digits and the hyphen.
pub open spec fn is_token_char(c: char) -> bool {
    ('a' <= c && c <= 'z') || ('A' <= c && c <= 'Z') || ('0' <= c && c <= '9') || c == '-'
}

/// ASCII digits.
pub open spec fn is_digit(c: char) -> bool {
    '0' <= c && c <= '9'
}

/// Whether the character `c` belongs to the class `k`.
pub open spec fn in_class(k: CharClass, c: char) -> bool {
    match k {
        CharClass::TypeEnd => is_blank(c) || c == '\n' || c == '(' || c == ')' || c == '!' || c
            == ':',
        CharClass::ScopeEnd => c == ')' || c == '\n',
        CharClass::LineEnd => c == '\n',
        CharClass::Ink => !is_blank(c),
        CharClass::Text => !is_blank(c) && c != '\n',
        CharClass::TokenEnd => !is_token_char(c),
        CharClass::NumberEnd => !is_digit(c),
        CharClass::Dot => c == '.',
        CharClass::Plus => c == '+',
    }
}

/// Whether the character `c` belongs to the class `k`.
pub fn class_has(k: CharClass, c: char) -> (b: bool)
    ensures
        b == in_class(k, c),
{
    let blank = c == ' ' || c == '\t' || c == '\r';
    match k {
        CharClass::TypeEnd => blank || c == '\n' || c == '(' || c == ')' || c == '!' || c == ':',
        CharClass::ScopeEnd => c == ')' || c == '\n',
        CharClass::LineEnd => c == '\n',
        CharClass::Ink => !blank,
        CharClass::Text => !blank && c != '\n',
        CharClass::TokenEnd => !(('a' <= c && c <= 'z') || ('A' <= c && c <= 'Z') || ('0' <= c
            && c <= '9') || c == '-'),
        CharClass::NumberEnd => !('0' <= c && c <= '9'),
        CharClass::Dot => c == '.',
        CharClass::Plus => c == '+',
    }
}

/// The index of the first character of class `k` at or after `i`, or the
/// length of `s` where there is none.
pub open spec fn first_in(s: Seq<char>, i: int, k: CharClass) -> int
    decreases s.len() - i,
{
    if i < 0 || i >= s.len() {
        s.len() as int
    } else if in_class(k, s[i]) {
        i
    } else {
        first_in(s, i + 1, k)
    }
}

/// `r` is where a scan for class `k` from `i` ends: nothing of the class lies
/// in between, and `r` is the end of `s` or holds a character of the class.
pub open spec fn is_first_in(s: Seq<char>, i: int, k: CharClass, r: int) -> bool {
    &&& i <= r <= s.len()
    &&& forall|j: int| i <= j < r ==> !in_class(k, #[trigger] s[j])
    &&& r < s.len() ==> in_class(k, s[r])
}

/// Where a scan ends: nothing of the class lies before it, and it is the end
/// or holds the class.
pub proof fn lemma_first_in(s: Seq<char>, i: int, k: CharClass)
    requires
        0 <= i <= s.len(),
    ensures
        is_first_in(s, i, k, first_in(s, i, k)),
    decreases s.len() - i,
{
    if i < s.len() && !in_class(k, s[i]) {
        lemma_first_in(s, i + 1, k);
    }
}

/// A place with nothing of the class before it, which is the end or holds
/// the class, is where the scan ends.
pub proof fn lemma_first_in_unique(s: Seq<char>, i: int, k: CharClass, r: int)
    requires
        0 <= i,
        is_first_in(s, i, k, r),
    ensures
        first_in(s, i, k) == r,
    decreases r - i,
{
    if i < r {
        lemma_first_in_unique(s, i + 1, k, r);
    }
}

/// The end of `s[lo..hi]` once trailing characters outside class `k` are
/// taken away: the least `b >= lo` from which nothing up to `hi` is of the class.
pub open spec fn trim_back(s: Seq<char>, lo: int, hi: int, k: CharClass) -> int
    decreases hi - lo,
{
    if hi <= lo {
        lo
    } else if in_class(k, s[hi - 1]) {
        hi
    } else {
        trim_back(s, lo, hi - 1, k)
    }
}

/// `b` is where `s[lo..hi]` ends once trailing characters outside class `k` are taken away.
pub open spec fn is_trim_back(s: Seq<char>, lo: int, hi: int, k: CharClass, b: int) -> bool {
    &&& lo <= b
    &&& b <= hi || hi < lo
    &&& forall|j: int| b <= j < hi ==> !in_class(k, #[trigger] s[j])
    &&& b > lo ==> in_class(k, s[b - 1])
}

/// Where stripping ends: only characters outside the class follow, and the
/// one before is of the class.
pub proof fn lemma_trim_back(s: Seq<char>, lo: int, hi: int, k: CharClass)
    ensures
        is_trim_back(s, lo, hi, k, trim_back(s, lo, hi, k)),
    decreases hi - lo,
{
    if hi > lo && !in_class(k, s[hi - 1]) {
        lemma_trim_back(s, lo, hi - 1, k);
    }
}

/// A place after which only characters outside the class follow, and before
/// which stands one of the class, is where stripping ends.
pub proof fn lemma_trim_back_unique(s: Seq<char>, lo: int, hi: int, k: CharClass, b: int)
    requires
        lo <= hi,
        is_trim_back(s, lo, hi, k, b),
    ensures
        trim_back(s, lo, hi, k) == b,
    decreases hi - lo,
{
    if hi > lo && b < hi {
        lemma_trim_back_unique(s, lo, hi - 1, k, b);
    }
}

/// Scans `v` from `i` for the first character of class `k`.
pub(crate) fn find(v: &Vec<char>, i: usize, k: CharClass) -> (r: usize)
    requires
        i <= v.len(),
    ensures
        r == first_in(v@, i as int, k),
        i <= r <= v.len(),
        r < v.len() ==> in_class(k, v@[r as int]),
{
    let mut r: usize = i;
    while r < v.len() && !class_has(k, v[r])
        invariant
            i <= r <= v.len(),
            forall|j: int| i <= j < r ==> !in_class(k, #[trigger] v@[j]),
        decreases v.len() - r,
    {
        r += 1;
    }
    proof {
        lemma_first_in_unique(v@, i as int, k, r as int);
    }
    r
}

/// Walks back from `hi` over the characters of `v` that are outside class `k`,
/// no further than `lo`.
pub(crate) fn find_back(v: &Vec<char>, lo: usize, hi: usize, k: CharClass) -> (b: usize)
    requires
        lo <= hi <= v.len(),
    ensures
        b == trim_back(v@, lo as int, hi as int, k),
        lo <= b <= hi,
{
    let mut b: usize = hi;
    while b > lo && !class_has(k, v[b - 1])
        invariant
            lo <= b <= hi <= v.len(),
            forall|j: int| b <= j < hi ==> !in_class(k, #[trigger] v@[j]),
        decreases b - lo,
    {
        b -= 1;
    }
    proof {
        lemma_trim_back_unique(v@, lo as int, hi as int, k, b as int);
    }
    b
}

/// `s[lo..hi]` without the characters outside class `k` at its two ends.
pub open spec fn trimmed(s: Seq<char>, lo: int, hi: int, k: CharClass) -> Seq<char> {
    let a = first_in(s, lo, k);
    if a >= hi {
        Seq::<char>::empty()
    } else {
        s.subrange(a, trim_back(s, a, hi, k))
    }
}

/// The bounds of `v[lo..hi]` without the characters outside class `k` at its ends.
pub(crate) fn trimmed_range(v: &Vec<char>, lo: usize, hi: usize, k: CharClass) -> (r: (usize, usize))
    requires
        lo <= v.len(),
        hi <= v.len(),
    ensures
        r.0 <= r.1 <= v.len(),
        v@.subrange(r.0 as int, r.1 as int) == trimmed(v@, lo as int, hi as int, k),
{
    let a = find(v, lo, k);
    if a >= hi {
        assert(v@.subrange(hi as int, hi as int) =~= Seq::<char>::empty());
        (hi, hi)
    } else {
        let b = find_back(v, a, hi, k);
        (a, b)
    }
}

/// The characters of a string, one by one.
pub fn chars_of(s: &str) -> (v: Vec<char>)
    ensures
        v@ == s@,
{
    let mut v: Vec<char> = Vec::new();
    for c in it: s.chars()
        invariant
            it.seq() == s@,
            v@ == it.history(),
    {
        v.push(c);
    }
    v
}

/// The characters of `s` from `a` up to `b`, as a string of their own.
pub(crate) fn slice_of(s: &str, a: usize, b: usize) -> (r: String)
    requires
        a <= b <= s@.len(),
    ensures
        r@ == s@.subrange(a as int, b as int),
{
    s.substring_char(a, b).to_owned()
}

/// Whether a string holds exactly the characters of `lit`.
pub fn text_is(s: &String, lit: &str) -> (r: bool)
    ensures
        r == (s@ == lit@),
{
    *s == lit.to_owned()
}

/// Whether two string slices hold the same characters.
pub fn same_text(a: &str, b: &str) -> (r: bool)
    ensures
        r == (a@ == b@),
{
    a.to_owned() == b.to_owned()
}

/// Whether `v` holds the characters of `lit` from index `i` on.
pub open spec fn has_at(s: Seq<char>, i: int, lit: Seq<char>) -> bool {
    0 <= i && i + lit.len() <= s.len() && s.subrange(i, i + lit.len()) == lit
}

pub(crate) fn starts_at(v: &Vec<char>, i: usize, lit: &Vec<char>) -> (r: bool)
    requires
        i <= v.len(),
    ensures
        r == has_at(v@, i as int, lit@),
{
    if lit.len() > v.len() - i {
        return false;
    }
    let mut j: usize = 0;
    while j < lit.len()
        invariant
            i + lit.len() <= v.len(),
            j <= lit.len(),
            forall|m: int| 0 <= m < j ==> v@[i + m] == lit@[m],
        decreases lit.len() - j,
    {
        if v[i + j] != lit[j] {
            proof {
                assert(v@.subrange(i as int, i + lit.len())[j as int] == v@[i + j]);
            }
            return false;
        }
        j += 1;
    }
    proof {
        assert(v@.subrange(i as int, i + lit.len()) =~= lit@);
    }
    true
}

/// The character of a decimal digit.
pub open spec fn digit_char(d: int) -> char {
    if d == 0 {
        '0'
    } else if d == 1 {
        '1'
    } else if d == 2 {
        '2'
    } else if d == 3 {
        '3'
    } else if d == 4 {
        '4'
    } else if d == 5 {
        '5'
    } else if d == 6 {
        '6'
    } else if d == 7 {
        '7'
    } else if d == 8 {
        '8'
    } else {
        '9'
    }
}

/// A number in decimal, without sign and without leading zeros.
pub open spec fn decimal(n: nat) -> Seq<char>
    decreases n,
{
    if n < 10 {
        seq![digit_char(n as int)]
    } else {
        decimal(n / 10).push(digit_char((n % 10) as int))
    }
}

fn digit_text(d: u64) -> (r: &'static str)
    requires
        d < 10,
    ensures
        r@ == seq![digit_char(d as int)],
{
    proof {
        reveal_strlit("0");
        reveal_strlit("1");
        reveal_strlit("2");
        reveal_strlit("3");
        reveal_strlit("4");
        reveal_strlit("5");
        reveal_strlit("6");
        reveal_strlit("7");
        reveal_strlit("8");
        reveal_strlit("9");
    }
    let r = if d == 0 {
        "0"
    } else if d == 1 {
        "1"
    } else if d == 2 {
        "2"
    } else if d == 3 {
        "3"
    } else if d == 4 {
        "4"
    } else if d == 5 {
        "5"
    } else if d == 6 {
        "6"
    } else if d == 7 {
        "7"
    } else if d == 8 {
        "8"
    } else {
        "9"
    };
    assert(r@ =~= seq![digit_char(d as int)]);
    r
}

/// Appends `n` in decimal to `out`.
pub fn push_decimal(out: &mut String, n: u64)
    ensures
        final(out)@ == old(out)@ + decimal(n as nat),
    decreases n,
{
    if n >= 10 {
        push_decimal(out, n / 10);
    }
    out.append(digit_text(n % 10));
    proof {
        if n >= 10 {
            assert(old(out)@ + decimal((n / 10) as nat) + seq![digit_char((n % 10) as int)]
                =~= old(out)@ + decimal(n as nat));
        }
    }
}

} // verus!
