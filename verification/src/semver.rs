//! Reading a version from its text, `MAJOR.MINOR.PATCH[-PRERELEASE][+BUILD]`.
//!
//! The three numbers are written in decimal without leading zeros. The
//! pre-release tag and the build metadata are identifiers separated by
//! dots; an identifier is a non-empty run of ASCII letters, digits and
//! hyphens, and in a pre-release tag one that is all digits has no leading zero.

use vstd::prelude::*;
use vstd::string::*;
use crate::text::{
    CharClass,
    in_class,
    is_digit,
    is_token_char,
    first_in,
    is_first_in,
    lemma_first_in,
    find,
    chars_of,
    slice_of,
};
use crate::text::{decimal, digit_char, lemma_first_in_unique};
use crate::version::{Version, VersionView, version_text};

verus! {

/// The value of a decimal digit.
pub open spec fn digit_value(c: char) -> nat {
    if c == '1' {
        1
    } else if c == '2' {
        2
    } else if c == '3' {
        3
    } else if c == '4' {
        4
    } else if c == '5' {
        5
    } else if c == '6' {
        6
    } else if c == '7' {
        7
    } else if c == '8' {
        8
    } else if c == '9' {
        9
    } else {
        0
    }
}

/// The value of a run of decimal digits.
pub open spec fn number_value(s: Seq<char>) -> nat
    decreases s.len(),
{
    if s.len() == 0 {
        0
    } else {
        number_value(s.drop_last()) * 10 + digit_value(s.last())
    }
}

/// Whether the digits `s[lo..hi]` write a number: there is one digit at
/// least, and no zero before another digit.
pub open spec fn writes_number(s: Seq<char>, lo: int, hi: int) -> bool {
    lo < hi && (hi - lo == 1 || s[lo] != '0')
}

/// Whether an identifier begins at `i`: at the start, or after a dot.
pub open spec fn begins_identifier(s: Seq<char>, i: int) -> bool {
    i == 0 || s[i - 1] == '.'
}

/// Whether `s[a..b]` holds digits only.
pub open spec fn all_digits(s: Seq<char>, a: int, b: int) -> bool {
    forall|j: int| a <= j < b ==> is_digit(#[trigger] s[j])
}

/// Whether the identifier that begins at `i` is well formed.
pub open spec fn identifier_ok(s: Seq<char>, i: int, strict: bool) -> bool {
    let e = first_in(s, i, CharClass::Dot);
    &&& i < e
    &&& strict && e - i > 1 && all_digits(s, i, e) ==> s[i] != '0'
}

/// Whether `s` is a list of identifiers separated by dots. With `strict`,
/// an identifier of digits only has no leading zero.
pub open spec fn valid_identifiers(s: Seq<char>, strict: bool) -> bool {
    &&& s.len() > 0
    &&& forall|j: int| 0 <= j < s.len() ==> is_token_char(#[trigger] s[j]) || s[j] == '.'
    &&& forall|i: int|
        0 <= i <= s.len() && #[trigger] begins_identifier(s, i) ==> identifier_ok(s, i, strict)
}

/// The version that a text writes, or `None` where it writes none, or a
/// number that does not fit.
pub open spec fn parse_version_spec(s: Seq<char>) -> Option<VersionView> {
    let a = first_in(s, 0, CharClass::NumberEnd);
    let b = first_in(s, a + 1, CharClass::NumberEnd);
    let c = first_in(s, b + 1, CharClass::NumberEnd);
    let plus = first_in(s, c, CharClass::Plus);
    let major = number_value(s.subrange(0, a));
    let minor = number_value(s.subrange(a + 1, b));
    let patch = number_value(s.subrange(b + 1, c));
    let pre = if c < s.len() && s[c] == '-' {
        Some(s.subrange(c + 1, plus))
    } else {
        None
    };
    let build = if plus < s.len() {
        Some(s.subrange(plus + 1, s.len() as int))
    } else {
        None
    };
    if a >= s.len() || s[a] != '.' || b >= s.len() || s[b] != '.' {
        None
    } else if !writes_number(s, 0, a) || !writes_number(s, a + 1, b) || !writes_number(
        s,
        b + 1,
        c,
    ) {
        None
    } else if major > u64::MAX || minor > u64::MAX || patch > u64::MAX {
        None
    } else if c < s.len() && s[c] != '-' && s[c] != '+' {
        None
    } else if pre is Some && !valid_identifiers(pre->0, true) {
        None
    } else if build is Some && !valid_identifiers(build->0, false) {
        None
    } else {
        Some(VersionView { major, minor, patch, pre, build })
    }
}

proof fn lemma_number_grows(s: Seq<char>, i: int)
    requires
        0 <= i <= s.len(),
    ensures
        number_value(s.take(i)) <= number_value(s),
    decreases s.len() - i,
{
    if i < s.len() {
        lemma_number_grows(s.drop_last(), i);
        assert(s.drop_last().take(i) =~= s.take(i));
    } else {
        assert(s.take(i) =~= s);
    }
}

fn digit_of(c: char) -> (d: u64)
    ensures
        d == digit_value(c),
        d <= 9,
{
    if c == '1' {
        1
    } else if c == '2' {
        2
    } else if c == '3' {
        3
    } else if c == '4' {
        4
    } else if c == '5' {
        5
    } else if c == '6' {
        6
    } else if c == '7' {
        7
    } else if c == '8' {
        8
    } else if c == '9' {
        9
    } else {
        0
    }
}

/// The value of the digits `v[lo..hi]`, or `None` where it does not fit.
fn read_number(v: &Vec<char>, lo: usize, hi: usize) -> (r: Option<u64>)
    requires
        lo <= hi <= v.len(),
    ensures
        match r {
            Some(n) => n == number_value(v@.subrange(lo as int, hi as int)),
            None => number_value(v@.subrange(lo as int, hi as int)) > u64::MAX,
        },
{
    let ghost digits = v@.subrange(lo as int, hi as int);
    let mut acc: u64 = 0;
    let mut i: usize = lo;
    assert(digits.take(0) =~= Seq::<char>::empty());
    while i < hi
        invariant
            lo <= i <= hi <= v.len(),
            digits == v@.subrange(lo as int, hi as int),
            acc == number_value(digits.take(i - lo)),
        decreases hi - i,
    {
        let d = digit_of(v[i]);
        proof {
            let next = digits.take(i - lo + 1);
            assert(next.drop_last() =~= digits.take(i - lo));
            assert(next.last() == v@[i as int]);
            lemma_number_grows(digits, i - lo + 1);
        }
        if acc > (u64::MAX - d) / 10 {
            return None;
        }
        acc = acc * 10 + d;
        i += 1;
    }
    assert(digits.take(hi - lo) =~= digits);
    Some(acc)
}

/// Checks a list of identifiers.
fn check_identifiers(text: &str, strict: bool) -> (ok: bool)
    ensures
        ok == valid_identifiers(text@, strict),
{
    let v = chars_of(text);
    let ghost s = v@;
    let n = v.len();
    if n == 0 {
        return false;
    }
    let mut pos: usize = 0;
    loop
        invariant
            s == v@,
            s == text@,
            n == v.len(),
            n > 0,
            pos <= n,
            begins_identifier(s, pos as int),
            forall|j: int| 0 <= j < pos ==> is_token_char(#[trigger] s[j]) || s[j] == '.',
            forall|i: int|
                0 <= i < pos && #[trigger] begins_identifier(s, i) ==> identifier_ok(s, i, strict),
        decreases n - pos,
    {
        let e = find(&v, pos, CharClass::Dot);
        proof {
            lemma_first_in(s, pos as int, CharClass::Dot);
        }
        if e == pos {
            assert(!identifier_ok(s, pos as int, strict));
            return false;
        }
        let mut j: usize = pos;
        let mut digits = true;
        while j < e
            invariant
                s == v@,
                s == text@,
                pos <= j <= e <= n,
                n == v.len(),
                forall|m: int| pos <= m < e ==> !in_class(CharClass::Dot, #[trigger] s[m]),
                forall|m: int| pos <= m < j ==> is_token_char(#[trigger] s[m]),
                digits == all_digits(s, pos as int, j as int),
            decreases e - j,
        {
            let c = v[j];
            let digit = '0' <= c && c <= '9';
            let token = digit || ('a' <= c && c <= 'z') || ('A' <= c && c <= 'Z') || c == '-';
            if !token {
                assert(!(is_token_char(s[j as int]) || s[j as int] == '.'));
                return false;
            }
            proof {
                if digits && !digit {
                    assert(!is_digit(s[j as int]));
                }
            }
            digits = digits && digit;
            j += 1;
        }
        if strict && digits && e - pos > 1 && v[pos] == '0' {
            assert(!identifier_ok(s, pos as int, strict));
            return false;
        }
        assert(identifier_ok(s, pos as int, strict));
        assert forall|i: int|
            0 <= i <= e && #[trigger] begins_identifier(s, i) implies identifier_ok(
            s,
            i,
            strict,
        ) by {
            if pos < i {
                assert(s[i - 1] != '.');
            }
        }
        if e >= n {
            return true;
        }
        pos = e + 1;
    }
}

impl Version {
    /// Reads a version from its text. What comes back is a valid version,
    /// and its text is the text that was read.
    pub fn parse(text: &str) -> (r: Option<Version>)
        ensures
            match parse_version_spec(text@) {
                Some(v) => r is Some && r->0@ == v && valid_version(v),
                None => r is None,
            },
    {
        let v = chars_of(text);
        let n = v.len();
        let a = find(&v, 0, CharClass::NumberEnd);
        if a >= n || v[a] != '.' {
            return None;
        }
        let b = find(&v, a + 1, CharClass::NumberEnd);
        if b >= n || v[b] != '.' {
            return None;
        }
        let c = find(&v, b + 1, CharClass::NumberEnd);
        let plus = find(&v, c, CharClass::Plus);
        if !(a > 0 && (a == 1 || v[0] != '0')) {
            return None;
        }
        if !(b > a + 1 && (b - a == 2 || v[a + 1] != '0')) {
            return None;
        }
        if !(c > b + 1 && (c - b == 2 || v[b + 1] != '0')) {
            return None;
        }
        let major = read_number(&v, 0, a);
        let minor = read_number(&v, a + 1, b);
        let patch = read_number(&v, b + 1, c);
        if major.is_none() || minor.is_none() || patch.is_none() {
            return None;
        }
        if c < n && v[c] != '-' && v[c] != '+' {
            return None;
        }
        let pre = if c < n && v[c] == '-' {
            Some(slice_of(text, c + 1, plus))
        } else {
            None
        };
        let build = if plus < n {
            Some(slice_of(text, plus + 1, n))
        } else {
            None
        };
        if let Some(p) = &pre {
            if !check_identifiers(p.as_str(), true) {
                return None;
            }
        }
        if let Some(m) = &build {
            if !check_identifiers(m.as_str(), false) {
                return None;
            }
        }
        Some(
            Version { major: major.unwrap(), minor: minor.unwrap(), patch: patch.unwrap(), pre, build },
        )
    }
}

impl Version {
    /// The version with a pre-release tag in place of the one it has, or
    /// `None` where the tag is not a list of identifiers.
    pub fn with_pre_release(self, tag: &str) -> (r: Option<Version>)
        ensures
            valid_identifiers(tag@, true) ==> r is Some && r->0@ == (VersionView {
                pre: Some(tag@),
                ..self@
            }),
            !valid_identifiers(tag@, true) ==> r is None,
    {
        if check_identifiers(tag, true) {
            Some(
                Version {
                    major: self.major,
                    minor: self.minor,
                    patch: self.patch,
                    pre: Some(tag.to_owned()),
                    build: self.build,
                },
            )
        } else {
            None
        }
    }
}

/// The decimal form of a number is a run of digits that writes the number.
pub proof fn lemma_decimal(n: nat)
    ensures
        decimal(n).len() > 0,
        all_digits(decimal(n), 0, decimal(n).len() as int),
        n > 0 ==> decimal(n)[0] != '0',
        n == 0 ==> decimal(n).len() == 1,
        number_value(decimal(n)) == n,
    decreases n,
{
    let d = decimal(n);
    if n < 10 {
        assert(d =~= seq![digit_char(n as int)]);
        assert(d.drop_last() =~= Seq::<char>::empty());
        assert(number_value(d.drop_last()) == 0);
        assert(d.last() == digit_char(n as int));
    } else {
        let head = decimal(n / 10);
        lemma_decimal(n / 10);
        assert(d == head.push(digit_char((n % 10) as int)));
        assert(d.drop_last() =~= head);
        assert(d.last() == digit_char((n % 10) as int));
        assert(d[0] == head[0]);
        assert forall|j: int| 0 <= j < d.len() implies is_digit(#[trigger] d[j]) by {
            if j < head.len() {
                assert(d[j] == head[j]);
            }
        }
    }
}

/// What holds of a version whose text can be read back: its numbers fit,
/// and its tag and its metadata are lists of identifiers.
pub open spec fn valid_version(v: VersionView) -> bool {
    &&& v.major <= u64::MAX
    &&& v.minor <= u64::MAX
    &&& v.patch <= u64::MAX
    &&& v.pre matches Some(p) ==> valid_identifiers(p, true)
    &&& v.build matches Some(b) ==> valid_identifiers(b, false)
}

/// Reading the text of a valid version gives the version back.
pub proof fn law_version_round_trip(v: VersionView)
    requires
        valid_version(v),
    ensures
        parse_version_spec(version_text(v)) == Some(v),
{
    reveal_strlit(".");
    reveal_strlit("-");
    reveal_strlit("+");
    let s = version_text(v);
    let d1 = decimal(v.major);
    let d2 = decimal(v.minor);
    let d3 = decimal(v.patch);
    let pre_part = match v.pre {
        Some(p) => "-"@ + p,
        None => Seq::<char>::empty(),
    };
    let build_part = match v.build {
        Some(b) => "+"@ + b,
        None => Seq::<char>::empty(),
    };
    lemma_decimal(v.major);
    lemma_decimal(v.minor);
    lemma_decimal(v.patch);
    let a = d1.len() as int;
    let b = a + 1 + d2.len();
    let c = b + 1 + d3.len();
    let plus = c + pre_part.len();
    let n = s.len() as int;
    assert(s == d1 + "."@ + d2 + "."@ + d3 + pre_part + build_part);
    assert(n == plus + build_part.len());
    assert forall|j: int| 0 <= j < a implies s[j] == d1[j] by {}
    assert(s[a] == '.');
    assert forall|j: int| a + 1 <= j < b implies s[j] == d2[j - a - 1] by {}
    assert(s[b] == '.');
    assert forall|j: int| b + 1 <= j < c implies s[j] == d3[j - b - 1] by {}
    assert forall|j: int| c <= j < plus implies s[j] == pre_part[j - c] by {}
    assert forall|j: int| plus <= j < n implies s[j] == build_part[j - plus] by {}
    // the three numbers end where the text says
    assert(is_first_in(s, 0, CharClass::NumberEnd, a));
    lemma_first_in_unique(s, 0, CharClass::NumberEnd, a);
    assert(is_first_in(s, a + 1, CharClass::NumberEnd, b));
    lemma_first_in_unique(s, a + 1, CharClass::NumberEnd, b);
    assert(c < n ==> !is_digit(s[c])) by {
        if c < n {
            if v.pre is Some {
                assert(s[c] == pre_part[0]);
            } else {
                assert(v.build is Some);
                assert(s[c] == build_part[0]);
            }
        }
    }
    assert(is_first_in(s, b + 1, CharClass::NumberEnd, c));
    lemma_first_in_unique(s, b + 1, CharClass::NumberEnd, c);
    assert(s.subrange(0, a) =~= d1);
    assert(s.subrange(a + 1, b) =~= d2);
    assert(s.subrange(b + 1, c) =~= d3);
    assert(s[0] == d1[0]);
    assert(s[a + 1] == d2[0]);
    assert(s[b + 1] == d3[0]);
    // the tag runs up to the plus sign, the metadata to the end
    assert forall|j: int| c <= j < plus implies !in_class(CharClass::Plus, #[trigger] s[j]) by {
        let p = v.pre->0;
        assert(s[j] == pre_part[j - c]);
        if j > c {
            assert(pre_part[j - c] == p[j - c - 1]);
            assert(is_token_char(p[j - c - 1]) || p[j - c - 1] == '.');
        }
    }
    assert(plus < n ==> s[plus] == '+') by {
        if plus < n {
            assert(s[plus] == build_part[0]);
        }
    }
    assert(is_first_in(s, c, CharClass::Plus, plus));
    lemma_first_in_unique(s, c, CharClass::Plus, plus);
    if let Some(p) = v.pre {
        assert(s[c] == pre_part[0]);
        assert(s.subrange(c + 1, plus) =~= p);
    } else {
        assert(plus == c);
    }
    if let Some(m) = v.build {
        assert(s.subrange(plus + 1, n) =~= m);
    } else {
        assert(plus == n);
    }
}

} // verus!
