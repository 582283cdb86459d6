//! The order of versions.
//!
//! Versions are ordered by their three numbers, the major one first. Of two
//! versions with the same numbers a pre-release comes before the release, and
//! two pre-releases are ordered by their tags, identifier by identifier:
//! identifiers of digits only by their value, others by their characters,
//! one of digits before one with letters or hyphens, and a tag that is the
//! beginning of a longer one before that one. Build metadata plays no part.

use vstd::prelude::*;
use vstd::string::*;
use crate::semver::{all_digits, number_value};
use crate::text::{CharClass, is_digit, first_in, lemma_first_in, find, chars_of};
use crate::version::{Version, VersionView};

verus! {

/// How one thing stands to another in an order.
#[derive(Clone, Copy, Debug, PartialEq, Eq, Structural)]
pub enum Precedence {
    Lower,
    Equal,
    Higher,
}

impl Precedence {
    /// The same relation, seen from the other side.
    pub open spec fn flipped(self) -> Precedence {
        match self {
            Precedence::Lower => Precedence::Higher,
            Precedence::Equal => Precedence::Equal,
            Precedence::Higher => Precedence::Lower,
        }
    }
}

/// The order of two numbers.
pub open spec fn compare_numbers(a: nat, b: nat) -> Precedence {
    if a < b {
        Precedence::Lower
    } else if a > b {
        Precedence::Higher
    } else {
        Precedence::Equal
    }
}

/// The order of two texts from index `i` on, character by character; a text
/// that ends first comes first.
pub open spec fn compare_text(x: Seq<char>, y: Seq<char>, i: int) -> Precedence
    decreases x.len() - i,
{
    if i < 0 || (i >= x.len() && i >= y.len()) {
        Precedence::Equal
    } else if i >= x.len() {
        Precedence::Lower
    } else if i >= y.len() {
        Precedence::Higher
    } else if x[i] < y[i] {
        Precedence::Lower
    } else if x[i] > y[i] {
        Precedence::Higher
    } else {
        compare_text(x, y, i + 1)
    }
}

/// The order of two identifiers.
pub open spec fn compare_identifiers(x: Seq<char>, y: Seq<char>) -> Precedence {
    let x_numeric = all_digits(x, 0, x.len() as int);
    let y_numeric = all_digits(y, 0, y.len() as int);
    if x_numeric && y_numeric {
        compare_numbers(number_value(x), number_value(y))
    } else if x_numeric {
        Precedence::Lower
    } else if y_numeric {
        Precedence::Higher
    } else {
        compare_text(x, y, 0)
    }
}

/// The order of two tags, from the identifier of `p` that begins at `i` and
/// the identifier of `q` that begins at `j`.
pub open spec fn compare_tags(p: Seq<char>, i: int, q: Seq<char>, j: int) -> Precedence
    decreases p.len() - i,
{
    let pe = first_in(p, i, CharClass::Dot);
    let qe = first_in(q, j, CharClass::Dot);
    let c = compare_identifiers(p.subrange(i, pe), q.subrange(j, qe));
    if i < 0 || j < 0 || i > p.len() || j > q.len() {
        Precedence::Equal
    } else if c != Precedence::Equal {
        c
    } else if pe >= p.len() && qe >= q.len() {
        Precedence::Equal
    } else if pe >= p.len() {
        Precedence::Lower
    } else if qe >= q.len() {
        Precedence::Higher
    } else {
        proof {
            lemma_first_in(p, i, CharClass::Dot);
        }
        compare_tags(p, pe + 1, q, qe + 1)
    }
}

/// The order of two versions.
pub open spec fn precedence_spec(a: VersionView, b: VersionView) -> Precedence {
    if a.major != b.major {
        compare_numbers(a.major, b.major)
    } else if a.minor != b.minor {
        compare_numbers(a.minor, b.minor)
    } else if a.patch != b.patch {
        compare_numbers(a.patch, b.patch)
    } else {
        match (a.pre, b.pre) {
            (None, None) => Precedence::Equal,
            (None, Some(_)) => Precedence::Higher,
            (Some(_), None) => Precedence::Lower,
            (Some(p), Some(q)) => compare_tags(p, 0, q, 0),
        }
    }
}

/// Ten to the power of `n`.
pub open spec fn pow10(n: nat) -> nat
    decreases n,
{
    if n == 0 {
        1
    } else {
        10 * pow10((n - 1) as nat)
    }
}

proof fn lemma_pow10_grows(a: nat, b: nat)
    requires
        a <= b,
    ensures
        pow10(a) <= pow10(b),
        pow10(a) >= 1,
    decreases b,
{
    if a < b {
        lemma_pow10_grows(a, (b - 1) as nat);
    } else if a > 0 {
        lemma_pow10_grows((a - 1) as nat, (a - 1) as nat);
    }
}

proof fn lemma_leading_zero(s: Seq<char>)
    requires
        s.len() > 0,
        s[0] == '0',
    ensures
        number_value(s) == number_value(s.drop_first()),
    decreases s.len(),
{
    if s.len() == 1 {
        assert(s.drop_last() =~= Seq::<char>::empty());
        assert(s.drop_first() =~= Seq::<char>::empty());
        assert(number_value(s.drop_last()) == 0);
    } else {
        lemma_leading_zero(s.drop_last());
        assert(s.drop_last().drop_first() =~= s.drop_first().drop_last());
        assert(s.drop_first().last() == s.last());
    }
}

proof fn lemma_value_bounds(s: Seq<char>)
    requires
        all_digits(s, 0, s.len() as int),
    ensures
        number_value(s) < pow10(s.len()),
        s.len() > 0 && s[0] != '0' ==> number_value(s) >= pow10((s.len() - 1) as nat),
    decreases s.len(),
{
    if s.len() > 0 {
        let init = s.drop_last();
        assert forall|j: int| 0 <= j < init.len() implies is_digit(#[trigger] init[j]) by {
            assert(init[j] == s[j]);
        }
        lemma_value_bounds(init);
        assert(is_digit(s[s.len() - 1]));
        if s.len() > 1 {
            assert(init[0] == s[0]);
        } else {
            assert(init =~= Seq::<char>::empty());
            assert(number_value(init) == 0);
        }
    }
}

/// Of two runs of digits of the same length, the one whose beginning is
/// smaller is smaller.
proof fn lemma_prefix_decides(x: Seq<char>, y: Seq<char>, k: int)
    requires
        x.len() == y.len(),
        0 <= k <= x.len(),
        number_value(x.take(k)) < number_value(y.take(k)),
    ensures
        number_value(x) < number_value(y),
    decreases x.len() - k,
{
    if k < x.len() {
        assert(x.take(k + 1).drop_last() =~= x.take(k));
        assert(y.take(k + 1).drop_last() =~= y.take(k));
        lemma_prefix_decides(x, y, k + 1);
    } else {
        assert(x.take(k) =~= x);
        assert(y.take(k) =~= y);
    }
}

fn digits_only(v: &Vec<char>, a: usize, b: usize) -> (r: bool)
    requires
        a <= b <= v.len(),
    ensures
        r == all_digits(v@.subrange(a as int, b as int), 0, b - a),
        r == all_digits(v@, a as int, b as int),
{
    let ghost s = v@.subrange(a as int, b as int);
    let mut i: usize = a;
    while i < b
        invariant
            a <= i <= b <= v.len(),
            s == v@.subrange(a as int, b as int),
            all_digits(v@, a as int, i as int),
        decreases b - i,
    {
        let c = v[i];
        if !('0' <= c && c <= '9') {
            assert(!is_digit(v@[i as int]));
            assert(s[i - a] == v@[i as int]);
            return false;
        }
        i += 1;
    }
    assert forall|j: int| 0 <= j < b - a implies is_digit(#[trigger] s[j]) by {
        assert(s[j] == v@[a + j]);
    }
    true
}

/// Where the digits `v[a..b]` begin once leading zeros are passed over.
fn skip_zeros(v: &Vec<char>, a: usize, b: usize) -> (r: usize)
    requires
        a <= b <= v.len(),
    ensures
        a <= r <= b,
        number_value(v@.subrange(r as int, b as int)) == number_value(
            v@.subrange(a as int, b as int),
        ),
        r < b ==> v@[r as int] != '0',
{
    let mut r: usize = a;
    while r < b && v[r] == '0'
        invariant
            a <= r <= b <= v.len(),
            number_value(v@.subrange(r as int, b as int)) == number_value(
                v@.subrange(a as int, b as int),
            ),
        decreases b - r,
    {
        proof {
            let s = v@.subrange(r as int, b as int);
            lemma_leading_zero(s);
            assert(s.drop_first() =~= v@.subrange(r + 1, b as int));
        }
        r += 1;
    }
    r
}

fn numeric_order(x: &Vec<char>, xa: usize, xb: usize, y: &Vec<char>, ya: usize, yb: usize) -> (r:
    Precedence)
    requires
        xa <= xb <= x.len(),
        ya <= yb <= y.len(),
        all_digits(x@, xa as int, xb as int),
        all_digits(y@, ya as int, yb as int),
    ensures
        r == compare_numbers(
            number_value(x@.subrange(xa as int, xb as int)),
            number_value(y@.subrange(ya as int, yb as int)),
        ),
{
    let i = skip_zeros(x, xa, xb);
    let j = skip_zeros(y, ya, yb);
    let ghost xs = x@.subrange(i as int, xb as int);
    let ghost ys = y@.subrange(j as int, yb as int);
    proof {
        assert forall|m: int| 0 <= m < xs.len() implies is_digit(#[trigger] xs[m]) by {
            assert(xs[m] == x@[i + m]);
        }
        assert forall|m: int| 0 <= m < ys.len() implies is_digit(#[trigger] ys[m]) by {
            assert(ys[m] == y@[j + m]);
        }
        lemma_value_bounds(xs);
        lemma_value_bounds(ys);
    }
    let n = xb - i;
    if n < yb - j {
        proof {
            lemma_pow10_grows(xs.len(), (ys.len() - 1) as nat);
        }
        return Precedence::Lower;
    }
    if n > yb - j {
        proof {
            lemma_pow10_grows(ys.len(), (xs.len() - 1) as nat);
        }
        return Precedence::Higher;
    }
    let mut k: usize = 0;
    assert(xs.take(0) =~= ys.take(0));
    while k < n
        invariant
            k <= n,
            n == xb - i,
            n == yb - j,
            i <= xb <= x.len(),
            j <= yb <= y.len(),
            xs == x@.subrange(i as int, xb as int),
            ys == y@.subrange(j as int, yb as int),
            xa <= i,
            ya <= j,
            number_value(xs) == number_value(x@.subrange(xa as int, xb as int)),
            number_value(ys) == number_value(y@.subrange(ya as int, yb as int)),
            all_digits(xs, 0, xs.len() as int),
            all_digits(ys, 0, ys.len() as int),
            xs.take(k as int) == ys.take(k as int),
        decreases n - k,
    {
        let a = x[i + k];
        let b = y[j + k];
        proof {
            assert(xs.take(k + 1).drop_last() =~= xs.take(k as int));
            assert(ys.take(k + 1).drop_last() =~= ys.take(k as int));
            assert(xs.take(k + 1).last() == a);
            assert(ys.take(k + 1).last() == b);
            assert(is_digit(xs[k as int]) && is_digit(ys[k as int]));
        }
        if a < b {
            proof {
                lemma_prefix_decides(xs, ys, k + 1);
            }
            return Precedence::Lower;
        }
        if a > b {
            proof {
                lemma_prefix_decides(ys, xs, k + 1);
            }
            return Precedence::Higher;
        }
        assert(xs.take(k + 1) =~= ys.take(k + 1)) by {
            assert(xs.take(k + 1) =~= xs.take(k as int).push(a));
            assert(ys.take(k + 1) =~= ys.take(k as int).push(b));
        }
        k += 1;
    }
    assert(xs.take(n as int) =~= xs);
    assert(ys.take(n as int) =~= ys);
    Precedence::Equal
}

fn text_order(x: &Vec<char>, xa: usize, xb: usize, y: &Vec<char>, ya: usize, yb: usize) -> (r:
    Precedence)
    requires
        xa <= xb <= x.len(),
        ya <= yb <= y.len(),
    ensures
        r == compare_text(
            x@.subrange(xa as int, xb as int),
            y@.subrange(ya as int, yb as int),
            0,
        ),
{
    let ghost xs = x@.subrange(xa as int, xb as int);
    let ghost ys = y@.subrange(ya as int, yb as int);
    let mut k: usize = 0;
    loop
        invariant
            xa <= xb <= x.len(),
            ya <= yb <= y.len(),
            xs == x@.subrange(xa as int, xb as int),
            ys == y@.subrange(ya as int, yb as int),
            k <= xb - xa,
            k <= yb - ya,
            compare_text(xs, ys, 0) == compare_text(xs, ys, k as int),
        decreases xb - xa - k,
    {
        if k >= xb - xa && k >= yb - ya {
            return Precedence::Equal;
        }
        if k >= xb - xa {
            return Precedence::Lower;
        }
        if k >= yb - ya {
            return Precedence::Higher;
        }
        let a = x[xa + k];
        let b = y[ya + k];
        assert(xs[k as int] == a && ys[k as int] == b);
        if a < b {
            return Precedence::Lower;
        }
        if a > b {
            return Precedence::Higher;
        }
        k += 1;
    }
}

fn identifier_order(x: &Vec<char>, xa: usize, xb: usize, y: &Vec<char>, ya: usize, yb: usize)
    -> (r: Precedence)
    requires
        xa <= xb <= x.len(),
        ya <= yb <= y.len(),
    ensures
        r == compare_identifiers(
            x@.subrange(xa as int, xb as int),
            y@.subrange(ya as int, yb as int),
        ),
{
    let x_numeric = digits_only(x, xa, xb);
    let y_numeric = digits_only(y, ya, yb);
    if x_numeric && y_numeric {
        numeric_order(x, xa, xb, y, ya, yb)
    } else if x_numeric {
        Precedence::Lower
    } else if y_numeric {
        Precedence::Higher
    } else {
        text_order(x, xa, xb, y, ya, yb)
    }
}

fn tag_order(p: &String, q: &String) -> (r: Precedence)
    ensures
        r == compare_tags(p@, 0, q@, 0),
{
    let pv = chars_of(p.as_str());
    let qv = chars_of(q.as_str());
    let mut i: usize = 0;
    let mut j: usize = 0;
    loop
        invariant
            pv@ == p@,
            qv@ == q@,
            i <= pv.len(),
            j <= qv.len(),
            compare_tags(p@, 0, q@, 0) == compare_tags(p@, i as int, q@, j as int),
        decreases pv.len() - i,
    {
        let pe = find(&pv, i, CharClass::Dot);
        let qe = find(&qv, j, CharClass::Dot);
        let c = identifier_order(&pv, i, pe, &qv, j, qe);
        match c {
            Precedence::Equal => {},
            _ => {
                return c;
            },
        }
        if pe >= pv.len() && qe >= qv.len() {
            return Precedence::Equal;
        }
        if pe >= pv.len() {
            return Precedence::Lower;
        }
        if qe >= qv.len() {
            return Precedence::Higher;
        }
        i = pe + 1;
        j = qe + 1;
    }
}

fn number_order(a: u64, b: u64) -> (r: Precedence)
    ensures
        r == compare_numbers(a as nat, b as nat),
{
    if a < b {
        Precedence::Lower
    } else if a > b {
        Precedence::Higher
    } else {
        Precedence::Equal
    }
}

impl Version {
    /// How this version stands to another one in the order of versions.
    pub fn precedence(&self, other: &Version) -> (r: Precedence)
        ensures
            r == precedence_spec(self@, other@),
    {
        if self.major != other.major {
            number_order(self.major, other.major)
        } else if self.minor != other.minor {
            number_order(self.minor, other.minor)
        } else if self.patch != other.patch {
            number_order(self.patch, other.patch)
        } else {
            match (&self.pre, &other.pre) {
                (None, None) => Precedence::Equal,
                (None, Some(_)) => Precedence::Higher,
                (Some(_), None) => Precedence::Lower,
                (Some(p), Some(q)) => tag_order(p, q),
            }
        }
    }
}

/// A pre-release comes before the release with the same numbers.
pub proof fn law_pre_release_before_release(a: VersionView, b: VersionView)
    requires
        a.major == b.major,
        a.minor == b.minor,
        a.patch == b.patch,
        a.pre is Some,
        b.pre is None,
    ensures
        precedence_spec(a, b) == Precedence::Lower,
        precedence_spec(b, a) == Precedence::Higher,
{
}

/// Build metadata plays no part in the order.
pub proof fn law_build_is_ignored(
    a: VersionView,
    b: VersionView,
    build_a: Option<Seq<char>>,
    build_b: Option<Seq<char>>,
)
    ensures
        precedence_spec(VersionView { build: build_a, ..a }, VersionView { build: build_b, ..b })
            == precedence_spec(a, b),
{
}

proof fn lemma_text_flips(x: Seq<char>, y: Seq<char>, i: int)
    ensures
        compare_text(y, x, i) == compare_text(x, y, i).flipped(),
    decreases x.len() - i,
{
    if 0 <= i < x.len() && i < y.len() && x[i] == y[i] {
        lemma_text_flips(x, y, i + 1);
    }
}

proof fn lemma_tags_flip(p: Seq<char>, i: int, q: Seq<char>, j: int)
    ensures
        compare_tags(q, j, p, i) == compare_tags(p, i, q, j).flipped(),
    decreases p.len() - i,
{
    let pe = first_in(p, i, CharClass::Dot);
    let qe = first_in(q, j, CharClass::Dot);
    let x = p.subrange(i, pe);
    let y = q.subrange(j, qe);
    lemma_text_flips(x, y, 0);
    if 0 <= i <= p.len() && 0 <= j <= q.len() {
        lemma_first_in(p, i, CharClass::Dot);
        lemma_first_in(q, j, CharClass::Dot);
        if compare_identifiers(x, y) == Precedence::Equal && pe < p.len() && qe < q.len() {
            lemma_tags_flip(p, pe + 1, q, qe + 1);
        }
    }
}

/// Seen from the other side the order is the reverse: if `a` comes before
/// `b` then `b` comes after `a`, and two versions are equal in the order
/// from both sides or from neither.
pub proof fn law_order_flips(a: VersionView, b: VersionView)
    ensures
        precedence_spec(b, a) == precedence_spec(a, b).flipped(),
{
    if a.pre is Some && b.pre is Some {
        lemma_tags_flip(a.pre->0, 0, b.pre->0, 0);
    }
}

/// Every version is equal to itself in the order.
pub proof fn law_order_is_reflexive(a: VersionView)
    ensures
        precedence_spec(a, a) == Precedence::Equal,
{
    law_order_flips(a, a);
}

proof fn lemma_text_chain(x: Seq<char>, y: Seq<char>, z: Seq<char>, i: int)
    requires
        compare_text(x, y, i) != Precedence::Higher,
        compare_text(y, z, i) != Precedence::Higher,
    ensures
        compare_text(x, z, i) != Precedence::Higher,
        compare_text(x, z, i) == Precedence::Equal ==> compare_text(x, y, i) == Precedence::Equal
            && compare_text(y, z, i) == Precedence::Equal,
    decreases x.len() - i,
{
    if 0 <= i < x.len() && i < y.len() && i < z.len() && x[i] == y[i] && y[i] == z[i] {
        lemma_text_chain(x, y, z, i + 1);
    }
}

proof fn lemma_identifier_chain(x: Seq<char>, y: Seq<char>, z: Seq<char>)
    requires
        compare_identifiers(x, y) != Precedence::Higher,
        compare_identifiers(y, z) != Precedence::Higher,
    ensures
        compare_identifiers(x, z) != Precedence::Higher,
        compare_identifiers(x, z) == Precedence::Equal ==> compare_identifiers(x, y)
            == Precedence::Equal && compare_identifiers(y, z) == Precedence::Equal,
{
    let x_numeric = all_digits(x, 0, x.len() as int);
    let y_numeric = all_digits(y, 0, y.len() as int);
    let z_numeric = all_digits(z, 0, z.len() as int);
    if !x_numeric && !y_numeric && !z_numeric {
        lemma_text_chain(x, y, z, 0);
    }
}

proof fn lemma_tags_chain(p: Seq<char>, i: int, q: Seq<char>, j: int, r: Seq<char>, k: int)
    requires
        0 <= i <= p.len(),
        0 <= j <= q.len(),
        0 <= k <= r.len(),
        compare_tags(p, i, q, j) != Precedence::Higher,
        compare_tags(q, j, r, k) != Precedence::Higher,
    ensures
        compare_tags(p, i, r, k) != Precedence::Higher,
        compare_tags(p, i, r, k) == Precedence::Equal ==> compare_tags(p, i, q, j)
            == Precedence::Equal && compare_tags(q, j, r, k) == Precedence::Equal,
    decreases p.len() - i,
{
    let pe = first_in(p, i, CharClass::Dot);
    let qe = first_in(q, j, CharClass::Dot);
    let re = first_in(r, k, CharClass::Dot);
    lemma_first_in(p, i, CharClass::Dot);
    lemma_first_in(q, j, CharClass::Dot);
    lemma_first_in(r, k, CharClass::Dot);
    let x = p.subrange(i, pe);
    let y = q.subrange(j, qe);
    let z = r.subrange(k, re);
    let xy = compare_identifiers(x, y);
    let yz = compare_identifiers(y, z);
    assert(xy != Precedence::Higher);
    assert(yz != Precedence::Higher) by {
        if xy == Precedence::Equal {
        }
    }
    lemma_identifier_chain(x, y, z);
    if xy == Precedence::Equal && yz == Precedence::Equal && pe < p.len() && qe < q.len() && re
        < r.len() {
        lemma_tags_chain(p, pe + 1, q, qe + 1, r, re + 1);
    }
}

/// The order is transitive: if `a` does not come after `b`, and `b` not
/// after `c`, then `a` does not come after `c`; and `a` and `c` are equal in
/// the order only if all three are.
pub proof fn law_order_is_transitive(a: VersionView, b: VersionView, c: VersionView)
    requires
        precedence_spec(a, b) != Precedence::Higher,
        precedence_spec(b, c) != Precedence::Higher,
    ensures
        precedence_spec(a, c) != Precedence::Higher,
        precedence_spec(a, c) == Precedence::Equal ==> precedence_spec(a, b) == Precedence::Equal
            && precedence_spec(b, c) == Precedence::Equal,
{
    if a.pre is Some && b.pre is Some && c.pre is Some && a.major == b.major && b.major == c.major
        && a.minor == b.minor && b.minor == c.minor && a.patch == b.patch && b.patch
        == c.patch {
        lemma_tags_chain(a.pre->0, 0, b.pre->0, 0, c.pre->0, 0);
    }
}

} // verus!
