//! The number syntax of command-line values: unsigned integers as
//! `str::parse::<usize>` reads them, and the decimal floating-point syntax
//! `str::parse::<f64>` accepts.

use vstd::prelude::*;
use crate::text::{
    all_digits, chars_eq_str, digit, digit_value, digits_value, lemma_digits_value_mono,
    lemma_digits_value_nonneg, lower_ascii, to_ascii_lower, IntErrorKind,
};

verus! {

/// `str::parse` for an unsigned type whose largest value is `max`: an
/// optional `+` and one or more decimal digits of value at most `max`.
pub open spec fn parse_uint_spec(s: Seq<char>, max: int) -> Option<int> {
    let d = if s.len() > 0 && s[0] == '+' {
        s.drop_first()
    } else {
        s
    };
    if d.len() > 0 && all_digits(d, 10) && digits_value(d, 10) <= max {
        Some(digits_value(d, 10))
    } else {
        None
    }
}

/// The first failure met reading the first `n` characters of the digit
/// string `d` left to right: a non-digit, or a value past `max`.
pub open spec fn uint_scan_error(d: Seq<char>, n: int, max: int) -> Option<IntErrorKind>
    decreases n,
{
    if n <= 0 {
        None
    } else {
        match uint_scan_error(d, n - 1, max) {
            Some(k) => Some(k),
            None => if digit_value(d[n - 1], 10) is None {
                Some(IntErrorKind::InvalidDigit)
            } else if digits_value(d.take(n), 10) > max {
                Some(IntErrorKind::PosOverflow)
            } else {
                None
            },
        }
    }
}

/// The error kind `str::parse` reports for a refused unsigned value.
pub open spec fn uint_error_kind(s: Seq<char>, max: int) -> IntErrorKind {
    if s.len() == 0 {
        IntErrorKind::Empty
    } else if s.len() == 1 && s[0] == '+' {
        IntErrorKind::InvalidDigit
    } else {
        let d = if s[0] == '+' {
            s.drop_first()
        } else {
            s
        };
        match uint_scan_error(d, d.len() as int, max) {
            Some(k) => k,
            None => IntErrorKind::InvalidDigit,
        }
    }
}

proof fn lemma_uint_scan_error_stays(d: Seq<char>, n: int, m: int, max: int)
    requires
        0 <= n <= m,
        uint_scan_error(d, n, max) is Some,
    ensures
        uint_scan_error(d, m, max) == uint_scan_error(d, n, max),
    decreases m - n,
{
    if m > n {
        lemma_uint_scan_error_stays(d, n, m - 1, max);
    }
}

/// `str::parse::<usize>`, with the reason for a refusal.
pub fn parse_usize_or_error(s: &Vec<char>) -> (r: Result<usize, IntErrorKind>)
    ensures
        r matches Ok(v) ==> parse_uint_spec(s@, usize::MAX as int) == Some(v as int),
        r matches Err(k) ==> parse_uint_spec(s@, usize::MAX as int) is None && k == uint_error_kind(
            s@,
            usize::MAX as int,
        ),
{
    let ghost max = usize::MAX as int;
    if s.len() == 0 {
        return Err(IntErrorKind::Empty);
    }
    if s.len() == 1 && s[0] == '+' {
        return Err(IntErrorKind::InvalidDigit);
    }
    let start: usize = if s[0] == '+' {
        1
    } else {
        0
    };
    let ghost d = if s@[0] == '+' {
        s@.drop_first()
    } else {
        s@
    };
    assert(d =~= s@.skip(start as int));
    let mut acc: u128 = 0;
    let mut i: usize = start;
    assert(d.take(0) =~= Seq::<char>::empty());
    while i < s.len()
        invariant
            start <= i <= s.len(),
            s@.len() > 0,
            start == 1 ==> s@.len() > 1,
            d =~= s@.skip(start as int),
            d == (if s@[0] == '+' {
                s@.drop_first()
            } else {
                s@
            }),
            max == usize::MAX as int,
            uint_scan_error(d, i - start, max) is None,
            all_digits(d.take(i - start), 10),
            acc == digits_value(d.take(i - start), 10),
            acc <= usize::MAX,
        decreases s.len() - i,
    {
        let ghost k = (i - start) as int;
        assert(d[k] == s@[i as int]);
        let dv = match digit(s[i], 10) {
            Some(v) => v,
            None => {
                proof {
                    lemma_uint_scan_error_stays(d, k + 1, d.len() as int, max);
                }
                assert(!all_digits(d, 10));
                return Err(IntErrorKind::InvalidDigit);
            },
        };
        assert(d.take(k + 1).drop_last() =~= d.take(k));
        assert(digits_value(d.take(k + 1), 10) == 10 * digits_value(d.take(k), 10) + dv);
        acc = acc * 10 + dv as u128;
        if acc > usize::MAX as u128 {
            proof {
                lemma_uint_scan_error_stays(d, k + 1, d.len() as int, max);
                if all_digits(d, 10) {
                    lemma_digits_value_mono(d, k + 1, 10);
                }
            }
            return Err(IntErrorKind::PosOverflow);
        }
        assert(all_digits(d.take(k + 1), 10)) by {
            assert forall|j: int| 0 <= j < k + 1 implies digit_value(#[trigger] d.take(k + 1)[j], 10) is Some by {
                if j < k {
                    assert(d.take(k + 1)[j] == d.take(k)[j]);
                }
            }
        }
        i = i + 1;
    }
    assert(d.take(d.len() as int) =~= d);
    Ok(acc as usize)
}

/// Why `str::parse::<f64>` refuses a string.
#[derive(Debug, Clone, Copy, PartialEq, Eq, Structural)]
pub enum FloatErrorKind {
    Empty,
    Invalid,
}

/// The text `ParseFloatError` displays for each kind.
pub open spec fn float_error_text(k: FloatErrorKind) -> Seq<char> {
    match k {
        FloatErrorKind::Empty => "cannot parse float from empty string"@,
        FloatErrorKind::Invalid => "invalid float literal"@,
    }
}

impl FloatErrorKind {
    /// The displayed text of the error.
    pub fn message(&self) -> (r: &'static str)
        ensures
            r@ == float_error_text(*self),
    {
        match self {
            FloatErrorKind::Empty => "cannot parse float from empty string",
            FloatErrorKind::Invalid => "invalid float literal",
        }
    }
}

pub open spec fn is_digit(c: char) -> bool {
    '0' <= c && c <= '9'
}

pub open spec fn digits_only(s: Seq<char>) -> bool {
    forall|i: int| 0 <= i < s.len() ==> #[trigger] is_digit(s[i])
}

pub open spec fn is_exp_mark(c: char) -> bool {
    c == 'e' || c == 'E'
}

/// The text without one leading `+` or `-`.
pub open spec fn strip_sign(s: Seq<char>) -> Seq<char> {
    if s.len() > 0 && (s[0] == '+' || s[0] == '-') {
        s.drop_first()
    } else {
        s
    }
}

/// `Digit+ | Digit+ '.' Digit* | Digit* '.' Digit+`.
pub open spec fn mantissa_ok(m: Seq<char>) -> bool {
    ||| m.len() > 0 && digits_only(m)
    ||| exists|p: int|
        0 <= p < m.len() && m.len() >= 2 && #[trigger] m[p] == '.' && digits_only(m.take(p))
            && digits_only(m.skip(p + 1))
}

/// `Sign? Digit+`.
pub open spec fn exponent_ok(x: Seq<char>) -> bool {
    strip_sign(x).len() > 0 && digits_only(strip_sign(x))
}

/// A mantissa with an optional exponent: `Number ::= Mantissa ('e' Sign? Digit+)?`,
/// the exponent mark in either case.
pub open spec fn number_ok(r: Seq<char>) -> bool {
    ||| (forall|i: int| 0 <= i < r.len() ==> !is_exp_mark(#[trigger] r[i])) && mantissa_ok(r)
    ||| exists|q: int|
        0 <= q < r.len() && #[trigger] is_exp_mark(r[q]) && (forall|i: int|
            0 <= i < q ==> !is_exp_mark(#[trigger] r[i])) && mantissa_ok(r.take(q))
            && exponent_ok(r.skip(q + 1))
}

/// The grammar `str::parse::<f64>` documents: an optional sign, then `inf`,
/// `infinity`, `nan` (in any case) or a decimal number.
pub open spec fn float_literal(s: Seq<char>) -> bool {
    let r = strip_sign(s);
    ||| lower_ascii(r) == "inf"@
    ||| lower_ascii(r) == "infinity"@
    ||| lower_ascii(r) == "nan"@
    ||| number_ok(r)
}

/// Why `str::parse::<f64>` refuses `s`, or `None` when it accepts it.
pub open spec fn float_parse_error(s: Seq<char>) -> Option<FloatErrorKind> {
    if s.len() == 0 {
        Some(FloatErrorKind::Empty)
    } else if float_literal(s) {
        None
    } else {
        Some(FloatErrorKind::Invalid)
    }
}

fn is_digit_char(c: char) -> (r: bool)
    ensures
        r == is_digit(c),
{
    '0' <= c && c <= '9'
}

/// Whether `v[lo..hi]` is all decimal digits.
fn digits_in(v: &Vec<char>, lo: usize, hi: usize) -> (r: bool)
    requires
        lo <= hi <= v@.len(),
    ensures
        r == digits_only(v@.subrange(lo as int, hi as int)),
{
    let mut i: usize = lo;
    while i < hi
        invariant
            lo <= i <= hi <= v@.len(),
            forall|j: int| lo <= j < i ==> is_digit(#[trigger] v@[j]),
        decreases hi - i,
    {
        if !is_digit_char(v[i]) {
            assert(!is_digit(v@.subrange(lo as int, hi as int)[i - lo]));
            return false;
        }
        i = i + 1;
    }
    assert forall|j: int| 0 <= j < hi - lo implies #[trigger] is_digit(
        v@.subrange(lo as int, hi as int)[j],
    ) by {
        assert(v@.subrange(lo as int, hi as int)[j] == v@[lo + j]);
    }
    true
}

/// Whether `v[lo..hi]` is a mantissa.
fn mantissa_in(v: &Vec<char>, lo: usize, hi: usize) -> (r: bool)
    requires
        lo <= hi <= v@.len(),
    ensures
        r == mantissa_ok(v@.subrange(lo as int, hi as int)),
{
    let ghost m = v@.subrange(lo as int, hi as int);
    let mut p: usize = lo;
    while p < hi && v[p] != '.'
        invariant
            lo <= p <= hi <= v@.len(),
            forall|j: int| lo <= j < p ==> #[trigger] v@[j] != '.',
        decreases hi - p,
    {
        p = p + 1;
    }
    if p == hi {
        let r = lo < hi && digits_in(v, lo, hi);
        assert forall|q: int| 0 <= q < m.len() implies #[trigger] m[q] != '.' by {
            assert(m[q] == v@[lo + q]);
        }
        return r;
    }
    let ghost k = (p - lo) as int;
    assert(m[k] == '.');
    assert(!is_digit(m[k]));
    assert(m.take(k) =~= v@.subrange(lo as int, p as int));
    assert(m.skip(k + 1) =~= v@.subrange(p + 1, hi as int));
    let r = hi - lo >= 2 && digits_in(v, lo, p) && digits_in(v, p + 1, hi);
    if !r {
        assert forall|q: int|
            0 <= q < m.len() && m.len() >= 2 && #[trigger] m[q] == '.' && digits_only(m.take(q))
                && digits_only(m.skip(q + 1)) implies false by {
            if q < k {
                assert(m[q] == v@[lo + q]);
            } else if q > k {
                assert(m.take(q)[k] == '.');
                assert(!is_digit(m.take(q)[k]));
            }
        }
    }
    r
}

/// Whether `v[lo..hi]` is an exponent (after its mark).
fn exponent_in(v: &Vec<char>, lo: usize, hi: usize) -> (r: bool)
    requires
        lo <= hi <= v@.len(),
    ensures
        r == exponent_ok(v@.subrange(lo as int, hi as int)),
{
    let ghost x = v@.subrange(lo as int, hi as int);
    let start: usize = if lo < hi && (v[lo] == '+' || v[lo] == '-') {
        lo + 1
    } else {
        lo
    };
    assert(strip_sign(x) =~= v@.subrange(start as int, hi as int));
    start < hi && digits_in(v, start, hi)
}

/// Whether `v[lo..hi]` is a number.
fn number_in(v: &Vec<char>, lo: usize, hi: usize) -> (r: bool)
    requires
        lo <= hi <= v@.len(),
    ensures
        r == number_ok(v@.subrange(lo as int, hi as int)),
{
    let ghost s = v@.subrange(lo as int, hi as int);
    let mut q: usize = lo;
    while q < hi && v[q] != 'e' && v[q] != 'E'
        invariant
            lo <= q <= hi <= v@.len(),
            forall|j: int| lo <= j < q ==> !is_exp_mark(#[trigger] v@[j]),
        decreases hi - q,
    {
        q = q + 1;
    }
    assert forall|j: int| 0 <= j < q - lo implies !is_exp_mark(#[trigger] s[j]) by {
        assert(s[j] == v@[lo + j]);
    }
    if q == hi {
        return mantissa_in(v, lo, hi);
    }
    let ghost k = (q - lo) as int;
    assert(is_exp_mark(s[k]));
    assert(s.take(k) =~= v@.subrange(lo as int, q as int));
    assert(s.skip(k + 1) =~= v@.subrange(q + 1, hi as int));
    let r = mantissa_in(v, lo, q) && exponent_in(v, q + 1, hi);
    if !r {
        assert forall|w: int|
            0 <= w < s.len() && #[trigger] is_exp_mark(s[w]) && (forall|i: int|
                0 <= i < w ==> !is_exp_mark(#[trigger] s[i])) && mantissa_ok(s.take(w))
                && exponent_ok(s.skip(w + 1)) implies false by {
            if w > k {
                assert(!is_exp_mark(s[k]));
            }
        }
    }
    r
}

/// Checks `s` against the syntax `str::parse::<f64>` accepts.
pub fn float_syntax_error(s: &Vec<char>) -> (r: Option<FloatErrorKind>)
    ensures
        r == float_parse_error(s@),
{
    if s.len() == 0 {
        return Some(FloatErrorKind::Empty);
    }
    let start: usize = if s[0] == '+' || s[0] == '-' {
        1
    } else {
        0
    };
    let mut body: Vec<char> = Vec::new();
    let mut i: usize = start;
    while i < s.len()
        invariant
            start <= i <= s.len(),
            body@ == s@.subrange(start as int, i as int),
        decreases s.len() - i,
    {
        body.push(s[i]);
        i = i + 1;
        assert(body@ =~= s@.subrange(start as int, i as int));
    }
    assert(body@ =~= strip_sign(s@));
    let lower = to_ascii_lower(&body);
    let named = chars_eq_str(&lower, "inf") || chars_eq_str(&lower, "infinity") || chars_eq_str(
        &lower,
        "nan",
    );
    assert(body@.subrange(0, body@.len() as int) =~= body@);
    if named || number_in(&body, 0, body.len()) {
        None
    } else {
        Some(FloatErrorKind::Invalid)
    }
}

} // verus!
