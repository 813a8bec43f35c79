//! Character-level string utilities with exact specifications.

use vstd::prelude::*;
use vstd::string::StringExecFns;

verus! {

broadcast use vstd::string::group_string_axioms;

/// Unicode `White_Space` property (the set `char::is_whitespace` documents).
pub open spec fn is_ws(c: char) -> bool {
    let u = c as u32;
    ||| 0x9 <= u <= 0xD
    ||| u == 0x20
    ||| u == 0x85
    ||| u == 0xA0
    ||| u == 0x1680
    ||| 0x2000 <= u <= 0x200A
    ||| u == 0x2028
    ||| u == 0x2029
    ||| u == 0x202F
    ||| u == 0x205F
    ||| u == 0x3000
}

/// Executable `is_ws`.
pub fn is_whitespace(c: char) -> (r: bool)
    ensures
        r == is_ws(c),
{
    let u = c as u32;
    (0x9 <= u && u <= 0xD) || u == 0x20 || u == 0x85 || u == 0xA0 || u == 0x1680 || (0x2000
        <= u && u <= 0x200A) || u == 0x2028 || u == 0x2029 || u == 0x202F || u == 0x205F || u
        == 0x3000
}

/// The characters of a string slice, in order.
pub fn chars_of(s: &str) -> (v: Vec<char>)
    ensures
        v@ == s@,
{
    let mut v: Vec<char> = Vec::new();
    for c in it: s.chars()
        invariant
            it.seq() == s@,
            v@ == it.seq().take(it.index() as int),
    {
        v.push(c);
    }
    v
}

/// Appends one character to a string (`String::push`).
#[verifier::external_body]
fn push_char(s: &mut String, c: char)
    ensures
        final(s)@ == old(s)@.push(c),
{
    s.push(c);
}

/// Builds a string from its characters.
pub fn string_of(v: &Vec<char>) -> (s: String)
    ensures
        s@ == v@,
{
    let mut s = String::new();
    let mut i: usize = 0;
    while i < v.len()
        invariant
            i <= v.len(),
            s@ == v@.take(i as int),
        decreases v.len() - i,
    {
        push_char(&mut s, v[i]);
        i = i + 1;
        assert(s@ =~= v@.take(i as int));
    }
    assert(v@.take(v.len() as int) =~= v@);
    s
}


/// Drops leading whitespace.
pub open spec fn trim_start(s: Seq<char>) -> Seq<char>
    decreases s.len(),
{
    if s.len() > 0 && is_ws(s[0]) {
        trim_start(s.drop_first())
    } else {
        s
    }
}

/// Drops trailing whitespace.
pub open spec fn trim_end(s: Seq<char>) -> Seq<char>
    decreases s.len(),
{
    if s.len() > 0 && is_ws(s.last()) {
        trim_end(s.drop_last())
    } else {
        s
    }
}

/// `str::trim`: drops leading and trailing whitespace.
pub open spec fn trim(s: Seq<char>) -> Seq<char> {
    trim_end(trim_start(s))
}

proof fn lemma_trim_start_skip(s: Seq<char>, i: int)
    requires
        0 <= i <= s.len(),
        forall|k: int| 0 <= k < i ==> is_ws(#[trigger] s[k]),
    ensures
        trim_start(s) == trim_start(s.subrange(i, s.len() as int)),
    decreases i,
{
    if i > 0 {
        lemma_trim_start_skip(s.drop_first(), i - 1);
        assert(s.drop_first().subrange(i - 1, s.len() - 1) =~= s.subrange(i, s.len() as int));
    } else {
        assert(s.subrange(0, s.len() as int) =~= s);
    }
}

proof fn lemma_trim_end_take(s: Seq<char>, j: int)
    requires
        0 <= j <= s.len(),
        forall|k: int| j <= k < s.len() ==> is_ws(#[trigger] s[k]),
    ensures
        trim_end(s) == trim_end(s.subrange(0, j)),
    decreases s.len() - j,
{
    if j < s.len() {
        lemma_trim_end_take(s.drop_last(), j);
        assert(s.drop_last().subrange(0, j) =~= s.subrange(0, j));
    } else {
        assert(s.subrange(0, j) =~= s);
    }
}

/// `str::trim` on a character vector.
pub fn trim_chars(v: &Vec<char>) -> (r: Vec<char>)
    ensures
        r@ == trim(v@),
{
    let n = v.len();
    let mut i: usize = 0;
    while i < n && is_whitespace(v[i])
        invariant
            i <= n,
            n == v.len(),
            forall|k: int| 0 <= k < i ==> is_ws(#[trigger] v@[k]),
        decreases n - i,
    {
        i = i + 1;
    }
    proof {
        lemma_trim_start_skip(v@, i as int);
    }
    let ghost t = v@.subrange(i as int, n as int);
    assert(trim_start(v@) == t);
    let mut j: usize = n;
    while j > i && is_whitespace(v[j - 1])
        invariant
            i <= j <= n,
            n == v.len(),
            forall|k: int| j <= k < n ==> is_ws(#[trigger] v@[k]),
        decreases j,
    {
        j = j - 1;
    }
    proof {
        lemma_trim_end_take(t, (j - i) as int);
        assert(t.subrange(0, (j - i) as int) =~= v@.subrange(i as int, j as int));
        if i < j {
            assert(!is_ws(v@[i as int]));
            assert(!is_ws(t[0]));
        }
        assert(trim_start(v@.subrange(i as int, j as int)) == v@.subrange(i as int, j as int));
    }
    let mut r: Vec<char> = Vec::new();
    let mut k: usize = i;
    while k < j
        invariant
            i <= k <= j <= n,
            n == v.len(),
            r@ == v@.subrange(i as int, k as int),
        decreases j - k,
    {
        r.push(v[k]);
        k = k + 1;
        assert(r@ =~= v@.subrange(i as int, k as int));
    }
    r
}

/// `str::trim` producing an owned string.
pub fn trim_str(s: &str) -> (r: String)
    ensures
        r@ == trim(s@),
{
    let v = chars_of(s);
    let t = trim_chars(&v);
    string_of(&t)
}


/// `char::to_ascii_lowercase`.
pub open spec fn ascii_lower(c: char) -> char {
    if 'A' <= c && c <= 'Z' {
        ((c as u32) + 32) as char
    } else {
        c
    }
}

/// `char::to_ascii_uppercase`.
pub open spec fn ascii_upper(c: char) -> char {
    if 'a' <= c && c <= 'z' {
        ((c as u32) - 32) as char
    } else {
        c
    }
}

/// `str::to_ascii_lowercase`.
pub open spec fn lower_ascii(s: Seq<char>) -> Seq<char> {
    s.map_values(|c: char| ascii_lower(c))
}

/// `str::to_ascii_uppercase`.
pub open spec fn upper_ascii(s: Seq<char>) -> Seq<char> {
    s.map_values(|c: char| ascii_upper(c))
}

fn lower_char(c: char) -> (r: char)
    ensures
        r == ascii_lower(c),
{
    if 'A' <= c && c <= 'Z' {
        let b: u8 = (c as u32 + 32) as u8;
        b as char
    } else {
        c
    }
}

fn upper_char(c: char) -> (r: char)
    ensures
        r == ascii_upper(c),
{
    if 'a' <= c && c <= 'z' {
        let b: u8 = (c as u32 - 32) as u8;
        b as char
    } else {
        c
    }
}

/// ASCII lower-casing of a character vector.
pub fn to_ascii_lower(v: &Vec<char>) -> (r: Vec<char>)
    ensures
        r@ == lower_ascii(v@),
{
    let mut r: Vec<char> = Vec::new();
    let mut i: usize = 0;
    while i < v.len()
        invariant
            i <= v.len(),
            r@ == lower_ascii(v@.take(i as int)),
        decreases v.len() - i,
    {
        r.push(lower_char(v[i]));
        i = i + 1;
        assert(r@ =~= lower_ascii(v@.take(i as int)));
    }
    assert(v@.take(v.len() as int) =~= v@);
    r
}

/// ASCII upper-casing of a character vector.
pub fn to_ascii_upper(v: &Vec<char>) -> (r: Vec<char>)
    ensures
        r@ == upper_ascii(v@),
{
    let mut r: Vec<char> = Vec::new();
    let mut i: usize = 0;
    while i < v.len()
        invariant
            i <= v.len(),
            r@ == upper_ascii(v@.take(i as int)),
        decreases v.len() - i,
    {
        r.push(upper_char(v[i]));
        i = i + 1;
        assert(r@ =~= upper_ascii(v@.take(i as int)));
    }
    assert(v@.take(v.len() as int) =~= v@);
    r
}

/// Equality of two character sequences.
pub fn chars_eq(a: &Vec<char>, b: &Vec<char>) -> (r: bool)
    ensures
        r == (a@ == b@),
{
    if a.len() != b.len() {
        return false;
    }
    let mut i: usize = 0;
    while i < a.len()
        invariant
            i <= a.len(),
            a.len() == b.len(),
            forall|k: int| 0 <= k < i ==> a@[k] == b@[k],
        decreases a.len() - i,
    {
        if a[i] != b[i] {
            return false;
        }
        i = i + 1;
    }
    assert(a@ =~= b@);
    true
}

/// Equality of a character vector with a string slice.
pub fn chars_eq_str(a: &Vec<char>, b: &str) -> (r: bool)
    ensures
        r == (a@ == b@),
{
    let bv = chars_of(b);
    chars_eq(a, &bv)
}

/// Equality of two string slices.
pub fn str_eq(a: &str, b: &str) -> (r: bool)
    ensures
        r == (a@ == b@),
{
    let av = chars_of(a);
    chars_eq_str(&av, b)
}

/// `p` occurs in `s` at position `i`.
pub open spec fn occurs_at(s: Seq<char>, p: Seq<char>, i: int) -> bool {
    0 <= i && i + p.len() <= s.len() && s.subrange(i, i + p.len()) == p
}

/// `str::starts_with`.
pub open spec fn has_prefix(s: Seq<char>, p: Seq<char>) -> bool {
    occurs_at(s, p, 0)
}

/// `str::contains` with a string pattern.
pub open spec fn has_substring(s: Seq<char>, p: Seq<char>) -> bool {
    exists|i: int| occurs_at(s, p, i)
}

fn matches_at(s: &Vec<char>, p: &Vec<char>, i: usize) -> (r: bool)
    requires
        i <= s.len(),
    ensures
        r == occurs_at(s@, p@, i as int),
{
    if p.len() > s.len() - i {
        return false;
    }
    let mut k: usize = 0;
    while k < p.len()
        invariant
            k <= p.len(),
            i + p.len() <= s.len(),
            forall|t: int| 0 <= t < k ==> s@[i + t] == p@[t],
        decreases p.len() - k,
    {
        if s[i + k] != p[k] {
            assert(s@.subrange(i as int, i + p.len())[k as int] != p@[k as int]);
            return false;
        }
        k = k + 1;
    }
    assert(s@.subrange(i as int, i + p.len()) =~= p@);
    true
}

/// `str::starts_with`.
pub fn starts_with(s: &Vec<char>, p: &Vec<char>) -> (r: bool)
    ensures
        r == has_prefix(s@, p@),
{
    matches_at(s, p, 0)
}

/// `str::contains` with a string pattern.
pub fn contains(s: &Vec<char>, p: &Vec<char>) -> (r: bool)
    ensures
        r == has_substring(s@, p@),
{
    let mut i: usize = 0;
    loop
        invariant
            i <= s.len(),
            forall|t: int| 0 <= t < i ==> !occurs_at(s@, p@, t),
        decreases s.len() - i,
    {
        if matches_at(s, p, i) {
            return true;
        }
        if i == s.len() {
            assert forall|t: int| !occurs_at(s@, p@, t) by {
                if 0 <= t && t < i {
                }
            }
            return false;
        }
        i = i + 1;
    }
}


/// `q` is a subsequence of `c`: every character of `q` occurs in `c`, in order.
pub open spec fn is_subseq(q: Seq<char>, c: Seq<char>) -> bool
    decreases c.len(),
{
    if q.len() == 0 {
        true
    } else if c.len() == 0 {
        false
    } else if q[0] == c[0] {
        is_subseq(q.drop_first(), c.drop_first())
    } else {
        is_subseq(q, c.drop_first())
    }
}

/// Two-pointer subsequence test.
pub fn subsequence(q: &Vec<char>, c: &Vec<char>) -> (r: bool)
    ensures
        r == is_subseq(q@, c@),
{
    let mut j: usize = 0;
    let mut i: usize = 0;
    assert(q@.skip(0) =~= q@);
    assert(c@.skip(0) =~= c@);
    while i < c.len()
        invariant
            i <= c.len(),
            j <= q.len(),
            is_subseq(q@, c@) == is_subseq(q@.skip(j as int), c@.skip(i as int)),
        decreases c.len() - i,
    {
        if j == q.len() {
            return true;
        }
        assert(q@.skip(j as int)[0] == q@[j as int]);
        assert(c@.skip(i as int)[0] == c@[i as int]);
        assert(c@.skip(i as int).drop_first() =~= c@.skip(i + 1));
        if q[j] == c[i] {
            assert(q@.skip(j as int).drop_first() =~= q@.skip(j + 1));
            j = j + 1;
        }
        i = i + 1;
    }
    j == q.len()
}

/// The pieces of `s` between separators, as `str::split` yields them
/// (empty pieces included).
pub open spec fn split_by(s: Seq<char>, is_sep: spec_fn(char) -> bool) -> Seq<Seq<char>>
    decreases s.len(),
{
    if s.len() == 0 {
        seq![Seq::<char>::empty()]
    } else {
        let rest = split_by(s.drop_last(), is_sep);
        if is_sep(s.last()) {
            rest.push(Seq::<char>::empty())
        } else {
            rest.update(rest.len() - 1, rest.last().push(s.last()))
        }
    }
}

/// `str::split_whitespace`: the non-empty pieces between whitespace.
pub open spec fn words(s: Seq<char>) -> Seq<Seq<char>> {
    non_empty(split_by(s, |c: char| is_ws(c)))
}

/// Drops the empty sequences of a list, keeping the order of the rest.
pub open spec fn non_empty(p: Seq<Seq<char>>) -> Seq<Seq<char>>
    decreases p.len(),
{
    if p.len() == 0 {
        p
    } else {
        let r = non_empty(p.drop_last());
        if p.last().len() == 0 {
            r
        } else {
            r.push(p.last())
        }
    }
}

/// The views of a list of character vectors.
pub open spec fn views(v: Seq<Vec<char>>) -> Seq<Seq<char>> {
    v.map_values(|x: Vec<char>| x@)
}

pub proof fn lemma_split_by_len(s: Seq<char>, is_sep: spec_fn(char) -> bool)
    ensures
        split_by(s, is_sep).len() >= 1,
    decreases s.len(),
{
    if s.len() > 0 {
        lemma_split_by_len(s.drop_last(), is_sep);
    }
}

/// `str::split` on any of the characters of `seps`.
pub fn split_on_any(s: &Vec<char>, seps: &Vec<char>) -> (r: Vec<Vec<char>>)
    ensures
        views(r@) == split_by(s@, |c: char| seps@.contains(c)),
{
    let ghost is_sep = |c: char| seps@.contains(c);
    let mut done: Vec<Vec<char>> = Vec::new();
    let mut cur: Vec<char> = Vec::new();
    let mut i: usize = 0;
    assert(s@.take(0) =~= Seq::<char>::empty());
    assert(views(done@).push(cur@) =~= split_by(s@.take(0), is_sep));
    while i < s.len()
        invariant
            i <= s.len(),
            views(done@).push(cur@) == split_by(s@.take(i as int), is_sep),
            is_sep == (|c: char| seps@.contains(c)),
        decreases s.len() - i,
    {
        let c = s[i];
        let mut is_s = false;
        let mut k: usize = 0;
        while k < seps.len()
            invariant
                k <= seps.len(),
                is_s == exists|t: int| 0 <= t < k && seps@[t] == c,
            decreases seps.len() - k,
        {
            if seps[k] == c {
                is_s = true;
            }
            k = k + 1;
        }
        assert(is_s == seps@.contains(c));
        let ghost prev = s@.take(i as int);
        assert(s@.take(i + 1).drop_last() =~= prev);
        assert(s@.take(i + 1).last() == c);
        proof {
            lemma_split_by_len(prev, is_sep);
        }
        if is_s {
            done.push(cur);
            cur = Vec::new();
            assert(views(done@).push(cur@) =~= split_by(prev, is_sep).push(Seq::<char>::empty()));
        } else {
            let ghost before = views(done@);
            cur.push(c);
            assert(views(done@).push(cur@) =~= split_by(prev, is_sep).update(
                split_by(prev, is_sep).len() - 1,
                split_by(prev, is_sep).last().push(c),
            ));
        }
        i = i + 1;
    }
    assert(s@.take(s.len() as int) =~= s@);
    done.push(cur);
    assert(views(done@) =~= split_by(s@, is_sep));
    done
}


fn split_on_ws(s: &Vec<char>) -> (r: Vec<Vec<char>>)
    ensures
        views(r@) == split_by(s@, |c: char| is_ws(c)),
{
    let ghost is_sep = |c: char| is_ws(c);
    let mut done: Vec<Vec<char>> = Vec::new();
    let mut cur: Vec<char> = Vec::new();
    let mut i: usize = 0;
    assert(s@.take(0) =~= Seq::<char>::empty());
    assert(views(done@).push(cur@) =~= split_by(s@.take(0), is_sep));
    while i < s.len()
        invariant
            i <= s.len(),
            views(done@).push(cur@) == split_by(s@.take(i as int), is_sep),
            is_sep == (|c: char| is_ws(c)),
        decreases s.len() - i,
    {
        let c = s[i];
        let ghost prev = s@.take(i as int);
        assert(s@.take(i + 1).drop_last() =~= prev);
        assert(s@.take(i + 1).last() == c);
        proof {
            lemma_split_by_len(prev, is_sep);
        }
        if is_whitespace(c) {
            done.push(cur);
            cur = Vec::new();
            assert(views(done@).push(cur@) =~= split_by(prev, is_sep).push(Seq::<char>::empty()));
        } else {
            cur.push(c);
            assert(views(done@).push(cur@) =~= split_by(prev, is_sep).update(
                split_by(prev, is_sep).len() - 1,
                split_by(prev, is_sep).last().push(c),
            ));
        }
        i = i + 1;
    }
    assert(s@.take(s.len() as int) =~= s@);
    done.push(cur);
    assert(views(done@) =~= split_by(s@, is_sep));
    done
}

/// Keeps the non-empty pieces, in order.
pub fn drop_empty(p: Vec<Vec<char>>) -> (r: Vec<Vec<char>>)
    ensures
        views(r@) == non_empty(views(p@)),
{
    let mut r: Vec<Vec<char>> = Vec::new();
    let mut i: usize = 0;
    let n = p.len();
    assert(views(p@).take(0) =~= Seq::<Seq<char>>::empty());
    for x in it: p
        invariant
            n == p.len(),
            it.seq() == p@,
            views(r@) == non_empty(views(p@).take(it.index() as int)),
    {
        let ghost k = it.index();
        assert(views(p@).take(k + 1).drop_last() =~= views(p@).take(k as int));
        assert(views(p@).take(k + 1).last() == x@);
        if x.len() > 0 {
            r.push(x);
            assert(views(r@) =~= non_empty(views(p@).take(k as int)).push(x@));
        }
    }
    assert(views(p@).take(n as int) =~= views(p@));
    r
}

/// `str::split_whitespace`.
pub fn split_whitespace(s: &Vec<char>) -> (r: Vec<Vec<char>>)
    ensures
        views(r@) == words(s@),
{
    drop_empty(split_on_ws(s))
}

/// The value of digit `c` in base `radix` (10 or 16), if it is one.
pub open spec fn digit_value(c: char, radix: u32) -> Option<u32> {
    if '0' <= c && c <= '9' {
        Some(((c as u32) - ('0' as u32)) as u32)
    } else if radix == 16 && 'a' <= c && c <= 'f' {
        Some(((c as u32) - ('a' as u32) + 10) as u32)
    } else if radix == 16 && 'A' <= c && c <= 'F' {
        Some(((c as u32) - ('A' as u32) + 10) as u32)
    } else {
        None
    }
}

/// Every character is a digit in base `radix`.
pub open spec fn all_digits(s: Seq<char>, radix: u32) -> bool {
    forall|i: int| 0 <= i < s.len() ==> #[trigger] digit_value(s[i], radix) is Some
}

/// The value of a string of digits in base `radix`.
pub open spec fn digits_value(s: Seq<char>, radix: u32) -> int
    decreases s.len(),
{
    if s.len() == 0 {
        0
    } else {
        radix * digits_value(s.drop_last(), radix) + digit_value(s.last(), radix)->Some_0
    }
}

/// `u32::from_str_radix` for radix 10 or 16 (and so `str::parse::<u32>`
/// for radix 10): an optional `+` followed by one or more digits whose value
/// fits in a `u32`.
pub open spec fn parse_u32_radix_spec(s: Seq<char>, radix: u32) -> Option<u32> {
    let d = if s.len() > 0 && s[0] == '+' {
        s.drop_first()
    } else {
        s
    };
    if d.len() > 0 && all_digits(d, radix) && digits_value(d, radix) <= u32::MAX {
        Some(digits_value(d, radix) as u32)
    } else {
        None
    }
}

/// `str::parse::<u32>`.
pub open spec fn parse_u32_spec(s: Seq<char>) -> Option<u32> {
    parse_u32_radix_spec(s, 10)
}

pub(crate) proof fn lemma_digits_value_nonneg(s: Seq<char>, radix: u32)
    requires
        all_digits(s, radix),
        radix == 10 || radix == 16,
    ensures
        digits_value(s, radix) >= 0,
    decreases s.len(),
{
    if s.len() > 0 {
        lemma_digits_value_nonneg(s.drop_last(), radix);
        assert(digit_value(s[s.len() - 1], radix) is Some);
    }
}

pub(crate) proof fn lemma_digits_value_mono(s: Seq<char>, k: int, radix: u32)
    requires
        all_digits(s, radix),
        radix == 10 || radix == 16,
        0 <= k <= s.len(),
    ensures
        digits_value(s.take(k), radix) <= digits_value(s, radix),
    decreases s.len() - k,
{
    if k < s.len() {
        lemma_digits_value_mono(s.drop_last(), k, radix);
        assert(s.drop_last().take(k) =~= s.take(k));
        lemma_digits_value_nonneg(s.drop_last(), radix);
        assert(digit_value(s[s.len() - 1], radix) is Some);
        assert(digits_value(s.drop_last(), radix) <= radix * digits_value(s.drop_last(), radix))
            by (nonlinear_arith)
            requires
                digits_value(s.drop_last(), radix) >= 0,
                radix >= 1,
        ;
    } else {
        assert(s.take(k) =~= s);
    }
}

pub(crate) fn digit(c: char, radix: u32) -> (r: Option<u32>)
    ensures
        r == digit_value(c, radix),
{
    if '0' <= c && c <= '9' {
        Some((c as u32) - ('0' as u32))
    } else if radix == 16 && 'a' <= c && c <= 'f' {
        Some((c as u32) - ('a' as u32) + 10)
    } else if radix == 16 && 'A' <= c && c <= 'F' {
        Some((c as u32) - ('A' as u32) + 10)
    } else {
        None
    }
}

/// Parses a `u32` in base 10 or 16 the way `u32::from_str_radix` does.
pub fn parse_u32_radix(s: &Vec<char>, radix: u32) -> (r: Option<u32>)
    requires
        radix == 10 || radix == 16,
    ensures
        r == parse_u32_radix_spec(s@, radix),
{
    let start: usize = if s.len() > 0 && s[0] == '+' {
        1
    } else {
        0
    };
    let ghost d = if s@.len() > 0 && s@[0] == '+' {
        s@.drop_first()
    } else {
        s@
    };
    assert(d =~= s@.skip(start as int));
    if start == s.len() {
        return None;
    }
    let mut acc: u32 = 0;
    let mut i: usize = start;
    assert(d.take(0) =~= Seq::<char>::empty());
    while i < s.len()
        invariant
            start <= i <= s.len(),
            radix == 10 || radix == 16,
            d =~= s@.skip(start as int),
            d == (if s@.len() > 0 && s@[0] == '+' {
                s@.drop_first()
            } else {
                s@
            }),
            d.len() > 0,
            all_digits(d.take(i - start), radix),
            acc == digits_value(d.take(i - start), radix),
        decreases s.len() - i,
    {
        let c = s[i];
        let ghost k = (i - start) as int;
        assert(d[k] == c);
        let dv = match digit(c, radix) {
            Some(v) => v,
            None => {
                assert(!all_digits(d, radix));
                return None;
            },
        };
        assert(d.take(k + 1).drop_last() =~= d.take(k));
        assert(all_digits(d.take(k + 1), radix));
        assert(digits_value(d.take(k + 1), radix) == radix * digits_value(d.take(k), radix) + dv);
        let limit: u32 = (u32::MAX - dv) / radix;
        if acc > limit {
            proof {
                assert(radix * (acc as int) + dv > u32::MAX) by (nonlinear_arith)
                    requires
                        acc > limit,
                        limit as int == (u32::MAX as int - dv as int) / (radix as int),
                        radix == 10 || radix == 16,
                        0 <= dv < radix,
                ;
                if all_digits(d, radix) {
                    lemma_digits_value_mono(d, k + 1, radix);
                }
            }
            return None;
        }
        proof {
            assert(radix * (acc as int) + dv <= u32::MAX) by (nonlinear_arith)
                requires
                    acc <= limit,
                    limit as int == (u32::MAX as int - dv as int) / (radix as int),
                    radix == 10 || radix == 16,
                    0 <= dv < radix,
            ;
        }
        acc = acc * radix + dv;
        i = i + 1;
    }
    assert(d.take(d.len() as int) =~= d);
    Some(acc)
}

/// Parses a decimal `u32` the way `str::parse::<u32>` does.
pub fn parse_u32(s: &Vec<char>) -> (r: Option<u32>)
    ensures
        r == parse_u32_spec(s@),
{
    parse_u32_radix(s, 10)
}

/// Strict lexicographic order on character sequences (by code point),
/// the order `String`'s `Ord` gives.
pub open spec fn seq_lt(a: Seq<char>, b: Seq<char>) -> bool
    decreases a.len(),
{
    if a.len() == 0 {
        b.len() > 0
    } else if b.len() == 0 {
        false
    } else if a[0] == b[0] {
        seq_lt(a.drop_first(), b.drop_first())
    } else {
        a[0] < b[0]
    }
}

/// Strict lexicographic comparison of two character vectors.
pub fn chars_lt(a: &Vec<char>, b: &Vec<char>) -> (r: bool)
    ensures
        r == seq_lt(a@, b@),
{
    let mut i: usize = 0;
    assert(a@.skip(0) =~= a@);
    assert(b@.skip(0) =~= b@);
    while i < a.len() && i < b.len()
        invariant
            i <= a.len(),
            i <= b.len(),
            seq_lt(a@, b@) == seq_lt(a@.skip(i as int), b@.skip(i as int)),
        decreases a.len() - i,
    {
        assert(a@.skip(i as int)[0] == a@[i as int]);
        assert(b@.skip(i as int)[0] == b@[i as int]);
        if a[i] != b[i] {
            return a[i] < b[i];
        }
        assert(a@.skip(i as int).drop_first() =~= a@.skip(i + 1));
        assert(b@.skip(i as int).drop_first() =~= b@.skip(i + 1));
        i = i + 1;
    }
    i < b.len()
}


/// What `str::to_lowercase` returns: the Unicode lower-case mapping.
pub uninterp spec fn unicode_lowercase(s: Seq<char>) -> Seq<char>;

/// What `str::to_uppercase` returns: the Unicode upper-case mapping.
pub uninterp spec fn unicode_uppercase(s: Seq<char>) -> Seq<char>;

/// Every character is ASCII.
pub open spec fn all_ascii(s: Seq<char>) -> bool {
    forall|i: int| 0 <= i < s.len() ==> (#[trigger] s[i] as u32) < 128
}

/// `str::to_lowercase`. The contract names the result (the Unicode
/// lower-case mapping of the input, a function of the input alone); for
/// ASCII text it is the ASCII lower-casing, as the Unicode tables map each
/// ASCII letter to its ASCII lower case and leave the other ASCII
/// characters alone. The rest of the Unicode case tables is not restated.
#[verifier::external_body]
pub(crate) fn to_lowercase(s: &str) -> (r: String)
    ensures
        r@ == unicode_lowercase(s@),
        all_ascii(s@) ==> r@ == lower_ascii(s@),
{
    s.to_lowercase()
}

/// `str::to_uppercase`. The contract names the result (the Unicode
/// upper-case mapping of the input, a function of the input alone); for
/// ASCII text it is the ASCII upper-casing. The rest of the Unicode case
/// tables is not restated.
#[verifier::external_body]
pub(crate) fn to_uppercase(s: &str) -> (r: String)
    ensures
        r@ == unicode_uppercase(s@),
        all_ascii(s@) ==> r@ == upper_ascii(s@),
{
    s.to_uppercase()
}


/// A copy of a character vector.
pub fn copy_chars(v: &Vec<char>) -> (r: Vec<char>)
    ensures
        r@ == v@,
{
    let r = v.clone();
    assert(r@ =~= v@);
    r
}


/// `seq_lt` is irreflexive.
pub proof fn lemma_seq_lt_irreflexive(a: Seq<char>)
    ensures
        !seq_lt(a, a),
    decreases a.len(),
{
    if a.len() > 0 {
        lemma_seq_lt_irreflexive(a.drop_first());
    }
}

/// `seq_lt` is transitive.
pub proof fn lemma_seq_lt_transitive(a: Seq<char>, b: Seq<char>, c: Seq<char>)
    requires
        seq_lt(a, b),
        seq_lt(b, c),
    ensures
        seq_lt(a, c),
    decreases a.len(),
{
    if a.len() > 0 && b.len() > 0 && c.len() > 0 {
        if a[0] == b[0] && b[0] == c[0] {
            lemma_seq_lt_transitive(a.drop_first(), b.drop_first(), c.drop_first());
        }
    }
}

/// Any two different sequences are ordered one way or the other.
pub proof fn lemma_seq_lt_total(a: Seq<char>, b: Seq<char>)
    requires
        a != b,
    ensures
        seq_lt(a, b) || seq_lt(b, a),
    decreases a.len(),
{
    if a.len() > 0 && b.len() > 0 && a[0] == b[0] {
        if a.drop_first() == b.drop_first() {
            assert(a =~= seq![a[0]] + a.drop_first());
            assert(b =~= seq![b[0]] + b.drop_first());
        }
        lemma_seq_lt_total(a.drop_first(), b.drop_first());
    } else if a.len() == 0 && b.len() == 0 {
        assert(a =~= b);
    }
}



/// Why `str::parse::<u32>` refuses a string (the kinds of `ParseIntError`
/// that an unsigned parse can report).
#[derive(Debug, Clone, Copy, PartialEq, Eq, Structural)]
pub enum IntErrorKind {
    Empty,
    InvalidDigit,
    PosOverflow,
}

/// The first failure met while reading the first `n` characters of the
/// digit string `d` left to right: a non-digit, or a value past `u32::MAX`.
pub open spec fn u32_scan_error(d: Seq<char>, n: int) -> Option<IntErrorKind>
    decreases n,
{
    if n <= 0 {
        None
    } else {
        match u32_scan_error(d, n - 1) {
            Some(k) => Some(k),
            None => if digit_value(d[n - 1], 10) is None {
                Some(IntErrorKind::InvalidDigit)
            } else if digits_value(d.take(n), 10) > u32::MAX {
                Some(IntErrorKind::PosOverflow)
            } else {
                None
            },
        }
    }
}

proof fn lemma_scan_error_stays(d: Seq<char>, n: int, m: int)
    requires
        0 <= n <= m,
        u32_scan_error(d, n) is Some,
    ensures
        u32_scan_error(d, m) == u32_scan_error(d, n),
    decreases m - n,
{
    if m > n {
        lemma_scan_error_stays(d, n, m - 1);
    }
}

/// The error kind `str::parse::<u32>` reports for a string it refuses.
pub open spec fn u32_error_kind(s: Seq<char>) -> IntErrorKind {
    if s.len() == 0 {
        IntErrorKind::Empty
    } else if s.len() == 1 && s[0] == '+' {
        IntErrorKind::InvalidDigit
    } else {
        let d = if s[0] == '+' {
            s.drop_first()
        } else {
            s
        };
        match u32_scan_error(d, d.len() as int) {
            Some(k) => k,
            None => IntErrorKind::InvalidDigit,
        }
    }
}

/// The text `ParseIntError` displays for each kind.
pub open spec fn int_error_text(k: IntErrorKind) -> Seq<char> {
    match k {
        IntErrorKind::Empty => "cannot parse integer from empty string"@,
        IntErrorKind::InvalidDigit => "invalid digit found in string"@,
        IntErrorKind::PosOverflow => "number too large to fit in target type"@,
    }
}

impl IntErrorKind {
    /// The displayed text of the error.
    pub fn message(&self) -> (r: &'static str)
        ensures
            r@ == int_error_text(*self),
    {
        match self {
            IntErrorKind::Empty => "cannot parse integer from empty string",
            IntErrorKind::InvalidDigit => "invalid digit found in string",
            IntErrorKind::PosOverflow => "number too large to fit in target type",
        }
    }
}

/// The error kind of a refused `u32` parse, found by scanning.
fn u32_error_of(s: &Vec<char>) -> (k: IntErrorKind)
    ensures
        k == u32_error_kind(s@),
{
    if s.len() == 0 {
        return IntErrorKind::Empty;
    }
    if s.len() == 1 && s[0] == '+' {
        return IntErrorKind::InvalidDigit;
    }
    let start: usize = if s[0] == '+' {
        1
    } else {
        0
    };
    let ghost d = if s@[0] == '+' {
        s@.drop_first()
    } else {
        s@
    };
    assert(d =~= s@.skip(start as int));
    let mut acc: u64 = 0;
    let mut i: usize = start;
    assert(d.take(0) =~= Seq::<char>::empty());
    while i < s.len()
        invariant
            start <= i <= s.len(),
            s@.len() > 0,
            d =~= s@.skip(start as int),
            d == (if s@[0] == '+' {
                s@.drop_first()
            } else {
                s@
            }),
            u32_scan_error(d, i - start) is None,
            all_digits(d.take(i - start), 10),
            acc == digits_value(d.take(i - start), 10),
            acc <= u32::MAX,
        decreases s.len() - i,
    {
        let ghost k = (i - start) as int;
        assert(d[k] == s@[i as int]);
        let dv = match digit(s[i], 10) {
            Some(v) => v,
            None => {
                proof {
                    lemma_scan_error_stays(d, k + 1, d.len() as int);
                }
                return IntErrorKind::InvalidDigit;
            },
        };
        assert(d.take(k + 1).drop_last() =~= d.take(k));
        assert(digits_value(d.take(k + 1), 10) == 10 * digits_value(d.take(k), 10) + dv);
        acc = acc * 10 + dv as u64;
        if acc > 0xffff_ffff {
            proof {
                lemma_scan_error_stays(d, k + 1, d.len() as int);
            }
            return IntErrorKind::PosOverflow;
        }
        i = i + 1;
    }
    IntErrorKind::InvalidDigit
}

/// `str::parse::<u32>` with the reason for a refusal.
pub fn parse_u32_or_error(s: &Vec<char>) -> (r: Result<u32, IntErrorKind>)
    ensures
        r matches Ok(v) ==> parse_u32_spec(s@) == Some(v),
        r matches Err(k) ==> parse_u32_spec(s@) is None && k == u32_error_kind(s@),
{
    match parse_u32(s) {
        Some(v) => Ok(v),
        None => Err(u32_error_of(s)),
    }
}

/// The character of a decimal digit.
pub open spec fn digit_char(d: nat) -> char {
    ((48 + d) as u8) as char
}

/// The decimal representation of a natural number, without sign or padding.
pub open spec fn dec_digits(n: nat) -> Seq<char>
    decreases n,
{
    if n < 10 {
        seq![digit_char(n)]
    } else {
        dec_digits(n / 10).push(digit_char(n % 10))
    }
}

/// The decimal text of a number, as `Display` writes it.
pub fn decimal(n: u64) -> (s: String)
    ensures
        s@ == dec_digits(n as nat),
    decreases n,
{
    if n < 10 {
        let mut s = String::new();
        push_char(&mut s, ((48 + n) as u8) as char);
        assert(s@ =~= seq![digit_char(n as nat)]);
        s
    } else {
        let mut s = decimal(n / 10);
        push_char(&mut s, ((48 + n % 10) as u8) as char);
        s
    }
}


/// `str::split` on one character.
pub fn split_char(s: &Vec<char>, sep: char) -> (r: Vec<Vec<char>>)
    ensures
        views(r@) == split_by(s@, |c: char| c == sep),
{
    let mut seps: Vec<char> = Vec::new();
    seps.push(sep);
    assert forall|c: char| seps@.contains(c) <==> c == sep by {
        if c == sep {
            assert(seps@[0] == c);
        }
    }
    assert((|c: char| seps@.contains(c)) =~= (|c: char| c == sep));
    split_on_any(s, &seps)
}

/// The number of bytes `char::len_utf8` gives.
pub open spec fn utf8_width(c: char) -> int {
    if (c as u32) < 0x80 {
        1
    } else if (c as u32) < 0x800 {
        2
    } else if (c as u32) < 0x10000 {
        3
    } else {
        4
    }
}

/// The number of characters whose UTF-8 encoding is exactly the first `n`
/// bytes of `s`, if byte `n` is a character boundary within `s`.
pub open spec fn char_boundary(s: Seq<char>, n: int) -> Option<int>
    decreases s.len(),
{
    if n == 0 {
        Some(0)
    } else if s.len() == 0 || utf8_width(s[0]) > n {
        None
    } else {
        match char_boundary(s.drop_first(), n - utf8_width(s[0])) {
            Some(k) => Some(k + 1),
            None => None,
        }
    }
}

fn utf8_width_of(c: char) -> (r: usize)
    ensures
        r == utf8_width(c),
{
    let u = c as u32;
    if u < 0x80 {
        1
    } else if u < 0x800 {
        2
    } else if u < 0x10000 {
        3
    } else {
        4
    }
}

/// `str::get(0..n)`: the leading characters that fill exactly `n` bytes.
pub fn byte_prefix(s: &Vec<char>, n: usize) -> (r: Option<Vec<char>>)
    ensures
        r matches Some(p) ==> char_boundary(s@, n as int) matches Some(k) && p@ == s@.take(k),
        r is None ==> char_boundary(s@, n as int) is None,
{
    let mut i: usize = 0;
    let mut b: usize = 0;
    assert(s@.skip(0) =~= s@);
    while b < n && i < s.len()
        invariant
            i <= s@.len(),
            b <= n,
            char_boundary(s@, n as int) == match char_boundary(s@.skip(i as int), n - b) {
                Some(k) => Some(k + i),
                None => None::<int>,
            },
        decreases s.len() - i,
    {
        let w = utf8_width_of(s[i]);
        assert(s@.skip(i as int)[0] == s@[i as int]);
        assert(s@.skip(i as int).drop_first() =~= s@.skip(i + 1));
        if w > n - b {
            return None;
        }
        b = b + w;
        i = i + 1;
    }
    if b < n {
        assert(s@.skip(i as int).len() == 0);
        return None;
    }
    let mut p: Vec<char> = Vec::new();
    let mut j: usize = 0;
    while j < i
        invariant
            j <= i,
            i <= s@.len(),
            p@ =~= s@.take(j as int),
        decreases i - j,
    {
        p.push(s[j]);
        j = j + 1;
    }
    Some(p)
}


/// `d` preceded by zeros up to width `w`.
pub open spec fn zero_pad(d: Seq<char>, w: nat) -> Seq<char> {
    if d.len() >= w {
        d
    } else {
        Seq::new((w - d.len()) as nat, |i: int| '0') + d
    }
}

/// The decimal text of a number, zero-padded to width `w`.
pub fn padded(n: u64, w: usize) -> (r: String)
    ensures
        r@ == zero_pad(dec_digits(n as nat), w as nat),
{
    let d = decimal(n);
    let dv = chars_of(d.as_str());
    if dv.len() >= w {
        return d;
    }
    let mut v: Vec<char> = Vec::new();
    let k = w - dv.len();
    let mut i: usize = 0;
    while i < k
        invariant
            i <= k,
            v@ =~= Seq::new(i as nat, |j: int| '0'),
        decreases k - i,
    {
        v.push('0');
        i = i + 1;
    }
    let mut j: usize = 0;
    while j < dv.len()
        invariant
            j <= dv@.len(),
            v@ =~= Seq::new(k as nat, |x: int| '0') + dv@.take(j as int),
        decreases dv.len() - j,
    {
        v.push(dv[j]);
        j = j + 1;
    }
    assert(dv@.take(dv.len() as int) =~= dv@);
    string_of(&v)
}

/// The decimal text of a signed number, `-` first when negative.
pub open spec fn signed_text(t: int) -> Seq<char> {
    if t < 0 {
        "-"@ + dec_digits((-t) as nat)
    } else {
        dec_digits(t as nat)
    }
}

/// The decimal text of an `i64`, as `Display` writes it.
pub fn signed_decimal(t: i64) -> (r: String)
    ensures
        r@ == signed_text(t as int),
{
    if t < 0 {
        let m: u64 = if t == i64::MIN {
            9223372036854775808
        } else {
            (-t) as u64
        };
        let d = decimal(m);
        let mut s = String::new();
        push_char(&mut s, '-');
        s.append(d.as_str());
        proof {
            reveal_strlit("-");
        }
        assert(s@ =~= "-"@ + d@);
        s
    } else {
        decimal(t as u64)
    }
}


proof fn lemma_trim_start_shape(s: Seq<char>)
    ensures
        trim_start(s).len() > 0 ==> !is_ws(trim_start(s)[0]),
        trim_start(s).len() <= s.len(),
    decreases s.len(),
{
    if s.len() > 0 && is_ws(s[0]) {
        lemma_trim_start_shape(s.drop_first());
    }
}

proof fn lemma_trim_end_shape(s: Seq<char>)
    ensures
        trim_end(s) == s.take(trim_end(s).len() as int),
        trim_end(s).len() <= s.len(),
        trim_end(s).len() > 0 ==> !is_ws(trim_end(s).last()),
    decreases s.len(),
{
    if s.len() > 0 && is_ws(s.last()) {
        lemma_trim_end_shape(s.drop_last());
        assert(s.drop_last().take(trim_end(s).len() as int) =~= s.take(trim_end(s).len() as int));
    } else {
        assert(s.take(s.len() as int) =~= s);
    }
}

pub(crate) proof fn lemma_trim_start_ws_first(w: char, x: Seq<char>)
    requires
        is_ws(w),
    ensures
        trim_start(seq![w] + x) == trim_start(x),
{
    let s = seq![w] + x;
    assert(s[0] == w);
    assert(s.drop_first() =~= x);
}

pub(crate) proof fn lemma_trim_end_ws_last(x: Seq<char>, w: char)
    requires
        is_ws(w),
    ensures
        trim_end(x.push(w)) == trim_end(x),
{
    assert(x.push(w).drop_last() =~= x);
}

pub(crate) proof fn lemma_trim_start_push(x: Seq<char>, w: char)
    requires
        is_ws(w),
    ensures
        trim_start(x.push(w)) == (if trim_start(x).len() > 0 {
            trim_start(x).push(w)
        } else {
            Seq::<char>::empty()
        }),
    decreases x.len(),
{
    if x.len() == 0 {
        assert(x.push(w)[0] == w);
        assert(x.push(w).drop_first() =~= Seq::<char>::empty());
        assert(trim_start(Seq::<char>::empty()) == Seq::<char>::empty());
        assert(trim_start(x) == x);
    } else if is_ws(x[0]) {
        assert(x.push(w)[0] == x[0]);
        assert(x.push(w).drop_first() =~= x.drop_first().push(w));
        lemma_trim_start_push(x.drop_first(), w);
    } else {
        assert(x.push(w)[0] == x[0]);
        assert(trim_start(x) == x);
        assert(trim_start(x.push(w)) == x.push(w));
    }
}

pub(crate) proof fn lemma_trim_start_upper(s: Seq<char>)
    ensures
        trim_start(upper_ascii(s)) == upper_ascii(trim_start(s)),
    decreases s.len(),
{
    if s.len() > 0 {
        let u = upper_ascii(s);
        assert(u[0] == ascii_upper(s[0]));
        assert(is_ws(ascii_upper(s[0])) == is_ws(s[0]));
        assert(u.drop_first() =~= upper_ascii(s.drop_first()));
        lemma_trim_start_upper(s.drop_first());
    } else {
        assert(upper_ascii(s) =~= s);
    }
}

pub(crate) proof fn lemma_trim_end_upper(s: Seq<char>)
    ensures
        trim_end(upper_ascii(s)) == upper_ascii(trim_end(s)),
    decreases s.len(),
{
    if s.len() > 0 {
        let u = upper_ascii(s);
        assert(u.last() == ascii_upper(s.last()));
        assert(is_ws(ascii_upper(s.last())) == is_ws(s.last()));
        assert(u.drop_last() =~= upper_ascii(s.drop_last()));
        lemma_trim_end_upper(s.drop_last());
    } else {
        assert(upper_ascii(s) =~= s);
    }
}

pub(crate) proof fn lemma_trim_keeps_ascii(s: Seq<char>)
    requires
        all_ascii(s),
    ensures
        all_ascii(trim_start(s)),
        all_ascii(trim_end(s)),
    decreases s.len(),
{
    if s.len() > 0 {
        assert(all_ascii(s.drop_first())) by {
            assert forall|i: int| 0 <= i < s.drop_first().len() implies (#[trigger] s.drop_first()[i] as u32) < 128 by {
                assert(s.drop_first()[i] == s[i + 1]);
            }
        }
        assert(all_ascii(s.drop_last())) by {
            assert forall|i: int| 0 <= i < s.drop_last().len() implies (#[trigger] s.drop_last()[i] as u32) < 128 by {
                assert(s.drop_last()[i] == s[i]);
            }
        }
        lemma_trim_keeps_ascii(s.drop_first());
        lemma_trim_keeps_ascii(s.drop_last());
    }
}

/// Trimming twice is trimming once.
pub proof fn lemma_trim_idempotent(s: Seq<char>)
    ensures
        trim(trim(s)) == trim(s),
{
    let u = trim_start(s);
    let t = trim_end(u);
    lemma_trim_start_shape(s);
    lemma_trim_end_shape(u);
    if t.len() > 0 {
        assert(t[0] == u[0]);
        assert(trim_start(t) == t);
    } else {
        assert(trim_start(t) == t);
    }
}


/// Splitting at a separator splits the two sides independently.
pub proof fn lemma_split_by_concat(a: Seq<char>, d: char, b: Seq<char>, is_sep: spec_fn(char) -> bool)
    requires
        is_sep(d),
    ensures
        split_by(a + seq![d] + b, is_sep) == split_by(a, is_sep) + split_by(b, is_sep),
    decreases b.len(),
{
    if b.len() == 0 {
        assert(a + seq![d] + b =~= a.push(d));
        assert((a.push(d)).drop_last() =~= a);
        assert(split_by(b, is_sep) =~= seq![Seq::<char>::empty()]);
        assert(split_by(a, is_sep).push(Seq::<char>::empty()) =~= split_by(a, is_sep) + split_by(b, is_sep));
    } else {
        let b0 = b.drop_last();
        let c = b.last();
        lemma_split_by_concat(a, d, b0, is_sep);
        let s = a + seq![d] + b;
        assert(s.drop_last() =~= a + seq![d] + b0);
        assert(s.last() == c);
        lemma_split_by_len(b0, is_sep);
        let x = split_by(a, is_sep);
        let y = split_by(b0, is_sep);
        if is_sep(c) {
            assert((x + y).push(Seq::<char>::empty()) =~= x + y.push(Seq::<char>::empty()));
        } else {
            assert((x + y).update((x + y).len() - 1, (x + y).last().push(c)) =~= x + y.update(
                y.len() - 1,
                y.last().push(c),
            ));
        }
    }
}

/// A text without separators is a single piece.
pub proof fn lemma_split_by_none(a: Seq<char>, is_sep: spec_fn(char) -> bool)
    requires
        forall|i: int| 0 <= i < a.len() ==> !is_sep(#[trigger] a[i]),
    ensures
        split_by(a, is_sep) == seq![a],
    decreases a.len(),
{
    if a.len() > 0 {
        let b = a.drop_last();
        assert forall|i: int| 0 <= i < b.len() implies !is_sep(#[trigger] b[i]) by {
            assert(b[i] == a[i]);
        }
        lemma_split_by_none(b, is_sep);
        assert(!is_sep(a[a.len() - 1]));
        assert(b.push(a.last()) =~= a);
        assert(seq![b].update(0, b.push(a.last())) =~= seq![a]);
    } else {
        assert(a =~= Seq::<char>::empty());
    }
}

proof fn lemma_dec_digits_shape(n: nat)
    ensures
        dec_digits(n).len() > 0,
        forall|i: int| 0 <= i < dec_digits(n).len() ==> digit_value(#[trigger] dec_digits(n)[i], 10) is Some,
        forall|i: int| 0 <= i < dec_digits(n).len() ==> #[trigger] dec_digits(n)[i] != '.' && dec_digits(n)[i] != '+',
        digits_value(dec_digits(n), 10) == n,
    decreases n,
{
    if n < 10 {
        let c = digit_char(n);
        assert(c as u32 == 48 + n);
        assert(dec_digits(n) == seq![c]);
        assert(seq![c].drop_last() =~= Seq::<char>::empty());
        assert(digits_value(Seq::<char>::empty(), 10) == 0);
        assert(digit_value(c, 10) == Some(n as u32));
        assert(digits_value(seq![c], 10) == 10 * digits_value(seq![c].drop_last(), 10) + digit_value(seq![c].last(), 10)->Some_0);
    } else {
        lemma_dec_digits_shape(n / 10);
        let c = digit_char(n % 10);
        assert(c as u32 == 48 + n % 10);
        let d = dec_digits(n / 10);
        assert(dec_digits(n) == d.push(c));
        assert(d.push(c).drop_last() =~= d);
        assert(digit_value(c, 10) == Some((n % 10) as u32));
        assert(digits_value(d.push(c), 10) == 10 * digits_value(d, 10) + digit_value(c, 10)->Some_0);
        assert forall|i: int| 0 <= i < d.push(c).len() implies digit_value(#[trigger] d.push(c)[i], 10) is Some
            && d.push(c)[i] != '.' && d.push(c)[i] != '+' by {
            if i < d.len() {
                assert(d.push(c)[i] == d[i]);
            }
        }
    }
}

/// The decimal text of a `u32` parses back to it.
pub proof fn lemma_parse_decimal(n: u32)
    ensures
        parse_u32_spec(dec_digits(n as nat)) == Some(n),
        forall|i: int| 0 <= i < dec_digits(n as nat).len() ==> #[trigger] dec_digits(n as nat)[i] != '.',
{
    lemma_dec_digits_shape(n as nat);
    let d = dec_digits(n as nat);
    assert(d[0] != '+');
    assert(all_digits(d, 10));
}

} // verus!
