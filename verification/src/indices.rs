//! Index constituent lists: reading a constituents CSV, the refresh
//! outcome, and when a cached list is stale.

use vstd::prelude::*;
use vstd::string::StringExecFns;
use crate::broker::{read_csv, csv_table, string_views};
use crate::text::{chars_eq_str, chars_of, string_of, to_uppercase, trim, trim_chars, trim_str, unicode_uppercase};

verus! {

broadcast use vstd::string::group_string_axioms;

/// A cached list is refreshed once it is older than this many seconds.
pub const DEFAULT_STALENESS_SECS: u64 = 86400;

/// `Duration::MAX` in nanoseconds.
pub const DURATION_MAX_NANOS: u128 = 18_446_744_073_709_551_615_999_999_999;

/// The outcome of refreshing one index.
#[derive(Debug, Clone)]
pub struct RefreshOutcome {
    pub alias: String,
    pub success: bool,
    pub symbol_count: usize,
    pub error: Option<String>,
}

/// The on-disk form of a cached constituent list.
#[derive(Debug, Clone)]
pub struct IndexCacheFile {
    pub alias: String,
    pub last_updated: String,
    pub symbols: Vec<String>,
}

/// What the desktop shows about one index.
#[derive(Debug, Clone)]
pub struct IndexInfo {
    pub alias: String,
    pub display_name: String,
    pub symbol_count: usize,
    pub last_updated: String,
}

/// A cache file needs refreshing: its modification time is unknown
/// (`None`), or its age exceeds the threshold, an age that cannot be
/// measured (a modification time in the future, `Some(None)`) counting as
/// `Duration::MAX`. Durations are in nanoseconds.
pub open spec fn stale(file_age: Option<Option<u128>>, threshold: u128) -> bool {
    match file_age {
        None => true,
        Some(None) => DURATION_MAX_NANOS > threshold,
        Some(Some(age)) => age > threshold,
    }
}

/// True if a cache file is missing, unreadable, or older than `threshold`.
pub fn is_stale(file_age: Option<Option<u128>>, threshold: u128) -> (r: bool)
    ensures
        r == stale(file_age, threshold),
{
    match file_age {
        None => true,
        Some(None) => DURATION_MAX_NANOS > threshold,
        Some(Some(age)) => age > threshold,
    }
}

/// The text after any leading byte-order marks.
pub open spec fn strip_bom(s: Seq<char>) -> Seq<char>
    decreases s.len(),
{
    if s.len() > 0 && s[0] == '\u{feff}' {
        strip_bom(s.drop_first())
    } else {
        s
    }
}

/// The first header position whose trimmed text is `Symbol`.
pub open spec fn symbol_column(h: Seq<Seq<char>>) -> Option<int>
    decreases h.len(),
{
    if h.len() == 0 {
        None
    } else {
        match symbol_column(h.drop_last()) {
            Some(i) => Some(i),
            None => if trim(h.last()) == "Symbol"@ {
                Some(h.len() - 1)
            } else {
                None
            },
        }
    }
}

/// The symbols of readable rows at column `col`, trimmed and upper-cased,
/// empty ones dropped, in file order.
pub open spec fn column_symbols(rows: Seq<Option<Seq<Seq<char>>>>, col: int) -> Seq<Seq<char>>
    decreases rows.len(),
{
    if rows.len() == 0 {
        Seq::empty()
    } else {
        let rest = column_symbols(rows.drop_last(), col);
        match rows.last() {
            Some(r) => if 0 <= col < r.len() && unicode_uppercase(trim(r[col])).len() > 0 {
                rest.push(unicode_uppercase(trim(r[col])))
            } else {
                rest
            },
            None => rest,
        }
    }
}

/// The constituents a CSV lists under its `Symbol` column.
pub open spec fn constituents(text: Seq<char>) -> Result<Seq<Seq<char>>, Seq<char>> {
    let t = csv_table(strip_bom(text));
    match symbol_column(t.0) {
        None => Err("CSV has no 'Symbol' column"@),
        Some(c) => if column_symbols(t.1, c).len() == 0 {
            Err("CSV parsed but contained no symbols"@)
        } else {
            Ok(column_symbols(t.1, c))
        },
    }
}

proof fn lemma_symbol_column(h: Seq<Seq<char>>)
    ensures
        symbol_column(h) matches Some(i) ==> 0 <= i < h.len(),
    decreases h.len(),
{
    if h.len() > 0 {
        lemma_symbol_column(h.drop_last());
    }
}

/// The text after any leading byte-order marks.
pub fn strip_byte_order_marks(text: &str) -> (r: String)
    ensures
        r@ == strip_bom(text@),
{
    let v = chars_of(text);
    let mut i: usize = 0;
    assert(v@.skip(0) =~= v@);
    while i < v.len() && v[i] == '\u{feff}'
        invariant
            i <= v@.len(),
            strip_bom(v@) == strip_bom(v@.skip(i as int)),
        decreases v.len() - i,
    {
        assert(v@.skip(i as int).drop_first() =~= v@.skip(i + 1));
        i = i + 1;
    }
    let mut rest: Vec<char> = Vec::new();
    let mut j: usize = i;
    while j < v.len()
        invariant
            i <= j <= v@.len(),
            rest@ =~= v@.subrange(i as int, j as int),
        decreases v.len() - j,
    {
        rest.push(v[j]);
        j = j + 1;
    }
    assert(rest@ =~= v@.skip(i as int));
    string_of(&rest)
}

/// Reads an index constituents CSV (as published by the index provider):
/// the trimmed, upper-cased, non-empty entries of its `Symbol` column.
pub fn parse_constituents(text: &str) -> (r: Result<Vec<String>, String>)
    ensures
        r matches Ok(v) ==> constituents(text@) == Ok::<Seq<Seq<char>>, Seq<char>>(string_views(v@)),
        r matches Err(e) ==> constituents(text@) == Err::<Seq<Seq<char>>, Seq<char>>(e@),
{
    let clean = strip_byte_order_marks(text);
    let (headers, rows) = read_csv(clean.as_str());
    let ghost hv = string_views(headers@);
    let ghost rv = crate::broker::record_views(rows@);
    let mut col: Option<usize> = None;
    let mut i: usize = 0;
    assert(hv.take(0) =~= Seq::<Seq<char>>::empty());
    while i < headers.len()
        invariant
            i <= headers@.len(),
            hv == string_views(headers@),
            col == (match symbol_column(hv.take(i as int)) {
                Some(k) => Some(k as usize),
                None => None::<usize>,
            }),
            col matches Some(k) ==> k < i,
        decreases headers.len() - i,
    {
        assert(hv.take(i + 1).drop_last() =~= hv.take(i as int));
        assert(hv.take(i + 1).last() == headers@[i as int]@);
        if col.is_none() && chars_eq_str(&trim_chars(&chars_of(headers[i].as_str())), "Symbol") {
            col = Some(i);
        }
        i = i + 1;
    }
    assert(hv.take(headers.len() as int) =~= hv);
    proof {
        lemma_symbol_column(hv);
    }
    let c = match col {
        Some(c) => c,
        None => {
            return Err(String::from_str("CSV has no 'Symbol' column"));
        },
    };
    let mut out: Vec<String> = Vec::new();
    let mut j: usize = 0;
    assert(rv.take(0) =~= Seq::<Option<Seq<Seq<char>>>>::empty());
    assert(string_views(out@) =~= Seq::<Seq<char>>::empty());
    while j < rows.len()
        invariant
            j <= rows@.len(),
            rv == crate::broker::record_views(rows@),
            string_views(out@) == column_symbols(rv.take(j as int), c as int),
        decreases rows.len() - j,
    {
        assert(rv.take(j + 1).drop_last() =~= rv.take(j as int));
        assert(rv.take(j + 1).last() == rv[j as int]);
        match &rows[j] {
            Some(r) => {
                assert(rv[j as int] == Some(string_views(r@)));
                if c < r.len() {
                    assert(string_views(r@)[c as int] == r@[c as int]@);
                    let t = trim_str(r[c].as_str());
                    let u = to_uppercase(t.as_str());
                    if !u.as_str().is_empty() {
                        let ghost before = out@;
                        out.push(u);
                        assert(string_views(out@) =~= string_views(before).push(out@[before.len() as int]@));
                    }
                }
            },
            None => {},
        }
        j = j + 1;
    }
    assert(rv.take(rows.len() as int) =~= rv);
    if out.len() == 0 {
        return Err(String::from_str("CSV parsed but contained no symbols"));
    }
    Ok(out)
}

/// The outcome of refreshing index `alias` from what the fetch returned.
pub fn refresh_outcome(alias: &str, fetched: &Result<Vec<String>, String>) -> (r: RefreshOutcome)
    ensures
        r.alias@ == alias@,
        match fetched {
            Ok(v) => r.success && r.symbol_count == v@.len() && r.error is None,
            Err(e) => !r.success && r.symbol_count == 0 && (r.error matches Some(m) && m@ == e@),
        },
{
    match fetched {
        Ok(v) => RefreshOutcome {
            alias: String::from_str(alias),
            success: true,
            symbol_count: v.len(),
            error: None,
        },
        Err(e) => RefreshOutcome {
            alias: String::from_str(alias),
            success: false,
            symbol_count: 0,
            error: Some(e.clone()),
        },
    }
}

} // verus!
