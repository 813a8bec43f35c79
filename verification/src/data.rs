//! Splitting rows of a market-data text file.

use vstd::prelude::*;
use vstd::string::StringExecFns;
use crate::broker::string_views;
use crate::text::{byte_prefix, char_boundary, chars_of, split_by, split_char, split_whitespace, string_of, views, words};

verus! {

broadcast use vstd::string::group_string_axioms;

/// The five fields (timestamp, open, high, low, close) of a market row:
/// tab-separated, else comma-separated, else six whitespace-separated
/// words whose first two are a 19-byte date and time (taken from the raw
/// line) and whose third is a symbol, skipped.
pub open spec fn market_row(s: Seq<char>) -> Result<Seq<Seq<char>>, Seq<char>> {
    let tabs = split_by(s, |c: char| c == '\t');
    let commas = split_by(s, |c: char| c == ',');
    let w = words(s);
    if tabs.len() == 5 {
        Ok(tabs)
    } else if commas.len() == 5 {
        Ok(commas)
    } else if w.len() == 6 {
        match char_boundary(s, 19) {
            Some(k) => Ok(seq![s.take(k), w[2], w[3], w[4], w[5]]),
            None => Err("missing datetime"@),
        }
    } else {
        Err("expected 5 market columns"@)
    }
}

fn strings_of(v: &Vec<Vec<char>>) -> (r: Vec<String>)
    ensures
        string_views(r@) == views(v@),
{
    let mut out: Vec<String> = Vec::new();
    let mut i: usize = 0;
    while i < v.len()
        invariant
            i <= v@.len(),
            string_views(out@) =~= views(v@).take(i as int),
        decreases v.len() - i,
    {
        let ghost before = out@;
        out.push(string_of(&v[i]));
        assert(string_views(out@) =~= string_views(before).push(v@[i as int]@));
        i = i + 1;
    }
    assert(views(v@).take(v.len() as int) =~= views(v@));
    out
}

/// Splits one market row into exactly five fields: timestamp, open, high,
/// low, close.
pub fn parse_market_row(line: &str) -> (r: Result<Vec<String>, String>)
    ensures
        r matches Ok(v) ==> market_row(line@) == Ok::<Seq<Seq<char>>, Seq<char>>(string_views(v@)),
        r matches Err(e) ==> market_row(line@) == Err::<Seq<Seq<char>>, Seq<char>>(e@),
{
    let s = chars_of(line);
    let tabs = split_char(&s, '\t');
    if tabs.len() == 5 {
        return Ok(strings_of(&tabs));
    }
    let commas = split_char(&s, ',');
    if commas.len() == 5 {
        return Ok(strings_of(&commas));
    }
    let w = split_whitespace(&s);
    if w.len() == 6 {
        let ts = match byte_prefix(&s, 19) {
            Some(p) => p,
            None => {
                return Err(String::from_str("missing datetime"));
            },
        };
        let mut out: Vec<String> = Vec::new();
        out.push(string_of(&ts));
        out.push(string_of(&w[2]));
        out.push(string_of(&w[3]));
        out.push(string_of(&w[4]));
        out.push(string_of(&w[5]));
        assert(views(w@)[2] == w@[2]@);
        assert(views(w@)[3] == w@[3]@);
        assert(views(w@)[4] == w@[4]@);
        assert(views(w@)[5] == w@[5]@);
        assert(string_views(out@) =~= seq![
            ts@,
            views(w@)[2],
            views(w@)[3],
            views(w@)[4],
            views(w@)[5],
        ]);
        return Ok(out);
    }
    Err(String::from_str("expected 5 market columns"))
}


/// A row that splits gives exactly five fields.
pub proof fn lemma_market_row_has_five_fields(s: Seq<char>)
    ensures
        market_row(s) is Ok ==> market_row(s)->Ok_0.len() == 5,
{
}

} // verus!
