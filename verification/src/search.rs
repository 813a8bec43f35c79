//! Fuzzy symbol search over equities and indices.
//!
//! Scoring tiers (the highest applicable tier wins):
//! exact match 1000; prefix match 800 plus a bonus for short candidates;
//! substring 500; subsequence 300; character-trigram Jaccard similarity
//! of at least one quarter 50..=200; otherwise 0 (filtered out).

use vstd::prelude::*;
use crate::text::{
    chars_eq, chars_lt, chars_of, contains, copy_chars, has_prefix, has_substring, is_subseq,
    lemma_seq_lt_irreflexive, lemma_seq_lt_total, lemma_seq_lt_transitive, seq_lt,
    starts_with, subsequence, to_lowercase, trim, trim_str, unicode_lowercase, views, all_ascii,
    lower_ascii, upper_ascii, ascii_lower, ascii_upper, trim_start, trim_end, lemma_trim_start_ws_first,
    lemma_trim_end_ws_last, lemma_trim_start_push, lemma_trim_start_upper, lemma_trim_end_upper,
    lemma_trim_keeps_ascii,
};

verus! {

broadcast use vstd::string::group_string_axioms;

/// The character trigrams (windows of three) of `s`, in order.
pub open spec fn windows3(s: Seq<char>) -> Seq<Seq<char>> {
    if s.len() < 3 {
        Seq::empty()
    } else {
        Seq::new((s.len() - 2) as nat, |i: int| s.subrange(i, i + 3))
    }
}

/// The set of character trigrams of `s`.
pub open spec fn trigram_set(s: Seq<char>) -> Set<Seq<char>> {
    windows3(s).to_set()
}

/// Number of trigrams the two strings share.
pub open spec fn trigram_shared(a: Seq<char>, b: Seq<char>) -> nat {
    trigram_set(a).intersect(trigram_set(b)).len()
}

/// Number of distinct trigrams of either string.
pub open spec fn trigram_total(a: Seq<char>, b: Seq<char>) -> nat {
    trigram_set(a).union(trigram_set(b)).len()
}

/// Tier-one score: the Jaccard similarity `shared / total` scaled to
/// 0..=200 (rounded down), floored at 50, when the similarity is at least
/// one quarter; otherwise 0.
pub open spec fn trigram_score(a: Seq<char>, b: Seq<char>) -> u32 {
    let i = trigram_shared(a, b);
    let u = trigram_total(a, b);
    if u > 0 && 4 * i >= u {
        let sc = (200 * i / u) as u32;
        if sc < 50 {
            50
        } else {
            sc
        }
    } else {
        0
    }
}

/// Score of `candidate` against `query`; both are expected lower-cased.
/// `candidate_bytes` is the UTF-8 length of the candidate.
pub open spec fn score_spec(query: Seq<char>, candidate: Seq<char>) -> u32 {
    if candidate == query {
        1000
    } else if has_prefix(candidate, query) {
        let total = vstd::utf8::encode_utf8(candidate).len() as usize;
        let capped = if total < 100 {
            total
        } else {
            100
        };
        (800 + (100 - capped)) as u32
    } else if has_substring(candidate, query) {
        500
    } else if is_subseq(query, candidate) {
        300
    } else {
        trigram_score(query, candidate)
    }
}

proof fn lemma_views_push(v: Seq<Vec<char>>, x: Vec<char>)
    ensures
        views(v.push(x)) == views(v).push(x@),
{
    assert(views(v.push(x)) =~= views(v).push(x@));
}

fn window_list(s: &Vec<char>) -> (r: Vec<Vec<char>>)
    ensures
        views(r@) == windows3(s@),
{
    let mut r: Vec<Vec<char>> = Vec::new();
    if s.len() < 3 {
        assert(views(r@) =~= windows3(s@));
        return r;
    }
    let n = s.len() - 2;
    let mut i: usize = 0;
    while i < n
        invariant
            n == s.len() - 2,
            s.len() >= 3,
            i <= n,
            views(r@) =~= windows3(s@).take(i as int),
        decreases n - i,
    {
        let mut w: Vec<char> = Vec::new();
        w.push(s[i]);
        w.push(s[i + 1]);
        w.push(s[i + 2]);
        assert(w@ =~= s@.subrange(i as int, i + 3));
        let ghost r0 = r@;
        r.push(w);
        proof {
            lemma_views_push(r0, w);
        }
        i = i + 1;
        assert(views(r@) =~= windows3(s@).take(i as int));
    }
    assert(windows3(s@).take(n as int) =~= windows3(s@));
    r
}

fn list_contains(list: &Vec<Vec<char>>, x: &Vec<char>) -> (r: bool)
    ensures
        r == views(list@).contains(x@),
{
    let mut i: usize = 0;
    while i < list.len()
        invariant
            i <= list.len(),
            forall|k: int| 0 <= k < i ==> views(list@)[k] != x@,
        decreases list.len() - i,
    {
        if chars_eq(&list[i], x) {
            assert(views(list@)[i as int] == x@);
            return true;
        }
        i = i + 1;
    }
    false
}

fn dedup_list(list: &Vec<Vec<char>>) -> (r: Vec<Vec<char>>)
    ensures
        views(r@).no_duplicates(),
        views(r@).to_set() == views(list@).to_set(),
{
    let mut r: Vec<Vec<char>> = Vec::new();
    let mut i: usize = 0;
    while i < list.len()
        invariant
            i <= list.len(),
            views(r@).no_duplicates(),
            views(r@).to_set() == views(list@).take(i as int).to_set(),
        decreases list.len() - i,
    {
        let ghost before = views(r@);
        assert(views(list@).take(i + 1) =~= views(list@).take(i as int).push(list@[i as int]@));
        proof {
            views(list@).take(i as int).lemma_push_to_set_commute(list@[i as int]@);
        }
        if !list_contains(&r, &list[i]) {
            let c = copy_chars(&list[i]);
            let ghost r0 = r@;
            r.push(c);
            proof {
                lemma_views_push(r0, c);
                before.lemma_push_to_set_commute(c@);
            }
            assert(views(r@) =~= before.push(list@[i as int]@));
            assert(views(r@).to_set() =~= views(list@).take(i + 1).to_set());
        } else {
            assert(views(r@).to_set().contains(list@[i as int]@));
            assert(views(r@).to_set() =~= views(list@).take(i + 1).to_set());
        }
        i = i + 1;
    }
    assert(views(list@).take(list.len() as int) =~= views(list@));
    r
}

/// Shared and total trigram counts of two strings.
pub fn trigram_counts(a: &Vec<char>, b: &Vec<char>) -> (r: (usize, usize))
    ensures
        r.0 == trigram_shared(a@, b@),
        r.1 == trigram_total(a@, b@),
{
    let da = dedup_list(&window_list(a));
    let db = dedup_list(&window_list(b));
    let ghost sa = trigram_set(a@);
    let ghost sb = trigram_set(b@);
    let mut both: Vec<Vec<char>> = Vec::new();
    let mut either: Vec<Vec<char>> = Vec::new();
    let mut j: usize = 0;
    while j < db.len()
        invariant
            j <= db.len(),
            views(either@) =~= views(db@).take(j as int),
        decreases db.len() - j,
    {
        let ghost e0 = either@;
        let c = copy_chars(&db[j]);
        either.push(c);
        assert(either@ == e0.push(c));
        assert(views(e0).len() == j);
        assert(e0.len() == j);
        assert(either@.len() == j + 1);
        assert(views(either@).len() == j + 1);
        assert(views(either@)[j as int] == c@);
        assert(forall|k: int| 0 <= k < j ==> views(either@)[k] == views(e0)[k]);
        j = j + 1;
        assert(views(either@) =~= views(db@).take(j as int));
    }
    assert(views(db@).take(db.len() as int) =~= views(db@));
    let mut i: usize = 0;
    while i < da.len()
        invariant
            i <= da.len(),
            views(da@).no_duplicates(),
            views(db@).no_duplicates(),
            views(both@).no_duplicates(),
            views(either@).no_duplicates(),
            views(both@).to_set() == views(da@).take(i as int).to_set().intersect(
                views(db@).to_set(),
            ),
            views(either@).to_set() == views(da@).take(i as int).to_set().union(
                views(db@).to_set(),
            ),
        decreases da.len() - i,
    {
        let ghost x = da@[i as int]@;
        let ghost pre = views(da@).take(i as int);
        assert(views(da@).take(i + 1) =~= pre.push(x));
        assert(!pre.contains(x)) by {
            if pre.contains(x) {
                let k = choose|k: int| 0 <= k < pre.len() && pre[k] == x;
                assert(views(da@)[k] == views(da@)[i as int]);
            }
        }
        let ghost b0 = views(both@);
        let ghost e0 = views(either@);
        proof {
            pre.lemma_push_to_set_commute(x);
            b0.lemma_push_to_set_commute(x);
            e0.lemma_push_to_set_commute(x);
        }
        if list_contains(&db, &da[i]) {
            let c = copy_chars(&da[i]);
            let ghost r0 = both@;
            both.push(c);
            proof {
                lemma_views_push(r0, c);
            }
            assert(views(both@) =~= b0.push(x));
            assert(!b0.contains(x)) by {
                if b0.contains(x) {
                    assert(b0.to_set().contains(x));
                }
            }
            assert(views(both@).to_set() =~= views(da@).take(i + 1).to_set().intersect(
                views(db@).to_set(),
            ));
            assert(views(either@).to_set() =~= views(da@).take(i + 1).to_set().union(
                views(db@).to_set(),
            ));
        } else {
            let c = copy_chars(&da[i]);
            let ghost r0 = either@;
            either.push(c);
            proof {
                lemma_views_push(r0, c);
            }
            assert(views(either@) =~= e0.push(x));
            assert(!e0.contains(x)) by {
                if e0.contains(x) {
                    assert(e0.to_set().contains(x));
                }
            }
            assert(views(both@).to_set() =~= views(da@).take(i + 1).to_set().intersect(
                views(db@).to_set(),
            ));
            assert(views(either@).to_set() =~= views(da@).take(i + 1).to_set().union(
                views(db@).to_set(),
            ));
        }
        i = i + 1;
    }
    assert(views(da@).take(da.len() as int) =~= views(da@));
    proof {
        views(both@).unique_seq_to_set();
        views(either@).unique_seq_to_set();
    }
    (both.len(), either.len())
}


/// Tier-one score from the shared and total trigram counts.
pub fn trigram_score_of(q: &Vec<char>, c: &Vec<char>) -> (r: u32)
    ensures
        r == trigram_score(q@, c@),
{
    let (i, u) = trigram_counts(q, c);
    let quarter_or_more = u > 0 && (i >= u / 4 + if u % 4 != 0 {
        1
    } else {
        0
    });
    assert(quarter_or_more == (u > 0 && 4 * i >= u));
    if quarter_or_more {
        let sc: u32 = ((i as u128) * 200 / (u as u128)) as u32;
        assert(sc == (200 * (i as int) / (u as int)) as u32);
        if sc < 50 {
            50
        } else {
            sc
        }
    } else {
        0
    }
}

/// Scores `candidate` against `query` (both expected lower-cased); 0 means
/// no relevant match.
pub fn score_match(query: &str, candidate: &str) -> (r: u32)
    ensures
        r == score_spec(query@, candidate@),
{
    let q = chars_of(query);
    let c = chars_of(candidate);
    if chars_eq(&c, &q) {
        return 1000;
    }
    if starts_with(&c, &q) {
        let total: usize = candidate.len();
        let capped: usize = if total < 100 {
            total
        } else {
            100
        };
        return 800 + (100 - capped as u32);
    }
    if contains(&c, &q) {
        return 500;
    }
    if subsequence(&q, &c) {
        return 300;
    }
    trigram_score_of(&q, &c)
}

/// True iff every character of `query` appears in `candidate` in order.
pub fn is_subsequence(query: &str, candidate: &str) -> (r: bool)
    ensures
        r == is_subseq(query@, candidate@),
{
    subsequence(&chars_of(query), &chars_of(candidate))
}


/// Whether a hit is an equity or an index.
#[derive(Debug, Clone, Copy, PartialEq, Eq, Structural)]
pub enum SymbolKind {
    Equity,
    Index,
}

/// One search hit. `security_id` is `Some` for equities, `None` for indices.
#[derive(Debug)]
pub struct SymbolMatch {
    pub symbol: String,
    pub display_name: String,
    pub kind: SymbolKind,
    pub security_id: Option<u32>,
}

/// The mathematical content of a `SymbolMatch`.
pub struct MatchView {
    pub symbol: Seq<char>,
    pub display_name: Seq<char>,
    pub kind: SymbolKind,
    pub security_id: Option<u32>,
}

impl View for SymbolMatch {
    type V = MatchView;

    open spec fn view(&self) -> MatchView {
        MatchView {
            symbol: self.symbol@,
            display_name: self.display_name@,
            kind: self.kind,
            security_id: self.security_id,
        }
    }
}

/// A searchable index: its display name (e.g. "NIFTY 50") and its DSL
/// keyword (e.g. "NIFTY_50"), with its constituent list.
#[derive(Debug)]
pub struct IndexEntry {
    pub keyword: String,
    pub display_name: String,
    pub symbols: Vec<String>,
    pub last_updated: String,
}

/// Equity hits, in input order: each symbol scored against the lower-cased
/// query after lower-casing; zero scores dropped.
pub open spec fn equity_candidates(q: Seq<char>, eq: Seq<(Seq<char>, u32)>) -> Seq<
    (u32, MatchView),
>
    decreases eq.len(),
{
    if eq.len() == 0 {
        Seq::empty()
    } else {
        let rest = equity_candidates(q, eq.drop_last());
        let key = eq.last().0;
        let sc = score_spec(q, unicode_lowercase(key));
        if sc > 0 {
            rest.push(
                (
                    sc,
                    MatchView {
                        symbol: key,
                        display_name: key,
                        kind: SymbolKind::Equity,
                        security_id: Some(eq.last().1),
                    },
                ),
            )
        } else {
            rest
        }
    }
}

/// Index hits, in input order: the better of the display-name score and the
/// keyword score; zero scores dropped. Entries are `(display_name, keyword)`.
pub open spec fn index_candidates(q: Seq<char>, idx: Seq<(Seq<char>, Seq<char>)>) -> Seq<
    (u32, MatchView),
>
    decreases idx.len(),
{
    if idx.len() == 0 {
        Seq::empty()
    } else {
        let rest = index_candidates(q, idx.drop_last());
        let name = idx.last().0;
        let s1 = score_spec(q, unicode_lowercase(name));
        let s2 = score_spec(q, unicode_lowercase(idx.last().1));
        let sc = if s1 >= s2 {
            s1
        } else {
            s2
        };
        if sc > 0 {
            rest.push(
                (
                    sc,
                    MatchView {
                        symbol: name,
                        display_name: name,
                        kind: SymbolKind::Index,
                        security_id: None,
                    },
                ),
            )
        } else {
            rest
        }
    }
}

/// Candidate `i` ranks before candidate `j`: higher score first, then
/// alphabetical symbol, then earlier position.
pub open spec fn ranks_before(c: Seq<(u32, MatchView)>, i: int, j: int) -> bool {
    ||| c[i].0 > c[j].0
    ||| c[i].0 == c[j].0 && seq_lt(c[i].1.symbol, c[j].1.symbol)
    ||| c[i].0 == c[j].0 && c[i].1.symbol == c[j].1.symbol && i < j
}

/// `p` lists, in rank order, the positions of the best-ranked candidates,
/// and `r` holds those candidates.
pub open spec fn ranked_selection(c: Seq<(u32, MatchView)>, r: Seq<MatchView>, p: Seq<int>) -> bool {
    &&& p.len() == r.len()
    &&& forall|k: int| 0 <= k < p.len() ==> 0 <= #[trigger] p[k] < c.len() && r[k] == c[p[k]].1
    &&& forall|k1: int, k2: int|
        0 <= k1 < k2 < p.len() ==> ranks_before(c, #[trigger] p[k1], #[trigger] p[k2])
    &&& forall|i: int, k: int|
        #![trigger ranks_before(c, p[k], i)]
        0 <= i < c.len() && !p.contains(i) && 0 <= k < p.len() ==> ranks_before(c, p[k], i)
}

/// `r` is the first `m` candidates of `c` in rank order (all of them when
/// there are fewer than `m`).
pub open spec fn top_ranked(c: Seq<(u32, MatchView)>, r: Seq<MatchView>, m: nat) -> bool {
    &&& r.len() == (if m < c.len() {
        m
    } else {
        c.len()
    })
    &&& exists|p: Seq<int>| ranked_selection(c, r, p)
}

proof fn lemma_ranks_order(c: Seq<(u32, MatchView)>, i: int, j: int, k: int)
    ensures
        !ranks_before(c, i, i),
        ranks_before(c, i, j) && ranks_before(c, j, k) ==> ranks_before(c, i, k),
        i != j ==> ranks_before(c, i, j) || ranks_before(c, j, i),
        ranks_before(c, i, j) ==> !ranks_before(c, j, i),
{
    lemma_seq_lt_irreflexive(c[i].1.symbol);
    if ranks_before(c, i, j) && ranks_before(c, j, k) {
        if seq_lt(c[i].1.symbol, c[j].1.symbol) && seq_lt(c[j].1.symbol, c[k].1.symbol) {
            lemma_seq_lt_transitive(c[i].1.symbol, c[j].1.symbol, c[k].1.symbol);
        }
    }
    if c[i].1.symbol != c[j].1.symbol {
        lemma_seq_lt_total(c[i].1.symbol, c[j].1.symbol);
    }
    if ranks_before(c, i, j) && ranks_before(c, j, i) {
        if seq_lt(c[i].1.symbol, c[j].1.symbol) && seq_lt(c[j].1.symbol, c[i].1.symbol) {
            lemma_seq_lt_transitive(c[i].1.symbol, c[j].1.symbol, c[i].1.symbol);
        }
        lemma_seq_lt_irreflexive(c[j].1.symbol);
    }
}

proof fn lemma_covers_all(p: Seq<int>, n: int)
    requires
        0 <= n,
        forall|i: int| 0 <= i < n ==> p.contains(i),
    ensures
        p.len() >= n,
{
    vstd::set_lib::lemma_int_range(0, n);
    let r = vstd::set_lib::set_int_range(0, n);
    assert(r.subset_of(p.to_set()));
    p.lemma_cardinality_of_set();
    vstd::set_lib::lemma_len_subset(r, p.to_set());
}

/// Candidate `j` may be picked next: nothing is picked yet, or it ranks
/// after the last pick.
pub open spec fn eligible(c: Seq<(u32, MatchView)>, p: Seq<int>, j: int) -> bool {
    p.len() == 0 || ranks_before(c, p.last(), j)
}

fn make_match(sym: &String, kind: SymbolKind, security_id: Option<u32>) -> (m: SymbolMatch)
    ensures
        m@ == (MatchView { symbol: sym@, display_name: sym@, kind, security_id }),
{
    SymbolMatch { symbol: sym.clone(), display_name: sym.clone(), kind, security_id }
}

fn copy_match(m: &SymbolMatch) -> (r: SymbolMatch)
    ensures
        r@ == m@,
{
    SymbolMatch {
        symbol: m.symbol.clone(),
        display_name: m.display_name.clone(),
        kind: m.kind,
        security_id: m.security_id,
    }
}

/// The plain view of the equity list.
pub open spec fn equity_view(eq: Seq<(String, u32)>) -> Seq<(Seq<char>, u32)> {
    eq.map_values(|e: (String, u32)| (e.0@, e.1))
}

/// The `(display_name, keyword)` view of the index list.
pub open spec fn index_view(idx: Seq<IndexEntry>) -> Seq<(Seq<char>, Seq<char>)> {
    idx.map_values(|e: IndexEntry| (e.display_name@, e.keyword@))
}

/// The candidates of a search.
pub open spec fn search_candidates(
    q: Seq<char>,
    eq: Seq<(String, u32)>,
    idx: Seq<IndexEntry>,
) -> Seq<(u32, MatchView)> {
    equity_candidates(q, equity_view(eq)) + index_candidates(q, index_view(idx))
}

/// Candidate views of an executable candidate list.
pub open spec fn cand_views(c: Seq<(u32, SymbolMatch)>) -> Seq<(u32, MatchView)> {
    c.map_values(|x: (u32, SymbolMatch)| (x.0, x.1@))
}

fn collect_candidates(
    q: &String,
    equity_symbols: &Vec<(String, u32)>,
    index_entries: &Vec<IndexEntry>,
) -> (r: Vec<(u32, SymbolMatch)>)
    ensures
        cand_views(r@) == search_candidates(q@, equity_symbols@, index_entries@),
{
    let mut out: Vec<(u32, SymbolMatch)> = Vec::new();
    let ghost eqv = equity_view(equity_symbols@);
    let mut i: usize = 0;
    assert(eqv.take(0) =~= Seq::<(Seq<char>, u32)>::empty());
    while i < equity_symbols.len()
        invariant
            i <= equity_symbols.len(),
            eqv == equity_view(equity_symbols@),
            cand_views(out@) == equity_candidates(q@, eqv.take(i as int)),
        decreases equity_symbols.len() - i,
    {
        let key = &equity_symbols[i].0;
        let candidate = to_lowercase(key.as_str());
        let score = score_match(q.as_str(), candidate.as_str());
        assert(eqv.take(i + 1).drop_last() =~= eqv.take(i as int));
        assert(eqv.take(i + 1).last() == (key@, equity_symbols@[i as int].1));
        if score > 0 {
            let m = make_match(key, SymbolKind::Equity, Some(equity_symbols[i].1));
            let ghost o0 = out@;
            out.push((score, m));
            assert(cand_views(out@) =~= cand_views(o0).push((score, m@)));
        }
        i = i + 1;
    }
    assert(eqv.take(equity_symbols.len() as int) =~= eqv);
    let ghost eq_part = cand_views(out@);
    let ghost idv = index_view(index_entries@);
    let mut j: usize = 0;
    assert(idv.take(0) =~= Seq::<(Seq<char>, Seq<char>)>::empty());
    assert(cand_views(out@) =~= eq_part + index_candidates(q@, idv.take(0)));
    while j < index_entries.len()
        invariant
            j <= index_entries.len(),
            idv == index_view(index_entries@),
            eq_part == equity_candidates(q@, equity_view(equity_symbols@)),
            cand_views(out@) == eq_part + index_candidates(q@, idv.take(j as int)),
        decreases index_entries.len() - j,
    {
        let entry = &index_entries[j];
        let name_lower = to_lowercase(entry.display_name.as_str());
        let keyword_lower = to_lowercase(entry.keyword.as_str());
        let score_name = score_match(q.as_str(), name_lower.as_str());
        let score_keyword = score_match(q.as_str(), keyword_lower.as_str());
        let score = if score_name >= score_keyword {
            score_name
        } else {
            score_keyword
        };
        assert(idv.take(j + 1).drop_last() =~= idv.take(j as int));
        assert(idv.take(j + 1).last() == (entry.display_name@, entry.keyword@));
        if score > 0 {
            let m = make_match(&entry.display_name, SymbolKind::Index, None);
            let ghost o0 = out@;
            out.push((score, m));
            assert(cand_views(out@) =~= cand_views(o0).push((score, m@)));
        }
        j = j + 1;
    }
    assert(idv.take(index_entries.len() as int) =~= idv);
    out
}

/// The form a query is matched in: trimmed, then lower-cased (by the ASCII
/// rules when the trimmed query is ASCII, which is what the Unicode mapping
/// does there).
pub open spec fn query_key(query: Seq<char>) -> Seq<char> {
    let t = trim(query);
    if all_ascii(t) {
        lower_ascii(t)
    } else {
        unicode_lowercase(t)
    }
}

/// What a search for `query` returns: nothing for a blank query, else the
/// first `max_results` candidates in rank order.
pub open spec fn search_outcome(
    query: Seq<char>,
    equity_symbols: Seq<(String, u32)>,
    index_entries: Seq<IndexEntry>,
    max_results: nat,
    r: Seq<MatchView>,
) -> bool {
    let q = query_key(query);
    if q.len() == 0 {
        r.len() == 0
    } else {
        top_ranked(search_candidates(q, equity_symbols, index_entries), r, max_results)
    }
}

/// Fuzzy search over equities (symbol, security id) and indices. The query
/// is trimmed and lower-cased; an empty query gives no hits. Returns up to
/// `max_results` hits, best score first, alphabetical symbol breaking ties
/// (equities before indices for an equal symbol).
pub fn fuzzy_search(
    query: &str,
    equity_symbols: &Vec<(String, u32)>,
    index_entries: &Vec<IndexEntry>,
    max_results: usize,
) -> (r: Vec<SymbolMatch>)
    ensures
        search_outcome(query@, equity_symbols@, index_entries@, max_results as nat, r@.map_values(|m: SymbolMatch| m@)),
{
    let trimmed = trim_str(query);
    let q = to_lowercase(trimmed.as_str());
    if q.as_str().is_empty() {
        return Vec::new();
    }
    let cands = collect_candidates(&q, equity_symbols, index_entries);
    let ghost cv = cand_views(cands@);
    let n = cands.len();
    let mut syms: Vec<Vec<char>> = Vec::new();
    let mut t: usize = 0;
    while t < n
        invariant
            t <= n,
            n == cands.len(),
            cv == cand_views(cands@),
            syms.len() == t,
            forall|k: int| 0 <= k < t ==> #[trigger] syms@[k]@ == cv[k].1.symbol,
        decreases n - t,
    {
        syms.push(chars_of(cands[t].1.symbol.as_str()));
        t = t + 1;
    }
    let target: usize = if max_results < n {
        max_results
    } else {
        n
    };
    let mut out: Vec<SymbolMatch> = Vec::new();
    let mut pick: Vec<usize> = Vec::new();
    let ghost mut p: Seq<int> = Seq::empty();
    while out.len() < target
        invariant
            target <= n,
            n == cands.len(),
            cv == cand_views(cands@),
            syms.len() == n,
            forall|k: int| 0 <= k < n ==> #[trigger] syms@[k]@ == cv[k].1.symbol,
            out.len() <= target,
            pick.len() == out.len(),
            p.len() == out.len(),
            forall|k: int| 0 <= k < p.len() ==> #[trigger] p[k] == pick@[k] as int,
            forall|k: int|
                0 <= k < p.len() ==> 0 <= #[trigger] p[k] < n && out@[k]@ == cv[p[k]].1,
            forall|k1: int, k2: int|
                0 <= k1 < k2 < p.len() ==> ranks_before(cv, #[trigger] p[k1], #[trigger] p[k2]),
            p.len() > 0 ==> forall|i: int|
                0 <= i < n && (i == p.last() || ranks_before(cv, i, p.last())) ==> p.contains(i),
        decreases target - out.len(),
    {
        let has_last = pick.len() > 0;
        let last: usize = if has_last {
            pick[pick.len() - 1]
        } else {
            0
        };
        assert(has_last ==> p[p.len() - 1] < n);
        let mut best: usize = n;
        let mut i: usize = 0;
        while i < n
            invariant
                i <= n,
                n == cands.len(),
                cv == cand_views(cands@),
                syms.len() == n,
                forall|k: int| 0 <= k < n ==> #[trigger] syms@[k]@ == cv[k].1.symbol,
                has_last == (p.len() > 0),
                has_last ==> last as int == p.last(),
                has_last ==> last < n,
                best == n || (best < n && eligible(cv, p, best as int)),
                best < n ==> forall|j: int|
                    0 <= j < i && #[trigger] eligible(cv, p, j) ==> j == best || ranks_before(
                        cv,
                        best as int,
                        j,
                    ),
                best == n ==> forall|j: int| 0 <= j < i ==> !#[trigger] eligible(cv, p, j),
            decreases n - i,
        {
            let is_eligible = !has_last || rank_before_exec(&cands, &syms, last, i);
            assert(is_eligible == eligible(cv, p, i as int));
            let ghost old_best = best;
            if is_eligible {
                let better = best == n || rank_before_exec(&cands, &syms, i, best);
                if better {
                    best = i;
                    proof {
                        assert forall|j: int|
                            0 <= j < i + 1 && #[trigger] eligible(cv, p, j) implies j == best
                                || ranks_before(cv, best as int, j) by {
                            if j < i {
                                if old_best < n {
                                    lemma_ranks_order(cv, i as int, old_best as int, j);
                                }
                            }
                        }
                    }
                } else {
                    proof {
                        lemma_ranks_order(cv, i as int, best as int, 0);
                    }
                }
            }
            i = i + 1;
        }
        proof {
            if best == n {
                // Every candidate ranks at or before the last pick, so all
                // are picked, which the length bound rules out.
                assert(0 < n);
                assert(!eligible(cv, p, 0));
                assert forall|j: int| 0 <= j < n implies p.contains(j) by {
                    assert(!eligible(cv, p, j));
                    lemma_ranks_order(cv, j, last as int, 0);
                }
                lemma_covers_all(p, n as int);
                assert(false);
            }
        }
        let ghost old_p = p;
        out.push(copy_match(&cands[best].1));
        pick.push(best);
        proof {
            p = p.push(best as int);
            assert forall|k1: int, k2: int|
                0 <= k1 < k2 < p.len() implies ranks_before(cv, #[trigger] p[k1], #[trigger] p[k2]) by {
                if k2 == p.len() - 1 && k1 < k2 {
                    if k1 < old_p.len() - 1 {
                        lemma_ranks_order(cv, old_p[k1], old_p.last(), best as int);
                    }
                }
            }
            assert forall|i: int|
                0 <= i < n && (i == p.last() || ranks_before(cv, i, p.last())) implies p.contains(i) by {
                if i == best as int {
                    assert(p[p.len() - 1] == i);
                } else if has_last && (i == last as int || ranks_before(cv, i, last as int)) {
                    assert(old_p.contains(i));
                    let w = choose|w: int| 0 <= w < old_p.len() && old_p[w] == i;
                    assert(p[w] == i);
                } else {
                    lemma_ranks_order(cv, i, best as int, last as int);
                    if has_last {
                        lemma_ranks_order(cv, i, last as int, best as int);
                    }
                    assert(eligible(cv, old_p, i));
                    assert(false);
                }
            }
        }
    }
    proof {
        let r = out@.map_values(|m: SymbolMatch| m@);
        assert forall|i: int, k: int|
            #![trigger ranks_before(cv, p[k], i)]
            0 <= i < cv.len() && !p.contains(i) && 0 <= k < p.len() implies ranks_before(
            cv,
            p[k],
            i,
        ) by {
            lemma_ranks_order(cv, i, p.last(), p[k]);
            if k < p.len() - 1 {
                lemma_ranks_order(cv, p[k], p.last(), i);
            }
        }
        assert(ranked_selection(cv, r, p));
    }
    out
}

fn rank_before_exec(cands: &Vec<(u32, SymbolMatch)>, syms: &Vec<Vec<char>>, i: usize, j: usize) -> (r:
    bool)
    requires
        i < cands.len(),
        j < cands.len(),
        syms.len() == cands.len(),
        forall|k: int| 0 <= k < cands.len() ==> #[trigger] syms@[k]@ == cands@[k].1.symbol@,
    ensures
        r == ranks_before(cand_views(cands@), i as int, j as int),
{
    let si = cands[i].0;
    let sj = cands[j].0;
    if si > sj {
        return true;
    }
    if si < sj {
        return false;
    }
    if chars_lt(&syms[i], &syms[j]) {
        return true;
    }
    chars_eq(&syms[i], &syms[j]) && i < j
}


proof fn lemma_pick_not_before(
    c: Seq<(u32, MatchView)>,
    ra: Seq<MatchView>,
    pa: Seq<int>,
    rb: Seq<MatchView>,
    pb: Seq<int>,
    k: int,
)
    requires
        ranked_selection(c, ra, pa),
        ranked_selection(c, rb, pb),
        0 <= k < pa.len(),
        k < pb.len(),
        forall|j: int| 0 <= j < k ==> pa[j] == pb[j],
    ensures
        pa[k] == pb[k] || !ranks_before(c, pa[k], pb[k]),
{
    let x = pa[k];
    let y = pb[k];
    if x != y && ranks_before(c, x, y) {
        lemma_ranks_order(c, x, y, x);
        if pb.contains(x) {
            let j = choose|j: int| 0 <= j < pb.len() && pb[j] == x;
            if j < k {
                assert(pa[j] == pb[j]);
                assert(ranks_before(c, pa[j], pa[k]));
                lemma_ranks_order(c, x, x, x);
            } else if j > k {
                assert(ranks_before(c, pb[k], pb[j]));
            }
        } else {
            assert(ranks_before(c, pb[k], x));
        }
    }
}

proof fn lemma_same_picks(
    c: Seq<(u32, MatchView)>,
    r1: Seq<MatchView>,
    p1: Seq<int>,
    r2: Seq<MatchView>,
    p2: Seq<int>,
    k: int,
)
    requires
        ranked_selection(c, r1, p1),
        ranked_selection(c, r2, p2),
        p1.len() == p2.len(),
        0 <= k <= p1.len(),
    ensures
        forall|j: int| 0 <= j < k ==> p1[j] == p2[j],
    decreases k,
{
    if k > 0 {
        lemma_same_picks(c, r1, p1, r2, p2, k - 1);
        lemma_pick_not_before(c, r1, p1, r2, p2, k - 1);
        assert forall|j: int| 0 <= j < k - 1 implies p2[j] == p1[j] by {}
        lemma_pick_not_before(c, r2, p2, r1, p1, k - 1);
        lemma_ranks_order(c, p1[k - 1], p2[k - 1], 0);
    }
}

/// The first `m` candidates in rank order are a single list: ranking is a
/// strict total order on the candidates.
pub proof fn lemma_top_ranked_unique(c: Seq<(u32, MatchView)>, r1: Seq<MatchView>, r2: Seq<MatchView>, m: nat)
    requires
        top_ranked(c, r1, m),
        top_ranked(c, r2, m),
    ensures
        r1 == r2,
{
    let p1 = choose|p: Seq<int>| ranked_selection(c, r1, p);
    let p2 = choose|p: Seq<int>| ranked_selection(c, r2, p);
    lemma_same_picks(c, r1, p1, r2, p2, p1.len() as int);
    assert forall|k: int| 0 <= k < r1.len() implies r1[k] == r2[k] by {
        assert(p1[k] == p2[k]);
    }
    assert(r1 =~= r2);
}

/// A search is decided by its query's key: two searches over the same
/// lists whose queries trim and lower-case alike give the same hits in the
/// same order. In particular a repeated search gives the same result.
pub proof fn lemma_search_same_key(
    q1: Seq<char>,
    q2: Seq<char>,
    equity_symbols: Seq<(String, u32)>,
    index_entries: Seq<IndexEntry>,
    max_results: nat,
    r1: Seq<MatchView>,
    r2: Seq<MatchView>,
)
    requires
        search_outcome(q1, equity_symbols, index_entries, max_results, r1),
        search_outcome(q2, equity_symbols, index_entries, max_results, r2),
        query_key(q1) == query_key(q2),
    ensures
        r1 == r2,
{
    let q = query_key(q1);
    if q.len() == 0 {
        assert(r1 =~= r2);
    } else {
        lemma_top_ranked_unique(search_candidates(q, equity_symbols, index_entries), r1, r2, max_results);
    }
}

/// An ASCII query padded with whitespace and upper-cased has the same key
/// as the query itself, so by `lemma_search_same_key` it finds the same
/// hits in the same order.
pub proof fn lemma_query_key_padded_upper(q: Seq<char>)
    requires
        all_ascii(q),
    ensures
        query_key("  "@ + upper_ascii(q) + "\t"@) == query_key(q),
{
    reveal_strlit("  ");
    reveal_strlit("\t");
    let u = upper_ascii(q);
    let padded = "  "@ + u + "\t"@;
    assert(padded =~= seq![' '] + (seq![' '] + u.push('\t')));
    lemma_trim_start_ws_first(' ', seq![' '] + u.push('\t'));
    lemma_trim_start_ws_first(' ', u.push('\t'));
    lemma_trim_start_push(u, '\t');
    if trim_start(u).len() > 0 {
        lemma_trim_end_ws_last(trim_start(u), '\t');
    } else {
        assert(trim_end(Seq::<char>::empty()) == Seq::<char>::empty());
        assert(trim_end(trim_start(u)) == trim_start(u));
    }
    assert(trim(padded) == trim(u));
    lemma_trim_start_upper(q);
    lemma_trim_end_upper(trim_start(q));
    let t = trim(q);
    assert(trim(u) == upper_ascii(t));
    lemma_trim_keeps_ascii(q);
    lemma_trim_keeps_ascii(trim_start(q));
    assert(all_ascii(t));
    assert(all_ascii(upper_ascii(t))) by {
        assert forall|i: int| 0 <= i < upper_ascii(t).len() implies (#[trigger] upper_ascii(t)[i] as u32) < 128 by {
            assert(upper_ascii(t)[i] == ascii_upper(t[i]));
        }
    }
    assert(lower_ascii(upper_ascii(t)) =~= lower_ascii(t)) by {
        assert forall|i: int| 0 <= i < t.len() implies #[trigger] lower_ascii(upper_ascii(t))[i] == lower_ascii(t)[i] by {
            let c = t[i];
            assert(upper_ascii(t)[i] == ascii_upper(c));
            if 'a' <= c && c <= 'z' {
                assert(ascii_lower(ascii_upper(c)) == c);
            }
        }
    }
}

proof fn lemma_scored_equity_is_candidate(q: Seq<char>, eq: Seq<(Seq<char>, u32)>, k: int)
    requires
        0 <= k < eq.len(),
        score_spec(q, unicode_lowercase(eq[k].0)) > 0,
    ensures
        equity_candidates(q, eq).contains(
            (
                score_spec(q, unicode_lowercase(eq[k].0)),
                MatchView {
                    symbol: eq[k].0,
                    display_name: eq[k].0,
                    kind: SymbolKind::Equity,
                    security_id: Some(eq[k].1),
                },
            ),
        ),
    decreases eq.len(),
{
    let c = equity_candidates(q, eq);
    let rest = equity_candidates(q, eq.drop_last());
    if k == eq.len() - 1 {
        assert(c == rest.push(c.last()));
        assert(c[c.len() - 1] == c.last());
    } else {
        lemma_scored_equity_is_candidate(q, eq.drop_last(), k);
        assert(eq.drop_last()[k] == eq[k]);
        let x = (
            score_spec(q, unicode_lowercase(eq[k].0)),
            MatchView {
                symbol: eq[k].0,
                display_name: eq[k].0,
                kind: SymbolKind::Equity,
                security_id: Some(eq[k].1),
            },
        );
        let j = choose|j: int| 0 <= j < rest.len() && rest[j] == x;
        if c.len() > rest.len() {
            assert(c == rest.push(c.last()));
            assert(c[j] == rest[j]);
        } else {
            assert(c == rest);
        }
    }
}

proof fn lemma_candidates_len(q: Seq<char>, eq: Seq<(Seq<char>, u32)>, idx: Seq<(Seq<char>, Seq<char>)>)
    ensures
        equity_candidates(q, eq).len() <= eq.len(),
        index_candidates(q, idx).len() <= idx.len(),
    decreases eq.len() + idx.len(),
{
    if eq.len() > 0 {
        lemma_candidates_len(q, eq.drop_last(), idx);
    }
    if idx.len() > 0 {
        lemma_candidates_len(q, eq, idx.drop_last());
    }
}

proof fn lemma_all_ranked(c: Seq<(u32, MatchView)>, r: Seq<MatchView>, m: nat, i: int)
    requires
        top_ranked(c, r, m),
        m >= c.len(),
        0 <= i < c.len(),
    ensures
        r.contains(c[i].1),
{
    let p = choose|p: Seq<int>| ranked_selection(c, r, p);
    let n = c.len() as int;
    assert(p.no_duplicates()) by {
        assert forall|a: int, b: int| 0 <= a < p.len() && 0 <= b < p.len() && a != b implies p[a] != p[b] by {
            lemma_ranks_order(c, p[a], p[b], 0);
            if a < b {
                assert(ranks_before(c, p[a], p[b]));
            } else {
                assert(ranks_before(c, p[b], p[a]));
            }
        }
    }
    if !p.contains(i) {
        p.unique_seq_to_set();
        vstd::set_lib::lemma_int_range(0, n);
        let full = vstd::set_lib::set_int_range(0, n);
        assert(p.to_set().subset_of(full.remove(i))) by {
            assert forall|x: int| #[trigger] p.to_set().contains(x) implies full.remove(i).contains(x) by {
                let a = choose|a: int| 0 <= a < p.len() && p[a] == x;
                assert(0 <= p[a] < n);
            }
        }
        vstd::set_lib::lemma_len_subset(p.to_set(), full.remove(i));
        assert(false);
    }
    let a = choose|a: int| 0 <= a < p.len() && p[a] == i;
    assert(r[a] == c[p[a]].1);
}

/// A search whose limit is at least the number of equities and indices
/// returns every equity that scores above zero against the query's key
/// (whatever its tier, the trigram tier included), as an equity hit with
/// its security id.
pub proof fn lemma_search_keeps_scored_equities(
    query: Seq<char>,
    equity_symbols: Seq<(String, u32)>,
    index_entries: Seq<IndexEntry>,
    max_results: nat,
    r: Seq<MatchView>,
    k: int,
)
    requires
        search_outcome(query, equity_symbols, index_entries, max_results, r),
        max_results >= equity_symbols.len() + index_entries.len(),
        query_key(query).len() > 0,
        0 <= k < equity_symbols.len(),
        score_spec(query_key(query), unicode_lowercase(equity_symbols[k].0@)) > 0,
    ensures
        r.contains(
            MatchView {
                symbol: equity_symbols[k].0@,
                display_name: equity_symbols[k].0@,
                kind: SymbolKind::Equity,
                security_id: Some(equity_symbols[k].1),
            },
        ),
{
    let q = query_key(query);
    let eqv = equity_view(equity_symbols);
    let idv = index_view(index_entries);
    assert(eqv[k] == (equity_symbols[k].0@, equity_symbols[k].1));
    lemma_scored_equity_is_candidate(q, eqv, k);
    lemma_candidates_len(q, eqv, idv);
    let ec = equity_candidates(q, eqv);
    let c = search_candidates(q, equity_symbols, index_entries);
    assert(c == ec + index_candidates(q, idv));
    let x = (
        score_spec(q, unicode_lowercase(eqv[k].0)),
        MatchView {
            symbol: eqv[k].0,
            display_name: eqv[k].0,
            kind: SymbolKind::Equity,
            security_id: Some(eqv[k].1),
        },
    );
    let j = choose|j: int| 0 <= j < ec.len() && ec[j] == x;
    assert(c[j] == ec[j]);
    lemma_all_ranked(c, r, max_results, j);
}

/// An exact match scores 1000 and every other candidate scores at most
/// 900, so an exact match always ranks first.
pub proof fn lemma_exact_match_scores_highest(query: Seq<char>, candidate: Seq<char>)
    ensures
        score_spec(query, query) == 1000,
        candidate != query ==> score_spec(query, candidate) <= 900,
{
    if candidate != query && !has_prefix(candidate, query) && !has_substring(candidate, query)
        && !is_subseq(query, candidate) {
        let a = trigram_set(query);
        let b = trigram_set(candidate);
        assert(a.finite()) by {
            windows3(query).lemma_cardinality_of_set();
        }
        assert(b.finite()) by {
            windows3(candidate).lemma_cardinality_of_set();
        }
        vstd::set_lib::lemma_len_subset(a.intersect(b), a.union(b));
        let i = trigram_shared(query, candidate);
        let u = trigram_total(query, candidate);
        if u > 0 {
            assert(200 * i / u <= 200) by (nonlinear_arith)
                requires
                    i <= u,
                    u > 0,
            ;
        }
    }
}

} // verus!
