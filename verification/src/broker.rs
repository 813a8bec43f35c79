//! Broker-facing rules: timeframes, exchange segments, Dhan symbol strings,
//! credentials, order-status strings and date-range chunking.

use vstd::prelude::*;
use crate::models::OrderStatus;
use vstd::string::StringExecFns;
use crate::text::{
    chars_eq_str, chars_of, has_prefix, lemma_split_by_concat, lemma_split_by_none, is_ws, non_empty, parse_u32_radix, parse_u32_radix_spec, split_by, split_on_any, string_of, to_ascii_upper,
    trim, trim_chars, upper_ascii, views,
};

verus! {

broadcast use vstd::string::group_string_axioms;

/// Candle timeframe.
#[derive(Debug, Clone, Copy, PartialEq, Eq, Structural)]
pub enum Timeframe {
    M1,
    M5,
    M15,
    M25,
    M30,
    M60,
    H1,
    H4,
    D1,
    W1,
}

/// The interval string the intraday endpoint receives for a timeframe.
pub open spec fn interval_str_of(tf: Timeframe) -> Seq<char> {
    match tf {
        Timeframe::M5 => "5"@,
        Timeframe::M15 => "15"@,
        Timeframe::M25 => "25"@,
        Timeframe::M60 => "60"@,
        _ => "1"@,
    }
}

/// The Dhan interval code of a timeframe.
pub open spec fn dhan_interval_of(tf: Timeframe) -> Seq<char> {
    match tf {
        Timeframe::M1 => "1"@,
        Timeframe::M5 => "5"@,
        Timeframe::M15 => "15"@,
        Timeframe::M25 => "25"@,
        Timeframe::M30 => "30"@,
        Timeframe::M60 => "60"@,
        Timeframe::H1 => "60"@,
        Timeframe::H4 => "240"@,
        Timeframe::D1 => "D"@,
        Timeframe::W1 => "W"@,
    }
}

/// The timeframe a (trimmed, upper-cased) name denotes.
pub open spec fn timeframe_named(u: Seq<char>) -> Option<Timeframe> {
    if u == "M1"@ || u == "1"@ {
        Some(Timeframe::M1)
    } else if u == "M5"@ || u == "5"@ {
        Some(Timeframe::M5)
    } else if u == "M15"@ || u == "15"@ {
        Some(Timeframe::M15)
    } else if u == "M25"@ || u == "25"@ {
        Some(Timeframe::M25)
    } else if u == "M30"@ || u == "30"@ {
        Some(Timeframe::M30)
    } else if u == "M60"@ || u == "60"@ || u == "H1"@ {
        Some(Timeframe::M60)
    } else if u == "H4"@ {
        Some(Timeframe::H4)
    } else if u == "D1"@ || u == "1D"@ || u == "D"@ {
        Some(Timeframe::D1)
    } else if u == "W1"@ || u == "1W"@ || u == "W"@ {
        Some(Timeframe::W1)
    } else {
        None
    }
}

impl Timeframe {
    /// Minute timeframes served by the intraday endpoint.
    pub fn is_intraday(&self) -> (r: bool)
        ensures
            r == (*self == Timeframe::M1 || *self == Timeframe::M5 || *self == Timeframe::M15
                || *self == Timeframe::M25 || *self == Timeframe::M60),
    {
        match self {
            Timeframe::M1 | Timeframe::M5 | Timeframe::M15 | Timeframe::M25 | Timeframe::M60 => true,
            _ => false,
        }
    }

    /// Interval string for the intraday endpoint ("1" for the non-intraday
    /// timeframes).
    pub fn to_interval_str(&self) -> (r: &'static str)
        ensures
            r@ == interval_str_of(*self),
    {
        match self {
            Timeframe::M5 => "5",
            Timeframe::M15 => "15",
            Timeframe::M25 => "25",
            Timeframe::M60 => "60",
            _ => "1",
        }
    }

    /// The Dhan interval code.
    pub fn as_dhan_interval(self) -> (r: &'static str)
        ensures
            r@ == dhan_interval_of(self),
    {
        match self {
            Timeframe::M1 => "1",
            Timeframe::M5 => "5",
            Timeframe::M15 => "15",
            Timeframe::M25 => "25",
            Timeframe::M30 => "30",
            Timeframe::M60 => "60",
            Timeframe::H1 => "60",
            Timeframe::H4 => "240",
            Timeframe::D1 => "D",
            Timeframe::W1 => "W",
        }
    }

    /// Parses a timeframe name, ignoring surrounding whitespace and ASCII
    /// case; unknown names give `"Unsupported timeframe: "` followed by the
    /// input.
    pub fn parse(value: &str) -> (r: Result<Timeframe, String>)
        ensures
            match timeframe_named(upper_ascii(trim(value@))) {
                Some(tf) => r == Ok::<Timeframe, String>(tf),
                None => r is Err && r->Err_0@ == "Unsupported timeframe: "@ + value@,
            },
    {
        let v = chars_of(value);
        let u = to_ascii_upper(&trim_chars(&v));
        if chars_eq_str(&u, "M1") || chars_eq_str(&u, "1") {
            Ok(Timeframe::M1)
        } else if chars_eq_str(&u, "M5") || chars_eq_str(&u, "5") {
            Ok(Timeframe::M5)
        } else if chars_eq_str(&u, "M15") || chars_eq_str(&u, "15") {
            Ok(Timeframe::M15)
        } else if chars_eq_str(&u, "M25") || chars_eq_str(&u, "25") {
            Ok(Timeframe::M25)
        } else if chars_eq_str(&u, "M30") || chars_eq_str(&u, "30") {
            Ok(Timeframe::M30)
        } else if chars_eq_str(&u, "M60") || chars_eq_str(&u, "60") || chars_eq_str(&u, "H1") {
            Ok(Timeframe::M60)
        } else if chars_eq_str(&u, "H4") {
            Ok(Timeframe::H4)
        } else if chars_eq_str(&u, "D1") || chars_eq_str(&u, "1D") || chars_eq_str(&u, "D") {
            Ok(Timeframe::D1)
        } else if chars_eq_str(&u, "W1") || chars_eq_str(&u, "1W") || chars_eq_str(&u, "W") {
            Ok(Timeframe::W1)
        } else {
            let mut msg = String::from_str("Unsupported timeframe: ");
            msg.append(value);
            Err(msg)
        }
    }
}

impl std::str::FromStr for Timeframe {
    type Err = String;

    fn from_str(value: &str) -> (r: Result<Self, Self::Err>)
        ensures
            match timeframe_named(upper_ascii(trim(value@))) {
                Some(tf) => r == Ok::<Timeframe, String>(tf),
                None => r is Err && r->Err_0@ == "Unsupported timeframe: "@ + value@,
            },
    {
        Timeframe::parse(value)
    }
}


/// Exchange segment of a tradable symbol.
#[derive(Debug, Clone, Copy, PartialEq, Eq, Structural)]
pub enum Segment {
    NseEq,
    NseFno,
    NseCurrency,
    Bse,
    Mcx,
    Index,
}

/// The Dhan `exchangeSegment` string of a segment.
pub open spec fn segment_code(s: Segment) -> Seq<char> {
    match s {
        Segment::NseEq => "NSE_EQ"@,
        Segment::NseFno => "NSE_FNO"@,
        Segment::NseCurrency => "NSE_CURRENCY"@,
        Segment::Bse => "BSE_EQ"@,
        Segment::Mcx => "MCX_COMM"@,
        Segment::Index => "IDX_I"@,
    }
}

impl Segment {
    /// The Dhan `exchangeSegment` string for this segment.
    pub fn as_dhan_string(self) -> (r: &'static str)
        ensures
            r@ == segment_code(self),
    {
        match self {
            Segment::NseEq => "NSE_EQ",
            Segment::NseFno => "NSE_FNO",
            Segment::NseCurrency => "NSE_CURRENCY",
            Segment::Bse => "BSE_EQ",
            Segment::Mcx => "MCX_COMM",
            Segment::Index => "IDX_I",
        }
    }
}

/// A resolved symbol: its Dhan security id and the segment it trades in.
#[derive(Debug, Clone, Copy, PartialEq, Eq, Structural)]
pub struct SymbolEntry {
    pub security_id: u32,
    pub segment: Segment,
}

/// The key a symbol is stored under: trimmed and upper-cased.
pub open spec fn symbol_key(symbol: Seq<char>) -> Seq<char> {
    crate::text::unicode_uppercase(trim(symbol))
}

/// The map an entry list denotes (later entries win; keys are distinct in
/// a well-formed map anyway).
pub open spec fn entries_map(e: Seq<(Seq<char>, SymbolEntry)>) -> Map<Seq<char>, SymbolEntry>
    decreases e.len(),
{
    if e.len() == 0 {
        Map::empty()
    } else {
        entries_map(e.drop_last()).insert(e.last().0, e.last().1)
    }
}

/// No key occurs twice.
pub open spec fn keys_distinct(e: Seq<(Seq<char>, SymbolEntry)>) -> bool {
    forall|i: int, j: int| 0 <= i < j < e.len() ==> #[trigger] e[i].0 != #[trigger] e[j].0
}

proof fn lemma_entries_map(e: Seq<(Seq<char>, SymbolEntry)>)
    requires
        keys_distinct(e),
    ensures
        entries_map(e).dom().finite(),
        entries_map(e).len() == e.len(),
        forall|k: Seq<char>|
            #[trigger] entries_map(e).contains_key(k) <==> exists|i: int|
                0 <= i < e.len() && e[i].0 == k,
        forall|i: int| 0 <= i < e.len() ==> #[trigger] entries_map(e)[e[i].0] == e[i].1,
    decreases e.len(),
{
    if e.len() > 0 {
        let d = e.drop_last();
        assert(keys_distinct(d));
        lemma_entries_map(d);
        assert(!entries_map(d).contains_key(e.last().0)) by {
            if entries_map(d).contains_key(e.last().0) {
                let i = choose|i: int| 0 <= i < d.len() && d[i].0 == e.last().0;
                assert(e[i].0 == e[e.len() - 1].0);
            }
        }
        assert forall|k: Seq<char>|
            #[trigger] entries_map(e).contains_key(k) <==> exists|i: int|
                0 <= i < e.len() && e[i].0 == k by {
            if entries_map(d).contains_key(k) {
                let i = choose|i: int| 0 <= i < d.len() && d[i].0 == k;
                assert(e[i].0 == k);
            }
            if exists|i: int| 0 <= i < e.len() && e[i].0 == k {
                let i = choose|i: int| 0 <= i < e.len() && e[i].0 == k;
                if i < e.len() - 1 {
                    assert(d[i].0 == k);
                }
            }
        }
        assert forall|i: int| 0 <= i < e.len() implies #[trigger] entries_map(e)[e[i].0]
            == e[i].1 by {
            if i < e.len() - 1 {
                assert(d[i] == e[i]);
            }
        }
    }
}

/// Maps NSE trading symbols (trimmed, upper-cased) to Dhan security ids and
/// segments.
pub struct SymbolMap {
    entries: Vec<(String, SymbolEntry)>,
}

/// The plain view of an entry list.
pub open spec fn entry_views(e: Seq<(String, SymbolEntry)>) -> Seq<(Seq<char>, SymbolEntry)> {
    e.map_values(|x: (String, SymbolEntry)| (x.0@, x.1))
}

impl View for SymbolMap {
    type V = Map<Seq<char>, SymbolEntry>;

    closed spec fn view(&self) -> Map<Seq<char>, SymbolEntry> {
        entries_map(entry_views(self.entries@))
    }
}

impl SymbolMap {
    #[verifier::type_invariant]
    closed spec fn wf(self) -> bool {
        keys_distinct(entry_views(self.entries@))
    }

    /// Position of `key` in the entry list.
    fn find(&self, key: &String) -> (r: Option<usize>)
        ensures
            match r {
                Some(i) => i < self.entries@.len() && self.entries@[i as int].0@ == key@,
                None => forall|i: int| 0 <= i < self.entries@.len() ==> self.entries@[i].0@ != key@,
            },
    {
        let mut i: usize = 0;
        while i < self.entries.len()
            invariant
                i <= self.entries@.len(),
                forall|k: int| 0 <= k < i ==> self.entries@[k].0@ != key@,
            decreases self.entries.len() - i,
        {
            if self.entries[i].0 == *key {
                return Some(i);
            }
            i = i + 1;
        }
        None
    }

    proof fn lemma_view(&self)
        requires
            self.wf(),
        ensures
            self@.dom().finite(),
            self@.len() == self.entries@.len(),
            forall|k: Seq<char>|
                #[trigger] self@.contains_key(k) <==> exists|i: int|
                    0 <= i < self.entries@.len() && self.entries@[i].0@ == k,
            forall|i: int|
                0 <= i < self.entries@.len() ==> #[trigger] self@[self.entries@[i].0@]
                    == self.entries@[i].1,
    {
        let ev = entry_views(self.entries@);
        lemma_entries_map(ev);
        assert forall|k: Seq<char>|
            #[trigger] self@.contains_key(k) <==> exists|i: int|
                0 <= i < self.entries@.len() && self.entries@[i].0@ == k by {
            if self@.contains_key(k) {
                let i = choose|i: int| 0 <= i < ev.len() && ev[i].0 == k;
                assert(self.entries@[i].0@ == k);
            }
            if exists|i: int| 0 <= i < self.entries@.len() && self.entries@[i].0@ == k {
                let i = choose|i: int| 0 <= i < self.entries@.len() && self.entries@[i].0@ == k;
                assert(ev[i].0 == k);
            }
        }
        assert forall|i: int| 0 <= i < self.entries@.len() implies #[trigger] self@[self.entries@[
            i
        ].0@] == self.entries@[i].1 by {
            assert(ev[i].0 == self.entries@[i].0@);
        }
    }

    /// The empty map.
    pub fn empty() -> (m: SymbolMap)
        ensures
            m@ == Map::<Seq<char>, SymbolEntry>::empty(),
    {
        let m = SymbolMap { entries: Vec::new() };
        assert(entry_views(m.entries@) =~= Seq::<(Seq<char>, SymbolEntry)>::empty());
        m
    }

    fn key_of(symbol: &str) -> (k: String)
        ensures
            k@ == symbol_key(symbol@),
    {
        let t = string_of(&trim_chars(&chars_of(symbol)));
        crate::text::to_uppercase(t.as_str())
    }

    /// The full entry (security id and segment) for a symbol, looked up
    /// ignoring surrounding whitespace and case.
    pub fn lookup(&self, symbol: &str) -> (r: Option<SymbolEntry>)
        ensures
            r == (if self@.contains_key(symbol_key(symbol@)) {
                Some(self@[symbol_key(symbol@)])
            } else {
                None::<SymbolEntry>
            }),
    {
        proof {
            use_type_invariant(self);
            self.lemma_view();
        }
        let key = Self::key_of(symbol);
        match self.find(&key) {
            Some(i) => Some(self.entries[i].1),
            None => None,
        }
    }

    /// The security id for a symbol, looked up ignoring surrounding
    /// whitespace and case.
    pub fn get(&self, symbol: &str) -> (r: Option<u32>)
        ensures
            r == (if self@.contains_key(symbol_key(symbol@)) {
                Some(self@[symbol_key(symbol@)].security_id)
            } else {
                None::<u32>
            }),
    {
        match self.lookup(symbol) {
            Some(e) => Some(e.security_id),
            None => None,
        }
    }

    /// Inserts or overwrites the entry for a symbol: the map grows by one
    /// only when the symbol's key was new.
    pub fn insert_entry(&mut self, symbol: &str, security_id: u32, segment: Segment)
        ensures
            final(self)@ == old(self)@.insert(
                symbol_key(symbol@),
                SymbolEntry { security_id, segment },
            ),
            final(self)@.len() == old(self)@.len() + (if old(self)@.contains_key(symbol_key(symbol@)) {
                0int
            } else {
                1int
            }),
    {
        proof {
            use_type_invariant(&*self);
            self.lemma_view();
        }
        let ghost before = self@;
        let key = Self::key_of(symbol);
        self.insert_key(key, SymbolEntry { security_id, segment });
        proof {
            vstd::set::axiom_set_insert_len(before.dom(), symbol_key(symbol@));
            assert(self@.dom() =~= before.dom().insert(symbol_key(symbol@)));
        }
    }

    fn insert_key(&mut self, key: String, entry: SymbolEntry)
        ensures
            final(self)@ == old(self)@.insert(key@, entry),
    {
        proof {
            use_type_invariant(&*self);
            self.lemma_view();
        }
        let ghost old_map = self@;
        let found = self.find(&key);
        let mut entries: Vec<(String, SymbolEntry)> = Vec::new();
        std::mem::swap(&mut entries, &mut self.entries);
        let ghost e0 = entries@;
        let ghost k = key@;
        match found {
            Some(i) => {
                entries.set(i, (key, entry));
                assert(entry_views(entries@) =~= entry_views(e0).update(i as int, (k, entry)));
            },
            None => {
                entries.push((key, entry));
                assert(entry_views(entries@) =~= entry_views(e0).push((k, entry)));
            },
        }
        assert(keys_distinct(entry_views(entries@))) by {
            assert forall|a: int, b: int|
                0 <= a < b < entries@.len() implies #[trigger] entry_views(entries@)[a].0
                != #[trigger] entry_views(entries@)[b].0 by {
                assert(entry_views(e0)[a].0 == e0[a].0@);
                if b < e0.len() {
                    assert(entry_views(e0)[b].0 == e0[b].0@);
                }
            }
        }
        self.entries = entries;
        proof {
            self.lemma_view();
            assert(self@ =~= old_map.insert(k, entry)) by {
                assert forall|q: Seq<char>| #[trigger] self@.contains_key(q) <==> old_map.insert(
                    k,
                    entry,
                ).contains_key(q) by {
                    if self@.contains_key(q) {
                        let j = choose|j: int| 0 <= j < self.entries@.len() && self.entries@[j].0@ == q;
                        if q != k && j < e0.len() {
                            assert(e0[j].0@ == q);
                        }
                    }
                    if old_map.contains_key(q) && q != k {
                        let j = choose|j: int| 0 <= j < e0.len() && e0[j].0@ == q;
                        assert(self.entries@[j].0@ == q);
                    }
                    if q == k {
                        match found {
                            Some(i) => assert(self.entries@[i as int].0@ == q),
                            None => assert(self.entries@[e0.len() as int].0@ == q),
                        }
                    }
                }
                assert forall|q: Seq<char>| #[trigger] self@.contains_key(q) implies self@[q]
                    == old_map.insert(k, entry)[q] by {
                    let j = choose|j: int| 0 <= j < self.entries@.len() && self.entries@[j].0@ == q;
                    if q != k {
                        assert(j < e0.len()) by {
                            match found {
                                Some(i) => {},
                                None => {
                                    if j == e0.len() {
                                        assert(self.entries@[j].0@ == k);
                                    }
                                },
                            }
                        }
                        assert(self.entries@[j] == e0[j]) by {
                            match found {
                                Some(i) => {
                                    if j == i {
                                        assert(self.entries@[j].0@ == k);
                                    }
                                },
                                None => {},
                            }
                        }
                        assert(old_map[e0[j].0@] == e0[j].1);
                    } else {
                        match found {
                            Some(i) => assert(self@[self.entries@[i as int].0@] == entry),
                            None => assert(self@[self.entries@[e0.len() as int].0@] == entry),
                        }
                    }
                }
            }
        }
    }

    /// Number of symbols.
    pub fn len(&self) -> (r: usize)
        ensures
            r == self@.len(),
    {
        proof {
            use_type_invariant(self);
            self.lemma_view();
        }
        self.entries.len()
    }

    /// True when no symbol is loaded.
    pub fn is_empty(&self) -> (r: bool)
        ensures
            r == (self@.len() == 0),
    {
        proof {
            use_type_invariant(self);
            self.lemma_view();
        }
        self.entries.len() == 0
    }

    /// Every (symbol, security id) pair, each symbol once.
    pub fn inner(&self) -> (r: Vec<(String, u32)>)
        ensures
            forall|i: int, j: int| 0 <= i < j < r@.len() ==> #[trigger] r@[i].0@ != #[trigger] r@[j].0@,
            forall|k: Seq<char>|
                #[trigger] self@.contains_key(k) <==> exists|i: int| 0 <= i < r@.len() && r@[i].0@ == k,
            forall|i: int| 0 <= i < r@.len() ==> #[trigger] r@[i].1 == self@[r@[i].0@].security_id,
    {
        proof {
            use_type_invariant(self);
            self.lemma_view();
        }
        let mut r: Vec<(String, u32)> = Vec::new();
        let mut i: usize = 0;
        while i < self.entries.len()
            invariant
                i <= self.entries@.len(),
                keys_distinct(entry_views(self.entries@)),
                r@.len() == i,
                forall|t: int| 0 <= t < i ==> #[trigger] r@[t].0@ == self.entries@[t].0@ && r@[t].1
                    == self.entries@[t].1.security_id,
            decreases self.entries.len() - i,
        {
            r.push((self.entries[i].0.clone(), self.entries[i].1.security_id));
            i = i + 1;
        }
        assert forall|a: int, b: int| 0 <= a < b < r@.len() implies #[trigger] r@[a].0@
            != #[trigger] r@[b].0@ by {
            assert(entry_views(self.entries@)[a].0 == self.entries@[a].0@);
            assert(entry_views(self.entries@)[b].0 == self.entries@[b].0@);
        }
        assert forall|k: Seq<char>| #[trigger] self@.contains_key(k) <==> exists|t: int|
            0 <= t < r@.len() && r@[t].0@ == k by {
            if self@.contains_key(k) {
                let t = choose|t: int| 0 <= t < self.entries@.len() && self.entries@[t].0@ == k;
                assert(r@[t].0@ == k);
            }
            if exists|t: int| 0 <= t < r@.len() && r@[t].0@ == k {
                let t = choose|t: int| 0 <= t < r@.len() && r@[t].0@ == k;
                assert(self.entries@[t].0@ == k);
            }
        }
        r
    }
}


/// Splits a symbol list into the resolved `(symbol, security id)` pairs and
/// the symbols the map does not know, both in input order.
pub open spec fn resolution(m: Map<Seq<char>, SymbolEntry>, syms: Seq<Seq<char>>) -> (
    Seq<(Seq<char>, u32)>,
    Seq<Seq<char>>,
)
    decreases syms.len(),
{
    if syms.len() == 0 {
        (Seq::empty(), Seq::empty())
    } else {
        let (f, miss) = resolution(m, syms.drop_last());
        let s = syms.last();
        if m.contains_key(symbol_key(s)) {
            (f.push((s, m[symbol_key(s)].security_id)), miss)
        } else {
            (f, miss.push(s))
        }
    }
}

/// The views of a list of strings.
pub open spec fn string_views(v: Seq<String>) -> Seq<Seq<char>> {
    v.map_values(|x: String| x@)
}

impl SymbolMap {
    /// Batch lookup: the found `(symbol, security id)` pairs and the missing
    /// symbols, each in input order.
    pub fn resolve_many(&self, symbols: &[String]) -> (r: (Vec<(String, u32)>, Vec<String>))
        ensures
            r.0@.map_values(|x: (String, u32)| (x.0@, x.1)) == resolution(
                self@,
                string_views(symbols@),
            ).0,
            string_views(r.1@) == resolution(self@, string_views(symbols@)).1,
    {
        let mut found: Vec<(String, u32)> = Vec::new();
        let mut missing: Vec<String> = Vec::new();
        let ghost sv = string_views(symbols@);
        let mut i: usize = 0;
        assert(sv.take(0) =~= Seq::<Seq<char>>::empty());
        while i < symbols.len()
            invariant
                i <= symbols@.len(),
                sv == string_views(symbols@),
                found@.map_values(|x: (String, u32)| (x.0@, x.1)) == resolution(self@, sv.take(i as int)).0,
                string_views(missing@) == resolution(self@, sv.take(i as int)).1,
            decreases symbols.len() - i,
        {
            let sym = &symbols[i];
            assert(sv.take(i + 1).drop_last() =~= sv.take(i as int));
            assert(sv.take(i + 1).last() == sym@);
            let ghost f0 = found@;
            let ghost m0 = missing@;
            match self.get(sym.as_str()) {
                Some(id) => {
                    found.push((sym.clone(), id));
                    assert(found@.map_values(|x: (String, u32)| (x.0@, x.1)) =~= f0.map_values(
                        |x: (String, u32)| (x.0@, x.1),
                    ).push((sym@, id)));
                },
                None => {
                    missing.push(sym.clone());
                    assert(string_views(missing@) =~= string_views(m0).push(sym@));
                },
            }
            i = i + 1;
        }
        assert(sv.take(symbols.len() as int) =~= sv);
        (found, missing)
    }
}

/// A Dhan instrument reference: security id, exchange segment, instrument.
#[derive(Debug, Clone)]
pub struct DhanSymbol {
    pub security_id: String,
    pub exchange_segment: String,
    pub instrument: String,
}

/// The non-empty, trimmed pieces of a `security_id|segment|instrument`
/// string (`|` and `:` both separate).
pub open spec fn symbol_parts(input: Seq<char>) -> Seq<Seq<char>> {
    non_empty(split_by(input, |c: char| c == '|' || c == ':').map_values(|p: Seq<char>| trim(p)))
}

fn trim_all(v: &Vec<Vec<char>>) -> (r: Vec<Vec<char>>)
    ensures
        views(r@) == views(v@).map_values(|p: Seq<char>| trim(p)),
{
    let mut r: Vec<Vec<char>> = Vec::new();
    let mut i: usize = 0;
    while i < v.len()
        invariant
            i <= v.len(),
            views(r@) =~= views(v@).map_values(|p: Seq<char>| trim(p)).take(i as int),
        decreases v.len() - i,
    {
        let t = trim_chars(&v[i]);
        let ghost r0 = r@;
        r.push(t);
        assert(views(r@) =~= views(r0).push(t@));
        i = i + 1;
    }
    r
}

impl DhanSymbol {
    /// Parses `security_id|exchange_segment|instrument` (`:` also
    /// separates); missing pieces take the defaults, and an input with no
    /// non-blank piece is taken whole as the security id.
    pub fn parse(input: &str, default_exchange_segment: &str, default_instrument: &str) -> (r:
        DhanSymbol)
        ensures
            ({
                let p = symbol_parts(input@);
                &&& r.security_id@ == (if p.len() > 0 {
                    p[0]
                } else {
                    input@
                })
                &&& r.exchange_segment@ == (if p.len() > 1 {
                    p[1]
                } else {
                    default_exchange_segment@
                })
                &&& r.instrument@ == (if p.len() > 2 {
                    p[2]
                } else {
                    default_instrument@
                })
            }),
    {
        let mut seps: Vec<char> = Vec::new();
        seps.push('|');
        seps.push(':');
        let pieces = split_on_any(&chars_of(input), &seps);
        assert((|c: char| seps@.contains(c)) =~= (|c: char| c == '|' || c == ':')) by {
            assert forall|c: char| seps@.contains(c) <==> (c == '|' || c == ':') by {
                if c == '|' {
                    assert(seps@[0] == c);
                }
                if c == ':' {
                    assert(seps@[1] == c);
                }
            }
        }
        let parts = crate::text::drop_empty(trim_all(&pieces));
        let security_id = if parts.len() > 0 {
            string_of(&parts[0])
        } else {
            String::from_str(input)
        };
        let exchange_segment = if parts.len() > 1 {
            string_of(&parts[1])
        } else {
            String::from_str(default_exchange_segment)
        };
        let instrument = if parts.len() > 2 {
            string_of(&parts[2])
        } else {
            String::from_str(default_instrument)
        };
        DhanSymbol { security_id, exchange_segment, instrument }
    }
}

/// Why credentials were refused.
#[derive(Debug, Clone, Copy, PartialEq, Eq, Structural)]
pub enum AuthError {
    /// The access token is empty or blank.
    AccessTokenMissing,
    /// The client id is empty or blank.
    ClientIdMissing,
}

impl AuthError {
    /// Human-readable message.
    pub fn message(&self) -> (r: &'static str)
        ensures
            r@ == (match self {
                AuthError::AccessTokenMissing => "Dhan access token is not configured"@,
                AuthError::ClientIdMissing => "Dhan client id is not configured"@,
            }),
    {
        match self {
            AuthError::AccessTokenMissing => "Dhan access token is not configured",
            AuthError::ClientIdMissing => "Dhan client id is not configured",
        }
    }
}

/// Dhan API credentials.
#[derive(Debug, Clone)]
pub struct DhanAuth {
    pub access_token: String,
    pub client_id: Option<String>,
}

/// The string is empty or all whitespace.
pub open spec fn is_blank(s: Seq<char>) -> bool {
    trim(s).len() == 0
}

fn blank(s: &str) -> (r: bool)
    ensures
        r == is_blank(s@),
{
    trim_chars(&chars_of(s)).len() == 0
}

impl DhanAuth {
    /// Credentials with an access token and no client id; a blank token is
    /// refused.
    pub fn new(access_token: String) -> (r: Result<DhanAuth, AuthError>)
        ensures
            is_blank(access_token@) ==> r == Err::<DhanAuth, AuthError>(AuthError::AccessTokenMissing),
            !is_blank(access_token@) ==> r is Ok && r->Ok_0.access_token@ == access_token@
                && r->Ok_0.client_id is None,
    {
        if blank(access_token.as_str()) {
            return Err(AuthError::AccessTokenMissing);
        }
        Ok(DhanAuth { access_token, client_id: None })
    }

    /// Credentials with an access token and a client id; a blank token is
    /// refused first, then a blank client id.
    pub fn with_client_id(access_token: String, client_id: String) -> (r: Result<DhanAuth, AuthError>)
        ensures
            is_blank(access_token@) ==> r == Err::<DhanAuth, AuthError>(AuthError::AccessTokenMissing),
            !is_blank(access_token@) && is_blank(client_id@) ==> r == Err::<DhanAuth, AuthError>(
                AuthError::ClientIdMissing,
            ),
            !is_blank(access_token@) && !is_blank(client_id@) ==> r is Ok && r->Ok_0.access_token@
                == access_token@ && r->Ok_0.client_id is Some && r->Ok_0.client_id->Some_0@
                == client_id@,
    {
        let mut auth = match Self::new(access_token) {
            Ok(a) => a,
            Err(e) => return Err(e),
        };
        if blank(client_id.as_str()) {
            return Err(AuthError::ClientIdMissing);
        }
        auth.client_id = Some(client_id);
        Ok(auth)
    }
}

/// Maps a broker status string (ignoring surrounding whitespace and ASCII
/// case) to an order status; anything unmodelled is kept, normalised, as
/// `Unknown`.
pub fn order_status(status: &str) -> (r: OrderStatus)
    ensures
        ({
            let u = upper_ascii(trim(status@));
            if u == "TRANSIT"@ {
                r is Transit
            } else if u == "PENDING"@ {
                r is Pending
            } else if u == "TRADED"@ || u == "FILLED"@ || u == "COMPLETE"@ || u == "EXECUTED"@ {
                r is Traded
            } else if u == "REJECTED"@ {
                r is Rejected
            } else if u == "CANCELLED"@ || u == "CANCELED"@ {
                r is Cancelled
            } else if u == "EXPIRED"@ {
                r is Expired
            } else {
                r is Unknown && r->Unknown_0@ == u
            }
        }),
{
    let u = to_ascii_upper(&trim_chars(&chars_of(status)));
    if chars_eq_str(&u, "TRANSIT") {
        OrderStatus::Transit
    } else if chars_eq_str(&u, "PENDING") {
        OrderStatus::Pending
    } else if chars_eq_str(&u, "TRADED") || chars_eq_str(&u, "FILLED") || chars_eq_str(
        &u,
        "COMPLETE",
    ) || chars_eq_str(&u, "EXECUTED") {
        OrderStatus::Traded
    } else if chars_eq_str(&u, "REJECTED") {
        OrderStatus::Rejected
    } else if chars_eq_str(&u, "CANCELLED") || chars_eq_str(&u, "CANCELED") {
        OrderStatus::Cancelled
    } else if chars_eq_str(&u, "EXPIRED") {
        OrderStatus::Expired
    } else {
        OrderStatus::Unknown(string_of(&u))
    }
}


/// Length of one intraday request window: 89 days in milliseconds.
pub const INTRADAY_CHUNK_MS: i64 = 7_689_600_000;

/// The end of the window that starts at `cur`.
pub open spec fn chunk_end(cur: int, to: int) -> int {
    if cur + INTRADAY_CHUNK_MS < to {
        cur + INTRADAY_CHUNK_MS
    } else {
        to
    }
}

/// Windows `[cur, end]` covering `[from, to]`, each at most 89 days long,
/// the next starting one millisecond after the previous ends.
pub open spec fn chunks(cur: int, to: int) -> Seq<(i64, i64)>
    decreases to - cur + 1,
{
    if cur >= to {
        Seq::empty()
    } else {
        seq![(cur as i64, chunk_end(cur, to) as i64)] + chunks(chunk_end(cur, to) + 1, to)
    }
}

/// The window arithmetic stays within `i64` (the computation overflows
/// otherwise).
pub open spec fn chunks_fit(cur: int, to: int) -> bool
    decreases to - cur + 1,
{
    if cur >= to {
        true
    } else {
        &&& cur + INTRADAY_CHUNK_MS <= i64::MAX
        &&& chunk_end(cur, to) + 1 <= i64::MAX
        &&& chunks_fit(chunk_end(cur, to) + 1, to)
    }
}

/// Every range that ends at least one window before `i64::MAX` can be
/// split without overflow.
pub proof fn lemma_chunks_fit_below(from: int, to: int)
    requires
        to <= i64::MAX - INTRADAY_CHUNK_MS,
    ensures
        chunks_fit(from, to),
    decreases to - from + 1,
{
    if from < to {
        lemma_chunks_fit_below(chunk_end(from, to) + 1, to);
    }
}

/// Splits a millisecond range into request windows of at most 89 days.
pub fn chunk_date_range(from: i64, to: i64) -> (r: Vec<(i64, i64)>)
    requires
        chunks_fit(from as int, to as int),
    ensures
        r@ == chunks(from as int, to as int),
{
    let mut out: Vec<(i64, i64)> = Vec::new();
    let mut cur = from;
    assert(out@ + chunks(cur as int, to as int) =~= chunks(from as int, to as int));
    while cur < to
        invariant
            chunks_fit(cur as int, to as int),
            out@ + chunks(cur as int, to as int) == chunks(from as int, to as int),
        decreases to - cur + 1,
    {
        let step = cur + INTRADAY_CHUNK_MS;
        let end = if step < to {
            step
        } else {
            to
        };
        let ghost o0 = out@;
        out.push((cur, end));
        assert(out@ + chunks(end + 1, to as int) =~= o0 + chunks(cur as int, to as int));
        cur = end + 1;
    }
    assert(out@ =~= out@ + chunks(cur as int, to as int));
    out
}


/// What `csv::Reader` (default settings: comma-separated, header row)
/// yields for `text`: the header fields and, for each later record, its
/// fields, or `None` where the reader reports an error for that record.
pub uninterp spec fn csv_table(text: Seq<char>) -> (Seq<Seq<char>>, Seq<Option<Seq<Seq<char>>>>);

/// The plain view of optional string records.
pub open spec fn record_views(rows: Seq<Option<Vec<String>>>) -> Seq<Option<Seq<Seq<char>>>> {
    rows.map_values(
        |o: Option<Vec<String>>|
            match o {
                Some(v) => Some(string_views(v@)),
                None => None,
            },
    )
}

/// Reads CSV text with the `csv` crate's default reader: header fields and
/// records (`None` for a record the reader refuses, such as one whose
/// length differs from the header's). The result is named `csv_table`;
/// the CSV grammar (quoting, line endings) is left to the crate. A header
/// the reader refuses is taken as an empty header.
#[verifier::external_body]
pub(crate) fn read_csv(text: &str) -> (r: (Vec<String>, Vec<Option<Vec<String>>>))
    ensures
        (string_views(r.0@), record_views(r.1@)) == csv_table(text@),
{
    let mut rdr = csv::Reader::from_reader(text.as_bytes());
    let headers: Vec<String> = match rdr.headers() {
        Ok(h) => h.iter().map(|f| f.to_string()).collect(),
        Err(_) => Vec::new(),
    };
    let rows = rdr.records().map(|r| r.ok().map(|rec| rec.iter().map(|f| f.to_string()).collect()))
        .collect();
    (headers, rows)
}

/// How many header fields equal `name`.
pub open spec fn name_count(h: Seq<Seq<char>>, name: Seq<char>) -> nat
    decreases h.len(),
{
    if h.len() == 0 {
        0
    } else {
        name_count(h.drop_last(), name) + if h.last() == name {
            1nat
        } else {
            0nat
        }
    }
}

/// The first header position named `name`.
pub open spec fn first_index(h: Seq<Seq<char>>, name: Seq<char>) -> Option<int>
    decreases h.len(),
{
    if h.len() == 0 {
        None
    } else {
        match first_index(h.drop_last(), name) {
            Some(i) => Some(i),
            None => if h.last() == name {
                Some(h.len() - 1)
            } else {
                None
            },
        }
    }
}

proof fn lemma_first_index(h: Seq<Seq<char>>, name: Seq<char>)
    ensures
        first_index(h, name) matches Some(i) ==> 0 <= i < h.len() && h[i] == name,
        first_index(h, name) is None ==> name_count(h, name) == 0,
    decreases h.len(),
{
    if h.len() > 0 {
        lemma_first_index(h.drop_last(), name);
    }
}

/// An optional text column: absent column or empty field give `None`.
pub open spec fn opt_text(h: Seq<Seq<char>>, r: Seq<Seq<char>>, name: Seq<char>) -> Option<
    Seq<char>,
> {
    match first_index(h, name) {
        Some(i) => if r[i].len() == 0 {
            None
        } else {
            Some(r[i])
        },
        None => None,
    }
}

/// How the `csv` crate reads an integer field: `0x` introduces hexadecimal,
/// otherwise decimal.
pub open spec fn csv_u32(f: Seq<char>) -> Option<u32> {
    if has_prefix(f, "0x"@) {
        parse_u32_radix_spec(f.skip(2), 16)
    } else {
        parse_u32_radix_spec(f, 10)
    }
}

/// The scrip-master row fields `EXCH_ID`, `SEGMENT`, `SYMBOL_NAME`,
/// `UNDERLYING_SYMBOL`, `SECURITY_ID`, read as the row deserializer reads
/// them: `None` when the row cannot be read (a length mismatch, a repeated
/// column, a missing `EXCH_ID` or `SEGMENT` column, or a non-numeric
/// security id).
pub open spec fn scrip_fields(h: Seq<Seq<char>>, r: Seq<Seq<char>>) -> Option<
    (Seq<char>, Seq<char>, Option<Seq<char>>, Option<Seq<char>>, Option<u32>),
> {
    if r.len() != h.len() || name_count(h, "EXCH_ID"@) > 1 || name_count(h, "SEGMENT"@) > 1
        || name_count(h, "SYMBOL_NAME"@) > 1 || name_count(h, "UNDERLYING_SYMBOL"@) > 1
        || name_count(h, "SECURITY_ID"@) > 1 || first_index(h, "EXCH_ID"@) is None || first_index(
        h,
        "SEGMENT"@,
    ) is None {
        None
    } else {
        let ex = r[first_index(h, "EXCH_ID"@)->Some_0];
        let seg = r[first_index(h, "SEGMENT"@)->Some_0];
        match opt_text(h, r, "SECURITY_ID"@) {
            Some(f) => match csv_u32(f) {
                Some(id) => Some(
                    (
                        ex,
                        seg,
                        opt_text(h, r, "SYMBOL_NAME"@),
                        opt_text(h, r, "UNDERLYING_SYMBOL"@),
                        Some(id),
                    ),
                ),
                None => None,
            },
            None => Some(
                (
                    ex,
                    seg,
                    opt_text(h, r, "SYMBOL_NAME"@),
                    opt_text(h, r, "UNDERLYING_SYMBOL"@),
                    None,
                ),
            ),
        }
    }
}

/// The (key, security id) an NSE equity row contributes: exchange `NSE`
/// and segment `E` (ignoring surrounding whitespace), a security id, and a
/// non-blank `SYMBOL_NAME` (else a non-blank `UNDERLYING_SYMBOL`).
pub open spec fn scrip_accept(h: Seq<Seq<char>>, r: Seq<Seq<char>>) -> Option<(Seq<char>, u32)> {
    match scrip_fields(h, r) {
        None => None,
        Some((ex, seg, name, under, sec)) => {
            if trim(ex) != "NSE"@ || trim(seg) != "E"@ || sec is None {
                None
            } else if name is Some && !is_blank(name->Some_0) {
                Some((symbol_key(name->Some_0), sec->Some_0))
            } else if under is Some && !is_blank(under->Some_0) {
                Some((symbol_key(under->Some_0), sec->Some_0))
            } else {
                None
            }
        },
    }
}

/// The symbol map a scrip master denotes: accepted rows, NSE equity
/// segment, the first row for a symbol winning.
pub open spec fn scrip_map(h: Seq<Seq<char>>, rows: Seq<Option<Seq<Seq<char>>>>) -> Map<
    Seq<char>,
    SymbolEntry,
>
    decreases rows.len(),
{
    if rows.len() == 0 {
        Map::empty()
    } else {
        let m = scrip_map(h, rows.drop_last());
        match rows.last() {
            Some(r) => match scrip_accept(h, r) {
                Some((k, id)) => if m.contains_key(k) {
                    m
                } else {
                    m.insert(k, SymbolEntry { security_id: id, segment: Segment::NseEq })
                },
                None => m,
            },
            None => m,
        }
    }
}

fn column(h: &Vec<String>, name: &str) -> (r: (Option<usize>, bool))
    ensures
        r.0 == (match first_index(string_views(h@), name@) {
            Some(i) => Some(i as usize),
            None => None::<usize>,
        }),
        (r.0 is Some ==> r.0->Some_0 < h@.len()),
        (r.0 is Some ==> first_index(string_views(h@), name@) == Some(r.0->Some_0 as int)),
        (r.0 is None ==> first_index(string_views(h@), name@) is None),
        r.1 == (name_count(string_views(h@), name@) > 1),
{
    let n = String::from_str(name);
    let ghost hv = string_views(h@);
    let mut first: Option<usize> = None;
    let mut count: usize = 0;
    let mut i: usize = 0;
    assert(hv.take(0) =~= Seq::<Seq<char>>::empty());
    while i < h.len()
        invariant
            i <= h@.len(),
            hv == string_views(h@),
            n@ == name@,
            first == (match first_index(hv.take(i as int), name@) {
                Some(k) => Some(k as usize),
                None => None::<usize>,
            }),
            first is Some ==> first->Some_0 < i,
            count == (if name_count(hv.take(i as int), name@) > 1 {
                2
            } else {
                name_count(hv.take(i as int), name@)
            }),
        decreases h.len() - i,
    {
        assert(hv.take(i + 1).drop_last() =~= hv.take(i as int));
        assert(hv.take(i + 1).last() == h@[i as int]@);
        if h[i] == n {
            if first.is_none() {
                first = Some(i);
            }
            if count < 2 {
                count = count + 1;
            }
        }
        i = i + 1;
    }
    assert(hv.take(h.len() as int) =~= hv);
    proof {
        lemma_first_index(hv, name@);
    }
    (first, count > 1)
}

fn opt_field(row: &Vec<String>, col: Option<usize>) -> (r: Option<String>)
    requires
        col is Some ==> col->Some_0 < row@.len(),
    ensures
        r is Some <==> col is Some && row@[col->Some_0 as int]@.len() > 0,
        r is Some ==> r->Some_0@ == row@[col->Some_0 as int]@,
{
    match col {
        Some(i) => {
            if row[i].as_str().is_empty() {
                None
            } else {
                Some(row[i].clone())
            }
        },
        None => None,
    }
}

fn csv_u32_of(f: &String) -> (r: Option<u32>)
    ensures
        r == csv_u32(f@),
{
    let v = chars_of(f.as_str());
    let mut hex: Vec<char> = Vec::new();
    hex.push('0');
    hex.push('x');
    proof {
        reveal_strlit("0x");
    }
    assert(hex@ =~= "0x"@);
    if crate::text::starts_with(&v, &hex) {
        let mut rest: Vec<char> = Vec::new();
        let mut i: usize = 2;
        while i < v.len()
            invariant
                2 <= i <= v@.len(),
                rest@ =~= v@.subrange(2, i as int),
            decreases v.len() - i,
        {
            rest.push(v[i]);
            i = i + 1;
        }
        assert(rest@ =~= v@.skip(2));
        parse_u32_radix(&rest, 16)
    } else {
        parse_u32_radix(&v, 10)
    }
}

/// An optional text column of a row, as `opt_text` reads it.
fn opt_column(h: &Vec<String>, row: &Vec<String>, name: &str) -> (r: Option<String>)
    requires
        row@.len() == h@.len(),
    ensures
        r matches Some(s) ==> opt_text(string_views(h@), string_views(row@), name@) == Some(s@),
        r is None ==> opt_text(string_views(h@), string_views(row@), name@) is None,
{
    let (c, _) = column(h, name);
    let ghost hv = string_views(h@);
    let ghost rv = string_views(row@);
    let r = opt_field(row, c);
    proof {
        lemma_first_index(hv, name@);
        if let Some(k) = first_index(hv, name@) {
            assert(rv[k] == row@[k]@);
        }
    }
    r
}

/// The (key, security id) a scrip-master row contributes, as `scrip_accept`
/// states it.
fn scrip_row(h: &Vec<String>, row: &Vec<String>) -> (r: Option<(String, u32)>)
    ensures
        r matches Some((k, id)) ==> scrip_accept(string_views(h@), string_views(row@)) == Some(
            (k@, id),
        ),
        r is None ==> scrip_accept(string_views(h@), string_views(row@)) is None,
{
    let ghost hv = string_views(h@);
    let ghost rv = string_views(row@);
    if row.len() != h.len() {
        return None;
    }
    let (c_ex, d_ex) = column(h, "EXCH_ID");
    let (c_seg, d_seg) = column(h, "SEGMENT");
    let (_, d_name) = column(h, "SYMBOL_NAME");
    let (_, d_under) = column(h, "UNDERLYING_SYMBOL");
    let (_, d_sec) = column(h, "SECURITY_ID");
    if d_ex || d_seg || d_name || d_under || d_sec {
        return None;
    }
    let i_ex = match c_ex {
        Some(k) => k,
        None => {
            return None;
        },
    };
    let i_seg = match c_seg {
        Some(k) => k,
        None => {
            return None;
        },
    };
    let ex = &row[i_ex];
    let seg = &row[i_seg];
    assert(rv[i_ex as int] == ex@);
    assert(rv[i_seg as int] == seg@);
    let sec_field = opt_column(h, row, "SECURITY_ID");
    let sec: Option<u32> = match &sec_field {
        Some(f) => match csv_u32_of(f) {
            Some(id) => Some(id),
            None => {
                return None;
            },
        },
        None => None,
    };
    let name = opt_column(h, row, "SYMBOL_NAME");
    let under = opt_column(h, row, "UNDERLYING_SYMBOL");
    let ghost name_v: Option<Seq<char>> = match &name {
        Some(s) => Some(s@),
        None => None,
    };
    let ghost under_v: Option<Seq<char>> = match &under {
        Some(s) => Some(s@),
        None => None,
    };
    assert(name_v == opt_text(hv, rv, "SYMBOL_NAME"@));
    assert(under_v == opt_text(hv, rv, "UNDERLYING_SYMBOL"@));
    assert(scrip_fields(hv, rv) == Some((ex@, seg@, name_v, under_v, sec)));
    let nse = chars_eq_str(&trim_chars(&chars_of(ex.as_str())), "NSE");
    let eq = chars_eq_str(&trim_chars(&chars_of(seg.as_str())), "E");
    if !nse || !eq {
        return None;
    }
    let id = match sec {
        Some(id) => id,
        None => {
            return None;
        },
    };
    match &name {
        Some(s) => {
            if !blank(s.as_str()) {
                return Some((SymbolMap::key_of(s.as_str()), id));
            }
        },
        None => {},
    }
    match &under {
        Some(s) => {
            if !blank(s.as_str()) {
                return Some((SymbolMap::key_of(s.as_str()), id));
            }
        },
        None => {},
    }
    None
}

impl SymbolMap {
    fn contains_key(&self, key: &String) -> (r: bool)
        ensures
            r == self@.contains_key(key@),
    {
        proof {
            use_type_invariant(self);
            self.lemma_view();
        }
        self.find(key).is_some()
    }

    /// Builds the map from scrip-master CSV text: NSE equities only, keyed
    /// by trimmed upper-cased symbol, the first row for a symbol winning;
    /// rows that cannot be read are skipped.
    pub fn parse_csv(text: &str) -> (r: Result<SymbolMap, String>)
        ensures
            r is Ok,
            r->Ok_0@ == scrip_map(csv_table(text@).0, csv_table(text@).1),
    {
        let (headers, rows) = read_csv(text);
        let ghost hv = string_views(headers@);
        let ghost rv = record_views(rows@);
        let mut map = SymbolMap::empty();
        let mut i: usize = 0;
        assert(rv.take(0) =~= Seq::<Option<Seq<Seq<char>>>>::empty());
        while i < rows.len()
            invariant
                i <= rows@.len(),
                hv == string_views(headers@),
                rv == record_views(rows@),
                map@ == scrip_map(hv, rv.take(i as int)),
            decreases rows.len() - i,
        {
            assert(rv.take(i + 1).drop_last() =~= rv.take(i as int));
            assert(rv.take(i + 1).last() == rv[i as int]);
            if let Some(row) = &rows[i] {
                assert(rv[i as int] == Some(string_views(row@)));
                if let Some((key, id)) = scrip_row(&headers, row) {
                    if !map.contains_key(&key) {
                        map.insert_key(key, SymbolEntry { security_id: id, segment: Segment::NseEq });
                    }
                }
            }
            i = i + 1;
        }
        assert(rv.take(rows.len() as int) =~= rv);
        Ok(map)
    }
}


/// Looking up a symbol after inserting an entry under a symbol with the
/// same key (same text up to surrounding whitespace and case mapping)
/// gives that entry; every other key keeps its entry.
pub proof fn lemma_lookup_after_insert(
    m: Map<Seq<char>, SymbolEntry>,
    inserted: Seq<char>,
    e: SymbolEntry,
    query: Seq<char>,
)
    ensures
        symbol_key(query) == symbol_key(inserted) ==> m.insert(symbol_key(inserted), e).contains_key(
            symbol_key(query),
        ) && m.insert(symbol_key(inserted), e)[symbol_key(query)] == e,
        symbol_key(query) != symbol_key(inserted) ==> (m.insert(symbol_key(inserted), e).contains_key(
            symbol_key(query),
        ) == m.contains_key(symbol_key(query))) && (m.contains_key(symbol_key(query)) ==> m.insert(
            symbol_key(inserted),
            e,
        )[symbol_key(query)] == m[symbol_key(query)]),
{
}

/// Symbols are looked up ignoring surrounding whitespace: a trimmed symbol
/// has the same key as the untrimmed one.
pub proof fn lemma_key_ignores_whitespace(symbol: Seq<char>)
    ensures
        symbol_key(trim(symbol)) == symbol_key(symbol),
{
    crate::text::lemma_trim_idempotent(symbol);
}

/// Every symbol a scrip master yields trades in the NSE equity segment.
pub proof fn lemma_scrip_map_is_nse_equity(h: Seq<Seq<char>>, rows: Seq<Option<Seq<Seq<char>>>>)
    ensures
        forall|k: Seq<char>| #[trigger] scrip_map(h, rows).contains_key(k) ==> scrip_map(h, rows)[k].segment == Segment::NseEq,
    decreases rows.len(),
{
    if rows.len() > 0 {
        lemma_scrip_map_is_nse_equity(h, rows.drop_last());
    }
}

/// A scrip row from the NSE equity segment: its `EXCH_ID` field trims to
/// `NSE` and its `SEGMENT` field trims to `E`.
pub open spec fn nse_equity_row(h: Seq<Seq<char>>, r: Seq<Seq<char>>) -> bool {
    &&& match first_index(h, "EXCH_ID"@) {
        Some(a) => trim(r[a]) == "NSE"@,
        None => false,
    }
    &&& match first_index(h, "SEGMENT"@) {
        Some(b) => trim(r[b]) == "E"@,
        None => false,
    }
}

/// The security id a row's `SECURITY_ID` field holds, if it reads as one.
pub open spec fn row_security_id(h: Seq<Seq<char>>, r: Seq<Seq<char>>) -> Option<u32> {
    match first_index(h, "SECURITY_ID"@) {
        Some(c) => csv_u32(r[c]),
        None => None,
    }
}

proof fn lemma_accepted_row_is_nse_equity(h: Seq<Seq<char>>, r: Seq<Seq<char>>)
    requires
        scrip_accept(h, r) is Some,
    ensures
        nse_equity_row(h, r),
        row_security_id(h, r) == Some(scrip_accept(h, r)->Some_0.1),
{
}

/// Every symbol of a scrip master comes from a row of the NSE equity
/// segment and carries that row's security id: a row of another exchange
/// or segment neither adds a symbol nor shadows the NSE row of the same
/// symbol.
pub proof fn lemma_scrip_map_from_nse_rows(h: Seq<Seq<char>>, rows: Seq<Option<Seq<Seq<char>>>>)
    ensures
        forall|k: Seq<char>|
            #[trigger] scrip_map(h, rows).contains_key(k) ==> exists|j: int|
                0 <= j < rows.len() && rows[j] is Some && nse_equity_row(h, #[trigger] rows[j]->Some_0)
                    && row_security_id(h, rows[j]->Some_0) == Some(scrip_map(h, rows)[k].security_id),
    decreases rows.len(),
{
    if rows.len() > 0 {
        let prev = rows.drop_last();
        lemma_scrip_map_from_nse_rows(h, prev);
        assert forall|k: Seq<char>| #[trigger] scrip_map(h, rows).contains_key(k) implies exists|j: int|
            0 <= j < rows.len() && rows[j] is Some && nse_equity_row(h, #[trigger] rows[j]->Some_0)
                && row_security_id(h, rows[j]->Some_0) == Some(scrip_map(h, rows)[k].security_id) by {
            let m = scrip_map(h, prev);
            let last_adds = match rows.last() {
                Some(r) => match scrip_accept(h, r) {
                    Some((k2, _)) => !m.contains_key(k2) && k2 == k,
                    None => false,
                },
                None => false,
            };
            if last_adds {
                let r = rows.last()->Some_0;
                lemma_accepted_row_is_nse_equity(h, r);
                assert(rows[rows.len() - 1] == rows.last());
            } else {
                assert(m.contains_key(k));
                assert(scrip_map(h, rows)[k] == m[k]);
                let j = choose|j: int|
                    0 <= j < prev.len() && prev[j] is Some && nse_equity_row(h, #[trigger] prev[j]->Some_0)
                        && row_security_id(h, prev[j]->Some_0) == Some(m[k].security_id);
                assert(rows[j] == prev[j]);
            }
        }
    }
}

/// A piece that `DhanSymbol::parse` gives back as it is: non-empty,
/// already trimmed, and free of the separators `|` and `:`.
pub open spec fn plain_piece(s: Seq<char>) -> bool {
    &&& s.len() > 0
    &&& trim(s) == s
    &&& forall|i: int| 0 <= i < s.len() ==> #[trigger] s[i] != '|' && s[i] != ':'
}

proof fn lemma_plain_piece_split(s: Seq<char>)
    requires
        plain_piece(s),
    ensures
        split_by(s, |c: char| c == '|' || c == ':') == seq![s],
{
    lemma_split_by_none(s, |c: char| c == '|' || c == ':');
}

/// Joining three plain pieces with `|` and parsing the result gives the
/// three pieces back (security id, segment, instrument); a plain piece
/// alone is the security id, the other two taking the defaults.
pub proof fn lemma_symbol_parts_round_trip(a: Seq<char>, b: Seq<char>, c: Seq<char>)
    requires
        plain_piece(a),
        plain_piece(b),
        plain_piece(c),
    ensures
        symbol_parts(a + "|"@ + b + "|"@ + c) == seq![a, b, c],
        symbol_parts(a) == seq![a],
{
    let sep = |ch: char| ch == '|' || ch == ':';
    reveal_strlit("|");
    assert("|"@ =~= seq!['|']);
    lemma_plain_piece_split(a);
    lemma_plain_piece_split(b);
    lemma_plain_piece_split(c);
    lemma_split_by_concat(b, '|', c, sep);
    lemma_split_by_concat(a, '|', b + seq!['|'] + c, sep);
    let joined = a + "|"@ + b + "|"@ + c;
    assert(joined =~= a + seq!['|'] + (b + seq!['|'] + c));
    assert(split_by(joined, sep) =~= seq![a, b, c]);
    assert(seq![a, b, c].map_values(|p: Seq<char>| trim(p)) =~= seq![a, b, c]);
    assert(seq![a].map_values(|p: Seq<char>| trim(p)) =~= seq![a]);
    reveal_with_fuel(non_empty, 4);
    assert(seq![a, b, c].drop_last() =~= seq![a, b]);
    assert(seq![a, b].drop_last() =~= seq![a]);
    assert(seq![a].drop_last() =~= Seq::<Seq<char>>::empty());
    assert(non_empty(seq![a]) =~= seq![a]);
    assert(non_empty(seq![a, b]) =~= seq![a, b]);
    assert(non_empty(seq![a, b, c]) =~= seq![a, b, c]);
}

/// The request windows tile `[from, to]`: the first starts at `from`, the
/// last ends at `to` (or one millisecond before it, when a window ends
/// exactly there), each is non-empty and at most 89 days long, and each
/// starts one millisecond after the previous one ends.
pub proof fn lemma_chunks_tile(from: int, to: int)
    requires
        i64::MIN <= from,
        to <= i64::MAX,
        chunks_fit(from, to),
    ensures
        from < to ==> chunks(from, to).len() > 0 && chunks(from, to)[0].0 == from && (chunks(from, to).last().1 == to
            || chunks(from, to).last().1 + 1 == to),
        forall|i: int|
            0 <= i < chunks(from, to).len() ==> (#[trigger] chunks(from, to)[i]).0 < chunks(from, to)[i].1
                && chunks(from, to)[i].1 - chunks(from, to)[i].0 <= INTRADAY_CHUNK_MS,
        forall|i: int|
            0 < i < chunks(from, to).len() ==> (#[trigger] chunks(from, to)[i]).0 == chunks(from, to)[i - 1].1 + 1,
    decreases to - from + 1,
{
    if from < to {
        let e = chunk_end(from, to);
        lemma_chunks_tile(e + 1, to);
        let c = chunks(from, to);
        let rest = chunks(e + 1, to);
        assert(c == seq![(from as i64, e as i64)] + rest);
        assert((from as i64) as int == from);
        assert((e as i64) as int == e);
        assert(c[0] == (from as i64, e as i64));
        assert forall|i: int| 0 <= i < c.len() implies (#[trigger] c[i]).0 < c[i].1 && c[i].1 - c[i].0 <= INTRADAY_CHUNK_MS by {
            if i > 0 {
                assert(c[i] == rest[i - 1]);
            }
        }
        assert forall|i: int| 0 < i < c.len() implies (#[trigger] c[i]).0 == c[i - 1].1 + 1 by {
            if i > 1 {
                assert(c[i] == rest[i - 1]);
                assert(c[i - 1] == rest[i - 2]);
            } else {
                assert(c[1] == rest[0]);
            }
        }
        if rest.len() > 0 {
            assert(c.last() == rest.last());
        }
    }
}

} // verus!
