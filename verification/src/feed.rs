//! The market-feed subscription set.

use vstd::prelude::*;
use vstd::string::StringExecFns;
use crate::broker::string_views;
use crate::text::{str_eq, trim, trim_str};

verus! {

broadcast use vstd::string::group_string_axioms;

/// The most symbols the Dhan feed carries at once.
pub const MAX_DHAN_SUBSCRIPTIONS: usize = 1000;

/// The symbols a request names: trimmed, empty ones dropped.
pub open spec fn requested(symbols: Seq<Seq<char>>) -> Set<Seq<char>> {
    Set::new(|s: Seq<char>| s.len() > 0 && exists|i: int| 0 <= i < symbols.len() && trim(#[trigger] symbols[i]) == s)
}

/// The trimmed symbols of a request, empty ones included.
pub open spec fn trimmed(symbols: Seq<Seq<char>>) -> Set<Seq<char>> {
    Set::new(|s: Seq<char>| exists|i: int| 0 <= i < symbols.len() && trim(#[trigger] symbols[i]) == s)
}

/// The symbols the market feed is subscribed to.
pub struct FeedManager {
    subscriptions: Vec<String>,
}

impl View for FeedManager {
    type V = Set<Seq<char>>;

    closed spec fn view(&self) -> Set<Seq<char>> {
        string_views(self.subscriptions@).to_set()
    }
}

fn contains_str(v: &Vec<String>, s: &String) -> (r: bool)
    ensures
        r == string_views(v@).contains(s@),
{
    let mut i: usize = 0;
    while i < v.len()
        invariant
            i <= v@.len(),
            forall|k: int| 0 <= k < i ==> v@[k]@ != s@,
        decreases v.len() - i,
    {
        if str_eq(v[i].as_str(), s.as_str()) {
            assert(string_views(v@)[i as int] == s@);
            return true;
        }
        i = i + 1;
    }
    proof {
        if string_views(v@).contains(s@) {
            let k = choose|k: int| 0 <= k < v@.len() && string_views(v@)[k] == s@;
            assert(v@[k]@ == s@);
        }
    }
    false
}

impl FeedManager {
    #[verifier::type_invariant]
    closed spec fn wf(self) -> bool {
        &&& string_views(self.subscriptions@).no_duplicates()
        &&& self.subscriptions@.len() <= MAX_DHAN_SUBSCRIPTIONS
    }

    /// No subscriptions.
    pub fn new() -> (r: FeedManager)
        ensures
            r@ == Set::<Seq<char>>::empty(),
    {
        let r = FeedManager { subscriptions: Vec::new() };
        assert(string_views(r.subscriptions@) =~= Seq::<Seq<char>>::empty());
        assert(r@ =~= Set::<Seq<char>>::empty());
        r
    }

    /// Adds the trimmed, non-empty `symbols`, unless the union would
    /// exceed the feed's limit, in which case nothing changes.
    pub fn subscribe(&mut self, symbols: Vec<String>) -> (r: Result<(), String>)
        ensures
            (old(self)@ + requested(string_views(symbols@))).len() > MAX_DHAN_SUBSCRIPTIONS ==> (r
                matches Err(e) && e@ == "Dhan feed supports up to 1000 subscriptions"@) && final(self)@
                == old(self)@,
            (old(self)@ + requested(string_views(symbols@))).len() <= MAX_DHAN_SUBSCRIPTIONS ==> r
                is Ok && final(self)@ == old(self)@ + requested(string_views(symbols@)),
            final(self)@.len() <= MAX_DHAN_SUBSCRIPTIONS,
            final(self)@.finite(),
    {
        proof {
            use_type_invariant(&*self);
        }
        let ghost sv = string_views(symbols@);
        let ghost base = self@;
        let mut cand: Vec<String> = self.subscriptions.clone();
        assert(string_views(cand@) =~= string_views(self.subscriptions@));
        let mut i: usize = 0;
        assert(requested(sv.take(0)) =~= Set::<Seq<char>>::empty());
        assert(base + requested(sv.take(0)) =~= base);
        while i < symbols.len()
            invariant
                i <= symbols@.len(),
                sv == string_views(symbols@),
                base == old(self)@,
                string_views(cand@).no_duplicates(),
                string_views(cand@).to_set() == base + requested(sv.take(i as int)),
            decreases symbols.len() - i,
        {
            let t = trim_str(symbols[i].as_str());
            let ghost prev = string_views(cand@);
            assert(sv[i as int] == symbols@[i as int]@);
            if !t.as_str().is_empty() && !contains_str(&cand, &t) {
                cand.push(t);
                proof {
                    assert(string_views(cand@) =~= prev.push(t@));
                    prev.lemma_push_to_set_commute(t@);
                    assert forall|a: int, b: int| 0 <= a < b < string_views(cand@).len() implies string_views(cand@)[a] != string_views(cand@)[b] by {
                        if b == prev.len() {
                            assert(prev[a] == string_views(cand@)[a]);
                        }
                    }
                }
            }
            proof {
                let now = string_views(cand@).to_set();
                assert forall|s: Seq<char>| now.contains(s) <==> (base + requested(sv.take(i + 1))).contains(s) by {
                    if requested(sv.take(i + 1)).contains(s) && !requested(sv.take(i as int)).contains(s) {
                        let k = choose|k: int| 0 <= k < i + 1 && trim(#[trigger] sv.take(i + 1)[k]) == s;
                        if k < i {
                            assert(sv.take(i as int)[k] == sv.take(i + 1)[k]);
                        }
                    }
                    if requested(sv.take(i as int)).contains(s) {
                        let k = choose|k: int| 0 <= k < i && trim(#[trigger] sv.take(i as int)[k]) == s;
                        assert(sv.take(i + 1)[k] == sv.take(i as int)[k]);
                    }
                    if s == t@ && t@.len() > 0 {
                        assert(sv.take(i + 1)[i as int] == sv[i as int]);
                    }
                }
                assert(now =~= base + requested(sv.take(i + 1)));
            }
            i = i + 1;
        }
        assert(sv.take(symbols.len() as int) =~= sv);
        proof {
            string_views(cand@).unique_seq_to_set();
            string_views(self.subscriptions@).unique_seq_to_set();
        }
        if cand.len() > MAX_DHAN_SUBSCRIPTIONS {
            return Err(String::from_str("Dhan feed supports up to 1000 subscriptions"));
        }
        self.subscriptions = cand;
        Ok(())
    }

    /// Removes the trimmed `symbols`.
    pub fn unsubscribe(&mut self, symbols: Vec<String>) -> (r: Result<(), String>)
        ensures
            r is Ok,
            final(self)@ == old(self)@.difference(trimmed(string_views(symbols@))),
    {
        proof {
            use_type_invariant(&*self);
        }
        let ghost sv = string_views(symbols@);
        let mut drop: Vec<String> = Vec::new();
        let mut i: usize = 0;
        while i < symbols.len()
            invariant
                i <= symbols@.len(),
                sv == string_views(symbols@),
                drop@.len() == i,
                forall|k: int| 0 <= k < i ==> #[trigger] drop@[k]@ == trim(sv[k]),
            decreases symbols.len() - i,
        {
            assert(sv[i as int] == symbols@[i as int]@);
            drop.push(trim_str(symbols[i].as_str()));
            i = i + 1;
        }
        let ghost old_views = string_views(self.subscriptions@);
        let mut keep: Vec<String> = Vec::new();
        let mut j: usize = 0;
        while j < self.subscriptions.len()
            invariant
                j <= self.subscriptions@.len(),
                old_views == string_views(self.subscriptions@),
                old_views.no_duplicates(),
                self.subscriptions@.len() <= MAX_DHAN_SUBSCRIPTIONS,
                keep@.len() <= j,
                string_views(keep@).no_duplicates(),
                forall|a: int| 0 <= a < keep@.len() ==> exists|b: int| 0 <= b < j && #[trigger] keep@[a]@ == old_views[b],
                string_views(keep@).to_set() == old_views.take(j as int).to_set().difference(
                    trimmed(sv),
                ),
                drop@.len() == sv.len(),
                forall|k: int| 0 <= k < drop@.len() ==> #[trigger] drop@[k]@ == trim(sv[k]),
            decreases self.subscriptions.len() - j,
        {
            let s = &self.subscriptions[j];
            let dropped = contains_str(&drop, s);
            let ghost prev = string_views(keep@);
            proof {
                assert(old_views[j as int] == s@);
                assert(old_views.take(j + 1) =~= old_views.take(j as int).push(s@));
                old_views.take(j as int).lemma_push_to_set_commute(s@);
                assert(dropped == trimmed(sv).contains(s@)) by {
                    if string_views(drop@).contains(s@) {
                        let k = choose|k: int| 0 <= k < drop@.len() && string_views(drop@)[k] == s@;
                        assert(drop@[k]@ == s@);
                        assert(trim(sv[k]) == s@);
                    }
                    if trimmed(sv).contains(s@) {
                        let k = choose|k: int| 0 <= k < sv.len() && trim(#[trigger] sv[k]) == s@;
                        assert(string_views(drop@)[k] == drop@[k]@);
                    }
                }
            }
            if !dropped {
                keep.push(s.clone());
                proof {
                    assert(string_views(keep@) =~= prev.push(s@));
                    prev.lemma_push_to_set_commute(s@);
                    assert forall|a: int, b: int| 0 <= a < b < string_views(keep@).len() implies string_views(keep@)[a] != string_views(keep@)[b] by {
                        if b == prev.len() {
                            assert(string_views(keep@)[a] == keep@[a]@);
                            let c = choose|c: int| 0 <= c < j && #[trigger] keep@[a]@ == old_views[c];
                            assert(old_views[c] != old_views[j as int]);
                        }
                    }
                }
            }
            proof {
                assert(string_views(keep@).to_set() =~= old_views.take(j + 1).to_set().difference(trimmed(sv)));
            }
            j = j + 1;
        }
        assert(old_views.take(self.subscriptions.len() as int) =~= old_views);
        self.subscriptions = keep;
        Ok(())
    }

    /// The subscribed symbols, each once.
    pub fn subscriptions(&self) -> (r: Vec<String>)
        ensures
            string_views(r@).to_set() == self@,
            string_views(r@).no_duplicates(),
            r@.len() <= MAX_DHAN_SUBSCRIPTIONS,
    {
        proof {
            use_type_invariant(self);
        }
        let r = self.subscriptions.clone();
        assert(string_views(r@) =~= string_views(self.subscriptions@));
        r
    }
}


/// Unsubscribing the symbols of a subscription request removes all of
/// them and leaves the set as unsubscribing alone would have.
pub proof fn lemma_unsubscribe_undoes_subscribe(subs: Set<Seq<char>>, symbols: Seq<Seq<char>>)
    ensures
        (subs + requested(symbols)).difference(trimmed(symbols)) == subs.difference(trimmed(symbols)),
        forall|x: Seq<char>| #[trigger] requested(symbols).contains(x) ==> !(subs + requested(symbols)).difference(
            trimmed(symbols),
        ).contains(x),
{
    assert forall|x: Seq<char>| requested(symbols).contains(x) implies #[trigger] trimmed(symbols).contains(x) by {
        let i = choose|i: int| 0 <= i < symbols.len() && trim(#[trigger] symbols[i]) == x;
    }
    assert((subs + requested(symbols)).difference(trimmed(symbols)) =~= subs.difference(trimmed(symbols)));
}

} // verus!
