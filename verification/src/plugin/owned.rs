//! Name registries owned by plugins (indicators, analytics functions, DSL
//! keywords): a name belongs to the plugin that registered it first.

use vstd::prelude::*;
use vstd::string::StringExecFns;
use crate::text::{chars_lt, chars_of, seq_lt, str_eq, lemma_seq_lt_total, lemma_seq_lt_transitive};
use crate::plugin::types::{PluginError, PluginId};

verus! {

broadcast use vstd::string::group_string_axioms;

/// The entries (name, owning plugin id) of a registry, in registration
/// order.
pub type Entries = Seq<(Seq<char>, Seq<char>)>;

/// No name occurs twice.
pub open spec fn names_distinct(v: Seq<(Seq<char>, Seq<char>)>) -> bool {
    forall|i: int, j: int| 0 <= i < j < v.len() ==> #[trigger] v[i].0 != #[trigger] v[j].0
}

/// The entries of every plugin but `owner`, in order.
pub open spec fn without_owner(v: Seq<(Seq<char>, Seq<char>)>, owner: Seq<char>) -> Seq<(Seq<char>, Seq<char>)>
    decreases v.len(),
{
    if v.len() == 0 {
        v
    } else {
        let rest = without_owner(v.drop_last(), owner);
        if v.last().1 == owner {
            rest
        } else {
            rest.push(v.last())
        }
    }
}

/// The name is one of the first `n` entries' names.
pub open spec fn name_listed(v: Seq<(Seq<char>, Seq<char>)>, n: int, s: Seq<char>) -> bool {
    exists|j: int| 0 <= j < n && #[trigger] v[j].0 == s
}

/// The refusal when `name` is taken by another plugin.
pub open spec fn taken_error(kind: Seq<char>, name: Seq<char>, owner: Seq<char>) -> Seq<char> {
    kind + " '"@ + name + "' already registered by plugin '"@ + owner + "'"@
}

/// Names owned by plugins, each with a value (a function or handler).
pub struct OwnedRegistry<F> {
    kind: String,
    entries: Vec<(String, PluginId, F)>,
}

/// After a plugin's names are dropped, none of the remaining entries
/// belongs to it, and each remaining entry was there before.
pub proof fn lemma_without_owner_sub(v: Seq<(Seq<char>, Seq<char>)>, owner: Seq<char>)
    ensures
        forall|k: int| 0 <= k < without_owner(v, owner).len() ==> (#[trigger] without_owner(v, owner)[k]).1 != owner && v.contains(without_owner(v, owner)[k]),
    decreases v.len(),
{
    if v.len() > 0 {
        lemma_without_owner_sub(v.drop_last(), owner);
        let rest = without_owner(v.drop_last(), owner);
        assert forall|k: int| 0 <= k < without_owner(v, owner).len() implies (#[trigger] without_owner(v, owner)[k]).1 != owner && v.contains(without_owner(v, owner)[k]) by {
            if k < rest.len() {
                assert(without_owner(v, owner)[k] == rest[k]);
                assert(v.drop_last().contains(rest[k]));
                let j = choose|j: int| 0 <= j < v.drop_last().len() && v.drop_last()[j] == rest[k];
                assert(v[j] == rest[k]);
            } else {
                assert(v[v.len() - 1] == v.last());
            }
        }
    }
}

proof fn lemma_without_owner_order(v: Seq<(Seq<char>, Seq<char>)>, owner: Seq<char>, a: int, b: int)
    requires
        names_distinct(v),
        0 <= a < b < without_owner(v, owner).len(),
    ensures
        without_owner(v, owner)[a].0 != without_owner(v, owner)[b].0,
    decreases v.len(),
{
    let rest = without_owner(v.drop_last(), owner);
    assert(names_distinct(v.drop_last())) by {
        assert forall|i: int, j: int| 0 <= i < j < v.drop_last().len() implies #[trigger] v.drop_last()[i].0 != #[trigger] v.drop_last()[j].0 by {
            assert(v.drop_last()[i] == v[i] && v.drop_last()[j] == v[j]);
        }
    }
    if b < rest.len() {
        lemma_without_owner_order(v.drop_last(), owner, a, b);
    } else {
        lemma_without_owner_sub(v.drop_last(), owner);
        let x = rest[a];
        assert(v.drop_last().contains(x));
        let k = choose|k: int| 0 <= k < v.drop_last().len() && v.drop_last()[k] == x;
        assert(v[k] == x);
        assert(without_owner(v, owner)[b] == v.last());
        assert(v[v.len() - 1].0 != v[k].0);
    }
}

impl<F> OwnedRegistry<F> {
    /// The (name, owner) entries.
    pub closed spec fn view(&self) -> Seq<(Seq<char>, Seq<char>)> {
        self.entries@.map_values(|e: (String, PluginId, F)| (e.0@, e.1.0@))
    }

    /// What kind of names the registry holds, for messages.
    pub closed spec fn kind(&self) -> Seq<char> {
        self.kind@
    }

    /// The value registered at position `i`.
    pub closed spec fn value(&self, i: int) -> F {
        self.entries@[i].2
    }

    #[verifier::type_invariant]
    closed spec fn wf(self) -> bool {
        names_distinct(self.view())
    }

    /// Some entry of the registry is `entry` with value `f`.
    pub open spec fn holds_entry(self, entry: (Seq<char>, Seq<char>), f: F) -> bool {
        exists|i: int| 0 <= i < self.view().len() && self.view()[i] == entry && #[trigger] self.value(i) == f
    }

    /// Every entry of `self` was an entry of `earlier`, with the same value.
    pub open spec fn values_kept_from(self, earlier: Self) -> bool {
        forall|k: int|
            0 <= k < self.view().len() ==> #[trigger] earlier.holds_entry(self.view()[k], self.value(k))
    }

    /// An empty registry of `kind` names.
    pub fn new(kind: &str) -> (r: OwnedRegistry<F>)
        ensures
            r.view() == Seq::<(Seq<char>, Seq<char>)>::empty(),
            r.kind() == kind@,
    {
        let r = OwnedRegistry { kind: String::from_str(kind), entries: Vec::new() };
        assert(r.view() =~= Seq::<(Seq<char>, Seq<char>)>::empty());
        r
    }

    fn find(&self, name: &str) -> (r: Option<usize>)
        ensures
            r matches Some(i) ==> i < self.view().len() && self.view()[i as int].0 == name@,
            r is None ==> forall|i: int| 0 <= i < self.view().len() ==> self.view()[i].0 != name@,
    {
        let mut i: usize = 0;
        while i < self.entries.len()
            invariant
                i <= self.entries@.len(),
                forall|k: int| 0 <= k < i ==> self.view()[k].0 != name@,
            decreases self.entries.len() - i,
        {
            assert(self.view()[i as int].0 == self.entries@[i as int].0@);
            if str_eq(self.entries[i].0.as_str(), name) {
                return Some(i);
            }
            i = i + 1;
        }
        None
    }

    /// Registers `name` for `owner`: a name another plugin holds is
    /// refused; the owner may register its own name again, replacing the
    /// value.
    pub fn register(&mut self, name: &str, owner: &PluginId, f: F) -> (r: Result<(), PluginError>)
        ensures
            final(self).kind() == old(self).kind(),
            forall|i: int|
                0 <= i < old(self).view().len() && old(self).view()[i].0 == name@ ==> if old(self).view()[i].1
                    != owner.0@ {
                    (r matches Err(PluginError::ApiError(m)) && m@ == taken_error(
                        old(self).kind(),
                        name@,
                        old(self).view()[i].1,
                    )) && final(self).view() == old(self).view()
                } else {
                    r is Ok && final(self).view() == old(self).view() && final(self).value(i) == f
                },
            (forall|i: int| 0 <= i < old(self).view().len() ==> old(self).view()[i].0 != name@) ==> r is Ok
                && final(self).view() == old(self).view().push((name@, owner.0@)) && final(self).value(
                old(self).view().len() as int,
            ) == f,
    {
        proof {
            use_type_invariant(&*self);
        }
        let ghost v0 = self.view();
        match self.find(name) {
            Some(i) => {
                assert(v0[i as int].1 == self.entries@[i as int].1.0@);
                if !str_eq(self.entries[i].1.as_str(), owner.as_str()) {
                    let mut m = self.kind.clone();
                    m.append(" '");
                    m.append(name);
                    m.append("' already registered by plugin '");
                    m.append(self.entries[i].1.as_str());
                    m.append("'");
                    return Err(PluginError::ApiError(m));
                }
                let mut entries: Vec<(String, PluginId, F)> = Vec::new();
                std::mem::swap(&mut entries, &mut self.entries);
                let (n0, o0, _old_f) = entries.remove(i);
                entries.insert(i, (n0, o0, f));
                assert(entries@.map_values(|e: (String, PluginId, F)| (e.0@, e.1.0@)) =~= v0);
                self.entries = entries;
                Ok(())
            },
            None => {
                let mut entries: Vec<(String, PluginId, F)> = Vec::new();
                std::mem::swap(&mut entries, &mut self.entries);
                entries.push((String::from_str(name), PluginId(owner.0.clone()), f));
                assert(entries@.map_values(|e: (String, PluginId, F)| (e.0@, e.1.0@)) =~= v0.push(
                    (name@, owner.0@),
                ));
                self.entries = entries;
                Ok(())
            },
        }
    }

    /// The value registered under `name`.
    pub fn get(&self, name: &str) -> (r: Option<&F>)
        ensures
            r is None <==> forall|i: int| 0 <= i < self.view().len() ==> self.view()[i].0 != name@,
            r matches Some(f) ==> exists|i: int|
                0 <= i < self.view().len() && self.view()[i].0 == name@ && *f == self.value(i),
    {
        match self.find(name) {
            Some(i) => {
                assert(self.value(i as int) == self.entries@[i as int].2);
                Some(&self.entries[i].2)
            },
            None => None,
        }
    }

    /// Drops every name `owner` registered; the others keep their order
    /// and their values.
    pub fn unregister_all_for(&mut self, owner: &PluginId)
        ensures
            final(self).kind() == old(self).kind(),
            final(self).view() == without_owner(old(self).view(), owner.0@),
            final(self).values_kept_from(*old(self)),
    {
        proof {
            use_type_invariant(&*self);
        }
        let ghost v0 = self.view();
        let ghost old_entries = self.entries@;
        let mut entries: Vec<(String, PluginId, F)> = Vec::new();
        std::mem::swap(&mut entries, &mut self.entries);
        let ghost e0 = entries@;
        assert(e0 == old_entries);
        assert(e0.map_values(|e: (String, PluginId, F)| (e.0@, e.1.0@)) == v0);
        let len = entries.len();
        let mut rev: Vec<(String, PluginId, F)> = Vec::new();
        while entries.len() > 0
            invariant
                entries@.len() + rev@.len() == len,
                len == e0.len(),
                entries@ == e0.take(entries@.len() as int),
                forall|k: int| 0 <= k < rev@.len() ==> #[trigger] rev@[k] == e0[len - 1 - k],
            decreases entries.len(),
        {
            let ghost m = entries@.len();
            let x = entries.pop().unwrap();
            assert(x == e0[m - 1]);
            assert(entries@ =~= e0.take(m - 1));
            rev.push(x);
        }
        let mut keep: Vec<(String, PluginId, F)> = Vec::new();
        assert(v0.take(0) =~= Seq::<(Seq<char>, Seq<char>)>::empty());
        assert(keep@.map_values(|e: (String, PluginId, F)| (e.0@, e.1.0@)) =~= Seq::<(Seq<char>, Seq<char>)>::empty());
        while rev.len() > 0
            invariant
                rev@.len() <= len,
                len == e0.len(),
                v0 == e0.map_values(|e: (String, PluginId, F)| (e.0@, e.1.0@)),
                forall|k: int| 0 <= k < rev@.len() ==> #[trigger] rev@[k] == e0[len - 1 - k],
                keep@.map_values(|e: (String, PluginId, F)| (e.0@, e.1.0@)) == without_owner(
                    v0.take(len - rev@.len()),
                    owner.0@,
                ),
                forall|k: int|
                    0 <= k < keep@.len() ==> exists|i: int| 0 <= i < len && #[trigger] keep@[k] == e0[i],
            decreases rev.len(),
        {
            let ghost r = rev@.len();
            let ghost j = len - r;
            let x = rev.pop().unwrap();
            assert(x == e0[j]);
            assert(v0.take(j + 1).drop_last() =~= v0.take(j));
            assert(v0.take(j + 1).last() == (x.0@, x.1.0@));
            let ghost before = keep@;
            if !str_eq(x.1.as_str(), owner.as_str()) {
                keep.push(x);
                assert(keep@.map_values(|e: (String, PluginId, F)| (e.0@, e.1.0@)) =~= before.map_values(
                    |e: (String, PluginId, F)| (e.0@, e.1.0@),
                ).push((x.0@, x.1.0@)));
                assert forall|k: int| 0 <= k < keep@.len() implies exists|i: int|
                    0 <= i < len && #[trigger] keep@[k] == e0[i] by {
                    if k < before.len() {
                        assert(keep@[k] == before[k]);
                    } else {
                        assert(keep@[k] == e0[j]);
                    }
                }
            }
        }
        assert(v0.take(len as int) =~= v0);
        proof {
            lemma_without_owner_sub(v0, owner.0@);
            let w = without_owner(v0, owner.0@);
            assert forall|a: int, b: int| 0 <= a < b < w.len() implies #[trigger] w[a].0 != #[trigger] w[b].0 by {
                lemma_without_owner_order(v0, owner.0@, a, b);
            }
        }
        self.entries = keep;
        proof {
            let ghost earlier: Self = *old(self);
            let ghost now: Self = *self;
            assert(earlier.entries@ == e0);
            assert(earlier.view().len() == len);
            assert(now.view() == self.view());
            assert(now.values_kept_from(earlier)) by {
                assert forall|k: int|
                    0 <= k < now.view().len() implies #[trigger] earlier.holds_entry(now.view()[k], now.value(k)) by {
                    assert(self.entries@.len() == self.view().len());
                    assert(0 <= k < self.entries@.len());
                    let i = choose|i: int| 0 <= i < len && #[trigger] self.entries@[k] == e0[i];
                    assert(self.view()[k] == (self.entries@[k].0@, self.entries@[k].1.0@));
                    assert(v0[i] == (e0[i].0@, e0[i].1.0@));
                    assert(self.value(k) == self.entries@[k].2);
                    assert(earlier.value(i) == e0[i].2);
                    assert(earlier.view()[i] == v0[i]);
                    assert(0 <= i < earlier.view().len());
                    assert(now.view()[k] == earlier.view()[i]);
                    assert(now.value(k) == earlier.value(i));
                }
            }
        }
    }

    /// The registered names, in lexicographic order.
    pub fn list(&self) -> (r: Vec<String>)
        ensures
            r@.len() == self.view().len(),
            forall|a: int, b: int| 0 <= a < b < r@.len() ==> seq_lt(#[trigger] r@[a]@, #[trigger] r@[b]@),
            forall|a: int| 0 <= a < r@.len() ==> name_listed(self.view(), self.view().len() as int, #[trigger] r@[a]@),
    {
        proof {
            use_type_invariant(self);
        }
        let ghost v = self.view();
        let mut out: Vec<String> = Vec::new();
        let mut keys: Vec<Vec<char>> = Vec::new();
        let mut i: usize = 0;
        while i < self.entries.len()
            invariant
                i <= self.entries@.len(),
                v == self.view(),
                names_distinct(v),
                out@.len() == i,
                keys@.len() == i,
                forall|a: int| 0 <= a < i ==> #[trigger] keys@[a]@ == out@[a]@,
                forall|a: int, b: int| 0 <= a < b < i ==> seq_lt(#[trigger] out@[a]@, #[trigger] out@[b]@),
                forall|a: int| 0 <= a < i ==> name_listed(v, i as int, #[trigger] out@[a]@),
            decreases self.entries.len() - i,
        {
            let name = self.entries[i].0.clone();
            assert(v[i as int].0 == name@);
            let key = chars_of(name.as_str());
            let mut p: usize = 0;
            while p < keys.len() && !chars_lt(&key, &keys[p])
                invariant
                    p <= keys@.len(),
                    forall|a: int| 0 <= a < p ==> !seq_lt(key@, #[trigger] keys@[a]@),
                decreases keys.len() - p,
            {
                p = p + 1;
            }
            let ghost o0 = out@;
            let ghost k0 = keys@;
            proof {
                assert forall|a: int| 0 <= a < i implies o0[a]@ != name@ by {
                    assert(name_listed(v, i as int, o0[a]@));
                    let j = choose|j: int| 0 <= j < i && #[trigger] v[j].0 == o0[a]@;
                    assert(v[j].0 != v[i as int].0);
                }
                assert forall|a: int| 0 <= a < p implies seq_lt(#[trigger] o0[a]@, name@) by {
                    assert(k0[a]@ == o0[a]@);
                    lemma_seq_lt_total(o0[a]@, name@);
                }
                if p < i {
                    assert(k0[p as int]@ == o0[p as int]@);
                    assert forall|b: int| p <= b < i implies seq_lt(name@, #[trigger] o0[b]@) by {
                        if b > p {
                            lemma_seq_lt_transitive(name@, o0[p as int]@, o0[b]@);
                        }
                    }
                }
            }
            out.insert(p, name);
            keys.insert(p, key);
            proof {
                let o1 = out@;
                assert forall|a: int| 0 <= a < i + 1 implies #[trigger] keys@[a]@ == o1[a]@ by {
                    if a < p {
                        assert(keys@[a] == k0[a]);
                    } else if a > p {
                        assert(keys@[a] == k0[a - 1]);
                    }
                }
                assert forall|a: int, b: int| 0 <= a < b < i + 1 implies seq_lt(#[trigger] o1[a]@, #[trigger] o1[b]@) by {
                    if b < p {
                        assert(o1[a] == o0[a] && o1[b] == o0[b]);
                    } else if b == p {
                        assert(o1[a] == o0[a]);
                    } else if a < p {
                        assert(o1[a] == o0[a] && o1[b] == o0[b - 1]);
                        lemma_seq_lt_transitive(o0[a]@, o1[p as int]@, o0[b - 1]@);
                    } else if a == p {
                        assert(o1[b] == o0[b - 1]);
                    } else {
                        assert(o1[a] == o0[a - 1] && o1[b] == o0[b - 1]);
                    }
                }
                assert forall|a: int| 0 <= a < i + 1 implies name_listed(v, i + 1, #[trigger] o1[a]@) by {
                    if a < p {
                        assert(o1[a] == o0[a]);
                        assert(name_listed(v, i as int, o0[a]@));
                        let j = choose|j: int| 0 <= j < i && #[trigger] v[j].0 == o0[a]@;
                        assert(v[j].0 == o1[a]@);
                    } else if a == p {
                        assert(v[i as int].0 == o1[a]@);
                    } else {
                        assert(o1[a] == o0[a - 1]);
                        assert(name_listed(v, i as int, o0[a - 1]@));
                        let j = choose|j: int| 0 <= j < i && #[trigger] v[j].0 == o0[a - 1]@;
                        assert(v[j].0 == o1[a]@);
                    }
                }
            }
            i = i + 1;
        }
        out
    }
}

} // verus!
