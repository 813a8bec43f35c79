//! The table of deployed strategies: which ids exist, how each was
//! deployed, its run state, and when it was deployed. The strategy's text
//! and its profit figures are kept beside it by the caller.

use vstd::prelude::*;
use vstd::string::StringExecFns;
use crate::commands::{StrategyMode, StrategyStatus};
use crate::text::str_eq;

verus! {

broadcast use vstd::string::group_string_axioms;

/// One deployed strategy.
#[derive(Debug, Clone)]
pub struct DeployedEntry {
    pub id: String,
    pub mode: StrategyMode,
    pub status: StrategyStatus,
    pub deployed_at: i64,
}

/// What the table records of a strategy.
pub type EntryView = (Seq<char>, StrategyMode, StrategyStatus, i64);

pub open spec fn entry_view(e: DeployedEntry) -> EntryView {
    (e.id@, e.mode, e.status, e.deployed_at)
}

/// No id occurs twice.
pub open spec fn ids_distinct(v: Seq<EntryView>) -> bool {
    forall|i: int, j: int| 0 <= i < j < v.len() ==> #[trigger] v[i].0 != #[trigger] v[j].0
}

/// The id is in the table.
pub open spec fn has_id(v: Seq<EntryView>, id: Seq<char>) -> bool {
    exists|i: int| 0 <= i < v.len() && v[i].0 == id
}

/// The message for an unknown id.
pub open spec fn not_found_text(id: Seq<char>) -> Seq<char> {
    "strategy '"@ + id + "' not found"@
}

/// Every deployed strategy, keyed by id.
pub struct StrategyTable {
    entries: Vec<DeployedEntry>,
}

impl StrategyTable {
    /// The table, in deployment order.
    pub closed spec fn view(&self) -> Seq<EntryView> {
        self.entries@.map_values(|e: DeployedEntry| entry_view(e))
    }

    #[verifier::type_invariant]
    closed spec fn wf(self) -> bool {
        ids_distinct(self.view())
    }

    /// An empty table.
    pub fn new() -> (r: StrategyTable)
        ensures
            r.view() == Seq::<EntryView>::empty(),
    {
        let r = StrategyTable { entries: Vec::new() };
        assert(r.view() =~= Seq::<EntryView>::empty());
        r
    }

    fn find(&self, id: &str) -> (r: Option<usize>)
        ensures
            r matches Some(i) ==> i < self.view().len() && self.view()[i as int].0 == id@,
            r is None ==> !has_id(self.view(), id@),
    {
        let mut i: usize = 0;
        while i < self.entries.len()
            invariant
                i <= self.entries@.len(),
                forall|k: int| 0 <= k < i ==> self.view()[k].0 != id@,
            decreases self.entries.len() - i,
        {
            assert(self.view()[i as int].0 == self.entries@[i as int].id@);
            if str_eq(self.entries[i].id.as_str(), id) {
                return Some(i);
            }
            i = i + 1;
        }
        None
    }

    /// Records a newly deployed strategy as `Paused`, so it does not start
    /// on its own; an entry with the same id is replaced.
    pub fn deploy(&mut self, id: String, mode: StrategyMode, deployed_at: i64)
        ensures
            has_id(old(self).view(), id@) ==> exists|i: int|
                0 <= i < old(self).view().len() && old(self).view()[i].0 == id@
                    && final(self).view() == old(self).view().update(
                    i,
                    (id@, mode, StrategyStatus::Paused, deployed_at),
                ),
            !has_id(old(self).view(), id@) ==> final(self).view() == old(self).view().push(
                (id@, mode, StrategyStatus::Paused, deployed_at),
            ),
    {
        proof {
            use_type_invariant(&*self);
        }
        let found = self.find(id.as_str());
        let ghost v0 = self.view();
        let ghost gid = id@;
        let e = DeployedEntry { id, mode, status: StrategyStatus::Paused, deployed_at };
        let ghost ev = entry_view(e);
        let mut entries: Vec<DeployedEntry> = Vec::new();
        std::mem::swap(&mut entries, &mut self.entries);
        assert(entries@.map_values(|e: DeployedEntry| entry_view(e)) == v0);
        match found {
            Some(i) => {
                entries.set(i, e);
                assert(entries@.map_values(|e: DeployedEntry| entry_view(e)) =~= v0.update(i as int, ev));
            },
            None => {
                entries.push(e);
                assert(entries@.map_values(|e: DeployedEntry| entry_view(e)) =~= v0.push(ev));
            },
        }
        self.entries = entries;
        proof {
            if let Some(i) = found {
                assert(v0[i as int].0 == gid);
            }
        }
    }

    /// Sets the run state of strategy `id`; an unknown id is refused and
    /// the table is left as it is.
    pub fn set_status(&mut self, id: &str, status: StrategyStatus) -> (r: Result<(), String>)
        ensures
            !has_id(old(self).view(), id@) ==> (r matches Err(e) && e@ == not_found_text(id@))
                && final(self).view() == old(self).view(),
            forall|i: int|
                0 <= i < old(self).view().len() && old(self).view()[i].0 == id@ ==> r is Ok
                    && final(self).view() == old(self).view().update(
                    i,
                    (id@, old(self).view()[i].1, status, old(self).view()[i].3),
                ),
    {
        proof {
            use_type_invariant(&*self);
        }
        match self.find(id) {
            None => {
                let mut m = String::from_str("strategy '");
                m.append(id);
                m.append("' not found");
                Err(m)
            },
            Some(i) => {
                let ghost v0 = self.view();
                let mut entries: Vec<DeployedEntry> = Vec::new();
                std::mem::swap(&mut entries, &mut self.entries);
                assert(entries@.map_values(|e: DeployedEntry| entry_view(e)) == v0);
                let mut e = entries.remove(i);
                assert(entry_view(e) == v0[i as int]);
                e.status = status;
                entries.insert(i, e);
                assert(entries@.map_values(|e: DeployedEntry| entry_view(e)) =~= v0.update(
                    i as int,
                    (v0[i as int].0, v0[i as int].1, status, v0[i as int].3),
                ));
                self.entries = entries;
                proof {
                    assert forall|k: int| 0 <= k < v0.len() && v0[k].0 == id@ implies k == i by {
                        if k != i {
                            if k < i {
                                assert(v0[k].0 != v0[i as int].0);
                            } else {
                                assert(v0[i as int].0 != v0[k].0);
                            }
                        }
                    }
                }
                Ok(())
            },
        }
    }

    /// The deployment mode of strategy `id`, if it is in the table.
    pub fn mode_of(&self, id: &str) -> (r: Option<StrategyMode>)
        ensures
            r is None <==> !has_id(self.view(), id@),
            forall|i: int| 0 <= i < self.view().len() && self.view()[i].0 == id@ ==> r == Some(self.view()[i].1),
    {
        proof {
            use_type_invariant(self);
        }
        match self.find(id) {
            None => None,
            Some(i) => {
                let ghost v = self.view();
                assert(v[i as int].1 == self.entries@[i as int].mode);
                proof {
                    assert forall|k: int| 0 <= k < v.len() && v[k].0 == id@ implies k == i by {
                        if k < i {
                            assert(v[k].0 != v[i as int].0);
                        } else if k > i {
                            assert(v[i as int].0 != v[k].0);
                        }
                    }
                }
                Some(self.entries[i].mode)
            },
        }
    }

    /// The run state of strategy `id`, if it is in the table.
    pub fn status_of(&self, id: &str) -> (r: Option<StrategyStatus>)
        ensures
            r is None <==> !has_id(self.view(), id@),
            forall|i: int| 0 <= i < self.view().len() && self.view()[i].0 == id@ ==> r == Some(self.view()[i].2),
    {
        proof {
            use_type_invariant(self);
        }
        match self.find(id) {
            None => None,
            Some(i) => {
                let ghost v = self.view();
                assert(v[i as int].2 == self.entries@[i as int].status);
                proof {
                    assert forall|k: int| 0 <= k < v.len() && v[k].0 == id@ implies k == i by {
                        if k < i {
                            assert(v[k].0 != v[i as int].0);
                        } else if k > i {
                            assert(v[i as int].0 != v[k].0);
                        }
                    }
                }
                Some(self.entries[i].status)
            },
        }
    }
}

} // verus!
