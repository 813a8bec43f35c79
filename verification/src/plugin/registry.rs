//! The plugin table: which plugins are loaded, their lifecycle status, and
//! the transitions between statuses.

use vstd::prelude::*;
use vstd::string::StringExecFns;
use crate::text::{chars_lt, chars_of, seq_lt, str_eq, lemma_seq_lt_irreflexive, lemma_seq_lt_total, lemma_seq_lt_transitive};
use crate::plugin::types::{PluginVersion, 
    copy_capabilities, copy_meta, copy_status, plugin_error_text, Capability, PluginError, PluginId,
    PluginListEntry, PluginMeta, PluginStatus,
};

verus! {

broadcast use vstd::string::group_string_axioms;

/// One loaded plugin's bookkeeping.
#[derive(Debug, Clone)]
pub struct PluginRecord {
    pub meta: PluginMeta,
    pub status: PluginStatus,
    pub capabilities: Vec<Capability>,
}

/// A status as a tag (0 loaded, 1 enabled, 2 disabled, 3 failed) and the
/// failure text.
pub open spec fn status_tag(s: PluginStatus) -> (int, Seq<char>) {
    match s {
        PluginStatus::Loaded => (0, Seq::empty()),
        PluginStatus::Enabled => (1, Seq::empty()),
        PluginStatus::Disabled => (2, Seq::empty()),
        PluginStatus::Failed(m) => (3, m@),
    }
}

/// The tag of a loaded plugin.
pub open spec fn loaded() -> (int, Seq<char>) {
    (0, Seq::empty())
}

/// The tag of an enabled plugin.
pub open spec fn enabled() -> (int, Seq<char>) {
    (1, Seq::empty())
}

/// The tag of a disabled plugin.
pub open spec fn disabled() -> (int, Seq<char>) {
    (2, Seq::empty())
}

/// What a plugin's description says besides its id: name, version,
/// description, author.
pub open spec fn meta_text(m: PluginMeta) -> (Seq<char>, PluginVersion, Seq<char>, Seq<char>) {
    (m.name@, m.version, m.description@, m.author@)
}

/// What the table records of a plugin: id, status, declared
/// capabilities, and the rest of its description.
pub type RecordView = (Seq<char>, (int, Seq<char>), Seq<Capability>, (Seq<char>, PluginVersion, Seq<char>, Seq<char>));

/// What the table records of a plugin.
pub open spec fn record_view(r: PluginRecord) -> RecordView {
    (r.meta.id.0@, status_tag(r.status), r.capabilities@, meta_text(r.meta))
}

/// No id occurs twice.
pub open spec fn ids_distinct(v: Seq<RecordView>) -> bool {
    forall|i: int, j: int| 0 <= i < j < v.len() ==> #[trigger] v[i].0 != #[trigger] v[j].0
}

/// The id is in the table.
pub open spec fn has_id(v: Seq<RecordView>, id: Seq<char>) -> bool {
    exists|i: int| 0 <= i < v.len() && v[i].0 == id
}

/// What the table records of a listed plugin.
pub open spec fn entry_view(e: PluginListEntry) -> RecordView {
    (e.meta.id.0@, status_tag(e.status), e.capabilities@, meta_text(e.meta))
}

/// The entry shows one of the first `n` records of the table.
pub open spec fn listed_in(
    v: Seq<RecordView>,
    n: int,
    e: PluginListEntry,
) -> bool {
    exists|j: int| 0 <= j < n && #[trigger] v[j] == entry_view(e)
}

/// The record a registration stores.
pub open spec fn registered(meta: PluginMeta, load: Result<(), PluginError>, caps: Seq<Capability>) -> RecordView {
    let st = match load {
        Ok(_) => loaded(),
        Err(e) => (3, plugin_error_text(e)),
    };
    (meta.id.0@, st, caps, meta_text(meta))
}

/// Every loaded plugin, keyed by id.
pub struct PluginRegistry {
    records: Vec<PluginRecord>,
}

impl PluginRegistry {
    /// The table, in registration order.
    pub closed spec fn view(&self) -> Seq<RecordView> {
        self.records@.map_values(|r: PluginRecord| record_view(r))
    }

    #[verifier::type_invariant]
    closed spec fn wf(self) -> bool {
        ids_distinct(self.view())
    }

    /// An empty table.
    pub fn new() -> (r: PluginRegistry)
        ensures
            r.view() == Seq::<RecordView>::empty(),
    {
        let r = PluginRegistry { records: Vec::new() };
        assert(r.view() =~= Seq::<RecordView>::empty());
        r
    }

    fn find(&self, id: &str) -> (r: Option<usize>)
        ensures
            r matches Some(i) ==> i < self.view().len() && self.view()[i as int].0 == id@,
            r is None ==> !has_id(self.view(), id@),
    {
        let mut i: usize = 0;
        while i < self.records.len()
            invariant
                i <= self.records@.len(),
                forall|k: int| 0 <= k < i ==> self.view()[k].0 != id@,
            decreases self.records.len() - i,
        {
            assert(self.view()[i as int].0 == self.records@[i as int].meta.id.0@);
            if str_eq(self.records[i].meta.id.as_str(), id) {
                return Some(i);
            }
            i = i + 1;
        }
        None
    }

    fn set_status(&mut self, i: usize, status: PluginStatus)
        requires
            i < old(self).view().len(),
        ensures
            final(self).view() == old(self).view().update(
                i as int,
                (old(self).view()[i as int].0, status_tag(status), old(self).view()[i as int].2, old(self).view()[i as int].3),
            ),
    {
        proof {
            use_type_invariant(&*self);
        }
        let mut records: Vec<PluginRecord> = Vec::new();
        std::mem::swap(&mut records, &mut self.records);
        let ghost v0 = records@.map_values(|r: PluginRecord| record_view(r));
        let mut rec = records.remove(i);
        assert(record_view(rec) == v0[i as int]);
        rec.status = status;
        records.insert(i, rec);
        assert(records@.map_values(|r: PluginRecord| record_view(r)) =~= v0.update(
            i as int,
            (v0[i as int].0, status_tag(status), v0[i as int].2, v0[i as int].3),
        ));
        self.records = records;
    }

    /// The status of plugin `id`, if it is in the table.
    pub fn get_status(&self, id: &PluginId) -> (r: Option<PluginStatus>)
        ensures
            r is Some <==> has_id(self.view(), id.0@),
            r matches Some(s) ==> exists|i: int|
                0 <= i < self.view().len() && self.view()[i].0 == id.0@ && self.view()[i].1
                    == status_tag(s),
    {
        match self.find(id.as_str()) {
            Some(i) => {
                let s = copy_status(&self.records[i].status);
                assert(self.view()[i as int].1 == status_tag(self.records@[i as int].status));
                Some(s)
            },
            None => None,
        }
    }

    /// Records a plugin that was just loaded: `Loaded` if its load hook
    /// succeeded, else `Failed` with the error text. A plugin with the same
    /// id is replaced. Gives back the id and the load outcome.
    pub fn register(
        &mut self,
        meta: PluginMeta,
        capabilities: Vec<Capability>,
        load: Result<(), PluginError>,
    ) -> (r: (String, Result<(), PluginError>))
        ensures
            r.0@ == meta.id.0@,
            r.1 == load,
            has_id(old(self).view(), meta.id.0@) ==> exists|i: int|
                0 <= i < old(self).view().len() && old(self).view()[i].0 == meta.id.0@
                    && final(self).view() == old(self).view().update(
                    i,
                    registered(meta, load, capabilities@),
                ),
            !has_id(old(self).view(), meta.id.0@) ==> final(self).view() == old(self).view().push(
                registered(meta, load, capabilities@),
            ),
    {
        proof {
            use_type_invariant(&*self);
        }
        let status = match &load {
            Ok(_) => PluginStatus::Loaded,
            Err(e) => PluginStatus::Failed(e.to_string()),
        };
        let ghost st = match &load {
            Ok(_) => loaded(),
            Err(e) => (3, plugin_error_text(*e)),
        };
        assert(status_tag(status) == st);
        let id = meta.id.to_string();
        let found = self.find(meta.id.as_str());
        let ghost v0 = self.view();
        let ghost gid = meta.id.0@;
        let ghost gmeta = meta;
        let ghost gcaps = capabilities@;
        let rec = PluginRecord { meta, status, capabilities };
        let ghost rv = record_view(rec);
        assert(rv == registered(gmeta, load, gcaps));
        let mut records: Vec<PluginRecord> = Vec::new();
        std::mem::swap(&mut records, &mut self.records);
        assert(records@.map_values(|r: PluginRecord| record_view(r)) == v0);
        match found {
            Some(i) => {
                records.set(i, rec);
                assert(records@.map_values(|r: PluginRecord| record_view(r)) =~= v0.update(i as int, rv));
                assert(v0[i as int].0 == rv.0);
            },
            None => {
                records.push(rec);
                assert(records@.map_values(|r: PluginRecord| record_view(r)) =~= v0.push(rv));
            },
        }
        self.records = records;
        proof {
            if let Some(i) = found {
                assert(self.view() == v0.update(i as int, rv));
                assert(v0[i as int].0 == gid);
            }
        }
        (id, load)
    }

    /// The first step of enabling: the plugin must exist and not have
    /// failed. The table is left as it is while the enable hook runs, so a
    /// failing hook leaves the plugin with the status it had.
    pub fn enable_check(&self, id: &PluginId) -> (r: Result<(), PluginError>)
        ensures
            !has_id(self.view(), id.0@) ==> (r matches Err(PluginError::NotFound(m)) && m@ == id.0@),
            forall|i: int|
                0 <= i < self.view().len() && self.view()[i].0 == id.0@ ==> if self.view()[i].1.0 == 3 {
                    r matches Err(PluginError::ApiError(m)) && m@ == "cannot enable failed plugin: "@
                        + self.view()[i].1.1
                } else {
                    r is Ok
                },
    {
        proof {
            use_type_invariant(self);
        }
        match self.find(id.as_str()) {
            None => Err(PluginError::NotFound(id.to_string())),
            Some(i) => {
                assert(self.view()[i as int].1 == status_tag(self.records@[i as int].status));
                match &self.records[i].status {
                    PluginStatus::Failed(msg) => {
                        let m = String::from_str("cannot enable failed plugin: ").concat(msg.as_str());
                        Err(PluginError::ApiError(m))
                    },
                    _ => Ok(()),
                }
            },
        }
    }

    /// The last step of enabling, given the enable hook's outcome: on
    /// success the plugin is `Enabled`; a hook error is passed on and the
    /// plugin keeps the status it had before enabling.
    pub fn enable_finish(&mut self, id: &PluginId, outcome: Result<(), PluginError>) -> (r: Result<(), PluginError>)
        ensures
            r == outcome,
            outcome is Err || !has_id(old(self).view(), id.0@) ==> final(self).view() == old(self).view(),
            forall|i: int|
                0 <= i < old(self).view().len() && old(self).view()[i].0 == id.0@ && outcome is Ok
                    ==> final(self).view() == old(self).view().update(
                    i,
                    (id.0@, enabled(), old(self).view()[i].2, old(self).view()[i].3),
                ),
    {
        proof {
            use_type_invariant(&*self);
        }
        if outcome.is_err() {
            return outcome;
        }
        match self.find(id.as_str()) {
            Some(i) => {
                self.set_status(i, PluginStatus::Enabled);
            },
            None => {},
        }
        outcome
    }

    /// The first step of disabling: the plugin must exist. The table is
    /// left as it is while the disable hook runs, so a failing hook leaves
    /// the plugin with the status it had.
    pub fn disable_check(&self, id: &PluginId) -> (r: Result<(), PluginError>)
        ensures
            r is Ok <==> has_id(self.view(), id.0@),
            r is Err ==> (r matches Err(PluginError::NotFound(m)) && m@ == id.0@),
    {
        proof {
            use_type_invariant(self);
        }
        match self.find(id.as_str()) {
            None => Err(PluginError::NotFound(id.to_string())),
            Some(_) => Ok(()),
        }
    }

    /// The last step of disabling, given the disable hook's outcome: on
    /// success the plugin is `Disabled`; a hook error is passed on and the
    /// plugin keeps the status it had before disabling.
    pub fn disable_finish(&mut self, id: &PluginId, outcome: Result<(), PluginError>) -> (r: Result<(), PluginError>)
        ensures
            r == outcome,
            outcome is Err || !has_id(old(self).view(), id.0@) ==> final(self).view() == old(self).view(),
            forall|i: int|
                0 <= i < old(self).view().len() && old(self).view()[i].0 == id.0@ && outcome is Ok
                    ==> final(self).view() == old(self).view().update(
                    i,
                    (id.0@, disabled(), old(self).view()[i].2, old(self).view()[i].3),
                ),
    {
        proof {
            use_type_invariant(&*self);
        }
        if outcome.is_err() {
            return outcome;
        }
        match self.find(id.as_str()) {
            Some(i) => {
                self.set_status(i, PluginStatus::Disabled);
            },
            None => {},
        }
        outcome
    }

    /// Removes plugin `id` from the table.
    pub fn unload(&mut self, id: &PluginId) -> (r: Result<(), PluginError>)
        ensures
            !has_id(old(self).view(), id.0@) ==> (r matches Err(PluginError::NotFound(m)) && m@
                == id.0@) && final(self).view() == old(self).view(),
            forall|i: int|
                0 <= i < old(self).view().len() && old(self).view()[i].0 == id.0@ ==> r is Ok
                    && final(self).view() == old(self).view().remove(i),
            !has_id(final(self).view(), id.0@),
    {
        proof {
            use_type_invariant(&*self);
        }
        match self.find(id.as_str()) {
            None => Err(PluginError::NotFound(id.to_string())),
            Some(i) => {
                let ghost v0 = self.view();
                let mut records: Vec<PluginRecord> = Vec::new();
                std::mem::swap(&mut records, &mut self.records);
                assert(records@.map_values(|r: PluginRecord| record_view(r)) == v0);
                let _gone = records.remove(i);
                assert(records@.map_values(|r: PluginRecord| record_view(r)) =~= v0.remove(i as int));
                self.records = records;
                proof {
                    assert forall|k: int| 0 <= k < self.view().len() implies self.view()[k].0 != id.0@ by {
                        if k < i {
                            assert(self.view()[k] == v0[k]);
                        } else {
                            assert(self.view()[k] == v0[k + 1]);
                        }
                    }
                }
                Ok(())
            },
        }
    }

    /// Every plugin in the table, ordered by id.
    pub fn list(&self) -> (r: Vec<PluginListEntry>)
        ensures
            r@.len() == self.view().len(),
            forall|a: int, b: int|
                0 <= a < b < r@.len() ==> seq_lt(#[trigger] r@[a].meta.id.0@, #[trigger] r@[b].meta.id.0@),
            forall|a: int| 0 <= a < r@.len() ==> listed_in(self.view(), self.view().len() as int, #[trigger] r@[a]),
    {
        proof {
            use_type_invariant(self);
        }
        let ghost v = self.view();
        let mut out: Vec<PluginListEntry> = Vec::new();
        let mut keys: Vec<Vec<char>> = Vec::new();
        let mut i: usize = 0;
        while i < self.records.len()
            invariant
                i <= self.records@.len(),
                v == self.view(),
                ids_distinct(v),
                out@.len() == i,
                keys@.len() == i,
                forall|a: int| 0 <= a < i ==> #[trigger] keys@[a]@ == out@[a].meta.id.0@,
                forall|a: int, b: int|
                    0 <= a < b < i ==> seq_lt(#[trigger] out@[a].meta.id.0@, #[trigger] out@[b].meta.id.0@),
                forall|a: int| 0 <= a < i ==> listed_in(v, i as int, #[trigger] out@[a]),
            decreases self.records.len() - i,
        {
            let rec = &self.records[i];
            assert(v[i as int] == record_view(*rec));
            let key = chars_of(rec.meta.id.as_str());
            let meta = copy_meta(&rec.meta);
            let status = copy_status(&rec.status);
            let capabilities = copy_capabilities(&rec.capabilities);
            let entry = PluginListEntry { meta, status, capabilities };
            assert(status_tag(entry.status) == status_tag(rec.status));
            let mut p: usize = 0;
            while p < keys.len() && !chars_lt(&key, &keys[p])
                invariant
                    p <= keys@.len(),
                    forall|a: int| 0 <= a < p ==> !seq_lt(key@, #[trigger] keys@[a]@),
                decreases keys.len() - p,
            {
                p = p + 1;
            }
            let ghost o0 = out@;
            let ghost k0 = keys@;
            proof {
                assert forall|a: int| 0 <= a < i implies o0[a].meta.id.0@ != key@ by {
                    assert(listed_in(v, i as int, o0[a]));
                    let j = choose|j: int| 0 <= j < i && #[trigger] v[j] == entry_view(o0[a]);
                    assert(v[j].0 != v[i as int].0);
                }
                assert forall|a: int| 0 <= a < p implies seq_lt(#[trigger] o0[a].meta.id.0@, key@) by {
                    assert(k0[a]@ == o0[a].meta.id.0@);
                    lemma_seq_lt_total(o0[a].meta.id.0@, key@);
                }
                if p < i {
                    assert(k0[p as int]@ == o0[p as int].meta.id.0@);
                    assert(seq_lt(key@, o0[p as int].meta.id.0@));
                    assert forall|b: int| p <= b < i implies seq_lt(key@, #[trigger] o0[b].meta.id.0@) by {
                        if b > p {
                            lemma_seq_lt_transitive(key@, o0[p as int].meta.id.0@, o0[b].meta.id.0@);
                        }
                    }
                }
            }
            out.insert(p, entry);
            keys.insert(p, key);
            proof {
                let o1 = out@;
                assert forall|a: int| 0 <= a < i + 1 implies #[trigger] keys@[a]@ == o1[a].meta.id.0@ by {
                    if a < p {
                        assert(keys@[a] == k0[a]);
                    } else if a > p {
                        assert(keys@[a] == k0[a - 1]);
                    }
                }
                assert forall|a: int, b: int| 0 <= a < b < i + 1 implies seq_lt(
                    #[trigger] o1[a].meta.id.0@,
                    #[trigger] o1[b].meta.id.0@,
                ) by {
                    if b < p {
                        assert(o1[a] == o0[a] && o1[b] == o0[b]);
                    } else if b == p {
                        assert(o1[a] == o0[a]);
                    } else if a < p {
                        assert(o1[a] == o0[a] && o1[b] == o0[b - 1]);
                        lemma_seq_lt_transitive(o0[a].meta.id.0@, key@, o0[b - 1].meta.id.0@);
                    } else if a == p {
                        assert(o1[b] == o0[b - 1]);
                    } else {
                        assert(o1[a] == o0[a - 1] && o1[b] == o0[b - 1]);
                    }
                }
                assert forall|a: int| 0 <= a < i + 1 implies listed_in(v, i + 1, #[trigger] o1[a]) by {
                    if a < p {
                        assert(o1[a] == o0[a]);
                        assert(listed_in(v, i as int, o0[a]));
                        let j = choose|j: int| 0 <= j < i && #[trigger] v[j] == entry_view(o0[a]);
                        assert(v[j] == entry_view(o1[a]));
                    } else if a == p {
                        assert(v[i as int] == entry_view(o1[a]));
                    } else {
                        assert(o1[a] == o0[a - 1]);
                        assert(listed_in(v, i as int, o0[a - 1]));
                        let j = choose|j: int| 0 <= j < i && #[trigger] v[j] == entry_view(o0[a - 1]);
                        assert(v[j] == entry_view(o1[a]));
                    }
                }
            }
            i = i + 1;
        }
        out
    }
}

} // verus!
