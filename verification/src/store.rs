//! The field-to-value store a giveaway record is persisted in.
//!
//! One store instance covers one organizer's whole mapping from
//! giveaway id to record, under a single store-level key. The store
//! here is the verified system of record: a field either holds a value
//! or is absent, an insert may carry an expiration that is recorded in
//! the same step as the value, and removing an absent field is a no-op.
//!
//! Field and value types are fixed to the one instantiation the crate
//! needs, id to record: a store generic over serializable field and
//! value types would put the serialization boundary beyond what the
//! verifier can state, so serialization for the remote copy lives with
//! the embedding.

use crate::errors::AppResult;
use crate::models::{Giveaway, GiveawayView};
use vstd::prelude::*;

verus! {

struct Entry {
    field: u128,
    value: Giveaway,
    ttl: Option<u64>,
}

/// Every field of the mapping `m` appears among the pairs `v`.
pub open spec fn covers(v: Seq<(u128, Giveaway)>, m: Map<u128, GiveawayView>) -> bool {
    forall|k: u128|
        m.contains_key(k) ==> exists|j: int| 0 <= j < v.len() && (#[trigger] v[j]).0 == k
}

/// A mapping from giveaway id to record, scoped under one store-level
/// key, with an optional per-field expiration in milliseconds.
pub struct RHashMap {
    key: String,
    entries: Vec<Entry>,
}

impl View for RHashMap {
    type V = Map<u128, GiveawayView>;

    closed spec fn view(&self) -> Map<u128, GiveawayView> {
        Map::new(|k: u128| self.has_field(k), |k: u128| self.entries@[self.field_idx(k)].value@)
    }
}

impl RHashMap {
    closed spec fn has_field(self, k: u128) -> bool {
        exists|i: int| 0 <= i < self.entries@.len() && self.entries@[i].field == k
    }

    closed spec fn field_idx(self, k: u128) -> int {
        choose|i: int| 0 <= i < self.entries@.len() && self.entries@[i].field == k
    }

    /// Store invariant: fields are distinct, and every stored record
    /// satisfies the record invariant.
    pub closed spec fn wf(self) -> bool {
        &&& forall|i: int, j: int|
            0 <= i < j < self.entries@.len() ==> self.entries@[i].field != self.entries@[j].field
        &&& forall|i: int|
            0 <= i < self.entries@.len() ==> (#[trigger] self.entries@[i]).value@.well_formed()
    }

    /// The store-level key this mapping lives under.
    pub closed spec fn spec_key(self) -> Seq<char> {
        self.key@
    }

    /// The store-level key, for building outward-facing messages.
    pub fn get_key(&self) -> (r: &String)
        ensures
            r@ == self.spec_key(),
    {
        &self.key
    }

    /// The expiration recorded for each present field: `None` for a
    /// field stored without one.
    pub closed spec fn ttls(self) -> Map<u128, Option<u64>> {
        Map::new(|k: u128| self.has_field(k), |k: u128| self.entries@[self.field_idx(k)].ttl)
    }

    proof fn lemma_lookup(self, i: int)
        requires
            self.wf(),
            0 <= i < self.entries@.len(),
        ensures
            self.has_field(self.entries@[i].field),
            self.field_idx(self.entries@[i].field) == i,
            self@.contains_key(self.entries@[i].field),
            self@[self.entries@[i].field] == self.entries@[i].value@,
            self.ttls()[self.entries@[i].field] == self.entries@[i].ttl,
    {
        let k = self.entries@[i].field;
        assert(self.has_field(k));
        let j = self.field_idx(k);
        assert(0 <= j < self.entries@.len() && self.entries@[j].field == k);
        if i != j {
            assert(false);
        }
    }

    /// Every record held by a well-formed store satisfies the record
    /// invariant, and its participant list fits in memory.
    pub proof fn lemma_values_well_formed(self, k: u128)
        requires
            self.wf(),
            self@.contains_key(k),
        ensures
            self@[k].well_formed(),
            self@[k].participants.len() <= usize::MAX,
    {
        let i = self.field_idx(k);
        assert(0 <= i < self.entries@.len() && self.entries@[i].field == k);
        self.lemma_lookup(i);
        assert(vstd::std_specs::vec::spec_vec_len(&self.entries@[i].value.participants)
            == self.entries@[i].value.participants@.len());
        assert(self.entries@[i].value@.participants.len() == self.entries@[
            i
        ].value.participants@.len());
    }

    /// An empty store under the given store-level key.
    pub fn new(key: String) -> (s: RHashMap)
        ensures
            s.wf(),
            s@ =~= Map::<u128, GiveawayView>::empty(),
            s.ttls() =~= Map::<u128, Option<u64>>::empty(),
            s.spec_key() == key@,
    {
        RHashMap { key, entries: Vec::new() }
    }

    fn find(&self, field: u128) -> (r: Option<usize>)
        ensures
            r matches Some(i) ==> i < self.entries@.len() && self.entries@[i as int].field
                == field,
            r is None ==> !self.has_field(field),
    {
        let n = self.entries.len();
        let mut i: usize = 0;
        while i < n
            invariant
                0 <= i <= n,
                n == self.entries@.len(),
                forall|k: int| 0 <= k < i ==> self.entries@[k].field != field,
            decreases n - i,
        {
            if self.entries[i].field == field {
                return Some(i);
            }
            i += 1;
        }
        None
    }

    /// Sets the value of `field`, together with its expiration when one
    /// is given: the value and the expiration are recorded in one step,
    /// never one without the other.
    pub fn insert(&mut self, field: u128, value: Giveaway, ttl: Option<u64>) -> (r: AppResult<()>)
        requires
            old(self).wf(),
            value@.well_formed(),
        ensures
            final(self).wf(),
            r is Ok,
            final(self)@ =~= old(self)@.insert(field, value@),
            final(self).ttls() =~= old(self).ttls().insert(field, ttl),
            final(self).spec_key() == old(self).spec_key(),
    {
        let entry = Entry { field, value, ttl };
        match self.find(field) {
            Some(i) => {
                self.entries[i] = entry;
                proof {
                    assert forall|k: u128| #[trigger] self.has_field(k) implies old(
                        self,
                    ).has_field(k) || k == field by {
                        let w = choose|w: int|
                            0 <= w < self.entries@.len() && self.entries@[w].field == k;
                        if w != i {
                            assert(old(self).entries@[w].field == k);
                        }
                    }
                    assert forall|k: u128| old(self).has_field(k) implies self.has_field(k) by {
                        let w = choose|w: int|
                            0 <= w < old(self).entries@.len() && old(self).entries@[w].field == k;
                        if w == i {
                            assert(self.entries@[i as int].field == field);
                            assert(old(self).entries@[i as int].field == field);
                        } else {
                            assert(self.entries@[w].field == k);
                        }
                    }
                    assert(self.wf());
                    assert forall|k: u128| self.has_field(k) implies self@[k] == old(self)@.insert(
                        field,
                        value@,
                    )[k] && self.ttls()[k] == old(self).ttls().insert(field, ttl)[k] by {
                        let w = self.field_idx(k);
                        self.lemma_lookup(w);
                        if k == field {
                            assert(self.entries@[i as int].field == field);
                            self.lemma_lookup(i as int);
                        } else {
                            assert(w != i);
                            assert(old(self).entries@[w].field == k);
                            old(self).lemma_lookup(w);
                        }
                    }
                }
            },
            None => {
                self.entries.push(entry);
                proof {
                    let n = old(self).entries@.len() as int;
                    assert(self.entries@[n].field == field);
                    assert forall|k: u128| #[trigger] self.has_field(k) implies old(
                        self,
                    ).has_field(k) || k == field by {
                        let w = choose|w: int|
                            0 <= w < self.entries@.len() && self.entries@[w].field == k;
                        if w < n {
                            assert(old(self).entries@[w].field == k);
                        }
                    }
                    assert forall|k: u128| old(self).has_field(k) implies self.has_field(k) by {
                        let w = choose|w: int|
                            0 <= w < old(self).entries@.len() && old(self).entries@[w].field == k;
                        assert(self.entries@[w].field == k);
                    }
                    assert(self.wf());
                    assert forall|k: u128| self.has_field(k) implies self@[k] == old(self)@.insert(
                        field,
                        value@,
                    )[k] && self.ttls()[k] == old(self).ttls().insert(field, ttl)[k] by {
                        let w = self.field_idx(k);
                        self.lemma_lookup(w);
                        if k == field {
                            self.lemma_lookup(n);
                        } else {
                            assert(w != n);
                            assert(old(self).entries@[w].field == k);
                            old(self).lemma_lookup(w);
                        }
                    }
                }
            },
        }
        Ok(())
    }

    /// Returns a copy of the value at `field`, or nothing when the
    /// field is absent.
    pub fn get(&self, field: u128) -> (r: AppResult<Option<Giveaway>>)
        requires
            self.wf(),
        ensures
            r is Ok,
            r matches Ok(Some(g)) ==> self@.contains_key(field) && g@ == self@[field],
            r matches Ok(None) ==> !self@.contains_key(field),
    {
        match self.find(field) {
            Some(i) => {
                proof {
                    self.lemma_lookup(i as int);
                }
                Ok(Some(self.entries[i].value.duplicate()))
            },
            None => Ok(None),
        }
    }

    /// Returns every (field, value) pair currently under the store
    /// key, each present field exactly once, in unspecified order; an
    /// empty store yields an empty sequence, not an error.
    pub fn get_all(&self) -> (r: AppResult<Vec<(u128, Giveaway)>>)
        requires
            self.wf(),
        ensures
            r is Ok,
            r matches Ok(v) ==> forall|j: int|
                0 <= j < v@.len() ==> self@.contains_key(#[trigger] v@[j].0) && v@[j].1@
                    == self@[v@[j].0],
            r matches Ok(v) ==> covers(v@, self@),
            r matches Ok(v) ==> forall|i: int, j: int|
                0 <= i < j < v@.len() ==> v@[i].0 != v@[j].0,
    {
        let n = self.entries.len();
        let mut v: Vec<(u128, Giveaway)> = Vec::new();
        let mut i: usize = 0;
        while i < n
            invariant
                0 <= i <= n,
                n == self.entries@.len(),
                v@.len() == i,
                forall|j: int| 0 <= j < i ==> (#[trigger] v@[j]).0 == self.entries@[j].field
                    && v@[j].1@ == self.entries@[j].value@,
            decreases n - i,
        {
            let value = self.entries[i].value.duplicate();
            v.push((self.entries[i].field, value));
            i += 1;
        }
        proof {
            assert forall|j: int| 0 <= j < v@.len() implies self@.contains_key(
                #[trigger] v@[j].0,
            ) && v@[j].1@ == self@[v@[j].0] by {
                self.lemma_lookup(j);
            }
            assert forall|k: u128| self@.contains_key(k) implies exists|j: int|
                0 <= j < v@.len() && (#[trigger] v@[j]).0 == k by {
                let w = self.field_idx(k);
                assert(0 <= w < self.entries@.len() && self.entries@[w].field == k);
                assert(0 <= w < v@.len() && (v@[w]).0 == k);
            }
            assert(covers(v@, self@));
        }
        Ok(v)
    }

    /// Deletes `field`; removing an absent field is a no-op, not an
    /// error.
    pub fn remove(&mut self, field: u128) -> (r: AppResult<()>)
        requires
            old(self).wf(),
        ensures
            final(self).wf(),
            r is Ok,
            final(self)@ =~= old(self)@.remove(field),
            final(self).ttls() =~= old(self).ttls().remove(field),
            final(self).spec_key() == old(self).spec_key(),
    {
        match self.find(field) {
            Some(i) => {
                self.entries.remove(i);
                proof {
                    let n = self.entries@.len() as int;
                    assert forall|k: u128| #[trigger] self.has_field(k) implies old(
                        self,
                    ).has_field(k) && k != field by {
                        let w = choose|w: int|
                            0 <= w < self.entries@.len() && self.entries@[w].field == k;
                        if w < i {
                            assert(old(self).entries@[w].field == k);
                        } else {
                            assert(old(self).entries@[w + 1].field == k);
                        }
                    }
                    assert forall|k: u128| old(self).has_field(k) && k != field implies
                        self.has_field(k) by {
                        let w = choose|w: int|
                            0 <= w < old(self).entries@.len() && old(self).entries@[w].field == k;
                        assert(old(self).entries@[i as int].field == field);
                        if w < i {
                            assert(self.entries@[w].field == k);
                        } else {
                            assert(w > i);
                            assert(self.entries@[w - 1].field == k);
                        }
                    }
                    assert(self.wf());
                    assert forall|k: u128| self.has_field(k) implies self@[k] == old(self)@[k]
                        && self.ttls()[k] == old(self).ttls()[k] by {
                        let w = self.field_idx(k);
                        self.lemma_lookup(w);
                        if w < i {
                            assert(old(self).entries@[w].field == k);
                            old(self).lemma_lookup(w);
                        } else {
                            assert(old(self).entries@[w + 1].field == k);
                            old(self).lemma_lookup(w + 1);
                        }
                    }
                }
            },
            None => {
                proof {
                    assert(!old(self)@.contains_key(field));
                }
            },
        }
        Ok(())
    }
}

} // verus!
