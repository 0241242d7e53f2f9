//! A map from widget ids to values.

use crate::id::Id;
use std::collections::HashMap;
use vstd::prelude::*;
use vstd::set_lib::lemma_map_size;
use vstd::std_specs::iter::IteratorSpec;

verus! {

broadcast use vstd::std_specs::hash::group_hash_axioms;

/// Are `values` the values that `map` has under `ids`, in the order of
/// `ids`, and is every id of `map` once in `ids`?
pub open spec fn lists_in_order<V>(values: Seq<V>, map: Map<Id, V>, ids: Seq<Id>) -> bool {
    &&& ids.no_duplicates()
    &&& ids.to_set() == map.dom()
    &&& values.len() == ids.len()
    &&& forall|i: int| 0 <= i < ids.len() ==> values[i] == map[#[trigger] ids[i]]
}

/// Are `values` the values of `map`, one for each id, in some order?
pub open spec fn lists_values<V>(values: Seq<V>, map: Map<Id, V>) -> bool {
    exists|ids: Seq<Id>| lists_in_order(values, map, ids)
}

/// A finite map keyed by widget id.
///
/// Its view is the mathematical map from each id that it holds to the value
/// stored under that id.
#[derive(Debug)]
pub struct IdMap<V> {
    map: HashMap<u64, V>,
}

impl<V> View for IdMap<V> {
    type V = Map<Id, V>;

    closed spec fn view(&self) -> Map<Id, V> {
        Map::new(|id: Id| self.map@.contains_key(id.0), |id: Id| self.map@[id.0])
    }
}

impl<V: Clone> Clone for IdMap<V> {
    /// A map with the same ids and the same values.
    fn clone(&self) -> (copy: Self)
        ensures
            copy@ == self@,
    {
        IdMap { map: self.map.clone() }
    }
}

impl<V> Default for IdMap<V> {
    /// The empty map.
    fn default() -> (map: Self)
        ensures
            map@ == Map::<Id, V>::empty(),
    {
        IdMap::new()
    }
}

impl<V> IdMap<V> {
    /// A map holds finitely many ids, as many as the table behind it has keys.
    proof fn lemma_same_size(&self)
        ensures
            self@.dom().finite(),
            self@.dom().len() == self.map@.dom().len(),
    {
        let wrap = |value: u64| Id(value);
        assert(self.map@.dom().map(wrap) =~= self@.dom()) by {
            assert forall|id: Id| self@.dom().contains(id) implies self.map@.dom().map(
                wrap,
            ).contains(id) by {
                assert(self.map@.dom().contains(id.0));
                assert(wrap(id.0) == id);
            }
        }
        lemma_map_size(self.map@.dom(), self@.dom(), wrap);
    }

    /// The empty map.
    pub fn new() -> (map: Self)
        ensures
            map@ == Map::<Id, V>::empty(),
    {
        let map = IdMap { map: HashMap::new() };
        assert(map@ =~= Map::<Id, V>::empty());
        map
    }

    /// How many ids the map holds.
    pub fn len(&self) -> (len: usize)
        ensures
            self@.dom().finite(),
            len == self@.len(),
    {
        proof {
            self.lemma_same_size();
        }
        self.map.len()
    }

    /// Does the map hold no id at all?
    pub fn is_empty(&self) -> (empty: bool)
        ensures
            empty == (self@.len() == 0),
            empty == (self@ == Map::<Id, V>::empty()),
    {
        proof {
            self.lemma_same_size();
            if self@.len() == 0 {
                assert(self@.dom() =~= Set::<Id>::empty());
                assert(self@ =~= Map::<Id, V>::empty());
            }
        }
        self.map.len() == 0
    }

    /// Does the map hold `id`?
    pub fn contains_key(&self, id: Id) -> (held: bool)
        ensures
            held == self@.contains_key(id),
    {
        self.map.contains_key(&id.0)
    }

    /// The value stored under `id`, if the map holds `id`.
    pub fn get(&self, id: Id) -> (value: Option<&V>)
        ensures
            value == (if self@.contains_key(id) {
                Some(&self@[id])
            } else {
                None
            }),
    {
        self.map.get(&id.0)
    }

    /// The values of the map, one for each id. They come in no particular
    /// order.
    pub fn values(&self) -> (values: Vec<&V>)
        ensures
            lists_values(values@.unref(), self@),
    {
        let ghost all = self.map.iter().remaining();
        let mut values: Vec<&V> = Vec::new();
        for entry in walk: self.map.iter()
            invariant
                walk.seq() == all,
                values@.len() == walk.index(),
                forall|i: int| 0 <= i < values@.len() ==> values@[i] == all[i].1,
        {
            values.push(entry.1);
        }
        proof {
            let ids = Seq::new(all.len(), |i: int| Id(*all[i].0));
            assert forall|i: int, j: int| 0 <= i < j < ids.len() implies ids[i] != ids[j] by {
                if ids[i] == ids[j] {
                    assert(self.map@.contains_key(*all[i].0) && self.map@[*all[i].0] == *all[i].1);
                    assert(self.map@.contains_key(*all[j].0) && self.map@[*all[j].0] == *all[j].1);
                    assert(all[i] == all[j]);
                }
            }
            assert forall|id: Id| self@.dom().contains(id) implies ids.to_set().contains(id) by {
                let key = id.0;
                assert(self.map@.contains_key(key));
                assert(all.contains((&key, &self.map@[key])));
                let i = choose|i: int| 0 <= i < all.len() && all[i] == (&key, &self.map@[key]);
                assert(ids[i] == id);
            }
            assert forall|id: Id| ids.to_set().contains(id) implies self@.dom().contains(id) by {
                let i = choose|i: int| 0 <= i < ids.len() && ids[i] == id;
                assert(self.map@.contains_key(*all[i].0));
            }
            assert(ids.to_set() =~= self@.dom());
            assert forall|i: int| 0 <= i < ids.len() implies
                values@.unref()[i] == self@[#[trigger] ids[i]] by {
                assert(self.map@.contains_key(*all[i].0) && self.map@[*all[i].0] == *all[i].1);
            }
            assert(lists_in_order(values@.unref(), self@, ids));
        }
        values
    }

    /// Stores `value` under `id` and returns what was stored there before.
    pub fn insert(&mut self, id: Id, value: V) -> (before: Option<V>)
        ensures
            final(self)@ == old(self)@.insert(id, value),
            before == (if old(self)@.contains_key(id) {
                Some(old(self)@[id])
            } else {
                None
            }),
    {
        let before = self.map.insert(id.0, value);
        assert(self@ =~= old(self)@.insert(id, value));
        before
    }
}

} // verus!
