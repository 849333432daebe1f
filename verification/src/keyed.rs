use crate::collections::{key_index_get, key_index_insert, key_index_new, KeyIndex};
use vstd::prelude::*;

verus! {

/// A store of values by key: at most one value under each key. Its view is
/// the map from the keys in use to their values.
pub struct Keyed<V> {
    index: KeyIndex,
    values: Vec<V>,
}

impl<V> View for Keyed<V> {
    type V = Map<u64, V>;

    closed spec fn view(&self) -> Map<u64, V> {
        Map::new(
            |key: u64| crate::collections::key_positions(self.index).contains_key(key),
            |key: u64| self.values@[crate::collections::key_positions(self.index)[key] as int],
        )
    }
}

impl<V> Keyed<V> {
    /// What every store keeps: each key leads to a value of its own.
    pub closed spec fn well_formed(&self) -> bool {
        let positions = crate::collections::key_positions(self.index);
        &&& forall|key: u64| #[trigger]
            positions.contains_key(key) ==> positions[key] < self.values@.len()
        &&& forall|a: u64, b: u64|
            positions.contains_key(a) && positions.contains_key(b) && #[trigger] positions[a]
                == #[trigger] positions[b] ==> a == b
    }

    /// A store without values.
    pub fn new() -> (store: Keyed<V>)
        ensures
            store.well_formed(),
            store@ == Map::<u64, V>::empty(),
    {
        let store = Keyed { index: key_index_new(), values: Vec::new() };
        assert(store@ =~= Map::<u64, V>::empty());
        store
    }

    /// Puts `value` under `key`. A value that stood there before is replaced,
    /// and handed back.
    pub fn insert(&mut self, key: u64, value: V) -> (former: Option<V>)
        requires
            old(self).well_formed(),
        ensures
            final(self).well_formed(),
            final(self)@ == old(self)@.insert(key, value),
            former == if old(self)@.contains_key(key) {
                Some(old(self)@[key])
            } else {
                None
            },
    {
        match key_index_get(&self.index, key) {
            Some(at) => {
                let mut former = value;
                core::mem::swap(&mut self.values[at], &mut former);
                assert(self@ =~= old(self)@.insert(key, value));
                Some(former)
            },
            None => {
                let at: usize = self.values.len();
                self.values.push(value);
                let _ = key_index_insert(&mut self.index, key, at);
                assert(self@ =~= old(self)@.insert(key, value));
                None
            },
        }
    }

    /// The value under `key`, if one was ever put there.
    pub fn get(&self, key: u64) -> (found: Option<&V>)
        requires
            self.well_formed(),
        ensures
            found == if self@.contains_key(key) {
                Some(&self@[key])
            } else {
                None
            },
    {
        match key_index_get(&self.index, key) {
            Some(at) => Some(&self.values[at]),
            None => None,
        }
    }

    /// The value under `key`, to change in place, if one was ever put there.
    pub fn get_mut(&mut self, key: u64) -> (found: Option<&mut V>)
        requires
            old(self).well_formed(),
        ensures
            final(self).well_formed(),
            match found {
                Some(value) => old(self)@.contains_key(key) && *value == old(self)@[key]
                    && final(self)@ == old(self)@.insert(key, *final(value)),
                None => !old(self)@.contains_key(key) && final(self)@ == old(self)@,
            },
    {
        match key_index_get(&self.index, key) {
            Some(at) => Some(&mut self.values[at]),
            None => None,
        }
    }
}

} // verus!
