use crate::keyed::Keyed;
use vstd::prelude::*;

verus! {

/// After a resource was put under a key, that resource is what the key leads
/// to, and the other keys lead where they led. Of two resources put under
/// one key only the second is left.
pub proof fn lemma_latest_insertion_wins<R>(store: Map<u64, R>, key: u64, first: R, second: R)
    ensures
        store.insert(key, first).contains_key(key),
        store.insert(key, first)[key] == first,
        forall|other: u64|
            other != key ==> store.insert(key, first).contains_key(other) == store.contains_key(
                other,
            ),
        forall|other: u64|
            other != key && store.contains_key(other) ==> store.insert(key, first)[other]
                == store[other],
        store.insert(key, first).insert(key, second) == store.insert(key, second),
{
}

/// The store of shared singletons: at most one resource under each key. Its
/// view is the map from the keys in use to their resources.
pub struct BobaResources<R> {
    store: Keyed<R>,
}

impl<R> View for BobaResources<R> {
    type V = Map<u64, R>;

    closed spec fn view(&self) -> Map<u64, R> {
        self.store@
    }
}

impl<R> BobaResources<R> {
    /// What every store of resources keeps: what the store under it keeps.
    pub closed spec fn well_formed(&self) -> bool {
        self.store.well_formed()
    }

    /// A store without resources.
    pub fn new() -> (store: BobaResources<R>)
        ensures
            store.well_formed(),
            store@ == Map::<u64, R>::empty(),
    {
        BobaResources { store: Keyed::new() }
    }

    /// Puts `value` under `key`. A resource that stood there before is
    /// replaced, and handed back.
    pub fn insert(&mut self, key: u64, value: R) -> (former: Option<R>)
        requires
            old(self).well_formed(),
        ensures
            final(self).well_formed(),
            final(self)@ == old(self)@.insert(key, value),
            former == if old(self)@.contains_key(key) {
                Some(old(self)@[key])
            } else {
                None
            },
    {
        self.store.insert(key, value)
    }

    /// The resource under `key`, if one was ever put there.
    pub fn get(&self, key: u64) -> (found: Option<&R>)
        requires
            self.well_formed(),
        ensures
            found == if self@.contains_key(key) {
                Some(&self@[key])
            } else {
                None
            },
    {
        self.store.get(key)
    }

    /// The resource under `key`, to change in place, if one was ever put
    /// there.
    pub fn get_mut(&mut self, key: u64) -> (found: Option<&mut R>)
        requires
            old(self).well_formed(),
        ensures
            final(self).well_formed(),
            match found {
                Some(value) => old(self)@.contains_key(key) && *value == old(self)@[key]
                    && final(self)@ == old(self)@.insert(key, *final(value)),
                None => !old(self)@.contains_key(key) && final(self)@ == old(self)@,
            },
    {
        self.store.get_mut(key)
    }
}

} // verus!
