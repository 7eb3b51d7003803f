//! An insertion into a `HashMap` that never replaces.
use vstd::prelude::*;
use std::collections::hash_map::Entry;
use std::collections::HashMap;
use std::hash::{BuildHasher, Hash};
use vstd::std_specs::hash::{builds_valid_hashers, obeys_key_model};

verus! {

pub trait HashMapExt<K, V> {
    /// Inserts the pair when `key` is absent and returns the inserted value
    /// for changing it in place; leaves the map as it is and returns `None`
    /// when `key` is present.
    fn insert_if_not_exists(&mut self, key: K, value: V) -> Option<&mut V>;
}

impl<K: Eq + Hash, V, S: BuildHasher> HashMapExt<K, V> for HashMap<K, V, S> {
    fn insert_if_not_exists(&mut self, key: K, value: V) -> (r: Option<&mut V>)
        ensures
            obeys_key_model::<K>() && builds_valid_hashers::<S>() ==> match r {
                Some(v) => {
                    &&& !old(self)@.contains_key(key)
                    &&& *v == value
                    &&& final(self)@ == old(self)@.insert(key, *final(v))
                },
                None => old(self)@.contains_key(key) && final(self)@ == old(self)@,
            },
    {
        match self.entry(key) {
            Entry::Vacant(entry) => Some(entry.insert(value)),
            Entry::Occupied(_) => None,
        }
    }
}

} // verus!
