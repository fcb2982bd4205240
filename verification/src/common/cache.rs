//! A cache of values under text keys, as the serving layer keeps for the list
//! of stored proxies.

use vstd::hash_map::StringHashMap;
use vstd::pervasive::cloned;
use vstd::prelude::*;
use vstd::string::StringExecFns;

verus! {

/// A map from text keys to values. The view of a cache is the map it holds.
#[verifier::reject_recursive_types(V)]
pub struct GlobalCache<V> {
    store: StringHashMap<V>,
}

impl<V> View for GlobalCache<V> {
    type V = Map<Seq<char>, V>;

    closed spec fn view(&self) -> Map<Seq<char>, V> {
        self.store@
    }
}

impl<V: Clone> GlobalCache<V> {
    /// An empty cache.
    pub fn new() -> (cache: Self)
        ensures
            cache@ == Map::<Seq<char>, V>::empty(),
    {
        GlobalCache { store: StringHashMap::new() }
    }

    /// A copy of the value stored under `key`, if there is one.
    pub fn get(&self, key: &str) -> (value: Option<V>)
        ensures
            match value {
                Some(v) => self@.contains_key(key@) && cloned(self@[key@], v),
                None => !self@.contains_key(key@),
            },
    {
        match self.store.get(key) {
            Some(v) => Some(v.clone()),
            None => None,
        }
    }

    /// Stores `value` under `key`, in place of what was stored there before.
    pub fn set(&mut self, key: &str, value: V)
        ensures
            final(self)@ == old(self)@.insert(key@, value),
    {
        self.store.insert(String::from_str(key), value);
    }

    /// Takes away what is stored under `key` and returns a copy of it, if
    /// there was anything.
    pub fn remove(&mut self, key: &str) -> (value: Option<V>)
        ensures
            final(self)@ == old(self)@.remove(key@),
            match value {
                Some(v) => old(self)@.contains_key(key@) && cloned(old(self)@[key@], v),
                None => !old(self)@.contains_key(key@),
            },
    {
        let value = self.get(key);
        self.store.remove(key);
        value
    }

    /// Empties the cache.
    pub fn clear(&mut self)
        ensures
            final(self)@ == Map::<Seq<char>, V>::empty(),
    {
        self.store.clear();
    }
}

} // verus!
