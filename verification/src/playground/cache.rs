//! Key-value caches over std's hash map.
//!
//! What the hash map does is known only for keys whose hashing and equality behave as
//! values (`obeys_key_model`); every clause below is stated for such keys.
use vstd::prelude::*;
use std::collections::HashMap;
use std::hash::Hash;
use vstd::std_specs::hash::obeys_key_model;

verus! {

broadcast use vstd::std_specs::hash::group_hash_axioms;

/// A cache of values by key.
pub struct Cache<K, V> {
    data: HashMap<K, V>,
}

impl<K, V> View for Cache<K, V> {
    type V = Map<K, V>;

    /// The value stored under each key.
    closed spec fn view(&self) -> Map<K, V> {
        self.data@
    }
}

impl<K: Hash + Eq, V> Cache<K, V> {
    /// An empty cache.
    pub fn new() -> (r: Self)
        ensures
            r@ == Map::<K, V>::empty(),
    {
        Cache { data: HashMap::new() }
    }

    /// Stores `value` under `key`, replacing what the key held.
    pub fn insert(&mut self, key: K, value: V)
        ensures
            obeys_key_model::<K>() ==> final(self)@ == old(self)@.insert(key, value),
    {
        self.data.insert(key, value);
    }

    /// The value stored under `key`, if any.
    pub fn get(&self, key: &K) -> (r: Option<&V>)
        ensures
            obeys_key_model::<K>() ==> match r {
                Some(v) => self@.contains_key(*key) && *v == self@[*key],
                None => !self@.contains_key(*key),
            },
    {
        self.data.get(key)
    }

    /// Removes `key` and gives back the value it held, if any.
    pub fn remove(&mut self, key: &K) -> (r: Option<V>)
        ensures
            obeys_key_model::<K>() ==> {
                &&& final(self)@ == old(self)@.remove(*key)
                &&& match r {
                    Some(v) => old(self)@.contains_key(*key) && v == old(self)@[*key],
                    None => !old(self)@.contains_key(*key),
                }
            },
    {
        self.data.remove(key)
    }

    /// The number of keys.
    pub fn len(&self) -> (n: usize)
        ensures
            obeys_key_model::<K>() ==> n == self@.len(),
    {
        self.data.len()
    }

    /// Whether no key is stored.
    pub fn is_empty(&self) -> (b: bool)
        ensures
            b == self@.is_empty(),
    {
        self.data.is_empty()
    }

    /// Removes every key.
    pub fn clear(&mut self)
        ensures
            final(self)@ == Map::<K, V>::empty(),
    {
        self.data.clear();
    }
}

/// A second cache of values by key, with fewer operations.
pub struct MyCache<K, V> {
    data: HashMap<K, V>,
}

impl<K, V> View for MyCache<K, V> {
    type V = Map<K, V>;

    /// The value stored under each key.
    closed spec fn view(&self) -> Map<K, V> {
        self.data@
    }
}

impl<K: Eq + Hash, V> MyCache<K, V> {
    /// An empty cache.
    pub fn new() -> (r: Self)
        ensures
            r@ == Map::<K, V>::empty(),
    {
        MyCache { data: HashMap::new() }
    }

    /// Stores `value` under `key`, replacing what the key held.
    pub fn insert(&mut self, key: K, value: V)
        ensures
            obeys_key_model::<K>() ==> final(self)@ == old(self)@.insert(key, value),
    {
        self.data.insert(key, value);
    }

    /// The value stored under `key`, if any.
    pub fn get(&self, key: &K) -> (r: Option<&V>)
        ensures
            obeys_key_model::<K>() ==> match r {
                Some(v) => self@.contains_key(*key) && *v == self@[*key],
                None => !self@.contains_key(*key),
            },
    {
        self.data.get(key)
    }

    /// Removes `key` and gives back the value it held, if any.
    pub fn remove(&mut self, key: &K) -> (r: Option<V>)
        ensures
            obeys_key_model::<K>() ==> {
                &&& final(self)@ == old(self)@.remove(*key)
                &&& match r {
                    Some(v) => old(self)@.contains_key(*key) && v == old(self)@[*key],
                    None => !old(self)@.contains_key(*key),
                }
            },
    {
        self.data.remove(key)
    }
}

/// A read right after a write of `key` finds the written value, leaves every other key as
/// it was, and the number of keys grows by one only when `key` was new: an existing value is
/// overwritten, never duplicated.
pub proof fn law_get_after_insert<K, V>(m: Map<K, V>, key: K, value: V, other: K)
    requires
        other != key,
        m.dom().finite(),
    ensures
        m.insert(key, value).contains_key(key),
        m.insert(key, value)[key] == value,
        m.insert(key, value).contains_key(other) == m.contains_key(other),
        m.contains_key(other) ==> m.insert(key, value)[other] == m[other],
        m.insert(key, value).len() == m.len() + (if m.contains_key(key) { 0int } else { 1int }),
{
    if m.contains_key(key) {
        assert(m.insert(key, value).dom() =~= m.dom());
    } else {
        assert(m.insert(key, value).dom() =~= m.dom().insert(key));
    }
}

/// After a removal the key is gone, and writing it again brings it back with the new value.
pub proof fn law_remove_then_insert<K, V>(m: Map<K, V>, key: K, value: V)
    ensures
        !m.remove(key).contains_key(key),
        m.remove(key).insert(key, value) == m.insert(key, value),
{
    assert(m.remove(key).insert(key, value) =~= m.insert(key, value));
}

} // verus!
