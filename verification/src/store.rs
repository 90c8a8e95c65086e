//! A keyed store over `HashMap`, viewed as a mathematical map.

use std::collections::HashMap;
use vstd::prelude::*;

verus! {

broadcast use vstd::std_specs::hash::group_hash_axioms;

/// A map from `u128` keys to values.
pub struct Table<V> {
    pub entries: HashMap<u128, V>,
}

impl<V> View for Table<V> {
    type V = Map<u128, V>;

    open spec fn view(&self) -> Map<u128, V> {
        self.entries@
    }
}

impl<V> Table<V> {
    /// The empty table.
    pub fn new() -> (t: Table<V>)
        ensures
            t@ == Map::<u128, V>::empty(),
    {
        Table { entries: HashMap::new() }
    }

    /// Whether `key` has a value.
    pub fn contains_key(&self, key: u128) -> (b: bool)
        ensures
            b == self@.contains_key(key),
    {
        self.entries.contains_key(&key)
    }

    /// The value of `key`, if it has one.
    pub fn get(&self, key: u128) -> (r: Option<&V>)
        ensures
            match r {
                Some(v) => self@.contains_key(key) && *v == self@[key],
                None => !self@.contains_key(key),
            },
    {
        self.entries.get(&key)
    }

    /// Sets the value of `key`.
    pub fn insert(&mut self, key: u128, value: V)
        ensures
            final(self)@ == old(self)@.insert(key, value),
    {
        let _ = self.entries.insert(key, value);
    }

    /// Removes `key` and returns the value it had, if any.
    pub fn remove(&mut self, key: u128) -> (r: Option<V>)
        ensures
            final(self)@ == old(self)@.remove(key),
            r == if old(self)@.contains_key(key) {
                Some(old(self)@[key])
            } else {
                None
            },
    {
        self.entries.remove(&key)
    }

    /// How many keys have a value.
    pub fn len(&self) -> (n: usize)
        ensures
            n == self@.len(),
    {
        self.entries.len()
    }
}

/// A copy of a vector of plain values.
pub fn copy_vec<T: Copy>(v: &Vec<T>) -> (r: Vec<T>)
    ensures
        r@ == v@,
{
    let mut r: Vec<T> = Vec::new();
    let mut i: usize = 0;
    while i < v.len()
        invariant
            i <= v.len(),
            r@ == v@.take(i as int),
        decreases v.len() - i,
    {
        r.push(v[i]);
        proof {
            assert(v@.take(i as int).push(v@[i as int]) =~= v@.take(i as int + 1));
        }
        i += 1;
    }
    proof {
        assert(v@.take(v.len() as int) =~= v@);
    }
    r
}

} // verus!
