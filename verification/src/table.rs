//! Finite maps keyed by integers (or by a pair of an account and an integer),
//! seen through the views of their values.
use std::collections::HashMap;
use std::hash::Hash;
use vstd::prelude::*;
use vstd::std_specs::hash::obeys_key_model;

verus! {

broadcast use vstd::std_specs::hash::group_hash_axioms;

/// A map from keys to values whose view maps each key to the view of its value.
#[verifier::reject_recursive_types(K)]
pub struct Table<K, V> {
    pub entries: HashMap<K, V>,
}

impl<K, V: View> View for Table<K, V> {
    type V = Map<K, V::V>;

    open spec fn view(&self) -> Map<K, V::V> {
        Map::new(|k: K| self.entries@.contains_key(k), |k: K| self.entries@[k]@)
    }
}

impl<K: Hash + Eq + Copy, V: View> Table<K, V> {
    /// The empty table.
    pub fn new() -> (t: Self)
        ensures
            t@ == Map::<K, V::V>::empty(),
    {
        let t = Table { entries: HashMap::new() };
        assert(t@ =~= Map::<K, V::V>::empty());
        t
    }

    /// The value stored under `k`, if any.
    pub fn get(&self, k: &K) -> (r: Option<&V>)
        requires
            obeys_key_model::<K>(),
        ensures
            match r {
                Some(v) => self@.contains_key(*k) && v@ == self@[*k],
                None => !self@.contains_key(*k),
            },
    {
        self.entries.get(k)
    }

    /// Stores `v` under `k`, replacing what was there.
    pub fn insert(&mut self, k: K, v: V)
        requires
            obeys_key_model::<K>(),
        ensures
            final(self)@ == old(self)@.insert(k, v@),
    {
        let ghost vv = v@;
        self.entries.insert(k, v);
        assert(self@ =~= old(self)@.insert(k, vv));
    }

    /// Takes the value stored under `k` out of the table.
    pub fn remove(&mut self, k: &K) -> (r: Option<V>)
        requires
            obeys_key_model::<K>(),
        ensures
            final(self)@ == old(self)@.remove(*k),
            match r {
                Some(v) => old(self)@.contains_key(*k) && v@ == old(self)@[*k],
                None => !old(self)@.contains_key(*k),
            },
    {
        let r = self.entries.remove(k);
        assert(self@ =~= old(self)@.remove(*k));
        r
    }
}

impl<K: Clone, V: Clone> Clone for Table<K, V> {
    fn clone(&self) -> (r: Self)
        ensures
            r.entries@ == self.entries@,
    {
        Table { entries: self.entries.clone() }
    }
}

/// A map whose keys are pairs of an account and an integer, held as one table
/// per account.
pub struct PairTable<V> {
    pub rows: Table<u64, Table<i128, V>>,
}

impl<V: View> View for PairTable<V> {
    type V = Map<(u64, i128), V::V>;

    open spec fn view(&self) -> Map<(u64, i128), V::V> {
        Map::new(
            |p: (u64, i128)| self.rows@.contains_key(p.0) && self.rows@[p.0].contains_key(p.1),
            |p: (u64, i128)| self.rows@[p.0][p.1],
        )
    }
}

impl<V: Clone> Clone for PairTable<V> {
    fn clone(&self) -> (r: Self)
        ensures
            r.rows.entries@ == self.rows.entries@,
    {
        PairTable { rows: self.rows.clone() }
    }
}

impl<V: View> PairTable<V> {
    /// The empty table.
    pub fn new() -> (t: Self)
        ensures
            t@ == Map::<(u64, i128), V::V>::empty(),
    {
        let t = PairTable { rows: Table::new() };
        assert(t@ =~= Map::<(u64, i128), V::V>::empty());
        t
    }

    /// The value stored under `(a, b)`, if any.
    pub fn get(&self, a: u64, b: i128) -> (r: Option<&V>)
        ensures
            match r {
                Some(v) => self@.contains_key((a, b)) && v@ == self@[(a, b)],
                None => !self@.contains_key((a, b)),
            },
    {
        match self.rows.get(&a) {
            Some(row) => row.get(&b),
            None => None,
        }
    }

    /// Stores `v` under `(a, b)`, replacing what was there.
    pub fn insert(&mut self, a: u64, b: i128, v: V)
        ensures
            final(self)@ == old(self)@.insert((a, b), v@),
    {
        let ghost vv = v@;
        let mut row = match self.rows.remove(&a) {
            Some(row) => row,
            None => Table::new(),
        };
        row.insert(b, v);
        self.rows.insert(a, row);
        assert(self@ =~= old(self)@.insert((a, b), vv));
    }
}

} // verus!
