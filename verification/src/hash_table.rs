//! The hash-keyed storage backend.

use fxhash::FxHashMap;
use vstd::prelude::*;

use crate::error::Error;
use crate::fx::{fx_get, fx_insert, fx_keys, fx_remove};
use crate::key::{Key, MAX_KEY};
use crate::overlay::Overlay;
use crate::table::Table;
use crate::transaction::{Begin, TableTransaction, Transaction};

verus! {

/// A committed table that finds its entities by hashing their keys. The
/// table stands for the map from its keys to its entities; the bound from
/// which keys are generated is stated apart, by `bound`.
pub struct HashTable<E> {
    rows: FxHashMap<Key, E>,
    next_key: usize,
}

impl<E> View for HashTable<E> {
    type V = Map<Key, E>;

    closed spec fn view(&self) -> Map<Key, E> {
        self.rows@
    }
}

impl<E> HashTable<E> {
    /// An empty table.
    pub fn new() -> (t: Self)
        ensures
            t.valid(),
            t@ == Map::<Key, E>::empty(),
            t.bound() == 0,
    {
        HashTable { rows: FxHashMap::default(), next_key: 0 }
    }
}

impl<E> Table<E> for HashTable<E> {
    open spec fn contents(&self) -> Map<Key, E> {
        self@
    }

    closed spec fn bound(&self) -> int {
        self.next_key as int
    }

    closed spec fn valid(&self) -> bool {
        forall|k: Key| #[trigger] self.rows@.contains_key(k) ==> k < self.next_key
    }

    open spec fn ordered(&self) -> bool {
        false
    }

    proof fn lemma_bound(&self) {
    }

    fn get(&self, k: Key) -> (r: Option<&E>) {
        fx_get(&self.rows, k)
    }

    fn next_key(&self) -> (r: usize) {
        self.next_key
    }

    fn keys(&self) -> (r: Vec<Key>) {
        fx_keys(&self.rows)
    }

    fn insert(&mut self, k: Key, v: E) -> (r: Result<Option<E>, Error>) {
        if k > MAX_KEY {
            return Err(Error::KeyOutOfRange);
        }
        let was = fx_insert(&mut self.rows, k, v);
        if k >= self.next_key {
            self.next_key = k + 1;
        }
        assert forall|x: Key| #[trigger] self.rows@.contains_key(x) implies x < self.next_key by {
            if x != k {
                assert(old(self).rows@.contains_key(x));
            }
        }
        Ok(was)
    }

    fn remove(&mut self, k: Key) -> (r: Option<E>) {
        let was = fx_remove(&mut self.rows, k);
        assert forall|x: Key| #[trigger] self.rows@.contains_key(x) implies x < self.next_key by {
            assert(old(self).rows@.contains_key(x));
        }
        was
    }
}

impl<'a, E: 'a> Begin<'a> for HashTable<E> {
    type Transaction = TableTransaction<'a, E, HashTable<E>>;

    open spec fn ready(&self) -> bool {
        self.valid()
    }

    open spec fn begun(&self, trx: TableTransaction<'a, E, HashTable<E>>) -> bool {
        trx.valid() && trx.overlay() == Overlay::begin(self.contents(), self.bound())
    }

    fn transaction(&'a self) -> (trx: TableTransaction<'a, E, HashTable<E>>) {
        TableTransaction::new(self)
    }
}

} // verus!
