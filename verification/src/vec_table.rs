//! The vector-keyed storage backend.

use vstd::prelude::*;

use crate::ascending::{lemma_ascending_no_duplicates, lemma_picks_next, picks};
use crate::error::Error;
use crate::key::{Key, MAX_KEY};
use crate::overlay::Overlay;
use crate::table::Table;
use crate::transaction::{Begin, TableTransaction, Transaction};

verus! {

/// The map that a row of slots stands for: key `k` holds what slot `k`
/// holds, and an empty slot or one past the end holds nothing.
pub open spec fn slots_map<E>(slots: Seq<Option<E>>) -> Map<Key, E> {
    Map::new(
        |k: Key| k < slots.len() && slots[k as int].is_some(),
        |k: Key| slots[k as int].unwrap(),
    )
}

/// A committed table that keeps the entity of key `k` in slot `k` of an
/// array. The array grows to the highest key stored; a removed entity
/// leaves its slot empty and no other entity moves.
pub struct VecTable<E> {
    slots: Vec<Option<E>>,
}

impl<E> View for VecTable<E> {
    type V = Map<Key, E>;

    closed spec fn view(&self) -> Map<Key, E> {
        slots_map(self.slots@)
    }
}

impl<E> VecTable<E> {
    /// An empty table.
    pub fn new() -> (t: Self)
        ensures
            t.valid(),
            t@ == Map::<Key, E>::empty(),
            t.bound() == 0,
    {
        let t = VecTable { slots: Vec::new() };
        assert(t@ =~= Map::<Key, E>::empty());
        t
    }
}

impl<E> Table<E> for VecTable<E> {
    open spec fn contents(&self) -> Map<Key, E> {
        self@
    }

    /// The length of the array.
    closed spec fn bound(&self) -> int {
        self.slots@.len() as int
    }

    open spec fn valid(&self) -> bool {
        true
    }

    open spec fn ordered(&self) -> bool {
        true
    }

    proof fn lemma_bound(&self) {
        assert(self.slots@.len() == self.slots.len());
    }

    fn get(&self, k: Key) -> (r: Option<&E>) {
        if k < self.slots.len() {
            self.slots[k].as_ref()
        } else {
            None
        }
    }

    fn next_key(&self) -> (r: usize) {
        self.slots.len()
    }

    /// The keys come in ascending order, empty slots skipped.
    fn keys(&self) -> (r: Vec<Key>) {
        let mut out: Vec<Key> = Vec::new();
        let mut i: usize = 0;
        let ghost keep = |k: usize| self@.contains_key(k);
        while i < self.slots.len()
            invariant
                i <= self.slots@.len(),
                forall|k: usize| #[trigger] keep(k) == self@.contains_key(k),
                picks(out@, i as int, keep),
            decreases self.slots@.len() - i,
        {
            proof {
                lemma_picks_next(out@, i, keep);
            }
            if self.slots[i].is_some() {
                out.push(i);
            }
            i = i + 1;
        }
        proof {
            lemma_ascending_no_duplicates(out@);
        }
        proof {
            assert(out@.to_set() =~= self@.dom());
        }
        out
    }

    /// The array grows as far as slot `k`.
    fn insert(&mut self, k: Key, v: E) -> (r: Result<Option<E>, Error>) {
        if k > MAX_KEY {
            return Err(Error::KeyOutOfRange);
        }
        while self.slots.len() <= k
            invariant
                k <= MAX_KEY,
                old(self).slots@.len() <= self.slots@.len(),
                self.slots@.len() <= old(self).slots@.len() || self.slots@.len() <= k + 1,
                slots_map(self.slots@) == slots_map(old(self).slots@),
            decreases k + 1 - self.slots@.len(),
        {
            let ghost before = self.slots@;
            self.slots.push(None);
            assert(slots_map(self.slots@) =~= slots_map(before));
        }
        let ghost grown = self.slots@;
        let mut slot = Some(v);
        std::mem::swap(&mut self.slots[k], &mut slot);
        assert(self.slots@ =~= grown.update(k as int, Some(v)));
        assert(slots_map(self.slots@) =~= slots_map(grown).insert(k, v));
        Ok(slot)
    }

    /// The slot stays, empty; no other entity changes its key.
    fn remove(&mut self, k: Key) -> (r: Option<E>) {
        if k >= self.slots.len() {
            assert(self@.remove(k) =~= self@);
            return None;
        }
        let ghost before = self.slots@;
        let mut slot = None;
        std::mem::swap(&mut self.slots[k], &mut slot);
        assert(self.slots@ =~= before.update(k as int, None));
        assert(slots_map(self.slots@) =~= slots_map(before).remove(k));
        slot
    }
}

impl<'a, E: 'a> Begin<'a> for VecTable<E> {
    type Transaction = TableTransaction<'a, E, VecTable<E>>;

    open spec fn ready(&self) -> bool {
        self.valid()
    }

    open spec fn begun(&self, trx: TableTransaction<'a, E, VecTable<E>>) -> bool {
        trx.valid() && trx.overlay() == Overlay::begin(self.contents(), self.bound())
    }

    fn transaction(&'a self) -> (trx: TableTransaction<'a, E, VecTable<E>>) {
        TableTransaction::new(self)
    }
}

} // verus!
