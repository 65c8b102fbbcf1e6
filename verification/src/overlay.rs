//! The mathematical model of a transaction on one table.
//!
//! An [`Overlay`] is what a transaction is, seen from outside: the table it
//! was begun on, the changes it has recorded so far, and the bound from
//! which it generates keys. The functions here say what each operation of
//! a transaction does to that model; the executable transaction is proved
//! against them.

use vstd::prelude::*;

use crate::error::Error;
use crate::key::{Key, MAX_KEY};
use crate::log::{apply_change, apply_changes, read_through};
use crate::state::State;

verus! {

/// A transaction on one table, as a value.
pub struct Overlay<E> {
    /// The committed table the transaction was begun on. The transaction
    /// never changes it.
    pub table: Map<Key, E>,
    /// The changes recorded so far: at most one per key.
    pub changes: Map<Key, State<E>>,
    /// Above every key of the table and of the changes.
    pub bound: int,
}

impl<E> Overlay<E> {
    /// The overlay of a transaction that has just begun on a table.
    pub open spec fn begin(table: Map<Key, E>, bound: int) -> Overlay<E> {
        Overlay { table, changes: Map::empty(), bound }
    }

    /// Every key of the table and of the changes is below the bound, and
    /// the bound is at most one above [`MAX_KEY`].
    pub open spec fn wf(self) -> bool {
        &&& 0 <= self.bound <= MAX_KEY + 1
        &&& forall|k: Key| #[trigger] self.table.contains_key(k) ==> k < self.bound
        &&& forall|k: Key| #[trigger] self.changes.contains_key(k) ==> k < self.bound
    }

    /// What the transaction reads under `k`: its own record where it has
    /// one, else what the table holds.
    pub open spec fn get(self, k: Key) -> Option<E> {
        read_through(self.table, self.changes, k)
    }

    /// The table as the transaction sees it.
    pub open spec fn rows(self) -> Map<Key, E> {
        apply_changes(self.table, self.changes)
    }

    /// The overlay with `change` as its record for `k`, in place of any
    /// earlier one.
    pub open spec fn with(self, k: Key, change: State<E>) -> Overlay<E> {
        Overlay {
            table: self.table,
            changes: self.changes.insert(k, change),
            bound: if k < self.bound { self.bound } else { k + 1 },
        }
    }

    /// The record that a write of `v` under `k` leaves. A record says what
    /// the whole transaction does to the table: an update where the table
    /// holds an entity under `k`, an insert where it holds none, whatever
    /// the transaction did to `k` before.
    pub open spec fn upsert_of(self, k: Key, v: E) -> State<E> {
        if self.table.contains_key(k) {
            State::Update(v)
        } else {
            State::Insert(v)
        }
    }

    /// `insert`: a key above [`MAX_KEY`] is refused; any other gets the
    /// record of the write.
    pub open spec fn insert(self, k: Key, v: E) -> Result<Overlay<E>, Error> {
        if k > MAX_KEY {
            Err(Error::KeyOutOfRange)
        } else {
            Ok(self.with(k, self.upsert_of(k, v)))
        }
    }

    /// The key under which `insert_mut` stores an entity offered under
    /// `k`: `k` itself where the transaction reads nothing under it, else
    /// the bound, the first key never used; none where that is above
    /// [`MAX_KEY`].
    pub open spec fn fresh_key(self, k: Key) -> Option<Key> {
        if k <= MAX_KEY && self.get(k).is_none() {
            Some(k)
        } else if self.bound <= MAX_KEY {
            Some(self.bound as Key)
        } else {
            None
        }
    }

    /// `insert_mut`: the entity is written under its fresh key, which is
    /// returned beside the new overlay; without a fresh key it fails.
    pub open spec fn insert_mut(self, k: Key, v: E) -> Result<(Overlay<E>, Key), Error> {
        match self.fresh_key(k) {
            Some(key) => Ok((self.with(key, self.upsert_of(key, v)), key)),
            None => Err(Error::KeysExhausted),
        }
    }

    /// `remove`: a key above [`MAX_KEY`] is refused; any other gets a
    /// removal as its record, whether or not anything is read under it.
    pub open spec fn remove(self, k: Key) -> Result<Overlay<E>, Error> {
        if k > MAX_KEY {
            Err(Error::KeyOutOfRange)
        } else {
            Ok(self.with(k, State::Remove))
        }
    }

    /// `insert_all`: the pairs are inserted one after the other. The first
    /// that fails ends the operation with its error; those before it stay
    /// inserted.
    pub open spec fn insert_all(self, items: Seq<(Key, E)>) -> (Overlay<E>, Result<(), Error>)
        decreases items.len(),
    {
        if items.len() == 0 {
            (self, Ok(()))
        } else {
            match self.insert(items[0].0, items[0].1) {
                Ok(next) => next.insert_all(items.drop_first()),
                Err(e) => (self, Err(e)),
            }
        }
    }

    /// `insert_mut_all`: as `insert_all`, each pair through `insert_mut`.
    pub open spec fn insert_mut_all(self, items: Seq<(Key, E)>) -> (Overlay<E>, Result<(), Error>)
        decreases items.len(),
    {
        if items.len() == 0 {
            (self, Ok(()))
        } else {
            match self.insert_mut(items[0].0, items[0].1) {
                Ok(next) => next.0.insert_mut_all(items.drop_first()),
                Err(e) => (self, Err(e)),
            }
        }
    }

    /// `remove_all`: the keys are removed one after the other. The first
    /// that fails ends the operation with its error; those before it stay
    /// removed.
    pub open spec fn remove_all(self, keys: Seq<Key>) -> (Overlay<E>, Result<(), Error>)
        decreases keys.len(),
    {
        if keys.len() == 0 {
            (self, Ok(()))
        } else {
            match self.remove(keys[0]) {
                Ok(next) => next.remove_all(keys.drop_first()),
                Err(e) => (self, Err(e)),
            }
        }
    }

    /// Recording a change under a key of at most [`MAX_KEY`] keeps the
    /// overlay well formed.
    pub proof fn lemma_with_wf(self, k: Key, change: State<E>)
        requires
            self.wf(),
            k <= MAX_KEY,
        ensures
            self.with(k, change).wf(),
    {
        let next = self.with(k, change);
        assert forall|x: Key| #[trigger] next.changes.contains_key(x) implies x < next.bound by {
            if x != k {
                assert(self.changes.contains_key(x));
            }
        }
    }

    /// The fresh key of a well-formed overlay is at most [`MAX_KEY`], and
    /// the transaction reads nothing under it.
    pub proof fn lemma_fresh_key(self, k: Key)
        requires
            self.wf(),
            self.fresh_key(k).is_some(),
        ensures
            self.fresh_key(k).unwrap() <= MAX_KEY,
            self.get(self.fresh_key(k).unwrap()).is_none(),
    {
    }
}

/// Replaying the changes of a transaction into its table gives the table
/// as the transaction saw it: under every key, what the transaction read.
pub proof fn lemma_apply_gives_what_was_read<E>(o: Overlay<E>, k: Key)
    ensures
        apply_changes(o.table, o.changes).contains_key(k) == o.get(k).is_some(),
        o.get(k).is_some() ==> apply_changes(o.table, o.changes)[k] == o.get(k).unwrap(),
        apply_changes(o.table, o.changes) == o.rows(),
{
}

/// Round trip: an entity inserted in a transaction is, once the changes are
/// replayed into the table, the entity that the table holds under that key.
pub proof fn lemma_insert_round_trip<E>(o: Overlay<E>, k: Key, v: E)
    requires
        k <= MAX_KEY,
    ensures
        o.insert(k, v).is_ok(),
        o.insert(k, v).unwrap().get(k) == Some(v),
        apply_changes(o.table, o.insert(k, v).unwrap().changes).contains_key(k),
        apply_changes(o.table, o.insert(k, v).unwrap().changes)[k] == v,
{
}

/// Round trip for a generated key: the entity is, once the changes are
/// replayed into the table, the entity that the table holds under the key
/// that `insert_mut` returned, and every entity that the transaction read
/// before is still read under its key.
pub proof fn lemma_insert_mut_round_trip<E>(o: Overlay<E>, k: Key, v: E)
    requires
        o.wf(),
        o.insert_mut(k, v).is_ok(),
    ensures
        ({
            let (next, key) = o.insert_mut(k, v).unwrap();
            &&& o.get(key).is_none()
            &&& next.wf()
            &&& apply_changes(o.table, next.changes).contains_key(key)
            &&& apply_changes(o.table, next.changes)[key] == v
            &&& forall|x: Key| x != key ==> next.get(x) == o.get(x)
        }),
{
    let (next, key) = o.insert_mut(k, v).unwrap();
    o.lemma_fresh_key(k);
    o.lemma_with_wf(key, o.upsert_of(key, v));
}

/// Removing a key under which nothing is held changes nothing when the
/// changes are replayed: alone, and beside any other changes.
pub proof fn lemma_remove_absent_is_noop<E>(table: Map<Key, E>, changes: Map<Key, State<E>>, k: Key)
    requires
        read_through(table, changes, k).is_none(),
    ensures
        apply_changes(table, changes.insert(k, State::Remove)) == apply_changes(table, changes),
        !table.contains_key(k) ==> apply_change(table, k, State::<E>::Remove) == table,
{
    assert(apply_changes(table, changes.insert(k, State::Remove)) =~= apply_changes(table, changes));
    if !table.contains_key(k) {
        assert(table.remove(k) =~= table);
    }
}

/// Last write wins: of two inserts under one key in one transaction only
/// the second is left. The transaction is what it would be had the first
/// never been made.
pub proof fn lemma_last_write_wins<E>(o: Overlay<E>, k: Key, first: E, second: E)
    requires
        k <= MAX_KEY,
    ensures
        o.insert(k, first).unwrap().insert(k, second) == o.insert(k, second),
        o.insert(k, first).unwrap().insert(k, second).unwrap().get(k) == Some(second),
{
    let one = o.insert(k, first).unwrap();
    let two = one.insert(k, second).unwrap();
    let only = o.insert(k, second).unwrap();
    assert(two.changes =~= only.changes);
}

/// A write and a removal of the same key in one transaction leave the
/// removal alone: the transaction is what it would be had the write never
/// been made, and replaying it leaves the key free.
pub proof fn lemma_write_then_remove<E>(o: Overlay<E>, k: Key, v: E)
    requires
        k <= MAX_KEY,
    ensures
        o.insert(k, v).unwrap().remove(k) == o.remove(k),
        o.remove(k).unwrap().changes[k] == State::<E>::Remove,
        !apply_changes(o.table, o.remove(k).unwrap().changes).contains_key(k),
{
    let one = o.insert(k, v).unwrap();
    assert(one.remove(k).unwrap().changes =~= o.remove(k).unwrap().changes);
}

} // verus!
