//! A transaction on one table.

use vstd::prelude::*;

use crate::error::Error;
use crate::insert::{Insert, InsertMut};
use crate::key::{Key, MAX_KEY};
use crate::log::Log;
use crate::overlay::Overlay;
use crate::remove::Remove;
use crate::state::State;
use crate::table::Table;

verus! {

/// What every transaction on one table offers: reading through its own
/// changes.
pub trait Transaction<E>: Sized {
    /// The transaction as a value.
    spec fn overlay(&self) -> Overlay<E>;

    /// The invariant of the transaction.
    spec fn valid(&self) -> bool;

    /// A valid transaction stands for a well-formed overlay.
    proof fn lemma_valid(&self)
        requires
            self.valid(),
        ensures
            self.overlay().wf(),
    ;

    /// The entity that the transaction reads under `k`: the one it last
    /// wrote there, none where it last removed `k`, and what the table
    /// holds where it did neither.
    fn get(&self, k: Key) -> (r: Option<&E>)
        requires
            self.valid(),
        ensures
            r == (match self.overlay().get(k) {
                Some(v) => Some(&v),
                None => None,
            }),
    ;
}

/// Committed state on which a transaction can begin: a table, or a
/// context made of several. The transaction borrows the state, which
/// therefore cannot change while the transaction lives.
pub trait Begin<'a>: Sized {
    /// The transaction on this state.
    type Transaction;

    /// The invariant of the state.
    spec fn ready(&self) -> bool;

    /// Whether `trx` is the transaction that has just begun on this state.
    spec fn begun(&self, trx: Self::Transaction) -> bool;

    /// Begins a transaction. It reads what the state holds and has no
    /// changes yet.
    fn transaction(&'a self) -> (trx: Self::Transaction)
        requires
            self.ready(),
        ensures
            self.begun(trx),
    ;
}

/// A context of two parts begins a transaction of two parts. Contexts of
/// more parts nest.
impl<'a, A: Begin<'a>, B: Begin<'a>> Begin<'a> for (A, B) {
    type Transaction = (A::Transaction, B::Transaction);

    open spec fn ready(&self) -> bool {
        self.0.ready() && self.1.ready()
    }

    open spec fn begun(&self, trx: (A::Transaction, B::Transaction)) -> bool {
        self.0.begun(trx.0) && self.1.begun(trx.1)
    }

    fn transaction(&'a self) -> (trx: (A::Transaction, B::Transaction)) {
        (self.0.transaction(), self.1.transaction())
    }
}

/// The transaction of a storage backend: a shared borrow of the table and
/// the changes made so far. Dropping it discards the changes.
pub struct TableTransaction<'a, E, T: Table<E>> {
    table: &'a T,
    changes: Log<E>,
    next_key: usize,
}

impl<'a, E, T: Table<E>> TableTransaction<'a, E, T> {
    /// Begins a transaction on `table`. It reads what the table holds and
    /// has no changes yet.
    pub fn new(table: &'a T) -> (trx: Self)
        requires
            table.valid(),
        ensures
            trx.valid(),
            trx.overlay() == Overlay::begin(table.contents(), table.bound()),
    {
        proof {
            table.lemma_bound();
        }
        TableTransaction { table, changes: Log::new(), next_key: table.next_key() }
    }

    /// Gives up the transaction for its changes.
    pub(crate) fn into_log(self) -> (log: Log<E>)
        requires
            self.valid(),
        ensures
            log.wf(),
            log@ == self.overlay().changes,
    {
        self.changes
    }

    /// Puts `change` in place of the record for `k` and keeps the bound
    /// above `k`.
    fn record(&mut self, k: Key, change: State<E>)
        requires
            old(self).valid(),
            k <= MAX_KEY,
        ensures
            final(self).valid(),
            final(self).overlay() == old(self).overlay().with(k, change),
    {
        proof {
            self.overlay().lemma_with_wf(k, change);
        }
        let _ = self.changes.record(k, change);
        if k >= self.next_key {
            self.next_key = k + 1;
        }
    }

    /// Records `v` under `k`: as an update where the table holds an entity
    /// under `k`, else as an insert.
    fn write(&mut self, k: Key, v: E)
        requires
            old(self).valid(),
            k <= MAX_KEY,
        ensures
            final(self).valid(),
            final(self).overlay() == old(self).overlay().with(k, old(self).overlay().upsert_of(k, v)),
    {
        let change = if self.table.get(k).is_some() {
            State::Update(v)
        } else {
            State::Insert(v)
        };
        self.record(k, change);
    }
}

impl<'a, E, T: Table<E>> Transaction<E> for TableTransaction<'a, E, T> {
    closed spec fn overlay(&self) -> Overlay<E> {
        Overlay { table: self.table.contents(), changes: self.changes@, bound: self.next_key as int }
    }

    closed spec fn valid(&self) -> bool {
        &&& self.table.valid()
        &&& self.changes.wf()
        &&& self.overlay().wf()
    }

    proof fn lemma_valid(&self) {
    }

    fn get(&self, k: Key) -> (r: Option<&E>) {
        match self.changes.get(k) {
            Some(change) => change.as_value(),
            None => self.table.get(k),
        }
    }
}

impl<'a, E, T: Table<E>> Insert<E> for TableTransaction<'a, E, T> {
    fn insert(&mut self, k: Key, v: E) -> (r: Result<(), Error>) {
        if k > MAX_KEY {
            return Err(Error::KeyOutOfRange);
        }
        self.write(k, v);
        Ok(())
    }
}

impl<'a, E, T: Table<E>> InsertMut<E> for TableTransaction<'a, E, T> {
    fn insert_mut(&mut self, k: Key, v: E) -> (r: Result<Key, Error>) {
        let key = if k <= MAX_KEY && self.get(k).is_none() {
            k
        } else if self.next_key <= MAX_KEY {
            self.next_key
        } else {
            return Err(Error::KeysExhausted);
        };
        self.write(key, v);
        Ok(key)
    }
}

impl<'a, E, T: Table<E>> Remove<E> for TableTransaction<'a, E, T> {
    fn remove(&mut self, k: Key) -> (r: Result<(), Error>) {
        if k > MAX_KEY {
            return Err(Error::KeyOutOfRange);
        }
        self.record(k, State::Remove);
        Ok(())
    }
}

} // verus!
