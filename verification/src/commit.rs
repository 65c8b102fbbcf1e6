//! Ending transactions.

use vstd::prelude::*;

use crate::log::Log;
use crate::table::Table;
use crate::read_only::Passthrough;
use crate::transaction::{TableTransaction, Transaction};

verus! {

/// A transaction that ends by committing: on one table, or made of
/// several. Committing gives up the transaction for its log and touches
/// no committed state; it is the only way in which a transaction ends
/// with effect.
pub trait Commit: Sized {
    /// What the transaction leaves to be replayed.
    type Log;

    /// The invariant of the transaction.
    spec fn committable(self) -> bool;

    /// Whether `log` is what committing this transaction gives.
    spec fn committed(self, log: Self::Log) -> bool;

    /// Ends the transaction and returns its log.
    fn commit(self) -> (log: Self::Log)
        requires
            self.committable(),
        ensures
            self.committed(log),
    ;
}

/// The log of a transaction on one table holds its changes, one record
/// per key written or removed.
impl<'a, E, T: Table<E>> Commit for TableTransaction<'a, E, T> {
    type Log = Log<E>;

    open spec fn committable(self) -> bool {
        self.valid()
    }

    open spec fn committed(self, log: Log<E>) -> bool {
        log.wf() && log@ == self.overlay().changes
    }

    fn commit(self) -> (log: Log<E>) {
        self.into_log()
    }
}

/// A transaction of two parts commits into a log of two parts.
/// Transactions of more parts nest.
impl<A: Commit, B: Commit> Commit for (A, B) {
    type Log = (A::Log, B::Log);

    open spec fn committable(self) -> bool {
        self.0.committable() && self.1.committable()
    }

    open spec fn committed(self, log: (A::Log, B::Log)) -> bool {
        self.0.committed(log.0) && self.1.committed(log.1)
    }

    fn commit(self) -> (log: (A::Log, B::Log)) {
        (self.0.commit(), self.1.commit())
    }
}

/// A part that transactions only read commits into nothing.
impl<'a, T> Commit for Passthrough<'a, T> {
    type Log = ();

    open spec fn committable(self) -> bool {
        true
    }

    open spec fn committed(self, log: ()) -> bool {
        true
    }

    fn commit(self) -> (log: ()) {
    }
}

/// A part on which no transaction was begun commits into no log.
impl<A: Commit> Commit for Option<A> {
    type Log = Option<A::Log>;

    open spec fn committable(self) -> bool {
        match self {
            Some(trx) => trx.committable(),
            None => true,
        }
    }

    open spec fn committed(self, log: Option<A::Log>) -> bool {
        match self {
            Some(trx) => log.is_some() && trx.committed(log.unwrap()),
            None => log.is_none(),
        }
    }

    fn commit(self) -> (log: Option<A::Log>) {
        match self {
            Some(trx) => Some(trx.commit()),
            None => None,
        }
    }
}

} // verus!
