//! Replaying logs into committed state.

use vstd::prelude::*;

use crate::hash_table::HashTable;
use crate::key::Key;
use crate::log::{apply_changes, bound_after, Log};
use crate::overlay::Overlay;
use crate::queue_lock::{LockState, Ticket};
use crate::read_only::ReadOnly;
use crate::table::{replay, Table};
use crate::vec_table::VecTable;

verus! {

/// Committed state that changes by replaying the log of a transaction:
/// a table, or a context made of several. Replaying is the only way in
/// which committed state changes, it needs the state exclusively, and it
/// cannot fail. A log is replayed once.
pub trait ApplyLog: Sized {
    /// What a committed transaction leaves to be replayed.
    type Log;

    /// Whether the state is valid and `log` can be replayed into it.
    spec fn accepts(self, log: Self::Log) -> bool;

    /// Whether `after` is the state that replaying `log` into this state
    /// gives.
    spec fn applied(self, log: Self::Log, after: Self) -> bool;

    /// Replays `log` into the state.
    fn apply_log(&mut self, log: Self::Log)
        requires
            (*old(self)).accepts(log),
        ensures
            (*old(self)).applied(log, *final(self)),
    ;
}

/// What replaying a log does to a table: the contents take every change,
/// the bound rises above every key written, the table stays valid.
pub open spec fn table_applied<E, T: Table<E>>(before: T, log: Log<E>, after: T) -> bool {
    &&& after.valid()
    &&& after.contents() == apply_changes(before.contents(), log@)
    &&& bound_after(before.bound(), log@, after.bound())
}

/// A transaction that is committed and whose log is replayed into the
/// table it was begun on leaves the table as the transaction saw it: every
/// key holds what the transaction last read under it.
pub proof fn lemma_commit_then_apply<E, T: Table<E>>(before: T, trx: Overlay<E>, log: Log<E>, after: T)
    requires
        trx.table == before.contents(),
        log@ == trx.changes,
        table_applied(before, log, after),
    ensures
        after.contents() == trx.rows(),
        forall|k: Key| after.contents().contains_key(k) == trx.get(k).is_some(),
        forall|k: Key| trx.get(k).is_some() ==> after.contents()[k] == trx.get(k).unwrap(),
{
}

/// Who reads after a writer's exclusive phase reads what the writer
/// wrote, all of it. During the phase no reader is granted the lock. Once
/// the writer has replayed its log and ended the phase, a reader is
/// granted the lock, and the table it reads holds, under every key of the
/// log, the value of the record, or nothing where the record is a
/// removal; under every other key it holds what it held before.
pub proof fn lemma_reader_after_write<E, T: Table<E>>(
    lock: LockState,
    ticket: Ticket,
    before: T,
    log: Log<E>,
    after: T,
)
    requires
        lock.wf(),
        lock.writing,
        lock.holds_slot(ticket),
        table_applied(before, log, after),
    ensures
        lock.acquire_read() == (lock, false),
        lock.end_write(ticket).1.is_ok(),
        lock.end_write(ticket).0.wf(),
        lock.end_write(ticket).0.acquire_read().1,
        forall|k: Key| #[trigger]
            log@.contains_key(k) ==> after.contents().contains_key(k) == log@[k].value().is_some(),
        forall|k: Key|
            log@.contains_key(k) && (#[trigger] log@[k]).value().is_some() ==> after.contents()[k]
                == log@[k].value().unwrap(),
        forall|k: Key|
            !log@.contains_key(k) ==> (#[trigger] after.contents().contains_key(k))
                == before.contents().contains_key(k),
        forall|k: Key|
            !log@.contains_key(k) && before.contents().contains_key(k) ==> (#[trigger] after.contents()[k])
                == before.contents()[k],
{
    lock.lemma_steps_keep_wf(ticket);
}

impl<E> ApplyLog for HashTable<E> {
    type Log = Log<E>;

    open spec fn accepts(self, log: Log<E>) -> bool {
        self.valid() && log.wf()
    }

    open spec fn applied(self, log: Log<E>, after: Self) -> bool {
        table_applied(self, log, after)
    }

    fn apply_log(&mut self, log: Log<E>) {
        replay(self, log);
    }
}

impl<E> ApplyLog for VecTable<E> {
    type Log = Log<E>;

    open spec fn accepts(self, log: Log<E>) -> bool {
        self.valid() && log.wf()
    }

    open spec fn applied(self, log: Log<E>, after: Self) -> bool {
        table_applied(self, log, after)
    }

    fn apply_log(&mut self, log: Log<E>) {
        replay(self, log);
    }
}

/// A context of two parts takes a log of two parts: each part of the log
/// is replayed into its part of the context. Contexts of more parts nest.
impl<A: ApplyLog, B: ApplyLog> ApplyLog for (A, B) {
    type Log = (A::Log, B::Log);

    open spec fn accepts(self, log: (A::Log, B::Log)) -> bool {
        self.0.accepts(log.0) && self.1.accepts(log.1)
    }

    open spec fn applied(self, log: (A::Log, B::Log), after: Self) -> bool {
        self.0.applied(log.0, after.0) && self.1.applied(log.1, after.1)
    }

    fn apply_log(&mut self, log: (A::Log, B::Log)) {
        self.0.apply_log(log.0);
        self.1.apply_log(log.1);
    }
}

/// A part that transactions only read takes a log that says nothing, and
/// stays as it is.
impl<T> ApplyLog for ReadOnly<T> {
    type Log = ();

    open spec fn accepts(self, log: ()) -> bool {
        true
    }

    open spec fn applied(self, log: (), after: Self) -> bool {
        after == self
    }

    fn apply_log(&mut self, log: ()) {
    }
}

/// A part that no transaction touched has no log: `None` leaves the state
/// as it is.
impl<A: ApplyLog> ApplyLog for Option<A> {
    type Log = Option<A::Log>;

    open spec fn accepts(self, log: Option<A::Log>) -> bool {
        match log {
            Some(l) => self.is_some() && self.unwrap().accepts(l),
            None => true,
        }
    }

    open spec fn applied(self, log: Option<A::Log>, after: Self) -> bool {
        match log {
            Some(l) => after.is_some() && self.unwrap().applied(l, after.unwrap()),
            None => after == self,
        }
    }

    fn apply_log(&mut self, log: Option<A::Log>) {
        match log {
            Some(l) => {
                match self {
                    Some(state) => {
                        state.apply_log(l);
                    },
                    None => {},
                }
            },
            None => {},
        }
    }
}

} // verus!
