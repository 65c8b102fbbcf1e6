//! A transaction that begins when it is first needed.

use vstd::prelude::*;

use crate::commit::Commit;
use crate::error::Error;
use crate::load_cell::LoadCell;
use crate::log::Log;
use crate::overlay::Overlay;
use crate::table::Table;
use crate::transaction::{TableTransaction, Transaction};

verus! {

/// The place of one lazily loaded table in a transaction on a context.
/// A transaction on the table begins when `begin` is first called, and
/// only on a table that is loaded; a cell on which none was begun commits
/// into no log.
pub struct TrxCell<'a, E, T: Table<E>> {
    cell: &'a LoadCell<T>,
    trx: Option<TableTransaction<'a, E, T>>,
}

impl<'a, E, T: Table<E>> TrxCell<'a, E, T> {
    /// The transaction on the table, where one was begun. What the cell of
    /// the table holds is stated apart, by `table`.
    pub closed spec fn overlay(&self) -> Option<Overlay<E>> {
        match self.trx {
            Some(trx) => Some(trx.overlay()),
            None => None,
        }
    }

    /// The table, where it is loaded.
    pub closed spec fn table(&self) -> Option<T> {
        self.cell@.value()
    }

    /// The table, where it is loaded, is valid, and so is the transaction,
    /// where one was begun.
    pub closed spec fn valid(&self) -> bool {
        &&& match self.cell@.value() {
            Some(table) => table.valid(),
            None => true,
        }
        &&& match self.trx {
            Some(trx) => trx.valid(),
            None => true,
        }
    }

    /// The place of the table of `cell` in a transaction. No transaction on
    /// the table is begun yet.
    pub fn new(cell: &'a LoadCell<T>) -> (r: Self)
        requires
            match cell@.value() {
                Some(table) => table.valid(),
                None => true,
            },
        ensures
            r.valid(),
            r.overlay().is_none(),
            r.table() == cell@.value(),
    {
        TrxCell { cell, trx: None }
    }

    /// Begins the transaction on the table unless it was begun before.
    /// Refused while the table is not loaded.
    pub fn begin(&mut self) -> (r: Result<(), Error>)
        requires
            old(self).valid(),
        ensures
            final(self).valid(),
            final(self).table() == old(self).table(),
            match old(self).overlay() {
                Some(o) => r == Ok::<(), Error>(()) && final(self).overlay() == Some(o),
                None => match old(self).table() {
                    Some(table) => r == Ok::<(), Error>(()) && final(self).overlay() == Some(
                        Overlay::begin(table.contents(), table.bound()),
                    ),
                    None => r == Err::<(), Error>(Error::NotLoaded) && final(self).overlay().is_none(),
                },
            },
    {
        if self.trx.is_some() {
            return Ok(());
        }
        match self.cell.get() {
            Some(table) => {
                self.trx = Some(TableTransaction::new(table));
                Ok(())
            },
            None => Err(Error::NotLoaded),
        }
    }

    /// The transaction on the table, to read through, where one was begun.
    pub fn get(&self) -> (r: Option<&TableTransaction<'a, E, T>>)
        requires
            self.valid(),
        ensures
            r.is_some() == self.overlay().is_some(),
            r.is_some() ==> r.unwrap().valid() && Some(r.unwrap().overlay()) == self.overlay(),
    {
        self.trx.as_ref()
    }

    /// The transaction on the table, to write to, where one was begun.
    pub fn get_mut(&mut self) -> (r: Option<&mut TableTransaction<'a, E, T>>)
        requires
            old(self).valid(),
        ensures
            r.is_some() == old(self).overlay().is_some(),
            final(self).table() == old(self).table(),
            match r {
                Some(trx) => trx.valid() && Some(trx.overlay()) == old(self).overlay()
                    && (final(trx).valid() ==> final(self).valid())
                    && final(self).overlay() == Some(final(trx).overlay()),
                None => *final(self) == *old(self),
            },
    {
        self.trx.as_mut()
    }
}

/// A cell commits into the log of the transaction that was begun on its
/// table, and into no log where none was begun.
impl<'a, E, T: Table<E>> Commit for TrxCell<'a, E, T> {
    type Log = Option<Log<E>>;

    open spec fn committable(self) -> bool {
        self.valid()
    }

    open spec fn committed(self, log: Option<Log<E>>) -> bool {
        match self.overlay() {
            Some(o) => log.is_some() && log.unwrap().wf() && log.unwrap()@ == o.changes,
            None => log.is_none(),
        }
    }

    fn commit(self) -> (log: Option<Log<E>>) {
        match self.trx {
            Some(trx) => Some(trx.commit()),
            None => None,
        }
    }
}

} // verus!
