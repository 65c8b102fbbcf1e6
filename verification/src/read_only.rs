//! The parts of a context that transactions read and never write.

use vstd::prelude::*;

use crate::transaction::Begin;

verus! {

/// A part of a context that no transaction changes: a derived value, or a
/// table that is only looked up.
pub struct ReadOnly<T> {
    item: T,
}

impl<T> View for ReadOnly<T> {
    type V = T;

    closed spec fn view(&self) -> T {
        self.item
    }
}

impl<T> ReadOnly<T> {
    /// Makes `item` a read-only part.
    pub fn new(item: T) -> (r: Self)
        ensures
            r@ == item,
    {
        ReadOnly { item }
    }

    /// The part.
    pub fn get(&self) -> (r: &T)
        ensures
            *r == self@,
    {
        &self.item
    }
}

/// The place of a read-only part in a transaction: the part itself, by
/// reference.
pub struct Passthrough<'a, T> {
    item: &'a T,
}

impl<'a, T> View for Passthrough<'a, T> {
    type V = T;

    closed spec fn view(&self) -> T {
        *self.item
    }
}

impl<'a, T> Passthrough<'a, T> {
    /// The part.
    pub fn get(&self) -> (r: &'a T)
        ensures
            *r == self@,
    {
        self.item
    }
}

impl<'a, T: 'a> Begin<'a> for ReadOnly<T> {
    type Transaction = Passthrough<'a, T>;

    open spec fn ready(&self) -> bool {
        true
    }

    open spec fn begun(&self, trx: Passthrough<'a, T>) -> bool {
        trx@ == self@
    }

    fn transaction(&'a self) -> (trx: Passthrough<'a, T>) {
        Passthrough { item: &self.item }
    }
}

} // verus!
