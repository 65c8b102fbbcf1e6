//! Writing entities into a transaction.

use vstd::prelude::*;

use crate::error::Error;
use crate::key::Key;
use crate::overlay::Overlay;
use crate::transaction::Transaction;

verus! {

/// Storing entities under keys that the caller chooses.
pub trait Insert<E>: Transaction<E> {
    /// Records `v` as the entity under `k`, in place of any record that the
    /// transaction had for `k`. On failure nothing is recorded.
    fn insert(&mut self, k: Key, v: E) -> (r: Result<(), Error>)
        requires
            old(self).valid(),
        ensures
            final(self).valid(),
            match old(self).overlay().insert(k, v) {
                Ok(next) => r == Ok::<(), Error>(()) && final(self).overlay() == next,
                Err(e) => r == Err::<(), Error>(e) && final(self).overlay() == old(self).overlay(),
            },
    ;

    /// Inserts the pairs one after the other. The first pair that fails
    /// ends the operation with its error: the pairs before it stay
    /// recorded, the pairs after it are not looked at.
    fn insert_all(&mut self, items: Vec<(Key, E)>) -> (r: Result<(), Error>)
        requires
            old(self).valid(),
        ensures
            final(self).valid(),
            (final(self).overlay(), r) == old(self).overlay().insert_all(items@),
    {
        let ghost all = items@;
        let ghost start = self.overlay();
        proof {
            assert(all.skip(0) =~= all);
        }
        for item in it: items
            invariant
                it.seq() == all,
                start == old(self).overlay(),
                self.valid(),
                start.insert_all(all) == self.overlay().insert_all(all.skip(it.index() as int)),
        {
            let ghost rest = all.skip(it.index() as int);
            let ghost before = self.overlay();
            proof {
                assert(rest.len() > 0);
                assert(rest[0] == all[it.index() as int]);
                assert(rest.drop_first() =~= all.skip(it.index() + 1));
            }
            let (k, v) = item;
            match self.insert(k, v) {
                Ok(()) => {},
                Err(e) => {
                    proof {
                        assert(before.insert(rest[0].0, rest[0].1) == Err::<Overlay<E>, Error>(e));
                        assert(before.insert_all(rest) == (before, Err::<(), Error>(e)));
                    }
                    return Err(e);
                },
            }
        }
        Ok(())
    }
}

/// Storing entities under keys that the transaction may choose.
pub trait InsertMut<E>: Transaction<E> {
    /// Records `v` as a new entity and returns its key: `k` where the
    /// transaction reads nothing under `k`, else the first key that was
    /// never used. The key is the entity's only as long as the
    /// transaction is not dropped. On failure nothing is recorded.
    fn insert_mut(&mut self, k: Key, v: E) -> (r: Result<Key, Error>)
        requires
            old(self).valid(),
        ensures
            final(self).valid(),
            match old(self).overlay().insert_mut(k, v) {
                Ok(next) => r == Ok::<Key, Error>(next.1) && final(self).overlay() == next.0,
                Err(e) => r == Err::<Key, Error>(e) && final(self).overlay() == old(self).overlay(),
            },
    ;

    /// Inserts the pairs one after the other, each under a key of its own.
    /// The first pair that fails ends the operation with its error: the
    /// pairs before it stay recorded, the pairs after it are not looked at.
    fn insert_mut_all(&mut self, items: Vec<(Key, E)>) -> (r: Result<(), Error>)
        requires
            old(self).valid(),
        ensures
            final(self).valid(),
            (final(self).overlay(), r) == old(self).overlay().insert_mut_all(items@),
    {
        let ghost all = items@;
        let ghost start = self.overlay();
        proof {
            assert(all.skip(0) =~= all);
        }
        for item in it: items
            invariant
                it.seq() == all,
                start == old(self).overlay(),
                self.valid(),
                start.insert_mut_all(all) == self.overlay().insert_mut_all(all.skip(it.index() as int)),
        {
            let ghost rest = all.skip(it.index() as int);
            let ghost before = self.overlay();
            proof {
                assert(rest.len() > 0);
                assert(rest[0] == all[it.index() as int]);
                assert(rest.drop_first() =~= all.skip(it.index() + 1));
            }
            let (k, v) = item;
            match self.insert_mut(k, v) {
                Ok(_) => {},
                Err(e) => {
                    proof {
                        assert(before.insert_mut(rest[0].0, rest[0].1) == Err::<(Overlay<E>, Key), Error>(e));
                        assert(before.insert_mut_all(rest) == (before, Err::<(), Error>(e)));
                    }
                    return Err(e);
                },
            }
        }
        Ok(())
    }
}

} // verus!
