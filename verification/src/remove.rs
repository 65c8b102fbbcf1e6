//! Removing entities in a transaction.

use vstd::prelude::*;

use crate::error::Error;
use crate::key::Key;
use crate::overlay::Overlay;
use crate::transaction::Transaction;

verus! {

/// Freeing keys.
pub trait Remove<E>: Transaction<E> {
    /// Records that `k` holds nothing, in place of any record that the
    /// transaction had for `k`, and whether or not it read an entity
    /// there. On failure nothing is recorded.
    fn remove(&mut self, k: Key) -> (r: Result<(), Error>)
        requires
            old(self).valid(),
        ensures
            final(self).valid(),
            match old(self).overlay().remove(k) {
                Ok(next) => r == Ok::<(), Error>(()) && final(self).overlay() == next,
                Err(e) => r == Err::<(), Error>(e) && final(self).overlay() == old(self).overlay(),
            },
    ;

    /// Removes the keys one after the other. The first key that fails ends
    /// the operation with its error: the keys before it stay removed, the
    /// keys after it are not looked at.
    fn remove_all(&mut self, keys: Vec<Key>) -> (r: Result<(), Error>)
        requires
            old(self).valid(),
        ensures
            final(self).valid(),
            (final(self).overlay(), r) == old(self).overlay().remove_all(keys@),
    {
        let ghost all = keys@;
        let ghost start = self.overlay();
        proof {
            assert(all.skip(0) =~= all);
        }
        for k in it: keys
            invariant
                it.seq() == all,
                start == old(self).overlay(),
                self.valid(),
                start.remove_all(all) == self.overlay().remove_all(all.skip(it.index() as int)),
        {
            let ghost rest = all.skip(it.index() as int);
            let ghost before = self.overlay();
            proof {
                assert(rest.len() > 0);
                assert(rest[0] == all[it.index() as int]);
                assert(rest.drop_first() =~= all.skip(it.index() + 1));
            }
            match self.remove(k) {
                Ok(()) => {},
                Err(e) => {
                    proof {
                        assert(before.remove(rest[0]) == Err::<Overlay<E>, Error>(e));
                        assert(before.remove_all(rest) == (before, Err::<(), Error>(e)));
                    }
                    return Err(e);
                },
            }
        }
        Ok(())
    }
}

} // verus!
