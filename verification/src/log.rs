//! The log: the changes of one transaction to one table, detached from it.

use fxhash::FxHashMap;
use vstd::prelude::*;

use crate::error::Error;
use crate::fx::{fx_get, fx_insert, fx_keys, fx_len, fx_remove};
use crate::key::{Key, MAX_KEY};
use crate::state::State;

verus! {

/// What a reader finds under `k` who looks into the changes first and into
/// the table only where the changes say nothing of `k`.
pub open spec fn read_through<E>(table: Map<Key, E>, changes: Map<Key, State<E>>, k: Key) -> Option<E> {
    if changes.contains_key(k) {
        changes[k].value()
    } else if table.contains_key(k) {
        Some(table[k])
    } else {
        None
    }
}

/// The table with one change made to it: an insert or an update stores the
/// value whether or not the key was taken, a removal frees the key whether
/// or not it was.
pub open spec fn apply_change<E>(table: Map<Key, E>, k: Key, change: State<E>) -> Map<Key, E> {
    match change {
        State::Insert(v) => table.insert(k, v),
        State::Update(v) => table.insert(k, v),
        State::Remove => table.remove(k),
    }
}

/// The table with every change of `changes` made to it. As the changes
/// hold one record per key, the order in which they are made is immaterial.
pub open spec fn apply_changes<E>(table: Map<Key, E>, changes: Map<Key, State<E>>) -> Map<Key, E> {
    Map::new(
        |k: Key| read_through(table, changes, k).is_some(),
        |k: Key| read_through(table, changes, k).unwrap(),
    )
}

/// Whether `after` is the bound of a table whose bound was `before` and to
/// which `changes` were applied: the least value that is at least `before`
/// and above every key that the changes store a value under.
pub open spec fn bound_after<E>(before: int, changes: Map<Key, State<E>>, after: int) -> bool {
    &&& before <= after
    &&& forall|k: Key| #[trigger]
        changes.contains_key(k) && changes[k].value().is_some() ==> k < after
    &&& after == before || exists|k: Key| #[trigger]
        changes.contains_key(k) && changes[k].value().is_some() && after == k + 1
}

/// The changes of one committed transaction to one table: at most one
/// record per key.
pub struct Log<E> {
    changes: FxHashMap<Key, State<E>>,
}

impl<E> View for Log<E> {
    type V = Map<Key, State<E>>;

    closed spec fn view(&self) -> Map<Key, State<E>> {
        self.changes@
    }
}

impl<E> Log<E> {
    /// No key of the log is above [`MAX_KEY`].
    pub open spec fn wf(&self) -> bool {
        forall|k: Key| #[trigger] self@.contains_key(k) ==> k <= MAX_KEY
    }

    /// A log without changes.
    pub fn new() -> (log: Self)
        ensures
            log.wf(),
            log@ == Map::<Key, State<E>>::empty(),
    {
        Log { changes: FxHashMap::default() }
    }

    /// The number of keys that the log has a record for.
    pub fn len(&self) -> (r: usize)
        ensures
            r == self@.len(),
    {
        fx_len(&self.changes)
    }

    /// Whether the log has no record at all.
    pub fn is_empty(&self) -> (r: bool)
        ensures
            r == (self@ == Map::<Key, State<E>>::empty()),
    {
        let keys = fx_keys(&self.changes);
        proof {
            if keys@.len() == 0 {
                assert(keys@.to_set() =~= Set::<Key>::empty());
                assert(self@ =~= Map::<Key, State<E>>::empty());
            } else {
                assert(keys@.to_set().contains(keys@[0]));
            }
        }
        keys.len() == 0
    }

    /// The record for `k`, if the log has one.
    pub fn get(&self, k: Key) -> (r: Option<&State<E>>)
        ensures
            r == (if self@.contains_key(k) { Some(&self@[k]) } else { None }),
    {
        fx_get(&self.changes, k)
    }

    /// The keys that the log has a record for, each once, in no particular
    /// order.
    pub fn keys(&self) -> (r: Vec<Key>)
        ensures
            r@.no_duplicates(),
            r@.to_set() == self@.dom(),
    {
        fx_keys(&self.changes)
    }

    /// Puts `change` in place of whatever record the log had for `k`, which
    /// is lost. A key above [`MAX_KEY`] is refused and leaves the log as
    /// it was.
    pub fn record(&mut self, k: Key, change: State<E>) -> (r: Result<(), Error>)
        requires
            old(self).wf(),
        ensures
            final(self).wf(),
            k <= MAX_KEY ==> r == Ok::<(), Error>(()) && final(self)@ == old(self)@.insert(k, change),
            k > MAX_KEY ==> r == Err::<(), Error>(Error::KeyOutOfRange) && final(self)@ == old(self)@,
    {
        if k > MAX_KEY {
            return Err(Error::KeyOutOfRange);
        }
        let _ = fx_insert(&mut self.changes, k, change);
        assert forall|x: Key| #[trigger] self@.contains_key(x) implies x <= MAX_KEY by {
            if x != k {
                assert(old(self)@.contains_key(x));
            }
        }
        Ok(())
    }

    /// Takes the record for `k` out of the log and returns it.
    pub fn take(&mut self, k: Key) -> (r: Option<State<E>>)
        requires
            old(self).wf(),
        ensures
            final(self).wf(),
            final(self)@ == old(self)@.remove(k),
            r == (if old(self)@.contains_key(k) { Some(old(self)@[k]) } else { None }),
    {
        let was = fx_remove(&mut self.changes, k);
        assert forall|x: Key| #[trigger] self@.contains_key(x) implies x <= MAX_KEY by {
            assert(old(self)@.contains_key(x));
        }
        was
    }
}

impl<E> Default for Log<E> {
    /// A log without changes.
    fn default() -> (log: Self)
        ensures
            log.wf(),
            log@ == Map::<Key, State<E>>::empty(),
    {
        Log::new()
    }
}

} // verus!
