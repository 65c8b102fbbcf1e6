//! What a storage backend offers, and how a log is replayed into one.

use vstd::prelude::*;

use crate::error::Error;
use crate::key::{Key, MAX_KEY};
use crate::log::{apply_change, apply_changes, bound_after, Log};
use crate::state::State;

verus! {

/// The bound of a table after `v` was stored under `k`.
pub open spec fn bound_with(bound: int, k: Key) -> int {
    if k < bound {
        bound
    } else {
        k + 1
    }
}

/// A committed table: a map from keys to entities. The table changes only
/// through `insert` and `remove`, directly or when a log is replayed, and
/// each of them needs the table exclusively.
pub trait Table<E>: Sized {
    /// The map that the table stands for.
    spec fn contents(&self) -> Map<Key, E>;

    /// The least integer above every key that the table holds or has held
    /// since it was made.
    spec fn bound(&self) -> int;

    /// The invariant of the backend.
    spec fn valid(&self) -> bool;

    /// Whether the backend walks its keys in ascending order.
    spec fn ordered(&self) -> bool;

    /// Every key of a valid table is below its bound, which is at most one
    /// above [`MAX_KEY`].
    proof fn lemma_bound(&self)
        requires
            self.valid(),
        ensures
            0 <= self.bound() <= MAX_KEY + 1,
            forall|k: Key| #[trigger] self.contents().contains_key(k) ==> k < self.bound(),
    ;

    /// The entity under `k`, if there is one.
    fn get(&self, k: Key) -> (r: Option<&E>)
        requires
            self.valid(),
        ensures
            r == (if self.contents().contains_key(k) { Some(&self.contents()[k]) } else { None }),
    ;

    /// The entity under `k`, for a caller that needs it to be there.
    fn fetch(&self, k: Key) -> (r: Result<&E, Error>)
        requires
            self.valid(),
        ensures
            r == (if self.contents().contains_key(k) {
                Ok::<&E, Error>(&self.contents()[k])
            } else {
                Err::<&E, Error>(Error::EntityNotFound)
            }),
    {
        match self.get(k) {
            Some(v) => Ok(v),
            None => Err(Error::EntityNotFound),
        }
    }

    /// The bound of the table: the first key that was never used.
    fn next_key(&self) -> (r: usize)
        requires
            self.valid(),
        ensures
            r == self.bound(),
    ;

    /// The keys of the table, each once; in ascending order where the
    /// backend is ordered, else in no particular order.
    fn keys(&self) -> (r: Vec<Key>)
        requires
            self.valid(),
        ensures
            r@.no_duplicates(),
            r@.to_set() == self.contents().dom(),
            self.ordered() ==> forall|i: int, j: int| 0 <= i < j < r@.len() ==> r@[i] < r@[j],
    ;

    /// The entities of the table with their keys, each once; in ascending
    /// order of the keys where the backend is ordered, else in no
    /// particular order.
    fn entries(&self) -> (r: Vec<(Key, &E)>)
        requires
            self.valid(),
        ensures
            r@.len() == self.contents().dom().len(),
            forall|i: int, j: int| 0 <= i < j < r@.len() ==> r@[i].0 != r@[j].0,
            self.ordered() ==> forall|i: int, j: int| 0 <= i < j < r@.len() ==> r@[i].0 < r@[j].0,
            forall|i: int|
                0 <= i < r@.len() ==> self.contents().contains_key((#[trigger] r@[i]).0) && *r@[i].1
                    == self.contents()[r@[i].0],
            forall|k: Key|
                self.contents().contains_key(k) ==> exists|i: int| 0 <= i < r@.len() && (#[trigger] r@[i]).0 == k,
    {
        let keys = self.keys();
        let mut out: Vec<(Key, &E)> = Vec::new();
        let mut i: usize = 0;
        while i < keys.len()
            invariant
                i <= keys@.len(),
                self.valid(),
                keys@.no_duplicates(),
                keys@.to_set() == self.contents().dom(),
                self.ordered() ==> forall|a: int, b: int| 0 <= a < b < keys@.len() ==> keys@[a] < keys@[b],
                out@.len() == i,
                forall|j: int| 0 <= j < i ==> (#[trigger] out@[j]).0 == keys@[j],
                forall|j: int|
                    0 <= j < i ==> self.contents().contains_key((#[trigger] out@[j]).0) && *out@[j].1
                        == self.contents()[out@[j].0],
            decreases keys@.len() - i,
        {
            let k = keys[i];
            assert(keys@.to_set().contains(keys@[i as int]));
            match self.get(k) {
                Some(v) => {
                    out.push((k, v));
                },
                None => {},
            }
            i = i + 1;
        }
        proof {
            keys@.unique_seq_to_set();
            assert forall|k: Key| self.contents().contains_key(k) implies exists|i: int|
                0 <= i < out@.len() && (#[trigger] out@[i]).0 == k by {
                assert(keys@.to_set().contains(k));
                let j = choose|j: int| 0 <= j < keys@.len() && keys@[j] == k;
                assert(out@[j].0 == k);
            }
        }
        out
    }

    /// Stores `v` under `k`, in place of what `k` held, which is returned.
    /// A key above [`MAX_KEY`] is refused and leaves the table as it was.
    fn insert(&mut self, k: Key, v: E) -> (r: Result<Option<E>, Error>)
        requires
            old(self).valid(),
        ensures
            final(self).valid(),
            k > MAX_KEY ==> r == Err::<Option<E>, Error>(Error::KeyOutOfRange)
                && final(self).contents() == old(self).contents()
                && final(self).bound() == old(self).bound(),
            k <= MAX_KEY ==> r == Ok::<Option<E>, Error>(
                if old(self).contents().contains_key(k) { Some(old(self).contents()[k]) } else { None })
                && final(self).contents() == old(self).contents().insert(k, v)
                && final(self).bound() == bound_with(old(self).bound(), k),
    ;

    /// Takes the entity under `k` out of the table and returns it. Where
    /// `k` holds nothing the table stays as it was.
    fn remove(&mut self, k: Key) -> (r: Option<E>)
        requires
            old(self).valid(),
        ensures
            final(self).valid(),
            final(self).contents() == old(self).contents().remove(k),
            final(self).bound() == old(self).bound(),
            r == (if old(self).contents().contains_key(k) { Some(old(self).contents()[k]) } else { None }),
    ;
}

/// The table with the rows stored in it, first to last: of two rows with
/// one key the later stays.
pub open spec fn with_rows<E>(table: Map<Key, E>, rows: Seq<(Key, E)>) -> Map<Key, E>
    decreases rows.len(),
{
    if rows.len() == 0 {
        table
    } else {
        with_rows(table.insert(rows[0].0, rows[0].1), rows.drop_first())
    }
}

/// The bound of a table after the rows were stored in it.
pub open spec fn bound_with_rows<E>(bound: int, rows: Seq<(Key, E)>) -> int
    decreases rows.len(),
{
    if rows.len() == 0 {
        bound
    } else {
        bound_with_rows(bound_with(bound, rows[0].0), rows.drop_first())
    }
}

/// Whether every row has a key of at most [`MAX_KEY`].
pub open spec fn rows_in_range<E>(rows: Seq<(Key, E)>) -> bool {
    forall|i: int| 0 <= i < rows.len() ==> (#[trigger] rows[i]).0 <= MAX_KEY
}

/// Stores the rows that a backing store has loaded in a table, first to
/// last. Where one of them has a key above [`MAX_KEY`], none is stored.
pub fn load_rows<E, T: Table<E>>(table: &mut T, rows: Vec<(Key, E)>) -> (r: Result<(), Error>)
    requires
        old(table).valid(),
    ensures
        final(table).valid(),
        rows_in_range(rows@) ==> r == Ok::<(), Error>(()) && final(table).contents() == with_rows(
            old(table).contents(),
            rows@,
        ) && final(table).bound() == bound_with_rows(old(table).bound(), rows@),
        !rows_in_range(rows@) ==> r == Err::<(), Error>(Error::KeyOutOfRange) && final(table).contents()
            == old(table).contents() && final(table).bound() == old(table).bound(),
{
    let mut i: usize = 0;
    while i < rows.len()
        invariant
            i <= rows@.len(),
            rows_in_range(rows@.take(i as int)),
            table.valid(),
            table.contents() == old(table).contents(),
            table.bound() == old(table).bound(),
        decreases rows@.len() - i,
    {
        if rows[i].0 > MAX_KEY {
            return Err(Error::KeyOutOfRange);
        }
        proof {
            let upto = rows@.take(i + 1);
            assert forall|j: int| 0 <= j < upto.len() implies (#[trigger] upto[j]).0 <= MAX_KEY by {
                if j < i {
                    assert(rows@.take(i as int)[j] == upto[j]);
                }
            }
        }
        i = i + 1;
    }
    let ghost all = rows@;
    let ghost start = table.contents();
    let ghost start_bound = table.bound();
    proof {
        assert(all.take(all.len() as int) =~= all);
        assert(all.skip(0) =~= all);
    }
    for row in it: rows
        invariant
            it.seq() == all,
            rows_in_range(all),
            table.valid(),
            with_rows(start, all) == with_rows(table.contents(), all.skip(it.index() as int)),
            bound_with_rows(start_bound, all) == bound_with_rows(table.bound(), all.skip(it.index() as int)),
    {
        let ghost rest = all.skip(it.index() as int);
        proof {
            assert(rest[0] == all[it.index() as int]);
            assert(rest.drop_first() =~= all.skip(it.index() + 1));
        }
        let (k, v) = row;
        let _ = table.insert(k, v);
    }
    Ok(())
}

/// Replays a log into a table: each insert or update stores its value
/// under its key whether or not the key was taken, each removal frees its
/// key whether or not it was. No other key changes. Replaying a log cannot
/// fail.
pub fn replay<E, T: Table<E>>(table: &mut T, log: Log<E>)
    requires
        old(table).valid(),
        log.wf(),
    ensures
        final(table).valid(),
        final(table).contents() == apply_changes(old(table).contents(), log@),
        bound_after(old(table).bound(), log@, final(table).bound()),
{
    let mut log = log;
    let ghost changes = log@;
    let ghost start = table.contents();
    let ghost start_bound = table.bound();
    let ghost done = Set::<Key>::empty();
    let keys = log.keys();
    let mut i: usize = 0;
    proof {
        assert(changes.restrict(done) =~= Map::<Key, State<E>>::empty());
        assert(table.contents() =~= apply_changes(start, changes.restrict(done)));
    }
    while i < keys.len()
        invariant
            i <= keys@.len(),
            keys@.no_duplicates(),
            keys@.to_set() == changes.dom(),
            table.valid(),
            log.wf(),
            forall|j: int| 0 <= j < i ==> done.contains(#[trigger] keys@[j]),
            forall|j: int| i <= j < keys@.len() ==> !done.contains(#[trigger] keys@[j]),
            forall|j: int|
                i <= j < keys@.len() ==> log@.contains_key(#[trigger] keys@[j]) && log@[keys@[j]]
                    == changes[keys@[j]],
            table.contents() == apply_changes(start, changes.restrict(done)),
            bound_after(start_bound, changes.restrict(done), table.bound()),
        decreases keys@.len() - i,
    {
        let k = keys[i];
        let ghost seen = changes.restrict(done);
        let ghost rows = table.contents();
        let ghost bound = table.bound();
        proof {
            assert(keys@.to_set().contains(keys@[i as int]));
            assert(changes.contains_key(k));
            assert(log@.contains_key(keys@[i as int]));
            assert(k <= MAX_KEY);
            done = done.insert(k);
        }
        let ghost next = changes.restrict(done);
        let change = log.take(k);
        match change {
            Some(State::Insert(v)) => {
                let _ = table.insert(k, v);
            },
            Some(State::Update(v)) => {
                let _ = table.insert(k, v);
            },
            Some(State::Remove) => {
                let _ = table.remove(k);
            },
            None => {},
        }
        proof {
            assert(next =~= seen.insert(k, changes[k]));
            assert(!seen.contains_key(k));
            assert(table.contents() =~= apply_change(rows, k, changes[k]));
            assert(apply_change(rows, k, changes[k]) =~= apply_changes(start, next));
            if bound != start_bound {
                let w = choose|w: Key| #[trigger]
                    seen.contains_key(w) && seen[w].value().is_some() && bound == w + 1;
                assert(next.contains_key(w) && next[w].value().is_some());
            }
            if changes[k].value().is_some() {
                assert(table.bound() == bound_with(bound, k));
                assert(next.contains_key(k) && next[k].value().is_some());
            }
            assert forall|x: Key| #[trigger]
                next.contains_key(x) && next[x].value().is_some() implies x < table.bound() by {
                if x != k {
                    assert(seen.contains_key(x));
                }
            }
            assert(bound_after(start_bound, next, table.bound()));
            assert forall|j: int| i + 1 <= j < keys@.len() implies !done.contains(
                #[trigger] keys@[j],
            ) by {
                assert(keys@[j] != keys@[i as int]);
            }
        }
        i = i + 1;
    }
    proof {
        assert forall|x: Key| changes.dom().contains(x) implies done.contains(x) by {
            assert(keys@.to_set().contains(x));
            let j = choose|j: int| 0 <= j < keys@.len() && keys@[j] == x;
            assert(done.contains(keys@[j]));
        }
        assert(changes.restrict(done) =~= changes);
    }
}

} // verus!
