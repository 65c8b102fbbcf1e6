//! The registry of dependencies between derived values.

use fxhash::FxHashMap;
use vstd::prelude::*;

use crate::accessor::Accessor;
use crate::error::Error;
use crate::fx::{fx_get, fx_insert, fx_remove};

verus! {

/// Which derived values are computed from which sources. Sources and
/// derived values are named by numbers that the caller gives out. The
/// registry is filled once, before the first read; when a source changes,
/// `dependents` names the cache slots to clear.
pub struct Deps {
    dependents: FxHashMap<usize, Vec<usize>>,
}

impl View for Deps {
    type V = Set<(usize, usize)>;

    /// The registered pairs, each a source and a value derived from it.
    closed spec fn view(&self) -> Set<(usize, usize)> {
        Set::new(
            |pair: (usize, usize)|
                self.dependents@.contains_key(pair.0) && self.dependents@[pair.0]@.contains(pair.1),
        )
    }
}

impl Deps {
    /// No list names a value twice, and no value depends on itself.
    pub closed spec fn wf(&self) -> bool {
        forall|source: usize| #[trigger]
            self.dependents@.contains_key(source) ==> self.dependents@[source]@.no_duplicates()
                && !self.dependents@[source]@.contains(source)
    }

    /// A registry without dependencies.
    pub fn new() -> (deps: Self)
        ensures
            deps.wf(),
            deps@ == Set::<(usize, usize)>::empty(),
    {
        let deps = Deps { dependents: FxHashMap::default() };
        assert(deps@ =~= Set::<(usize, usize)>::empty());
        deps
    }

    /// Declares that `dependent` is computed from `source`. Declaring it
    /// again changes nothing. A value cannot be declared to depend on
    /// itself.
    pub fn register(&mut self, source: usize, dependent: usize) -> (r: Result<(), Error>)
        requires
            old(self).wf(),
        ensures
            final(self).wf(),
            source != dependent ==> r == Ok::<(), Error>(()) && final(self)@ == old(self)@.insert(
                (source, dependent),
            ),
            source == dependent ==> r == Err::<(), Error>(Error::SelfDependency) && final(self)@ == old(self)@,
    {
        if source == dependent {
            return Err(Error::SelfDependency);
        }
        let ghost before = self.dependents@;
        let mut list = match fx_remove(&mut self.dependents, source) {
            Some(list) => list,
            None => Vec::new(),
        };
        let ghost was = list@;
        let mut i: usize = 0;
        while i < list.len() && list[i] != dependent
            invariant
                list@ == was,
                i <= was.len(),
                forall|j: int| 0 <= j < i ==> was[j] != dependent,
            decreases was.len() - i,
        {
            i = i + 1;
        }
        if i == list.len() {
            list.push(dependent);
        }
        let ghost now = list@;
        let _ = fx_insert(&mut self.dependents, source, list);
        proof {
            assert(before.contains_key(source) ==> was == before[source]@);
            assert(!before.contains_key(source) ==> was.len() == 0);
            assert(now.contains(dependent)) by {
                if i == was.len() {
                    assert(now[was.len() as int] == dependent);
                } else {
                    assert(now[i as int] == dependent);
                }
            }
            assert forall|x: usize| now.contains(x) <==> (was.contains(x) || x == dependent) by {
                if now.contains(x) {
                    let j = choose|j: int| 0 <= j < now.len() && now[j] == x;
                    if j < was.len() {
                        assert(was[j] == x);
                    }
                }
                if was.contains(x) {
                    let j = choose|j: int| 0 <= j < was.len() && was[j] == x;
                    assert(now[j] == x);
                }
            }
            assert(now.no_duplicates()) by {
                assert forall|a: int, b: int| 0 <= a < now.len() && 0 <= b < now.len() && a != b implies now[a]
                    != now[b] by {
                    if a < was.len() && b < was.len() {
                        assert(now[a] == was[a] && now[b] == was[b]);
                    }
                }
            }
            assert(self@ =~= old(self)@.insert((source, dependent))) by {
                assert forall|pair: (usize, usize)| self@.contains(pair) <==> old(self)@.insert(
                    (source, dependent),
                ).contains(pair) by {
                    if pair.0 == source {
                        assert(self.dependents@[source]@ == now);
                    } else {
                        assert(self.dependents@.contains_key(pair.0) == before.contains_key(pair.0));
                    }
                }
            }
            assert forall|s: usize| #[trigger] self.dependents@.contains_key(s) implies self.dependents@[s]@.no_duplicates()
                && !self.dependents@[s]@.contains(s) by {
                if s != source {
                    assert(before.contains_key(s));
                }
            }
        }
        Ok(())
    }

    /// Whether `dependent` was declared to be computed from `source`.
    pub fn depends(&self, source: usize, dependent: usize) -> (r: bool)
        ensures
            r == self@.contains((source, dependent)),
    {
        match fx_get(&self.dependents, source) {
            Some(list) => {
                let mut i: usize = 0;
                while i < list.len() && list[i] != dependent
                    invariant
                        i <= list@.len(),
                        forall|j: int| 0 <= j < i ==> list@[j] != dependent,
                    decreases list@.len() - i,
                {
                    i = i + 1;
                }
                i < list.len()
            },
            None => false,
        }
    }

    /// The values that were declared to be computed from `source`, each
    /// once: the cache slots to clear when `source` changes.
    pub fn dependents(&self, source: usize) -> (r: Vec<usize>)
        requires
            self.wf(),
        ensures
            r@.no_duplicates(),
            !r@.contains(source),
            forall|d: usize| r@.contains(d) <==> self@.contains((source, d)),
    {
        let mut out: Vec<usize> = Vec::new();
        match fx_get(&self.dependents, source) {
            Some(list) => {
                let mut i: usize = 0;
                while i < list.len()
                    invariant
                        i <= list@.len(),
                        out@ == list@.take(i as int),
                    decreases list@.len() - i,
                {
                    out.push(list[i]);
                    assert(out@ =~= list@.take(i + 1));
                    i = i + 1;
                }
                assert(out@ =~= list@);
            },
            None => {},
        }
        out
    }
}

/// Clears the cache slots of the values that were declared to be computed
/// from `source`, for a set of slots that are numbered by their position.
/// Every other slot stays as it is, and so does the slot of a value whose
/// number is past the end.
pub fn clear_dependents<T>(deps: &Deps, source: usize, slots: &mut Vec<Accessor<T>>)
    requires
        deps.wf(),
    ensures
        final(slots)@.len() == old(slots)@.len(),
        forall|i: int|
            0 <= i < old(slots)@.len() ==> (#[trigger] final(slots)@[i])@ == (if deps@.contains(
                (source, i as usize),
            ) {
                None
            } else {
                old(slots)@[i]@
            }),
{
    let dependents = deps.dependents(source);
    let mut n: usize = 0;
    while n < dependents.len()
        invariant
            n <= dependents@.len(),
            slots@.len() == old(slots)@.len(),
            forall|d: usize| dependents@.contains(d) <==> deps@.contains((source, d)),
            forall|i: int|
                0 <= i < slots@.len() ==> (#[trigger] slots@[i])@ == (if dependents@.take(n as int).contains(
                    i as usize,
                ) {
                    None
                } else {
                    old(slots)@[i]@
                }),
        decreases dependents@.len() - n,
    {
        let d = dependents[n];
        let ghost before = slots@;
        let ghost seen = dependents@.take(n as int);
        let ghost next = dependents@.take(n + 1);
        proof {
            assert(next =~= seen.push(d));
            assert forall|x: usize| next.contains(x) <==> (seen.contains(x) || x == d) by {
                if next.contains(x) {
                    let j = choose|j: int| 0 <= j < next.len() && next[j] == x;
                    if j < seen.len() {
                        assert(seen[j] == x);
                    }
                }
                if seen.contains(x) {
                    let j = choose|j: int| 0 <= j < seen.len() && seen[j] == x;
                    assert(next[j] == x);
                }
                if x == d {
                    assert(next[n as int] == x);
                }
            }
        }
        if d < slots.len() {
            slots[d].clear();
            assert(slots@ =~= before.update(d as int, slots@[d as int]));
        }
        n = n + 1;
    }
    proof {
        assert(dependents@.take(dependents@.len() as int) =~= dependents@);
    }
}

} // verus!
