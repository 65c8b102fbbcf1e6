//! The buckets of a one-to-many index, by parent.
//!
//! A parent of at most [`MAX_BUCKET_KEY`] has its bucket in a `VecMap`,
//! which finds it without hashing. A `VecMap` keeps a slot for every key
//! up to the highest, so it is no place for a bucket under a key that may
//! be as great as the greatest number: a parent above the limit has its
//! bucket in a hash map. Together the two hold a bucket for any parent.

use fxhash::FxHashMap;
use vec_map::VecMap;
use vstd::prelude::*;

use crate::ascending::{ascending, insert_ascending};
use crate::fx::{fx_get, fx_insert, fx_keys, fx_remove};
use crate::key::Key;
use crate::vm::{buckets_of, vm_get, vm_insert, vm_keys, vm_new, vm_remove, MAX_BUCKET_KEY};

verus! {

/// A map from parents to buckets of children, for parents of any size.
pub struct Buckets {
    near: VecMap<Vec<Key>>,
    far: FxHashMap<Key, Vec<Key>>,
}

impl View for Buckets {
    type V = Map<Key, Seq<Key>>;

    /// The buckets, by parent: those of the parents up to the limit and
    /// those of the parents above it.
    closed spec fn view(&self) -> Map<Key, Seq<Key>> {
        Map::new(
            |p: Key|
                if p <= MAX_BUCKET_KEY {
                    buckets_of(self.near).contains_key(p)
                } else {
                    self.far@.contains_key(p)
                },
            |p: Key|
                if p <= MAX_BUCKET_KEY {
                    buckets_of(self.near)[p]
                } else {
                    self.far@[p]@
                },
        )
    }
}

impl Buckets {
    /// Each of the two maps holds only the parents that are its to hold.
    pub closed spec fn wf(&self) -> bool {
        &&& forall|p: Key| #[trigger] buckets_of(self.near).contains_key(p) ==> p <= MAX_BUCKET_KEY
        &&& forall|p: Key| #[trigger] self.far@.contains_key(p) ==> p > MAX_BUCKET_KEY
    }

    /// No buckets.
    pub fn new() -> (r: Self)
        ensures
            r.wf(),
            r@ == Map::<Key, Seq<Key>>::empty(),
    {
        let r = Buckets { near: vm_new(), far: FxHashMap::default() };
        assert(r@ =~= Map::<Key, Seq<Key>>::empty());
        r
    }

    /// The bucket of `parent`, if it has one.
    pub fn get(&self, parent: Key) -> (r: Option<&Vec<Key>>)
        ensures
            match r {
                Some(bucket) => self@.contains_key(parent) && bucket@ == self@[parent],
                None => !self@.contains_key(parent),
            },
    {
        if parent <= MAX_BUCKET_KEY {
            vm_get(&self.near, parent)
        } else {
            fx_get(&self.far, parent)
        }
    }

    /// Takes the bucket of `parent` out and returns it.
    pub fn take(&mut self, parent: Key) -> (r: Option<Vec<Key>>)
        ensures
            old(self).wf() ==> final(self).wf(),
            final(self)@ == old(self)@.remove(parent),
            match r {
                Some(bucket) => old(self)@.contains_key(parent) && bucket@ == old(self)@[parent],
                None => !old(self)@.contains_key(parent),
            },
    {
        let r = if parent <= MAX_BUCKET_KEY {
            vm_remove(&mut self.near, parent)
        } else {
            fx_remove(&mut self.far, parent)
        };
        proof {
            assert(self@ =~= old(self)@.remove(parent));
            if old(self).wf() {
                assert forall|p: Key| #[trigger] buckets_of(self.near).contains_key(p) implies p
                    <= MAX_BUCKET_KEY by {
                    assert(buckets_of(old(self).near).contains_key(p));
                }
                assert forall|p: Key| #[trigger] self.far@.contains_key(p) implies p > MAX_BUCKET_KEY by {
                    assert(old(self).far@.contains_key(p));
                }
            }
        }
        r
    }

    /// Makes `bucket` the bucket of `parent`, in place of the one it had.
    pub fn put(&mut self, parent: Key, bucket: Vec<Key>)
        ensures
            old(self).wf() ==> final(self).wf(),
            final(self)@ == old(self)@.insert(parent, bucket@),
    {
        if parent <= MAX_BUCKET_KEY {
            let _ = vm_insert(&mut self.near, parent, bucket);
        } else {
            let _ = fx_insert(&mut self.far, parent, bucket);
        }
        proof {
            assert(self@ =~= old(self)@.insert(parent, bucket@));
            if old(self).wf() {
                assert forall|p: Key| #[trigger] buckets_of(self.near).contains_key(p) implies p
                    <= MAX_BUCKET_KEY by {
                    if p != parent {
                        assert(buckets_of(old(self).near).contains_key(p));
                    }
                }
                assert forall|p: Key| #[trigger] self.far@.contains_key(p) implies p > MAX_BUCKET_KEY by {
                    if p != parent {
                        assert(old(self).far@.contains_key(p));
                    }
                }
            }
        }
    }

    /// The parents that have a bucket, in ascending order.
    pub fn keys(&self) -> (r: Vec<Key>)
        requires
            self.wf(),
        ensures
            ascending(r@),
            forall|p: Key| r@.contains(p) <==> self@.contains_key(p),
    {
        let mut out = vm_keys(&self.near);
        let ghost near = out@;
        let far = fx_keys(&self.far);
        let mut n: usize = 0;
        while n < far.len()
            invariant
                n <= far@.len(),
                self.wf(),
                far@.no_duplicates(),
                far@.to_set() == self.far@.dom(),
                forall|p: Key| near.contains(p) <==> buckets_of(self.near).contains_key(p),
                ascending(out@),
                forall|p: Key| out@.contains(p) <==> (near.contains(p) || far@.take(n as int).contains(p)),
            decreases far@.len() - n,
        {
            let k = far[n];
            let ghost seen = far@.take(n as int);
            let ghost next = far@.take(n + 1);
            proof {
                assert(far@.to_set().contains(far@[n as int]));
                assert(self.far@.contains_key(k));
                if near.contains(k) {
                    assert(buckets_of(self.near).contains_key(k));
                }
                if seen.contains(k) {
                    let j = choose|j: int| 0 <= j < seen.len() && seen[j] == k;
                    assert(far@[j] == far@[n as int]);
                }
                assert(next =~= seen.push(k));
                assert forall|p: Key| next.contains(p) <==> (seen.contains(p) || p == k) by {
                    if next.contains(p) {
                        let j = choose|j: int| 0 <= j < next.len() && next[j] == p;
                        if j < n {
                            assert(seen[j] == p);
                        }
                    }
                    if seen.contains(p) {
                        let j = choose|j: int| 0 <= j < seen.len() && seen[j] == p;
                        assert(next[j] == p);
                    }
                    if p == k {
                        assert(next[n as int] == p);
                    }
                }
            }
            let ghost had = out@;
            insert_ascending(&mut out, k);
            proof {
                assert forall|p: Key| out@.contains(p) <==> (near.contains(p) || next.contains(p)) by {
                    assert(out@.contains(p) <==> (had.contains(p) || p == k));
                    assert(had.contains(p) <==> (near.contains(p) || seen.contains(p)));
                    assert(next.contains(p) <==> (seen.contains(p) || p == k));
                }
            }
            n = n + 1;
        }
        proof {
            assert(n == far@.len());
            assert(far@.take(n as int) =~= far@);
            assert forall|p: Key| out@.contains(p) <==> self@.contains_key(p) by {
                assert(out@.contains(p) <==> (near.contains(p) || far@.take(n as int).contains(p)));
                assert(near.contains(p) <==> buckets_of(self.near).contains_key(p));
                assert(far@.contains(p) <==> self.far@.contains_key(p)) by {
                    assert(far@.to_set().contains(p) <==> self.far@.dom().contains(p));
                }
                if p <= MAX_BUCKET_KEY {
                    assert(!self.far@.contains_key(p));
                } else {
                    assert(!buckets_of(self.near).contains_key(p));
                }
            }
        }
        out
    }
}

} // verus!
