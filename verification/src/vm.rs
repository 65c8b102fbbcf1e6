//! The `VecMap` of `vec_map` that holds the buckets of a one-to-many index
//! for its small parents.
//!
//! A `VecMap` is opaque here: [`buckets_of`] names the map from keys to
//! buckets that one stands for, and each function below makes one call on
//! a `VecMap` and states what that call does to that map. None of these
//! statements is proved.

use vec_map::VecMap;
use vstd::prelude::*;

verus! {

/// `vec_map::VecMap`, a map from small integers to values that keeps the
/// value of key `k` in slot `k` of an array. Nothing is said of what is
/// inside it.
#[verifier::external_type_specification]
#[verifier::external_body]
#[verifier::reject_recursive_types(V)]
pub struct ExVecMap<V>(VecMap<V>);

/// The largest key under which a bucket is kept in a `VecMap`. A `VecMap`
/// keeps one slot for every key up to the highest one stored, so that
/// storing under key `k` reserves `k + 1` slots at once. Under
/// `usize::MAX` that count overflows, and well below it the array would be
/// past the size that `Vec` takes, on which reserving panics. Up to this
/// limit neither happens; a bucket under a greater key is kept in a hash
/// map (see `Buckets`), so the limit is refused to nobody.
pub const MAX_BUCKET_KEY: usize = 0xFF_FFFF;

/// The buckets that a `VecMap` holds, by key.
pub uninterp spec fn buckets_of(m: VecMap<Vec<usize>>) -> Map<usize, Seq<usize>>;

/// The map without buckets.
pub open spec fn no_buckets() -> Map<usize, Seq<usize>> {
    Map::empty()
}

/// `VecMap::new`: a map without buckets.
#[verifier::external_body]
pub(crate) fn vm_new() -> (r: VecMap<Vec<usize>>)
    ensures
        buckets_of(r) == no_buckets(),
{
    VecMap::new()
}

/// `VecMap::get`: the bucket under `k`, or `None` where there is none.
#[verifier::external_body]
pub(crate) fn vm_get(m: &VecMap<Vec<usize>>, k: usize) -> (r: Option<&Vec<usize>>)
    ensures
        match r {
            Some(bucket) => buckets_of(*m).contains_key(k) && bucket@ == buckets_of(*m)[k],
            None => !buckets_of(*m).contains_key(k),
        },
{
    m.get(k)
}

/// `VecMap::insert`: the map afterwards holds `bucket` under `k` and is
/// otherwise unchanged; the result is the bucket that `k` held before. The
/// key is bounded because the map grows its array to `k + 1` slots, and
/// panics where that many cannot be reserved.
#[verifier::external_body]
pub(crate) fn vm_insert(m: &mut VecMap<Vec<usize>>, k: usize, bucket: Vec<usize>) -> (r: Option<Vec<usize>>)
    requires
        k <= MAX_BUCKET_KEY,
    ensures
        buckets_of(*final(m)) == buckets_of(*old(m)).insert(k, bucket@),
        match r {
            Some(was) => buckets_of(*old(m)).contains_key(k) && was@ == buckets_of(*old(m))[k],
            None => !buckets_of(*old(m)).contains_key(k),
        },
{
    m.insert(k, bucket)
}

/// `VecMap::remove`: the map afterwards has no bucket under `k` and is
/// otherwise unchanged; the result is the bucket that `k` held before.
#[verifier::external_body]
pub(crate) fn vm_remove(m: &mut VecMap<Vec<usize>>, k: usize) -> (r: Option<Vec<usize>>)
    ensures
        buckets_of(*final(m)) == buckets_of(*old(m)).remove(k),
        match r {
            Some(was) => buckets_of(*old(m)).contains_key(k) && was@ == buckets_of(*old(m))[k],
            None => !buckets_of(*old(m)).contains_key(k),
        },
{
    m.remove(k)
}

/// `VecMap::keys`, collected: the keys that hold a bucket, in ascending
/// order.
#[verifier::external_body]
pub(crate) fn vm_keys(m: &VecMap<Vec<usize>>) -> (r: Vec<usize>)
    ensures
        forall|i: int, j: int| 0 <= i < j < r@.len() ==> r@[i] < r@[j],
        forall|k: usize| r@.contains(k) <==> buckets_of(*m).contains_key(k),
{
    m.keys().collect()
}

} // verus!
