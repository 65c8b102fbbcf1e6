//! Hash maps keyed by [`Key`] that hash with `fxhash`.
//!
//! The map itself is std's `HashMap`; only the hasher comes from `fxhash`.
//! Each function here makes one call on such a map and states, over the
//! map's view, what that call does. None of these statements is proved:
//! they hold because `FxHasher` starts from a fixed state and hashes the
//! same bytes to the same value, so that a key is found again under the
//! hash it was stored with.

use fxhash::{FxHashMap, FxHasher};
use std::hash::BuildHasherDefault;
use vstd::prelude::*;

use crate::key::Key;

verus! {

/// `fxhash::FxHasher`, the hasher. Nothing is said of what is inside it.
#[verifier::external_type_specification]
#[verifier::external_body]
pub struct ExFxHasher(FxHasher);

/// `std::hash::BuildHasherDefault`, which makes each hasher of a map by
/// `Default`. Nothing is said of what is inside it.
#[verifier::external_type_specification]
#[verifier::external_body]
#[verifier::reject_recursive_types(H)]
pub struct ExBuildHasherDefault<H>(BuildHasherDefault<H>);

/// `HashMap::insert` with the Fx hasher: the map afterwards holds `v` under
/// `k` and is otherwise unchanged; the result is what `k` held before.
#[verifier::external_body]
pub(crate) fn fx_insert<V>(m: &mut FxHashMap<Key, V>, k: Key, v: V) -> (r: Option<V>)
    ensures
        final(m)@ == old(m)@.insert(k, v),
        r == (if old(m)@.contains_key(k) { Some(old(m)@[k]) } else { None }),
{
    m.insert(k, v)
}

/// `HashMap::remove` with the Fx hasher: the map afterwards has no entry
/// under `k` and is otherwise unchanged; the result is what `k` held before.
#[verifier::external_body]
pub(crate) fn fx_remove<V>(m: &mut FxHashMap<Key, V>, k: Key) -> (r: Option<V>)
    ensures
        final(m)@ == old(m)@.remove(k),
        r == (if old(m)@.contains_key(k) { Some(old(m)@[k]) } else { None }),
{
    m.remove(&k)
}

/// `HashMap::get` with the Fx hasher: a reference to the value under `k`,
/// or `None` where the map has no entry under `k`.
#[verifier::external_body]
pub(crate) fn fx_get<V>(m: &FxHashMap<Key, V>, k: Key) -> (r: Option<&V>)
    ensures
        r == (if m@.contains_key(k) { Some(&m@[k]) } else { None }),
{
    m.get(&k)
}

/// `HashMap::keys` with the Fx hasher, copied into a vector: every key of
/// the map once, in an order that nothing is said about.
#[verifier::external_body]
pub(crate) fn fx_keys<V>(m: &FxHashMap<Key, V>) -> (r: Vec<Key>)
    ensures
        r@.no_duplicates(),
        r@.to_set() == m@.dom(),
{
    m.keys().copied().collect()
}

/// `HashMap::len` with the Fx hasher: the number of entries.
#[verifier::external_body]
pub(crate) fn fx_len<V>(m: &FxHashMap<Key, V>) -> (r: usize)
    ensures
        r == m@.len(),
{
    m.len()
}

} // verus!
