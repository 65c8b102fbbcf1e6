//! The identity of a stored record.

use vstd::prelude::*;

verus! {

/// The key of an entity: its sole stable identity inside one table.
pub type Key = usize;

/// The largest key that a table, an overlay or a log holds. One value is
/// kept free above it, so that "the key after the highest one" always exists.
pub const MAX_KEY: usize = usize::MAX - 1;

} // verus!
