//! The failures that the store reports.

use vstd::prelude::*;

verus! {

/// What went wrong in an operation of the store. No operation drops data
/// silently: each either takes effect or returns one of these.
#[derive(Debug, Clone, Copy, PartialEq, Eq, Structural)]
pub enum Error {
    /// The key is above [`crate::key::MAX_KEY`].
    KeyOutOfRange,
    /// A key had to be generated and none is left below the limit.
    KeysExhausted,
    /// A version tag had to be issued and the numbers have run out.
    VersionsExhausted,
    /// A log came with a tag that is not newer than the tag of what it is
    /// to be replayed into.
    StaleTag,
    /// A derived value was declared to depend on itself.
    SelfDependency,
    /// The end of a load was reported to a cell that was not loading.
    NotLoading,
    /// The value is being loaded by another caller.
    LoadInFlight,
    /// The lock was given back, or a phase ended, by one who did not hold it.
    NotHeld,
    /// A writer asked for a ticket and the numbers have run out.
    TicketsExhausted,
    /// A transaction was to begin on a table that is not loaded.
    NotLoaded,
    /// A context was declared otherwise than as a struct with named fields.
    NamedFieldsExpected,
    /// A field of a context was declared without a name.
    UnnamedField,
    /// An index was declared as a function without a return value.
    IndexWithoutValue,
    /// An index was declared as a method.
    ReceiverNotExpected,
    /// A lookup that needs the entity found none under the key.
    EntityNotFound,
    /// The backing store failed to load or to persist.
    ProviderFailure,
    /// The client of the backing store is in a failed state.
    ClientInError,
}

} // verus!
