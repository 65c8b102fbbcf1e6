//! Probing the handle of a backing store.

use vstd::prelude::*;

use crate::error::Error;

verus! {

/// A handle of a backing store that can be asked whether it works.
pub trait MyTrait {
    /// Tries the handle. A handle that does not work reports it, as a
    /// rule with [`Error::ClientInError`].
    fn test(&self) -> (r: Result<(), Error>);
}

/// The handle of a backing store that needs no connection, and so always
/// works.
pub struct Provider;

impl Provider {
    /// Hands out what the store provides: nothing, and never fails.
    pub fn provide(&self) -> (r: Result<(), Error>)
        ensures
            r == Ok::<(), Error>(()),
    {
        Ok(())
    }
}

impl MyTrait for Provider {
    /// Always succeeds.
    fn test(&self) -> (r: Result<(), Error>)
        ensures
            r == Ok::<(), Error>(()),
    {
        match self.provide() {
            Ok(()) => Ok(()),
            Err(_) => Err(Error::ClientInError),
        }
    }
}

} // verus!
