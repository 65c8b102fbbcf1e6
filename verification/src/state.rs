//! The change that a transaction records for one key.

use vstd::prelude::*;

verus! {

/// One change to the entity under a key. An overlay and a log hold at most
/// one of these per key.
#[derive(Debug, PartialEq, Eq)]
pub enum State<E> {
    /// The key was free and now holds the value.
    Insert(E),
    /// The key was taken and now holds the value.
    Update(E),
    /// The key holds nothing any more.
    Remove,
}

impl<E> State<E> {
    /// The value that the key holds once the change is applied.
    pub open spec fn value(self) -> Option<E> {
        match self {
            State::Insert(v) => Some(v),
            State::Update(v) => Some(v),
            State::Remove => None,
        }
    }

    /// Whether the change leaves a value under the key.
    pub fn is_upsert(&self) -> (r: bool)
        ensures
            r == self.value().is_some(),
    {
        match self {
            State::Insert(_) => true,
            State::Update(_) => true,
            State::Remove => false,
        }
    }

    /// The value that the change leaves under the key, if any.
    pub fn as_value(&self) -> (r: Option<&E>)
        ensures
            r == (match self.value() {
                Some(v) => Some(&v),
                None => None,
            }),
    {
        match self {
            State::Insert(v) => Some(v),
            State::Update(v) => Some(v),
            State::Remove => None,
        }
    }

    /// Gives up the change for the value that it leaves under the key.
    pub fn into_value(self) -> (r: Option<E>)
        ensures
            r == self.value(),
    {
        match self {
            State::Insert(v) => Some(v),
            State::Update(v) => Some(v),
            State::Remove => None,
        }
    }
}

} // verus!
