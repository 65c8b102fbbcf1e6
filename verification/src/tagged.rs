//! Values that carry the version tag they were last changed or computed
//! under.

use vstd::prelude::*;

use crate::apply_log::ApplyLog;
use crate::error::Error;
use crate::version::VersionTag;

verus! {

/// What has a version tag.
pub trait Tag {
    /// The tag, as a value.
    spec fn tag_spec(&self) -> VersionTag;

    /// The tag under which the value was last changed or computed.
    fn tag(&self) -> (t: VersionTag)
        ensures
            t == self.tag_spec(),
    ;
}

/// A value with its version tag. For a table the tag is that of the last
/// log replayed into it; for a derived value it is the combined tag of
/// what the value was computed from.
pub struct Tagged<T> {
    item: T,
    tag: VersionTag,
}

impl<T> Tagged<T> {
    /// The value, without its tag.
    pub closed spec fn item(&self) -> T {
        self.item
    }

    /// Gives `item` the tag `tag`.
    pub fn new(item: T, tag: VersionTag) -> (r: Self)
        ensures
            r.item() == item,
            r.tag_spec() == tag,
    {
        Tagged { item, tag }
    }

    /// The value.
    pub fn get(&self) -> (r: &T)
        ensures
            *r == self.item(),
    {
        &self.item
    }

    /// Replays `log` into the part under the tag `stamp`, for a caller that
    /// does not know whether the tag is newer than the one the part has.
    /// A tag that is not newer is refused, and the part stays as it is.
    pub fn apply_stamped(&mut self, log: T::Log, stamp: VersionTag) -> (r: Result<(), Error>) where T: ApplyLog
        requires
            old(self).item().accepts(log),
        ensures
            stamp@ > old(self).tag_spec()@ ==> r == Ok::<(), Error>(()) && (*old(self)).applied(
                (log, stamp),
                *final(self),
            ),
            stamp@ <= old(self).tag_spec()@ ==> r == Err::<(), Error>(Error::StaleTag) && *final(self) == *old(
                self,
            ),
    {
        if !stamp.newer_than(self.tag) {
            return Err(Error::StaleTag);
        }
        self.apply_log((log, stamp));
        Ok(())
    }

    /// Gives up the tag for the value.
    pub fn into_item(self) -> (r: T)
        ensures
            r == self.item(),
    {
        self.item
    }
}

/// A tagged part takes a log together with the tag that was issued for
/// it: the log is replayed into the part, and the part gets the tag. The
/// tag must be newer than the one the part has: tags never go back.
impl<A: ApplyLog> ApplyLog for Tagged<A> {
    type Log = (A::Log, VersionTag);

    open spec fn accepts(self, log: (A::Log, VersionTag)) -> bool {
        self.item().accepts(log.0) && log.1@ > self.tag_spec()@
    }

    open spec fn applied(self, log: (A::Log, VersionTag), after: Self) -> bool {
        self.item().applied(log.0, after.item()) && after.tag_spec() == log.1
    }

    fn apply_log(&mut self, log: (A::Log, VersionTag)) {
        self.item.apply_log(log.0);
        self.tag = log.1;
    }
}

impl<T> Tag for Tagged<T> {
    closed spec fn tag_spec(&self) -> VersionTag {
        self.tag
    }

    fn tag(&self) -> (t: VersionTag) {
        self.tag
    }
}

} // verus!
