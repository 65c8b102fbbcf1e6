//! The cache slot of a derived value.

use vstd::prelude::*;

use crate::tagged::{Tag, Tagged};
use crate::error::Error;
use crate::version::{combine, combined, total, VersionTag};

verus! {

/// What a read finds in a slot when the combined tag of the dependencies
/// is `live`: the cached value where it was computed under that very tag,
/// nothing where the slot is empty or its value was computed under
/// another tag.
pub open spec fn fresh<T>(slot: Option<(T, VersionTag)>, live: VersionTag) -> Option<T> {
    match slot {
        Some((value, tag)) => if tag == live {
            Some(value)
        } else {
            None
        },
        None => None,
    }
}

/// The cache slot of one derived value: empty, or the value with the
/// combined tag of its dependencies at the time it was computed. The slot
/// never computes by itself: a read that finds it empty or stale computes
/// and fills it.
pub struct Accessor<T> {
    slot: Option<Tagged<T>>,
}

impl<T> View for Accessor<T> {
    type V = Option<(T, VersionTag)>;

    closed spec fn view(&self) -> Option<(T, VersionTag)> {
        match self.slot {
            Some(cached) => Some((cached.item(), cached.tag_spec())),
            None => None,
        }
    }
}

impl<T> Accessor<T> {
    /// An empty slot.
    pub fn new() -> (a: Self)
        ensures
            a@.is_none(),
    {
        Accessor { slot: None }
    }

    /// Empties the slot. The next read computes.
    pub fn clear(&mut self)
        ensures
            final(self)@.is_none(),
    {
        self.slot = None;
    }

    /// Fills the slot with `value`, computed under `tag`, in place of
    /// what it held.
    pub fn store(&mut self, value: T, tag: VersionTag)
        ensures
            final(self)@ == Some((value, tag)),
    {
        self.slot = Some(Tagged::new(value, tag));
    }

    /// The tag under which the cached value was computed, if there is one.
    pub fn cached_tag(&self) -> (r: Option<VersionTag>)
        ensures
            r == (match self@ {
                Some(cached) => Some(cached.1),
                None => None,
            }),
    {
        match &self.slot {
            Some(cached) => Some(cached.tag()),
            None => None,
        }
    }

    /// The cached value, where it is still fresh under `live`.
    pub fn get(&self, live: VersionTag) -> (r: Option<&T>)
        ensures
            r == (match fresh(self@, live) {
                Some(value) => Some(&value),
                None => None,
            }),
    {
        match &self.slot {
            Some(cached) => {
                if cached.tag() == live {
                    Some(cached.get())
                } else {
                    None
                }
            },
            None => None,
        }
    }

    /// Reads the derived value under the combined tag `live` of its
    /// dependencies. A cached value that is fresh under `live` is returned
    /// and `compute` is not called. Else `compute` is called once, and its
    /// result is cached under `live` and returned.
    pub fn get_or_init<F: FnOnce() -> T>(&mut self, live: VersionTag, compute: F) -> (r: &T)
        requires
            compute.requires(()),
        ensures
            match fresh(old(self)@, live) {
                Some(value) => *r == value && final(self)@ == old(self)@,
                None => compute.ensures((), *r) && final(self)@ == Some((*r, live)),
            },
    {
        let stale = match &self.slot {
            Some(cached) => cached.tag() != live,
            None => true,
        };
        if stale {
            self.slot = Some(Tagged::new(compute(), live));
        }
        self.slot.as_ref().unwrap().get()
    }

    /// Reads the derived value, given the tags of what it is computed
    /// from. The tags are combined into the live tag; a cached value that
    /// was computed under that very tag is returned and `compute` is not
    /// called; else `compute` is called once, and its result is cached
    /// under the live tag and returned. Where the tags have no combined
    /// tag, nothing is read and the slot stays as it is.
    pub fn read<F: FnOnce() -> T>(&mut self, tags: &[VersionTag], compute: F) -> (r: Result<&T, Error>)
        requires
            compute.requires(()),
        ensures
            match combined(tags@) {
                Ok(live) => match fresh(old(self)@, live) {
                    Some(value) => r == Ok::<&T, Error>(&value) && final(self)@ == old(self)@,
                    None => r matches Ok(value) && compute.ensures((), *value) && final(self)@ == Some(
                        (*value, live),
                    ),
                },
                Err(e) => r == Err::<&T, Error>(e) && final(self)@ == old(self)@,
            },
    {
        match combine(tags) {
            Ok(live) => Ok(self.get_or_init(live, compute)),
            Err(e) => Err(e),
        }
    }
}

/// A cached value is read back as long as the combined tag of its
/// dependencies is the one it was computed under, and is not read once
/// that tag has changed: the next read then computes anew.
pub proof fn lemma_cache_follows_tag<T>(value: T, tag: VersionTag, live: VersionTag)
    ensures
        fresh(Some((value, tag)), tag) == Some(value),
        live != tag ==> fresh(Some((value, tag)), live).is_none(),
        fresh(None::<(T, VersionTag)>, live).is_none(),
{
}

/// A change of one dependency makes the cached value stale. A value
/// cached under the combined tag of its dependencies is read back while
/// none of them changes; once any one of them gets a newer tag, whatever
/// the tags of the others are, the combined tag is another, and the value
/// is not read back: the next read computes anew.
pub proof fn lemma_bump_makes_stale<T>(
    value: T,
    tags: Seq<VersionTag>,
    i: int,
    bumped: VersionTag,
    before: VersionTag,
    after: VersionTag,
)
    requires
        0 <= i < tags.len(),
        bumped@ > tags[i]@,
        combined(tags) == Ok::<VersionTag, Error>(before),
        combined(tags.update(i, bumped)) == Ok::<VersionTag, Error>(after),
    ensures
        fresh(Some((value, before)), before) == Some(value),
        fresh(Some((value, before)), after).is_none(),
        after@ > before@,
{
    VersionTag::lemma_numbered(total(tags));
    VersionTag::lemma_numbered(total(tags.update(i, bumped)));
    crate::version::lemma_bump_changes_combined(tags, i, bumped);
    VersionTag::lemma_view_injective(before, after);
}

} // verus!
