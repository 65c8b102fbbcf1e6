//! Version tags: the staleness markers of tables and derived values.

use vstd::prelude::*;

use crate::error::Error;

verus! {

/// A marker of how recent a value is. Tags are totally ordered, a tag
/// issued later is newer, and two values with equal tags are equally
/// recent. The tag of a value never goes back: whatever changes the value
/// gives it a newer tag.
#[derive(Debug, Clone, Copy, PartialEq, Eq, Structural)]
pub struct VersionTag {
    stamp: u128,
}

impl View for VersionTag {
    type V = nat;

    closed spec fn view(&self) -> nat {
        self.stamp as nat
    }
}

impl VersionTag {
    /// The tag with the number `n`.
    pub closed spec fn numbered(n: nat) -> VersionTag {
        VersionTag { stamp: n as u128 }
    }

    /// A tag is the tag with its number, and the tag with a number has
    /// that number as long as the number is one that a tag can have.
    pub proof fn lemma_numbered(n: nat)
        ensures
            n <= u128::MAX ==> VersionTag::numbered(n)@ == n,
            forall|t: VersionTag| #[trigger] t@ == n ==> t == VersionTag::numbered(n),
    {
    }

    /// The tag that no issued tag is older than.
    pub fn origin() -> (t: VersionTag)
        ensures
            t@ == 0,
    {
        VersionTag { stamp: 0 }
    }

    /// The tag with the number `value`: a tag that was issued before and
    /// kept as a number.
    pub fn new(value: u128) -> (t: VersionTag)
        ensures
            t@ == value,
            t == VersionTag::numbered(value as nat),
    {
        VersionTag { stamp: value }
    }

    /// The tag as a number; a newer tag has a greater one.
    pub fn value(&self) -> (r: u128)
        ensures
            r == self@,
    {
        self.stamp
    }

    /// Whether the tag was issued after `other`.
    pub fn newer_than(&self, other: VersionTag) -> (r: bool)
        ensures
            r == (self@ > other@),
    {
        self.stamp > other.stamp
    }

    /// Tags with the same number are the same tag.
    pub proof fn lemma_view_injective(a: VersionTag, b: VersionTag)
        ensures
            a@ == b@ <==> a == b,
    {
    }
}

/// The number of the combined tag of `tags`: the sum of their numbers, and
/// 0 where there is none.
pub open spec fn total(tags: Seq<VersionTag>) -> nat
    decreases tags.len(),
{
    if tags.len() == 0 {
        0
    } else {
        total(tags.drop_last()) + tags.last()@
    }
}

/// The total of the first tags is at most the total of all.
pub proof fn lemma_total_of_prefix(tags: Seq<VersionTag>, n: int)
    requires
        0 <= n <= tags.len(),
    ensures
        total(tags.take(n)) <= total(tags),
    decreases tags.len(),
{
    if n == tags.len() {
        assert(tags.take(n) =~= tags);
    } else {
        lemma_total_of_prefix(tags.drop_last(), n);
        assert(tags.drop_last().take(n) =~= tags.take(n));
    }
}

/// The combined tag is at least as new as each of the tags: it is not
/// older than anything that went into it.
pub proof fn lemma_total_covers(tags: Seq<VersionTag>, i: int)
    requires
        0 <= i < tags.len(),
    ensures
        tags[i]@ <= total(tags),
    decreases tags.len(),
{
    if i < tags.len() - 1 {
        lemma_total_covers(tags.drop_last(), i);
    }
}

/// What the total becomes when one of the tags gives way to another: it
/// changes by as much as that tag does.
pub proof fn lemma_total_of_update(tags: Seq<VersionTag>, i: int, t: VersionTag)
    requires
        0 <= i < tags.len(),
    ensures
        total(tags.update(i, t)) + tags[i]@ == total(tags) + t@,
    decreases tags.len(),
{
    let after = tags.update(i, t);
    if i == tags.len() - 1 {
        assert(after.drop_last() =~= tags.drop_last());
    } else {
        lemma_total_of_update(tags.drop_last(), i, t);
        assert(after.drop_last() =~= tags.drop_last().update(i, t));
    }
}

/// Every change of a dependency shows in the combined tag. Where any one
/// of the tags gives way to a newer tag, whatever the other tags are, the
/// combined tag is another than it was, and a newer one.
pub proof fn lemma_bump_changes_combined(tags: Seq<VersionTag>, i: int, bumped: VersionTag)
    requires
        0 <= i < tags.len(),
        bumped@ > tags[i]@,
    ensures
        total(tags.update(i, bumped)) > total(tags),
        total(tags.update(i, bumped)) != total(tags),
{
    lemma_total_of_update(tags, i, bumped);
}

/// What `combine` returns for `tags`: the tag whose number is their
/// total, or no tag where the total is past the greatest number that a
/// tag can have.
pub open spec fn combined(tags: Seq<VersionTag>) -> Result<VersionTag, Error> {
    if total(tags) <= u128::MAX {
        Ok(VersionTag::numbered(total(tags)))
    } else {
        Err(Error::VersionsExhausted)
    }
}

/// The combined tag is not older than any of the tags that went into it.
pub proof fn lemma_combined_covers(tags: Seq<VersionTag>, i: int)
    requires
        0 <= i < tags.len(),
        combined(tags).is_ok(),
    ensures
        tags[i]@ <= combined(tags).unwrap()@,
{
    lemma_total_covers(tags, i);
    VersionTag::lemma_numbered(total(tags));
}

/// A write to any one dependency moves the combined tag. Where one of
/// the tags gives way to a newer tag, whatever the other tags are, what
/// `combine` returns is not what it returned before; and where it
/// returns a tag, that tag is newer than the one before.
pub proof fn lemma_combined_rises(tags: Seq<VersionTag>, i: int, bumped: VersionTag)
    requires
        0 <= i < tags.len(),
        bumped@ > tags[i]@,
        combined(tags).is_ok(),
    ensures
        combined(tags.update(i, bumped)) != combined(tags),
        combined(tags.update(i, bumped)).is_ok() ==> combined(tags.update(i, bumped)).unwrap()@ > combined(
            tags,
        ).unwrap()@,
{
    lemma_bump_changes_combined(tags, i, bumped);
    VersionTag::lemma_numbered(total(tags));
    VersionTag::lemma_numbered(total(tags.update(i, bumped)));
}

/// Combines the tags of the values that a derived value was computed
/// from into the tag of the derived value: the tag whose number is the
/// sum of theirs. As tags only ever get newer, the combined tag gets newer
/// whenever one of the values does, whichever it is, and equal tags
/// combine into equal tags. Where the sum is past the greatest number that
/// a tag can have, there is no combined tag.
pub fn combine(tags: &[VersionTag]) -> (r: Result<VersionTag, Error>)
    ensures
        r == combined(tags@),
        r.is_ok() ==> forall|i: int| 0 <= i < tags@.len() ==> (#[trigger] tags@[i])@ <= r.unwrap()@,
        r.is_ok() ==> forall|i: int, t: VersionTag|
            0 <= i < tags@.len() && t@ > tags@[i]@ ==> (#[trigger] combined(tags@.update(i, t))) != r && (
            combined(tags@.update(i, t)).is_ok() ==> combined(tags@.update(i, t)).unwrap()@ > r.unwrap()@),
{
    proof {
        if combined(tags@).is_ok() {
            assert forall|i: int| 0 <= i < tags@.len() implies (#[trigger] tags@[i])@ <= combined(
                tags@,
            ).unwrap()@ by {
                lemma_combined_covers(tags@, i);
            }
            assert forall|i: int, t: VersionTag| 0 <= i < tags@.len() && t@ > tags@[i]@ implies (
            #[trigger] combined(tags@.update(i, t))) != combined(tags@) && (combined(
                tags@.update(i, t),
            ).is_ok() ==> combined(tags@.update(i, t)).unwrap()@ > combined(tags@).unwrap()@) by {
                lemma_combined_rises(tags@, i, t);
            }
        }
    }
    let mut sum: u128 = 0;
    let mut i: usize = 0;
    while i < tags.len()
        invariant
            i <= tags@.len(),
            sum == total(tags@.take(i as int)),
        decreases tags@.len() - i,
    {
        proof {
            assert(tags@.take(i + 1).drop_last() =~= tags@.take(i as int));
            assert(tags@.take(i + 1).last() == tags@[i as int]);
            lemma_total_of_prefix(tags@, i + 1);
        }
        let stamp = tags[i].value();
        if stamp > u128::MAX - sum {
            return Err(Error::VersionsExhausted);
        }
        sum = sum + stamp;
        i = i + 1;
    }
    assert(tags@.take(tags@.len() as int) =~= tags@);
    Ok(VersionTag::new(sum))
}

/// The source of version tags: it issues each tag once, each newer than
/// all it has issued before.
pub struct Version {
    last: u128,
}

impl View for Version {
    type V = nat;

    /// The number of the newest tag issued.
    closed spec fn view(&self) -> nat {
        self.last as nat
    }
}

impl Version {
    /// A source that has issued no tag yet.
    pub fn new() -> (v: Version)
        ensures
            v@ == 0,
    {
        Version { last: 0 }
    }

    /// A source that goes on after `tag`: every tag it issues is newer than
    /// `tag`.
    pub fn after(tag: VersionTag) -> (v: Version)
        ensures
            v@ == tag@,
    {
        Version { last: tag.value() }
    }

    /// The newest tag issued, or the origin where none was.
    pub fn current(&self) -> (t: VersionTag)
        ensures
            t@ == self@,
    {
        VersionTag { stamp: self.last }
    }

    /// Issues a tag: the one that follows the newest issued. When the
    /// numbers have run out, none is issued and the source stays as it is.
    pub fn bump(&mut self) -> (r: Result<VersionTag, Error>)
        ensures
            old(self)@ < u128::MAX ==> r.is_ok() && r.unwrap()@ == old(self)@ + 1 && final(self)@ == old(self)@ + 1,
            old(self)@ >= u128::MAX ==> r == Err::<VersionTag, Error>(Error::VersionsExhausted) && final(self)@
                == old(self)@,
    {
        if self.last == u128::MAX {
            return Err(Error::VersionsExhausted);
        }
        self.last = self.last + 1;
        Ok(VersionTag { stamp: self.last })
    }
}

} // verus!
