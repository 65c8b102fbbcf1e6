//! The one-to-many index: which children each parent has.

use fxhash::FxHashMap;
use vstd::prelude::*;

use crate::buckets::Buckets;
use crate::fx::{fx_get, fx_insert, fx_remove};
use crate::key::Key;
use crate::log::{apply_changes, Log};
use crate::state::State;

verus! {

/// The children of `parent` under the links `links`, which give each
/// child its parent.
pub open spec fn children_of(links: Map<Key, Key>, parent: Key) -> Set<Key> {
    Set::new(|child: Key| links.contains_key(child) && links[child] == parent)
}

/// Whether any child has `parent` as its parent.
pub open spec fn has_children(links: Map<Key, Key>, parent: Key) -> bool {
    exists|child: Key| #[trigger] links.contains_key(child) && links[child] == parent
}

/// The links after one change to a child: `Some(parent)` gives the child
/// that parent, `None` takes the child out.
pub open spec fn link_one(links: Map<Key, Key>, child: Key, parent: Option<Key>) -> Map<Key, Key> {
    match parent {
        Some(p) => links.insert(child, p),
        None => links.remove(child),
    }
}

/// The links after the changes were made to them, first to last.
pub open spec fn link_all(links: Map<Key, Key>, changes: Seq<(Key, Option<Key>)>) -> Map<Key, Key>
    decreases changes.len(),
{
    if changes.len() == 0 {
        links
    } else {
        link_all(link_one(links, changes[0].0, changes[0].1), changes.drop_first())
    }
}

/// Whether no child is named twice in the changes.
pub open spec fn one_change_per_child(changes: Seq<(Key, Option<Key>)>) -> bool {
    forall|i: int, j: int| 0 <= i < j < changes.len() ==> changes[i].0 != changes[j].0
}

/// Whether the links are those of the table: the children are the keys of
/// the table, and each has the parent that `parent_of` finds in its
/// entity.
pub open spec fn agrees<E>(links: Map<Key, Key>, table: Map<Key, E>, parent_of: spec_fn(E) -> Key) -> bool {
    forall|c: Key|
        (#[trigger] links.contains_key(c) == table.contains_key(c)) && (table.contains_key(c) ==> links[c]
            == parent_of(table[c]))
}

/// Whether `changes` are what the log of a child table asks of an index:
/// one change for each key of the log and for no other, which gives a
/// child that the log writes the parent found in its entity and takes a
/// child that the log removes out.
pub open spec fn changes_follow<E>(
    changes: Seq<(Key, Option<Key>)>,
    log: Map<Key, State<E>>,
    parent_of: spec_fn(E) -> Key,
) -> bool {
    &&& one_change_per_child(changes)
    &&& forall|k: Key| log.contains_key(k) ==> exists|i: int| 0 <= i < changes.len() && (#[trigger] changes[i]).0 == k
    &&& forall|i: int|
        0 <= i < changes.len() ==> log.contains_key((#[trigger] changes[i]).0) && changes[i].1 == (match log[changes[i].0].value() {
            Some(v) => Some(parent_of(v)),
            None => None,
        })
}

/// What the links hold for one child after changes that name no child
/// twice: what the child's change gives it, and what the links held
/// before for a child that no change names.
pub proof fn lemma_link_all_at(links: Map<Key, Key>, changes: Seq<(Key, Option<Key>)>, c: Key)
    requires
        one_change_per_child(changes),
    ensures
        (forall|i: int| 0 <= i < changes.len() ==> (#[trigger] changes[i]).0 != c) ==> link_all(
            links,
            changes,
        ).contains_key(c) == links.contains_key(c) && (links.contains_key(c) ==> link_all(links, changes)[c]
            == links[c]),
        forall|i: int|
            0 <= i < changes.len() && (#[trigger] changes[i]).0 == c ==> link_all(links, changes).contains_key(
                c,
            ) == changes[i].1.is_some() && (changes[i].1.is_some() ==> link_all(links, changes)[c]
                == changes[i].1.unwrap()),
    decreases changes.len(),
{
    if changes.len() > 0 {
        let first = changes[0];
        let rest = changes.drop_first();
        let next = link_one(links, first.0, first.1);
        assert forall|i: int, j: int| 0 <= i < j < rest.len() implies rest[i].0 != rest[j].0 by {
            assert(rest[i] == changes[i + 1] && rest[j] == changes[j + 1]);
        }
        lemma_link_all_at(next, rest, c);
        if first.0 == c {
            assert forall|i: int| 0 <= i < rest.len() implies (#[trigger] rest[i]).0 != c by {
                assert(rest[i] == changes[i + 1]);
            }
            assert forall|i: int| 0 <= i < changes.len() && (#[trigger] changes[i]).0 == c implies i == 0 by {
                if i > 0 {
                    assert(changes[0].0 != changes[i].0);
                }
            }
        } else {
            assert forall|i: int| 0 <= i < changes.len() && (#[trigger] changes[i]).0 == c implies link_all(
                links,
                changes,
            ).contains_key(c) == changes[i].1.is_some() && (changes[i].1.is_some() ==> link_all(
                links,
                changes,
            )[c] == changes[i].1.unwrap()) by {
                assert(rest[i - 1] == changes[i]);
            }
            if forall|i: int| 0 <= i < changes.len() ==> (#[trigger] changes[i]).0 != c {
                assert forall|i: int| 0 <= i < rest.len() implies (#[trigger] rest[i]).0 != c by {
                    assert(rest[i] == changes[i + 1]);
                }
            }
        }
    }
}

/// The index keeps in step with its table. Where the links are those of
/// a child table, and the log of a transaction is replayed into the table
/// and the changes that the log asks for are made to the index, the links
/// are those of the table afterwards: under every parent the index lists
/// exactly the children that the table holds for it, and every child is
/// under one parent. This holds for parents and children of any size.
pub proof fn lemma_index_follows_table<E>(
    links: Map<Key, Key>,
    table: Map<Key, E>,
    log: Map<Key, State<E>>,
    changes: Seq<(Key, Option<Key>)>,
    parent_of: spec_fn(E) -> Key,
)
    requires
        agrees(links, table, parent_of),
        changes_follow(changes, log, parent_of),
    ensures
        agrees(link_all(links, changes), apply_changes(table, log), parent_of),
        forall|p: Key| #[trigger]
            children_of(link_all(links, changes), p) == Set::new(
                |c: Key| apply_changes(table, log).contains_key(c) && parent_of(apply_changes(table, log)[c]) == p,
            ),
{
    let after = link_all(links, changes);
    let rows = apply_changes(table, log);
    assert forall|c: Key|
        (#[trigger] after.contains_key(c) == rows.contains_key(c)) && (rows.contains_key(c) ==> after[c]
            == parent_of(rows[c])) by {
        lemma_link_all_at(links, changes, c);
        assert(links.contains_key(c) == table.contains_key(c));
        if log.contains_key(c) {
            let i = choose|i: int| 0 <= i < changes.len() && (#[trigger] changes[i]).0 == c;
            assert(changes[i].0 == c);
        } else {
            assert forall|i: int| 0 <= i < changes.len() implies (#[trigger] changes[i]).0 != c by {
                assert(log.contains_key(changes[i].0));
            }
        }
    }
    assert forall|p: Key| #[trigger]
        children_of(after, p) == Set::new(|c: Key| rows.contains_key(c) && parent_of(rows[c]) == p) by {
        assert forall|c: Key| children_of(after, p).contains(c) <==> (rows.contains_key(c) && parent_of(rows[c])
            == p) by {
            assert(after.contains_key(c) == rows.contains_key(c));
        }
        assert(children_of(after, p) =~= Set::new(|c: Key| rows.contains_key(c) && parent_of(rows[c]) == p));
    }
}

/// An index from parent keys to the keys of their children. It is kept up
/// to date change by change: a child that is linked, linked anew or
/// unlinked moves between two buckets, and no table is scanned. A parent
/// without children has no bucket.
///
/// The index stands for its links, the parent of each child. The buckets
/// hold the same links by parent, and `children` and `parents` are stated
/// over the links. Parents and children may be any keys: the buckets of
/// small parents are found without hashing, those of great ones by
/// hashing.
pub struct OneToMany {
    buckets: Buckets,
    parents: FxHashMap<Key, Key>,
}

impl View for OneToMany {
    type V = Map<Key, Key>;

    /// The links: each indexed child with its parent.
    closed spec fn view(&self) -> Map<Key, Key> {
        self.parents@
    }
}

impl OneToMany {
    /// The buckets hold exactly the links, each child once, and none is
    /// empty.
    pub closed spec fn wf(&self) -> bool {
        let buckets = self.buckets@;
        let links = self.parents@;
        &&& forall|c: Key| #[trigger]
            links.contains_key(c) ==> buckets.contains_key(links[c]) && buckets[links[c]].contains(c)
        &&& forall|p: Key, i: int|
            buckets.contains_key(p) && 0 <= i < buckets[p].len() ==> links.contains_key(
                #[trigger] buckets[p][i],
            ) && links[buckets[p][i]] == p
        &&& forall|p: Key| #[trigger]
            buckets.contains_key(p) ==> buckets[p].no_duplicates() && buckets[p].len() > 0
        &&& self.buckets.wf()
    }

    /// An index without links.
    pub fn new() -> (index: Self)
        ensures
            index.wf(),
            index@ == Map::<Key, Key>::empty(),
    {
        OneToMany { buckets: Buckets::new(), parents: FxHashMap::default() }
    }

    /// The parent of `child`, if the child is indexed.
    pub fn parent(&self, child: Key) -> (r: Option<Key>)
        ensures
            r == (if self@.contains_key(child) { Some(self@[child]) } else { None }),
    {
        match fx_get(&self.parents, child) {
            Some(p) => Some(*p),
            None => None,
        }
    }

    /// The children of `parent`, each once; `None` where it has none.
    pub fn children(&self, parent: Key) -> (r: Option<&Vec<Key>>)
        requires
            self.wf(),
        ensures
            r.is_some() == has_children(self@, parent),
            r.is_some() ==> r.unwrap()@.no_duplicates() && r.unwrap()@.to_set() == children_of(self@, parent),
    {
        let r = self.buckets.get(parent);
        proof {
            let buckets = self.buckets@;
            match r {
                Some(bucket) => {
                    assert(buckets.contains_key(parent));
                    assert(self@.contains_key(buckets[parent][0]));
                    assert forall|c: Key| bucket@.to_set().contains(c) <==> children_of(self@, parent).contains(
                        c,
                    ) by {
                        if bucket@.contains(c) {
                            let i = choose|i: int| 0 <= i < bucket@.len() && bucket@[i] == c;
                            assert(self@.contains_key(buckets[parent][i]));
                        }
                    }
                    assert(bucket@.to_set() =~= children_of(self@, parent));
                },
                None => {
                    if has_children(self@, parent) {
                        let c = choose|c: Key| #[trigger] self@.contains_key(c) && self@[c] == parent;
                        assert(self@.contains_key(c));
                    }
                },
            }
        }
        r
    }

    /// The parents that have children, in ascending order.
    pub fn parents(&self) -> (r: Vec<Key>)
        requires
            self.wf(),
        ensures
            forall|i: int, j: int| 0 <= i < j < r@.len() ==> r@[i] < r@[j],
            forall|p: Key| r@.contains(p) <==> has_children(self@, p),
    {
        let r = self.buckets.keys();
        proof {
            let buckets = self.buckets@;
            assert forall|p: Key| r@.contains(p) <==> has_children(self@, p) by {
                if buckets.contains_key(p) {
                    assert(self@.contains_key(buckets[p][0]));
                }
                if has_children(self@, p) {
                    let c = choose|c: Key| #[trigger] self@.contains_key(c) && self@[c] == p;
                    assert(self@.contains_key(c));
                }
            }
        }
        r
    }

    /// Takes an indexed child out of its parent's bucket; a bucket left
    /// empty goes.
    fn detach(&mut self, child: Key) -> (was: Key)
        requires
            old(self).wf(),
            old(self)@.contains_key(child),
        ensures
            final(self).wf(),
            final(self)@ == old(self)@.remove(child),
            was == old(self)@[child],
    {
        let ghost links = self.parents@;
        let ghost buckets = self.buckets@;
        let parent = match fx_remove(&mut self.parents, child) {
            Some(p) => p,
            None => 0,
        };
        assert(links.contains_key(child));
        assert(buckets.contains_key(parent));
        let mut bucket = match self.buckets.take(parent) {
            Some(b) => b,
            None => Vec::new(),
        };
        let ghost full = bucket@;
        assert(full == buckets[parent]);
        assert(full.contains(child));
        let mut i: usize = 0;
        while i < bucket.len() && bucket[i] != child
            invariant
                bucket@ == full,
                full.contains(child),
                i <= full.len(),
                forall|j: int| 0 <= j < i ==> full[j] != child,
            decreases full.len() - i,
        {
            i = i + 1;
        }
        assert(i < full.len()) by {
            let j = choose|j: int| 0 <= j < full.len() && full[j] == child;
            assert(j >= i);
        }
        let _ = bucket.remove(i);
        let ghost rest = bucket@;
        assert(rest == full.remove(i as int));
        proof {
            assert forall|j: int| 0 <= j < rest.len() implies #[trigger] rest[j] != child && full.contains(
                rest[j],
            ) by {
                if j < i {
                    assert(rest[j] == full[j]);
                } else {
                    assert(rest[j] == full[j + 1]);
                }
            }
            assert(rest.no_duplicates()) by {
                assert forall|a: int, b: int| 0 <= a < rest.len() && 0 <= b < rest.len() && a != b implies rest[a]
                    != rest[b] by {
                    let fa = if a < i { a } else { a + 1 };
                    let fb = if b < i { b } else { b + 1 };
                    assert(rest[a] == full[fa]);
                    assert(rest[b] == full[fb]);
                }
            }
            assert forall|x: Key| full.contains(x) && x != child implies rest.contains(x) by {
                let j = choose|j: int| 0 <= j < full.len() && full[j] == x;
                if j < i {
                    assert(rest[j] == x);
                } else {
                    assert(rest[j - 1] == x);
                }
            }
        }
        if bucket.len() > 0 {
            self.buckets.put(parent, bucket);
        }
        proof {
            let after = self.buckets@;
            let now = self.parents@;
            assert(now =~= links.remove(child));
            assert forall|c: Key| #[trigger] now.contains_key(c) implies after.contains_key(now[c])
                && after[now[c]].contains(c) by {
                assert(links.contains_key(c));
                if links[c] == parent {
                    assert(full.contains(c));
                    assert(rest.contains(c));
                }
            }
            assert forall|p: Key, j: int| after.contains_key(p) && 0 <= j < after[p].len() implies now.contains_key(
                #[trigger] after[p][j],
            ) && now[after[p][j]] == p by {
                if p == parent {
                    assert(rest[j] != child && full.contains(rest[j]));
                    let f = choose|f: int| 0 <= f < full.len() && full[f] == rest[j];
                    assert(links.contains_key(buckets[parent][f]));
                } else {
                    assert(links.contains_key(buckets[p][j]));
                }
            }
            assert forall|p: Key| #[trigger] after.contains_key(p) implies after[p].no_duplicates()
                && after[p].len() > 0 by {
                assert(buckets.contains_key(p));
            }
        }
        parent
    }

    /// Puts a child that is not indexed into the bucket of `parent`.
    fn attach(&mut self, child: Key, parent: Key)
        requires
            old(self).wf(),
            !old(self)@.contains_key(child),
        ensures
            final(self).wf(),
            final(self)@ == old(self)@.insert(child, parent),
    {
        let ghost links = self.parents@;
        let ghost buckets = self.buckets@;
        let mut bucket = match self.buckets.take(parent) {
            Some(b) => b,
            None => Vec::new(),
        };
        let ghost before = bucket@;
        bucket.push(child);
        let ghost grown = bucket@;
        self.buckets.put(parent, bucket);
        let _ = fx_insert(&mut self.parents, child, parent);
        proof {
            let after = self.buckets@;
            let now = self.parents@;
            assert(after =~= buckets.insert(parent, grown));
            assert(grown =~= before.push(child));
            assert(!before.contains(child)) by {
                if before.contains(child) {
                    let j = choose|j: int| 0 <= j < before.len() && before[j] == child;
                    assert(links.contains_key(buckets[parent][j]));
                }
            }
            assert(before.no_duplicates()) by {
                if buckets.contains_key(parent) {
                } else {
                    assert(before.len() == 0);
                }
            }
            assert(grown.no_duplicates());
            assert(grown[grown.len() - 1] == child);
            assert forall|c: Key| #[trigger] now.contains_key(c) implies after.contains_key(now[c])
                && after[now[c]].contains(c) by {
                if c == child {
                    assert(grown.contains(child));
                } else {
                    assert(links.contains_key(c));
                    if links[c] == parent {
                        let j = choose|j: int| 0 <= j < before.len() && before[j] == c;
                        assert(grown[j] == c);
                    }
                }
            }
            assert forall|p: Key, j: int| after.contains_key(p) && 0 <= j < after[p].len() implies now.contains_key(
                #[trigger] after[p][j],
            ) && now[after[p][j]] == p by {
                if p == parent {
                    if j < before.len() {
                        assert(grown[j] == before[j]);
                        assert(links.contains_key(buckets[parent][j]));
                    }
                } else {
                    assert(links.contains_key(buckets[p][j]));
                }
            }
            assert forall|p: Key| #[trigger] after.contains_key(p) implies after[p].no_duplicates()
                && after[p].len() > 0 by {
                if p != parent {
                    assert(buckets.contains_key(p));
                }
            }
        }
    }

    /// Makes `parent` the parent of `child`, whatever the two keys are. A
    /// child that had another parent leaves that parent's bucket first.
    pub fn link(&mut self, child: Key, parent: Key)
        requires
            old(self).wf(),
        ensures
            final(self).wf(),
            final(self)@ == old(self)@.insert(child, parent),
    {
        match self.parent(child) {
            Some(old_parent) => {
                if old_parent == parent {
                    assert(self@ =~= self@.insert(child, parent));
                    return ;
                }
                let _ = self.detach(child);
            },
            None => {},
        }
        self.attach(child, parent);
        assert(self@ =~= old(self)@.insert(child, parent));
    }

    /// The changes that a log of a child table asks of an index, one per
    /// key of the log and in no particular order: a child that the log
    /// writes gets the parent that `parent_of` finds in its entity, a child
    /// that the log removes gets none.
    pub fn changes_of<E, F: Fn(&E) -> Key>(log: &Log<E>, parent_of: F) -> (r: Vec<(Key, Option<Key>)>)
        requires
            forall|e: &E| #[trigger] parent_of.requires((e,)),
        ensures
            r@.len() == log@.dom().len(),
            forall|i: int, j: int| 0 <= i < j < r@.len() ==> r@[i].0 != r@[j].0,
            forall|k: Key| log@.contains_key(k) ==> exists|i: int| 0 <= i < r@.len() && #[trigger] r@[i].0 == k,
            forall|i: int|
                0 <= i < r@.len() ==> log@.contains_key((#[trigger] r@[i]).0) && match log@[r@[i].0].value() {
                    Some(v) => r@[i].1.is_some() && parent_of.ensures((&v,), r@[i].1.unwrap()),
                    None => r@[i].1.is_none(),
                },
    {
        let keys = log.keys();
        let mut out: Vec<(Key, Option<Key>)> = Vec::new();
        let mut i: usize = 0;
        while i < keys.len()
            invariant
                i <= keys@.len(),
                keys@.no_duplicates(),
                keys@.to_set() == log@.dom(),
                out@.len() == i,
                forall|e: &E| #[trigger] parent_of.requires((e,)),
                forall|j: int| 0 <= j < i ==> (#[trigger] out@[j]).0 == keys@[j],
                forall|j: int|
                    0 <= j < i ==> log@.contains_key((#[trigger] out@[j]).0) && match log@[out@[j].0].value() {
                        Some(v) => out@[j].1.is_some() && parent_of.ensures((&v,), out@[j].1.unwrap()),
                        None => out@[j].1.is_none(),
                    },
            decreases keys@.len() - i,
        {
            let k = keys[i];
            assert(keys@.to_set().contains(keys@[i as int]));
            let parent = match log.get(k) {
                Some(change) => match change.as_value() {
                    Some(v) => Some(parent_of(v)),
                    None => None,
                },
                None => None,
            };
            out.push((k, parent));
            i = i + 1;
        }
        proof {
            keys@.unique_seq_to_set();
            assert forall|k: Key| log@.contains_key(k) implies exists|i: int|
                0 <= i < out@.len() && #[trigger] out@[i].0 == k by {
                assert(keys@.to_set().contains(k));
                let j = choose|j: int| 0 <= j < keys@.len() && keys@[j] == k;
                assert(out@[j].0 == k);
            }
        }
        out
    }

    /// Brings the index up to date with the changes to a child table: each
    /// pair names a child and the parent it has now, or `None` where the
    /// child was removed. The changes are made first to last, and none can
    /// fail.
    pub fn apply(&mut self, changes: &Vec<(Key, Option<Key>)>)
        requires
            old(self).wf(),
        ensures
            final(self).wf(),
            final(self)@ == link_all(old(self)@, changes@),
    {
        let mut i: usize = 0;
        proof {
            assert(changes@.skip(0) =~= changes@);
        }
        while i < changes.len()
            invariant
                i <= changes@.len(),
                self.wf(),
                link_all(old(self)@, changes@) == link_all(self@, changes@.skip(i as int)),
            decreases changes@.len() - i,
        {
            let ghost rest = changes@.skip(i as int);
            proof {
                assert(rest[0] == changes@[i as int]);
                assert(rest.drop_first() =~= changes@.skip(i + 1));
            }
            let child = changes[i].0;
            match changes[i].1 {
                Some(p) => {
                    self.link(child, p);
                },
                None => {
                    let _ = self.unlink(child);
                },
            }
            i = i + 1;
        }
    }

    /// Replays the log of the child table into the index: a child that the
    /// log writes gets the parent that `parent_of` finds in its entity, a
    /// child that the log removes leaves the index, and every other child
    /// stays where it is. Like replaying into the table, this cannot fail.
    pub fn apply_log<E, F: Fn(&E) -> Key>(&mut self, log: &Log<E>, parent_of: F)
        requires
            old(self).wf(),
            forall|e: &E| #[trigger] parent_of.requires((e,)),
        ensures
            final(self).wf(),
            forall|c: Key|
                !log@.contains_key(c) ==> (#[trigger] final(self)@.contains_key(c)) == old(self)@.contains_key(c),
            forall|c: Key|
                !log@.contains_key(c) && old(self)@.contains_key(c) ==> (#[trigger] final(self)@[c]) == old(
                    self,
                )@[c],
            forall|c: Key| #[trigger]
                log@.contains_key(c) ==> (match log@[c].value() {
                    Some(v) => final(self)@.contains_key(c) && parent_of.ensures((&v,), final(self)@[c]),
                    None => !final(self)@.contains_key(c),
                }),
    {
        let changes = Self::changes_of(log, parent_of);
        self.apply(&changes);
        proof {
            assert forall|c: Key| !log@.contains_key(c) implies (#[trigger] self@.contains_key(c)) == old(
                self,
            )@.contains_key(c) by {
                lemma_link_all_at(old(self)@, changes@, c);
                assert forall|i: int| 0 <= i < changes@.len() implies (#[trigger] changes@[i]).0 != c by {
                    assert(log@.contains_key(changes@[i].0));
                }
            }
            assert forall|c: Key| !log@.contains_key(c) && old(self)@.contains_key(c) implies (
            #[trigger] self@[c]) == old(self)@[c] by {
                lemma_link_all_at(old(self)@, changes@, c);
                assert forall|i: int| 0 <= i < changes@.len() implies (#[trigger] changes@[i]).0 != c by {
                    assert(log@.contains_key(changes@[i].0));
                }
            }
            assert forall|c: Key| #[trigger] log@.contains_key(c) implies (match log@[c].value() {
                Some(v) => self@.contains_key(c) && parent_of.ensures((&v,), self@[c]),
                None => !self@.contains_key(c),
            }) by {
                lemma_link_all_at(old(self)@, changes@, c);
                let i = choose|i: int| 0 <= i < changes@.len() && (#[trigger] changes@[i]).0 == c;
                assert(changes@[i].0 == c);
            }
        }
    }

    /// Takes `child` out of the index and returns the parent it had. A
    /// child that is not indexed leaves the index as it was.
    pub fn unlink(&mut self, child: Key) -> (r: Option<Key>)
        requires
            old(self).wf(),
        ensures
            final(self).wf(),
            final(self)@ == old(self)@.remove(child),
            r == (if old(self)@.contains_key(child) { Some(old(self)@[child]) } else { None }),
    {
        match self.parent(child) {
            Some(_) => Some(self.detach(child)),
            None => {
                assert(self@ =~= self@.remove(child));
                None
            },
        }
    }
}

} // verus!
