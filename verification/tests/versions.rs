use storm::{
    clear_dependents, combine, Accessor, ApplyLog, Deps, Error, HashTable, Log, State, Table, Tag, Tagged, Version,
    VersionTag,
};

#[test]
fn source_issues_ever_newer_tags() {
    let mut version = Version::new();
    assert_eq!(version.current(), VersionTag::origin());
    let a = version.bump().unwrap();
    let b = version.bump().unwrap();
    assert_eq!(a.value(), 1);
    assert_eq!(b.value(), 2);
    assert!(b.newer_than(a));
    assert!(!a.newer_than(b));
    assert!(!a.newer_than(a));
    assert_eq!(version.current(), b);
}

#[test]
fn combined_tag_is_the_sum() {
    let mut version = Version::new();
    let a = version.bump().unwrap();
    let b = version.bump().unwrap();
    let c = version.bump().unwrap();
    assert_eq!(combine(&[]), Ok(VersionTag::origin()));
    assert_eq!(combine(&[a]), Ok(a));
    assert_eq!(combine(&[a, c, b]), Ok(VersionTag::new(6)));
    assert_eq!(combine(&[b, a]), Ok(VersionTag::new(3)));
    assert_eq!(combine(&[a, b]), combine(&[b, a]));
    assert_eq!(combine(&[b, a]).unwrap().value(), 3);
}

#[test]
fn bump_of_one_dependency_changes_the_combined_tag() {
    let mut version = Version::new();
    let users = version.bump().unwrap();
    let posts = version.bump().unwrap();
    let before = combine(&[users, posts]).unwrap();
    let users = version.bump().unwrap();
    let after = combine(&[users, posts]).unwrap();
    assert_ne!(before, after);
    assert!(after.newer_than(before));
}

#[test]
fn bump_below_the_newest_tag_changes_the_combined_tag_too() {
    let posts = VersionTag::new(5);
    let before = combine(&[VersionTag::new(1), posts]).unwrap();
    let after = combine(&[VersionTag::new(2), posts]).unwrap();
    assert_eq!(before.value(), 6);
    assert_eq!(after.value(), 7);
    assert!(after.newer_than(before));
    assert!(!posts.newer_than(before));
    assert!(!VersionTag::new(1).newer_than(before));
    let mut slot: Accessor<&str> = Accessor::new();
    slot.store("before the write", before);
    assert_eq!(slot.get(before), Some(&"before the write"));
    assert_eq!(slot.get(after), None);
    assert_eq!(slot.get_or_init(after, || "after the write"), &"after the write");
}

#[test]
fn tags_from_two_sources_combine_like_any_others() {
    let mut users = Version::new();
    let mut posts = Version::after(VersionTag::new(40));
    let u1 = users.bump().unwrap();
    let p1 = posts.bump().unwrap();
    let before = combine(&[u1, p1]).unwrap();
    let u2 = users.bump().unwrap();
    let after = combine(&[u2, p1]).unwrap();
    assert_eq!(before.value(), 42);
    assert_eq!(after.value(), 43);
    assert!(after.newer_than(before));
}

#[test]
fn tags_whose_sum_is_too_great_have_no_combined_tag() {
    let top = VersionTag::new(u128::MAX);
    assert_eq!(combine(&[top]), Ok(top));
    assert_eq!(combine(&[top, VersionTag::origin()]), Ok(top));
    assert_eq!(combine(&[top, VersionTag::new(1)]), Err(Error::VersionsExhausted));
    assert_eq!(combine(&[VersionTag::new(1), top, VersionTag::new(7)]), Err(Error::VersionsExhausted));
}

#[test]
fn read_combines_the_tags_and_computes_only_when_they_have_moved() {
    let users = VersionTag::new(1);
    let posts = VersionTag::new(5);
    let mut slot: Accessor<u32> = Accessor::new();
    let mut runs = 0;
    assert_eq!(
        slot.read(&[users, posts], || {
            runs += 1;
            10
        }),
        Ok(&10)
    );
    assert_eq!(
        slot.read(&[users, posts], || {
            runs += 1;
            11
        }),
        Ok(&10)
    );
    assert_eq!(runs, 1);
    assert_eq!(slot.cached_tag(), Some(VersionTag::new(6)));
    let users = VersionTag::new(2);
    assert_eq!(
        slot.read(&[users, posts], || {
            runs += 1;
            12
        }),
        Ok(&12)
    );
    assert_eq!(runs, 2);
    assert_eq!(slot.cached_tag(), Some(VersionTag::new(7)));
    assert_eq!(
        slot.read(&[VersionTag::new(u128::MAX), posts], || {
            runs += 1;
            13
        }),
        Err(Error::VersionsExhausted)
    );
    assert_eq!(runs, 2);
    assert_eq!(slot.get(VersionTag::new(7)), Some(&12));
}

#[test]
fn cached_value_is_kept_while_the_tag_stands_and_recomputed_when_it_moves() {
    let mut version = Version::new();
    let t1 = version.bump().unwrap();
    let mut slot: Accessor<Vec<u8>> = Accessor::new();
    assert_eq!(slot.get(t1), None);
    assert_eq!(slot.cached_tag(), None);
    let mut runs = 0;
    assert_eq!(
        slot.get_or_init(t1, || {
            runs += 1;
            vec![1, 2, 3]
        }),
        &vec![1, 2, 3]
    );
    assert_eq!(
        slot.get_or_init(t1, || {
            runs += 1;
            vec![9]
        }),
        &vec![1, 2, 3]
    );
    assert_eq!(runs, 1);
    assert_eq!(slot.get(t1), Some(&vec![1, 2, 3]));
    let t2 = version.bump().unwrap();
    assert_eq!(slot.get(t2), None);
    assert_eq!(slot.cached_tag(), Some(t1));
    assert_eq!(
        slot.get_or_init(t2, || {
            runs += 1;
            vec![4]
        }),
        &vec![4]
    );
    assert_eq!(runs, 2);
    assert_eq!(slot.cached_tag(), Some(t2));
    assert_eq!(slot.get(t1), None);
}

#[test]
fn cleared_slot_computes_on_the_next_read() {
    let tag = VersionTag::origin();
    let mut slot: Accessor<u32> = Accessor::new();
    slot.store(5, tag);
    assert_eq!(slot.get(tag), Some(&5));
    slot.clear();
    assert_eq!(slot.get(tag), None);
    assert_eq!(slot.get_or_init(tag, || 6), &6);
}

#[test]
fn tagged_table_takes_the_tag_of_the_log() {
    let mut version = Version::new();
    let mut table = Tagged::new(HashTable::<u32>::new(), version.current());
    assert_eq!(table.tag(), VersionTag::origin());
    let mut log: Log<u32> = Log::new();
    assert_eq!(log.record(1, State::Insert(10)), Ok(()));
    let stamp = version.bump().unwrap();
    table.apply_log((log, stamp));
    assert_eq!(table.tag(), stamp);
    assert_eq!(table.get().get(1), Some(&10));
    assert_eq!(table.into_item().keys(), vec![1]);
}

#[test]
fn registry_names_the_dependents_of_a_source() {
    let mut deps = Deps::new();
    assert_eq!(deps.dependents(1), Vec::<usize>::new());
    assert_eq!(deps.register(1, 10), Ok(()));
    assert_eq!(deps.register(1, 11), Ok(()));
    assert_eq!(deps.register(1, 10), Ok(()));
    assert_eq!(deps.register(2, 11), Ok(()));
    assert_eq!(deps.dependents(1), vec![10, 11]);
    assert_eq!(deps.dependents(2), vec![11]);
    assert_eq!(deps.dependents(10), Vec::<usize>::new());
    assert!(deps.depends(1, 11));
    assert!(!deps.depends(2, 10));
    assert!(!deps.depends(3, 10));
}

#[test]
fn self_dependency_is_refused() {
    let mut deps = Deps::new();
    assert_eq!(deps.register(4, 4), Err(Error::SelfDependency));
    assert_eq!(deps.dependents(4), Vec::<usize>::new());
    assert!(!deps.depends(4, 4));
}

#[test]
fn clearing_the_dependents_of_a_bumped_source_forces_recomputation() {
    let mut version = Version::new();
    let mut deps = Deps::new();
    assert_eq!(deps.register(0, 1), Ok(()));
    let mut slots: Vec<Accessor<usize>> = vec![Accessor::new(), Accessor::new()];
    let tag = version.bump().unwrap();
    assert_eq!(slots[1].get_or_init(tag, || 3), &3);
    for d in deps.dependents(0) {
        slots[d].clear();
    }
    assert_eq!(slots[1].get(tag), None);
    assert_eq!(slots[1].get_or_init(tag, || 4), &4);
}

#[test]
fn source_that_has_run_out_issues_no_tag() {
    let mut version = Version::after(VersionTag::new(u128::MAX - 1));
    let last = version.bump().unwrap();
    assert_eq!(last.value(), u128::MAX);
    assert_eq!(version.bump(), Err(Error::VersionsExhausted));
    assert_eq!(version.current(), last);
    assert_eq!(VersionTag::new(0), VersionTag::origin());
}

#[test]
fn log_with_a_stale_tag_is_refused() {
    let mut version = Version::new();
    let first = version.bump().unwrap();
    let second = version.bump().unwrap();
    let mut table = Tagged::new(HashTable::<u32>::new(), first);
    let mut log: Log<u32> = Log::new();
    assert_eq!(log.record(1, State::Insert(10)), Ok(()));
    assert_eq!(table.apply_stamped(log, first), Err(Error::StaleTag));
    assert_eq!(table.tag(), first);
    assert!(table.get().keys().is_empty());
    let mut log: Log<u32> = Log::new();
    assert_eq!(log.record(1, State::Insert(10)), Ok(()));
    assert_eq!(table.apply_stamped(log, second), Ok(()));
    assert_eq!(table.tag(), second);
    assert_eq!(table.get().get(1), Some(&10));
}

#[test]
fn only_the_slots_of_dependents_are_cleared() {
    let mut deps = Deps::new();
    assert_eq!(deps.register(0, 1), Ok(()));
    assert_eq!(deps.register(0, 3), Ok(()));
    assert_eq!(deps.register(0, 9), Ok(()));
    assert_eq!(deps.register(2, 0), Ok(()));
    let tag = VersionTag::new(5);
    let mut slots: Vec<Accessor<u32>> = Vec::new();
    for value in 0..4 {
        let mut slot = Accessor::new();
        slot.store(value, tag);
        slots.push(slot);
    }
    clear_dependents(&deps, 0, &mut slots);
    assert_eq!(slots.len(), 4);
    assert_eq!(slots[0].get(tag), Some(&0));
    assert_eq!(slots[1].get(tag), None);
    assert_eq!(slots[2].get(tag), Some(&2));
    assert_eq!(slots[3].get(tag), None);
    clear_dependents(&deps, 7, &mut slots);
    assert_eq!(slots[0].get(tag), Some(&0));
    clear_dependents(&deps, 2, &mut slots);
    assert_eq!(slots[0].get(tag), None);
    assert_eq!(slots[2].get(tag), Some(&2));
}
