use storm::{
    ApplyLog, Begin, Commit, Connected, Error, HashTable, Insert, LoadCell, MyTrait, Provider,
    ReadOnly, Remove, State, Table, Tagged, Tag, Transaction, TrxCell, VecTable, Version,
};

#[test]
fn context_of_two_tables_commits_and_applies_part_by_part() {
    let mut ctx: (HashTable<String>, VecTable<u32>) = (HashTable::new(), VecTable::new());
    assert_eq!(ctx.1.insert(0, 5), Ok(None));
    let mut trx = ctx.transaction();
    assert_eq!(trx.0.insert(8, "eight".to_string()), Ok(()));
    assert_eq!(trx.1.remove(0), Ok(()));
    assert_eq!(trx.1.insert(1, 6), Ok(()));
    let log = trx.commit();
    assert_eq!(log.0.len(), 1);
    assert_eq!(log.1.len(), 2);
    ctx.apply_log(log);
    assert_eq!(ctx.0.get(8), Some(&"eight".to_string()));
    assert_eq!(ctx.1.keys(), vec![1]);
    assert_eq!(ctx.1.get(1), Some(&6));
}

#[test]
fn untouched_part_commits_into_no_log() {
    let mut table: Option<HashTable<u32>> = Some(HashTable::new());
    let trx: Option<storm::TableTransaction<u32, HashTable<u32>>> = None;
    let log = trx.commit();
    assert!(log.is_none());
    table.apply_log(log);
    assert!(table.as_ref().unwrap().keys().is_empty());
    let mut log = storm::Log::new();
    assert_eq!(log.record(2, State::Insert(20)), Ok(()));
    table.apply_log(Some(log));
    assert_eq!(table.as_ref().unwrap().get(2), Some(&20));
}

#[test]
fn transaction_cell_begins_only_on_a_loaded_table() {
    let empty: LoadCell<VecTable<u32>> = LoadCell::new();
    let mut cell = TrxCell::<u32, VecTable<u32>>::new(&empty);
    assert_eq!(cell.begin(), Err(Error::NotLoaded));
    assert!(cell.get().is_none());
    assert!(cell.get_mut().is_none());
    assert!(cell.commit().is_none());
}

#[test]
fn transaction_cell_commits_what_was_written_through_it() {
    let mut table: VecTable<u32> = VecTable::new();
    assert_eq!(table.insert(0, 1), Ok(None));
    let loaded = LoadCell::ready(table);
    let mut cell = TrxCell::new(&loaded);
    assert!(cell.get().is_none());
    assert_eq!(cell.begin(), Ok(()));
    assert_eq!(cell.get_mut().unwrap().insert(3, 30), Ok(()));
    assert_eq!(cell.begin(), Ok(()));
    assert_eq!(cell.get().unwrap().get(3), Some(&30));
    assert_eq!(cell.get().unwrap().get(0), Some(&1));
    let log = cell.commit().unwrap();
    assert_eq!(log.keys(), vec![3]);
    let mut untouched = TrxCell::<u32, VecTable<u32>>::new(&loaded);
    assert!(untouched.get_mut().is_none());
    assert!(untouched.commit().is_none());
}

#[test]
fn connected_pairs_a_context_with_its_provider() {
    let connected = Connected::new(HashTable::<u32>::new(), Provider);
    assert_eq!(connected.by_ref().provider.test(), Ok(()));
    assert!(connected.by_ref().ctx.keys().is_empty());
    let (ctx, provider) = connected.into_parts();
    assert_eq!(provider.provide(), Ok(()));
    assert_eq!(ctx.next_key(), 0);
}

#[test]
fn provider_without_a_connection_always_works() {
    assert_eq!(Provider.test(), Ok(()));
    assert_eq!(Provider.provide(), Ok(()));
}

#[test]
fn read_only_part_passes_through_a_transaction_unchanged() {
    let mut ctx: (ReadOnly<String>, VecTable<u32>) = (ReadOnly::new("topic".to_string()), VecTable::new());
    let mut trx = ctx.transaction();
    assert_eq!(trx.0.get(), &"topic".to_string());
    assert_eq!(trx.1.insert(0, 1), Ok(()));
    let log = trx.commit();
    assert_eq!(log.0, ());
    ctx.apply_log(log);
    assert_eq!(ctx.0.get(), &"topic".to_string());
    assert_eq!(ctx.1.get(0), Some(&1));
}

#[test]
fn context_of_tagged_tables_takes_each_log_with_its_tag() {
    let mut version = Version::new();
    let mut ctx = (
        Tagged::new(HashTable::<u32>::new(), version.current()),
        Tagged::new(VecTable::<u32>::new(), version.current()),
    );
    let mut trx = (ctx.0.get().transaction(), ctx.1.get().transaction());
    assert_eq!(trx.0.insert(1, 10), Ok(()));
    assert_eq!(trx.1.insert(2, 20), Ok(()));
    let (users, posts) = trx.commit();
    let stamp = version.bump().unwrap();
    ctx.apply_log(((users, stamp), (posts, stamp)));
    assert_eq!(ctx.0.tag(), stamp);
    assert_eq!(ctx.1.tag(), stamp);
    assert_eq!(ctx.0.get().get(1), Some(&10));
    assert_eq!(ctx.1.get().get(2), Some(&20));
}
