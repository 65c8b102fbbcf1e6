use storm::{load_rows, replay, Error, HashTable, Log, State, Table, VecTable, MAX_KEY};

fn row(k: usize) -> String {
    format!("row{}", k)
}

#[test]
fn vec_table_removal_leaves_other_keys_in_place() {
    let mut table: VecTable<String> = VecTable::new();
    let n: usize = 6;
    for k in 0..n {
        assert_eq!(table.insert(k, row(k)), Ok(None));
    }
    assert_eq!(table.remove(2), Some(row(2)));
    assert_eq!(table.keys(), vec![0, 1, 3, 4, 5]);
    for k in 3..n {
        assert_eq!(table.get(k), Some(&row(k)));
    }
    assert_eq!(table.get(2), None);
    assert_eq!(table.next_key(), n);
    assert_eq!(table.remove(2), None);
    assert_eq!(table.remove(100), None);
    assert_eq!(table.keys(), vec![0, 1, 3, 4, 5]);
}

#[test]
fn vec_table_grows_to_the_highest_key() {
    let mut table: VecTable<String> = VecTable::new();
    assert_eq!(table.next_key(), 0);
    assert_eq!(table.insert(9, row(9)), Ok(None));
    assert_eq!(table.next_key(), 10);
    assert_eq!(table.insert(3, row(3)), Ok(None));
    assert_eq!(table.next_key(), 10);
    assert_eq!(table.insert(9, "again".to_string()), Ok(Some(row(9))));
    assert_eq!(table.keys(), vec![3, 9]);
    assert_eq!(table.get(9), Some(&"again".to_string()));
    assert_eq!(table.get(4), None);
    assert_eq!(table.get(10), None);
    assert_eq!(table.remove(9), Some("again".to_string()));
    assert_eq!(table.next_key(), 10);
}

#[test]
fn hash_table_holds_what_was_inserted() {
    let mut table: HashTable<String> = HashTable::new();
    assert!(table.keys().is_empty());
    assert_eq!(table.insert(1000, row(1000)), Ok(None));
    assert_eq!(table.insert(5, row(5)), Ok(None));
    assert_eq!(table.insert(5, "new".to_string()), Ok(Some(row(5))));
    assert_eq!(table.get(5), Some(&"new".to_string()));
    assert_eq!(table.get(1000), Some(&row(1000)));
    assert_eq!(table.get(6), None);
    let mut keys = table.keys();
    keys.sort();
    assert_eq!(keys, vec![5, 1000]);
    assert_eq!(table.next_key(), 1001);
    assert_eq!(table.remove(5), Some("new".to_string()));
    assert_eq!(table.remove(5), None);
    assert_eq!(table.keys(), vec![1000]);
    assert_eq!(table.next_key(), 1001);
}

#[test]
fn fetch_reports_a_missing_entity() {
    let mut table: HashTable<String> = HashTable::new();
    assert_eq!(table.insert(1, row(1)), Ok(None));
    assert_eq!(table.fetch(1), Ok(&row(1)));
    assert_eq!(table.fetch(2), Err(Error::EntityNotFound));
    let vec_table: VecTable<String> = VecTable::new();
    assert_eq!(vec_table.fetch(0), Err(Error::EntityNotFound));
}

#[test]
fn load_rows_stores_every_row_and_the_later_of_two_wins() {
    let mut table: VecTable<String> = VecTable::new();
    let rows = vec![(2, row(2)), (0, row(0)), (2, "later".to_string())];
    assert_eq!(load_rows(&mut table, rows), Ok(()));
    assert_eq!(table.keys(), vec![0, 2]);
    assert_eq!(table.get(2), Some(&"later".to_string()));
    assert_eq!(table.next_key(), 3);
}

#[test]
fn load_rows_stores_nothing_when_a_key_is_out_of_range() {
    let mut table: HashTable<String> = HashTable::new();
    assert_eq!(table.insert(1, row(1)), Ok(None));
    let rows = vec![(2, row(2)), (usize::MAX, row(0)), (3, row(3))];
    assert_eq!(load_rows(&mut table, rows), Err(Error::KeyOutOfRange));
    assert_eq!(table.keys(), vec![1]);
    assert_eq!(table.next_key(), 2);
    assert_eq!(load_rows(&mut table, vec![(MAX_KEY, row(9))]), Ok(()));
    assert_eq!(table.next_key(), usize::MAX);
}

#[test]
fn replay_upserts_and_deletes() {
    let mut table: HashTable<String> = HashTable::new();
    assert_eq!(table.insert(1, row(1)), Ok(None));
    assert_eq!(table.insert(2, row(2)), Ok(None));
    let mut log: Log<String> = Log::new();
    assert_eq!(log.record(1, State::Update("one".to_string())), Ok(()));
    assert_eq!(log.record(2, State::Remove), Ok(()));
    assert_eq!(log.record(3, State::Insert("three".to_string())), Ok(()));
    assert_eq!(log.record(4, State::Update("four".to_string())), Ok(()));
    assert_eq!(log.record(5, State::Remove), Ok(()));
    replay(&mut table, log);
    let mut keys = table.keys();
    keys.sort();
    assert_eq!(keys, vec![1, 3, 4]);
    assert_eq!(table.get(1), Some(&"one".to_string()));
    assert_eq!(table.get(3), Some(&"three".to_string()));
    assert_eq!(table.get(4), Some(&"four".to_string()));
    assert_eq!(table.next_key(), 5);
}

#[test]
fn entries_pair_each_key_with_its_entity() {
    let mut table: VecTable<String> = VecTable::new();
    assert_eq!(table.insert(4, row(4)), Ok(None));
    assert_eq!(table.insert(1, row(1)), Ok(None));
    assert_eq!(table.insert(2, row(2)), Ok(None));
    assert_eq!(table.remove(2), Some(row(2)));
    assert_eq!(table.entries(), vec![(1, &row(1)), (4, &row(4))]);
    let mut hashed: HashTable<String> = HashTable::new();
    assert!(hashed.entries().is_empty());
    assert_eq!(hashed.insert(9, row(9)), Ok(None));
    assert_eq!(hashed.entries(), vec![(9, &row(9))]);
}

#[test]
fn default_log_is_empty() {
    let log: Log<String> = Log::default();
    assert!(log.is_empty());
    assert_eq!(log.len(), 0);
    assert_eq!(log.keys(), Vec::<usize>::new());
}
