use storm::{
    ApplyLog, Begin, Commit, Error, HashTable, Insert, InsertMut, Key, Log, Remove, State, Table,
    TableTransaction, Transaction, VecTable, MAX_KEY,
};

#[derive(Debug, Clone, PartialEq, Eq)]
struct User {
    name: String,
}

fn user(name: &str) -> User {
    User { name: name.to_string() }
}

#[test]
fn insert_then_remove_collapses_to_a_single_removal() {
    let mut users: VecTable<User> = VecTable::new();
    let mut trx = TableTransaction::new(&users);
    assert_eq!(trx.insert_mut(1, user("Test2")), Ok(1));
    assert_eq!(trx.get(1), Some(&user("Test2")));
    assert_eq!(trx.remove(1), Ok(()));
    assert_eq!(trx.get(1), None);
    let log = trx.commit();
    assert_eq!(log.len(), 1);
    assert_eq!(log.get(1), Some(&State::Remove));
    users.apply_log(log);
    assert_eq!(users.get(1), None);
    assert!(users.keys().is_empty());
}

#[test]
fn committed_insert_is_read_back_from_hash_table() {
    let mut table: HashTable<User> = HashTable::new();
    let mut trx = table.transaction();
    assert_eq!(trx.insert(42, user("a")), Ok(()));
    let log = trx.commit();
    assert_eq!(log.get(42), Some(&State::Insert(user("a"))));
    table.apply_log(log);
    assert_eq!(table.get(42), Some(&user("a")));
    assert_eq!(table.next_key(), 43);
}

#[test]
fn committed_insert_is_read_back_from_vec_table() {
    let mut table: VecTable<User> = VecTable::new();
    let mut trx = table.transaction();
    assert_eq!(trx.insert(4, user("d")), Ok(()));
    assert_eq!(trx.insert(0, user("a")), Ok(()));
    let log = trx.commit();
    table.apply_log(log);
    assert_eq!(table.get(4), Some(&user("d")));
    assert_eq!(table.get(0), Some(&user("a")));
    assert_eq!(table.keys(), vec![0, 4]);
    assert_eq!(table.next_key(), 5);
}

#[test]
fn second_insert_under_one_key_wins() {
    let mut table: HashTable<User> = HashTable::new();
    let mut trx = TableTransaction::new(&table);
    assert_eq!(trx.insert(3, user("first")), Ok(()));
    assert_eq!(trx.insert(3, user("second")), Ok(()));
    assert_eq!(trx.get(3), Some(&user("second")));
    let log = trx.commit();
    assert_eq!(log.len(), 1);
    assert_eq!(log.get(3), Some(&State::Insert(user("second"))));
    table.apply_log(log);
    assert_eq!(table.get(3), Some(&user("second")));
    assert_eq!(table.keys(), vec![3]);
}

#[test]
fn write_under_a_committed_key_is_an_update() {
    let mut table: HashTable<User> = HashTable::new();
    assert_eq!(table.insert(7, user("old")), Ok(None));
    let mut trx = TableTransaction::new(&table);
    assert_eq!(trx.get(7), Some(&user("old")));
    assert_eq!(trx.remove(7), Ok(()));
    assert_eq!(trx.get(7), None);
    assert_eq!(trx.insert(7, user("new")), Ok(()));
    assert_eq!(trx.get(7), Some(&user("new")));
    let log = trx.commit();
    assert_eq!(log.get(7), Some(&State::Update(user("new"))));
    table.apply_log(log);
    assert_eq!(table.get(7), Some(&user("new")));
}

#[test]
fn transaction_does_not_touch_the_table_until_applied() {
    let mut table: VecTable<User> = VecTable::new();
    assert_eq!(table.insert(1, user("kept")), Ok(None));
    {
        let mut trx = TableTransaction::new(&table);
        assert_eq!(trx.insert(1, user("changed")), Ok(()));
        assert_eq!(trx.insert(2, user("added")), Ok(()));
        assert_eq!(trx.get(1), Some(&user("changed")));
        assert_eq!(table.get(1), Some(&user("kept")));
        assert_eq!(table.get(2), None);
        let _log = trx.commit();
    }
    assert_eq!(table.get(1), Some(&user("kept")));
    assert_eq!(table.keys(), vec![1]);
}

#[test]
fn removing_an_absent_key_changes_nothing_on_apply() {
    let mut table: HashTable<User> = HashTable::new();
    assert_eq!(table.insert(1, user("kept")), Ok(None));
    let mut log: Log<User> = Log::new();
    assert_eq!(log.record(9, State::Remove), Ok(()));
    table.apply_log(log);
    assert_eq!(table.keys(), vec![1]);
    assert_eq!(table.get(1), Some(&user("kept")));
    assert_eq!(table.next_key(), 2);
}

#[test]
fn key_above_the_limit_is_refused() {
    let mut table: VecTable<User> = VecTable::new();
    assert_eq!(MAX_KEY, usize::MAX - 1);
    let big: Key = usize::MAX;
    {
        let mut trx = TableTransaction::new(&table);
        assert_eq!(trx.insert(big, user("x")), Err(Error::KeyOutOfRange));
        assert_eq!(trx.remove(big), Err(Error::KeyOutOfRange));
        assert!(trx.commit().is_empty());
    }
    assert_eq!(table.insert(big, user("x")), Err(Error::KeyOutOfRange));
    assert!(table.keys().is_empty());
    let mut hashed: HashTable<User> = HashTable::new();
    assert_eq!(hashed.insert(big, user("x")), Err(Error::KeyOutOfRange));
    assert_eq!(hashed.insert(MAX_KEY, user("y")), Ok(None));
    assert_eq!(hashed.next_key(), usize::MAX);
    let mut log: Log<User> = Log::new();
    assert_eq!(log.record(big, State::Remove), Err(Error::KeyOutOfRange));
    assert!(log.is_empty());
}

#[test]
fn insert_mut_takes_the_offered_key_or_the_next_unused_one() {
    let mut table: HashTable<User> = HashTable::new();
    assert_eq!(table.insert(10, user("ten")), Ok(None));
    let mut trx = TableTransaction::new(&table);
    assert_eq!(trx.insert_mut(3, user("three")), Ok(3));
    assert_eq!(trx.insert_mut(10, user("eleven")), Ok(11));
    assert_eq!(trx.insert_mut(3, user("twelve")), Ok(12));
    assert_eq!(trx.insert_mut(20, user("twenty")), Ok(20));
    assert_eq!(trx.insert_mut(20, user("twenty-one")), Ok(21));
    assert_eq!(trx.get(10), Some(&user("ten")));
    assert_eq!(trx.get(11), Some(&user("eleven")));
    let log = trx.commit();
    assert_eq!(log.len(), 5);
    let mut keys = log.keys();
    keys.sort();
    assert_eq!(keys, vec![3, 11, 12, 20, 21]);
    assert_eq!(log.get(12), Some(&State::Insert(user("twelve"))));
}

#[test]
fn insert_mut_fails_when_no_key_is_left() {
    let mut table: HashTable<User> = HashTable::new();
    assert_eq!(table.insert(MAX_KEY, user("last")), Ok(None));
    let mut trx = TableTransaction::new(&table);
    assert_eq!(trx.insert_mut(MAX_KEY, user("z")), Err(Error::KeysExhausted));
    assert_eq!(trx.insert_mut(usize::MAX, user("z")), Err(Error::KeysExhausted));
    assert_eq!(trx.insert_mut(5, user("z")), Ok(5));
    assert_eq!(trx.commit().len(), 1);
}

#[test]
fn insert_all_stops_at_the_first_failure_and_keeps_what_came_before() {
    let table: VecTable<User> = VecTable::new();
    let mut trx = TableTransaction::new(&table);
    let items = vec![(5, user("five")), (usize::MAX, user("bad")), (7, user("seven"))];
    assert_eq!(trx.insert_all(items), Err(Error::KeyOutOfRange));
    assert_eq!(trx.get(5), Some(&user("five")));
    assert_eq!(trx.get(7), None);
    let log = trx.commit();
    assert_eq!(log.keys(), vec![5]);
}

#[test]
fn insert_all_inserts_every_pair_in_order() {
    let table: VecTable<User> = VecTable::new();
    let mut trx = TableTransaction::new(&table);
    let items = vec![(1, user("a")), (2, user("b")), (1, user("c"))];
    assert_eq!(trx.insert_all(items), Ok(()));
    assert_eq!(trx.insert_all(Vec::new()), Ok(()));
    assert_eq!(trx.get(1), Some(&user("c")));
    assert_eq!(trx.get(2), Some(&user("b")));
    assert_eq!(trx.commit().len(), 2);
}

#[test]
fn insert_mut_all_gives_each_pair_a_key_of_its_own() {
    let table: VecTable<User> = VecTable::new();
    let mut trx = TableTransaction::new(&table);
    let items = vec![(0, user("a")), (0, user("b")), (0, user("c"))];
    assert_eq!(trx.insert_mut_all(items), Ok(()));
    assert_eq!(trx.get(0), Some(&user("a")));
    assert_eq!(trx.get(1), Some(&user("b")));
    assert_eq!(trx.get(2), Some(&user("c")));
    assert_eq!(trx.get(3), None);
}

#[test]
fn insert_mut_all_stops_when_keys_run_out() {
    let mut table: HashTable<User> = HashTable::new();
    assert_eq!(table.insert(MAX_KEY - 1, user("x")), Ok(None));
    let mut trx = TableTransaction::new(&table);
    let items = vec![
        (MAX_KEY - 1, user("a")),
        (MAX_KEY - 1, user("b")),
        (1, user("c")),
    ];
    assert_eq!(trx.insert_mut_all(items), Err(Error::KeysExhausted));
    assert_eq!(trx.get(MAX_KEY), Some(&user("a")));
    assert_eq!(trx.get(1), None);
    assert_eq!(trx.commit().len(), 1);
}

#[test]
fn remove_all_stops_at_the_first_failure_and_keeps_what_came_before() {
    let mut table: HashTable<User> = HashTable::new();
    for k in 0..4 {
        assert_eq!(table.insert(k, user("u")), Ok(None));
    }
    let mut trx = TableTransaction::new(&table);
    assert_eq!(trx.remove_all(vec![0, usize::MAX, 2]), Err(Error::KeyOutOfRange));
    assert_eq!(trx.get(0), None);
    assert_eq!(trx.get(2), Some(&user("u")));
    assert_eq!(trx.remove_all(vec![2, 3]), Ok(()));
    let log = trx.commit();
    assert_eq!(log.len(), 3);
    table.apply_log(log);
    assert_eq!(table.keys(), vec![1]);
}

#[test]
fn log_records_can_be_taken_out_one_by_one() {
    let mut log: Log<User> = Log::new();
    assert!(log.is_empty());
    assert_eq!(log.len(), 0);
    assert_eq!(log.record(1, State::Insert(user("a"))), Ok(()));
    assert_eq!(log.record(1, State::Update(user("b"))), Ok(()));
    assert_eq!(log.record(2, State::Remove), Ok(()));
    assert_eq!(log.len(), 2);
    assert!(!log.is_empty());
    assert_eq!(log.get(3), None);
    assert_eq!(log.take(1), Some(State::Update(user("b"))));
    assert_eq!(log.take(1), None);
    assert_eq!(log.keys(), vec![2]);
}

#[test]
fn state_tells_the_value_it_leaves() {
    let insert = State::Insert(user("a"));
    let update = State::Update(user("b"));
    let remove: State<User> = State::Remove;
    assert!(insert.is_upsert());
    assert!(update.is_upsert());
    assert!(!remove.is_upsert());
    assert_eq!(insert.as_value(), Some(&user("a")));
    assert_eq!(remove.as_value(), None);
    assert_eq!(update.into_value(), Some(user("b")));
    assert_eq!(remove.into_value(), None);
}
