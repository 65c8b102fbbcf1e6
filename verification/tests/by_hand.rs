use storm::{
    ApplyLog, Begin, Commit, HashTable, Insert, Log, ReadOnly, Remove, Table, TableTransaction,
    VecTable,
};

struct Shop {
    users: VecTable<String>,
    orders: Option<HashTable<u32>>,
    motto: ReadOnly<String>,
}

#[derive(Default)]
struct ShopLog {
    users: Log<String>,
    orders: Option<Log<u32>>,
}

struct ShopTransaction<'a> {
    users: TableTransaction<'a, String, VecTable<String>>,
    orders: Option<TableTransaction<'a, u32, HashTable<u32>>>,
}

impl Shop {
    fn transaction(&self) -> ShopTransaction<'_> {
        ShopTransaction {
            users: self.users.transaction(),
            orders: self.orders.as_ref().map(|orders| orders.transaction()),
        }
    }

    fn apply_log(&mut self, log: ShopLog) {
        self.users.apply_log(log.users);
        self.orders.apply_log(log.orders);
    }
}

impl<'a> ShopTransaction<'a> {
    fn commit(self) -> ShopLog {
        ShopLog { users: self.users.commit(), orders: self.orders.commit() }
    }
}

#[test]
fn context_wired_by_hand_gives_each_table_its_part_of_the_log() {
    let mut orders = HashTable::new();
    assert_eq!(orders.insert(1, 10), Ok(None));
    let mut shop = Shop {
        users: VecTable::new(),
        orders: Some(orders),
        motto: ReadOnly::new("open".to_string()),
    };
    let mut trx = shop.transaction();
    assert_eq!(trx.users.insert(0, "ann".to_string()), Ok(()));
    assert_eq!(trx.orders.as_mut().unwrap().insert(7, 70), Ok(()));
    assert_eq!(trx.orders.as_mut().unwrap().remove(1), Ok(()));
    let log = trx.commit();
    assert_eq!(log.users.len(), 1);
    assert_eq!(log.orders.as_ref().unwrap().len(), 2);
    shop.apply_log(log);
    assert_eq!(shop.users.get(0), Some(&"ann".to_string()));
    assert_eq!(shop.orders.as_ref().unwrap().get(7), Some(&70));
    assert_eq!(shop.orders.as_ref().unwrap().get(1), None);
    assert_eq!(shop.motto.get(), &"open".to_string());
    shop.apply_log(ShopLog::default());
    assert_eq!(shop.users.keys(), vec![0]);
    assert_eq!(shop.orders.as_ref().unwrap().keys(), vec![7]);
}

#[test]
fn table_that_is_not_loaded_takes_no_part_in_the_transaction() {
    let shop = Shop {
        users: VecTable::new(),
        orders: None,
        motto: ReadOnly::new("closed".to_string()),
    };
    let trx = shop.transaction();
    assert!(trx.orders.is_none());
    let log = trx.commit();
    assert!(log.orders.is_none());
    assert!(log.users.is_empty());
}
