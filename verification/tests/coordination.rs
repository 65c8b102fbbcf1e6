use storm::{CellState, Error, LoadCell, QueueLock, Step};

#[test]
fn first_caller_loads_and_the_others_wait() {
    let mut cell: LoadCell<String> = LoadCell::new();
    assert_eq!(cell.get(), None);
    assert!(!cell.is_loading());
    assert_eq!(cell.request(1), Step::Load);
    assert!(cell.is_loading());
    assert_eq!(cell.request(2), Step::Wait);
    assert_eq!(cell.request(3), Step::Wait);
    assert_eq!(cell.get(), None);
    assert_eq!(cell.complete(Ok("loaded".to_string())), Ok(vec![2, 3]));
    assert!(!cell.is_loading());
    assert_eq!(cell.request(2), Step::Ready);
    assert_eq!(cell.request(3), Step::Ready);
    assert_eq!(cell.request(4), Step::Ready);
    assert_eq!(cell.get(), Some(&"loaded".to_string()));
}

#[test]
fn failed_load_leaves_the_cell_empty_for_a_retry() {
    let mut cell: LoadCell<u32> = LoadCell::new();
    assert_eq!(cell.request(1), Step::Load);
    assert_eq!(cell.request(2), Step::Wait);
    assert_eq!(cell.complete(Err(Error::ProviderFailure)), Ok(vec![2]));
    assert_eq!(cell.get(), None);
    assert!(!cell.is_loading());
    assert_eq!(cell.request(2), Step::Load);
    assert_eq!(cell.complete(Ok(7)), Ok(Vec::new()));
    assert_eq!(cell.get(), Some(&7));
}

#[test]
fn report_outside_a_load_is_refused() {
    let mut cell: LoadCell<u32> = LoadCell::new();
    assert_eq!(cell.complete(Ok(1)), Err(Error::NotLoading));
    assert_eq!(cell.get(), None);
    let mut ready = LoadCell::ready(5);
    assert_eq!(ready.complete(Ok(6)), Err(Error::NotLoading));
    assert_eq!(ready.get(), Some(&5));
    assert_eq!(ready.request(1), Step::Ready);
}

#[test]
fn get_or_load_runs_the_loader_once() {
    let mut cell: LoadCell<u32> = LoadCell::new();
    let mut runs = 0;
    assert_eq!(
        cell.get_or_load(|| {
            runs += 1;
            Err(Error::ProviderFailure)
        }),
        Err(Error::ProviderFailure)
    );
    assert_eq!(cell.get(), None);
    assert_eq!(
        cell.get_or_load(|| {
            runs += 1;
            Ok(11)
        }),
        Ok(&11)
    );
    assert_eq!(
        cell.get_or_load(|| {
            runs += 1;
            Ok(12)
        }),
        Ok(&11)
    );
    assert_eq!(runs, 2);
}

#[test]
fn get_or_load_is_refused_while_another_caller_loads() {
    let mut cell: LoadCell<u32> = LoadCell::new();
    assert_eq!(cell.request(1), Step::Load);
    assert_eq!(cell.get_or_load(|| Ok(1)), Err(Error::LoadInFlight));
    assert!(cell.is_loading());
}

#[test]
fn cell_state_names_the_three_phases() {
    let empty: CellState<u32> = CellState::Empty;
    assert!(matches!(empty, CellState::Empty));
}

#[test]
fn readers_come_and_go_while_a_writer_holds_the_slot() {
    let mut lock = QueueLock::new();
    assert!(lock.acquire_read());
    let ticket = lock.enqueue().unwrap();
    assert_eq!(ticket, 0);
    assert!(lock.holds_slot(ticket));
    assert!(lock.acquire_read());
    assert_eq!(lock.readers(), 2);
    assert!(!lock.begin_write(ticket));
    assert_eq!(lock.release_read(), Ok(()));
    assert!(!lock.begin_write(ticket));
    assert_eq!(lock.release_read(), Ok(()));
    assert!(lock.begin_write(ticket));
    assert!(lock.is_writing());
    assert!(!lock.acquire_read());
    assert_eq!(lock.end_write(ticket), Ok(()));
    assert!(!lock.is_writing());
    assert!(lock.acquire_read());
    assert_eq!(lock.queued(), 0);
}

#[test]
fn writers_are_served_in_ticket_order() {
    let mut lock = QueueLock::new();
    let a = lock.enqueue().unwrap();
    let b = lock.enqueue().unwrap();
    let c = lock.enqueue().unwrap();
    assert_eq!((a, b, c), (0, 1, 2));
    assert!(lock.holds_slot(a));
    assert!(!lock.holds_slot(b));
    assert!(!lock.begin_write(b));
    assert!(lock.begin_write(a));
    assert!(!lock.begin_write(a));
    assert_eq!(lock.end_write(b), Err(Error::NotHeld));
    assert_eq!(lock.end_write(a), Ok(()));
    assert!(lock.holds_slot(b));
    assert!(lock.begin_write(b));
    assert_eq!(lock.end_write(b), Ok(()));
    assert!(lock.holds_slot(c));
    assert_eq!(lock.queued(), 1);
}

#[test]
fn cancelled_writer_leaves_the_order_of_the_others() {
    let mut lock = QueueLock::new();
    let a = lock.enqueue().unwrap();
    let b = lock.enqueue().unwrap();
    let c = lock.enqueue().unwrap();
    assert_eq!(lock.cancel(b), Ok(()));
    assert_eq!(lock.cancel(b), Err(Error::NotHeld));
    assert_eq!(lock.queued(), 2);
    assert!(lock.holds_slot(a));
    assert_eq!(lock.cancel(a), Ok(()));
    assert!(lock.holds_slot(c));
    assert!(lock.begin_write(c));
    assert_eq!(lock.cancel(c), Err(Error::NotHeld));
    assert_eq!(lock.end_write(c), Ok(()));
    assert_eq!(lock.cancel(99), Err(Error::NotHeld));
    assert_eq!(lock.queued(), 0);
}

#[test]
fn lock_refuses_a_release_that_nobody_holds() {
    let mut lock = QueueLock::new();
    assert_eq!(lock.release_read(), Err(Error::NotHeld));
    assert_eq!(lock.end_write(0), Err(Error::NotHeld));
    assert!(!lock.begin_write(0));
    assert!(!lock.holds_slot(0));
    assert_eq!(lock.readers(), 0);
}

#[test]
fn lock_that_has_run_out_of_tickets_issues_none() {
    let mut lock = QueueLock::starting_at(u64::MAX - 1);
    assert_eq!(lock.enqueue(), Ok(u64::MAX - 1));
    assert_eq!(lock.enqueue(), Err(Error::TicketsExhausted));
    assert_eq!(lock.queued(), 1);
    assert!(lock.holds_slot(u64::MAX - 1));
}

#[test]
fn readers_are_counted() {
    let mut lock = QueueLock::new();
    for _ in 0..3 {
        assert!(lock.acquire_read());
    }
    assert_eq!(lock.readers(), 3);
    for _ in 0..3 {
        assert_eq!(lock.release_read(), Ok(()));
    }
    assert_eq!(lock.release_read(), Err(Error::NotHeld));
}
