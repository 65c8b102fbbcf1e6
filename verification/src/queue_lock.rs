//! Many readers, a queue of writers, one exclusive writer at a time: the
//! decisions of the lock around a context.
//!
//! A writer goes through three phases. It takes a ticket and waits in a
//! first-come-first-served queue. At the head of the queue it holds the
//! write slot: it reads the committed state, builds its transaction and
//! commits it into a log, and readers come and go meanwhile. Then it asks
//! for the exclusive phase, which it gets once no reader is left; it
//! replays its log and gives the slot up. The lock itself never waits: it
//! decides whether a request is granted now, and its caller waits and asks
//! again.

use vstd::prelude::*;

use crate::error::Error;

verus! {

/// A place in the queue of writers. Tickets are issued in ascending order.
pub type Ticket = u64;

/// The lock as a value.
pub struct LockState {
    /// The readers that hold the lock.
    pub readers: nat,
    /// The writers in the order in which they took their tickets. The
    /// first holds the write slot.
    pub queue: Seq<Ticket>,
    /// Whether the holder of the write slot is in its exclusive phase.
    pub writing: bool,
    /// The ticket that the next writer gets.
    pub next_ticket: nat,
}

impl LockState {
    /// A lock that nobody holds and whose first writer gets the ticket
    /// `first`.
    pub open spec fn unlocked(first: nat) -> LockState {
        LockState { readers: 0, queue: Seq::empty(), writing: false, next_ticket: first }
    }

    /// The queue is in ticket order, every ticket in it was issued, and
    /// the exclusive phase belongs to a writer and leaves no reader.
    pub open spec fn wf(self) -> bool {
        &&& forall|i: int, j: int| 0 <= i < j < self.queue.len() ==> self.queue[i] < self.queue[j]
        &&& forall|i: int| 0 <= i < self.queue.len() ==> (#[trigger] self.queue[i]) < self.next_ticket
        &&& self.writing ==> self.queue.len() > 0 && self.readers == 0
        &&& self.readers <= usize::MAX
        &&& self.next_ticket <= u64::MAX
    }

    /// Whether `ticket` holds the write slot.
    pub open spec fn holds_slot(self, ticket: Ticket) -> bool {
        self.queue.len() > 0 && self.queue[0] == ticket
    }

    /// A reader asks for the lock: granted unless a writer is in its
    /// exclusive phase.
    pub open spec fn acquire_read(self) -> (LockState, bool) {
        if self.writing || self.readers >= usize::MAX {
            (self, false)
        } else {
            (LockState { readers: self.readers + 1, ..self }, true)
        }
    }

    /// A reader gives the lock back.
    pub open spec fn release_read(self) -> (LockState, Result<(), Error>) {
        if self.readers == 0 {
            (self, Err(Error::NotHeld))
        } else {
            (LockState { readers: (self.readers - 1) as nat, ..self }, Ok(()))
        }
    }

    /// A writer takes a ticket and joins the end of the queue.
    pub open spec fn enqueue(self) -> (LockState, Result<Ticket, Error>) {
        if self.next_ticket >= u64::MAX {
            (self, Err(Error::TicketsExhausted))
        } else {
            (
                LockState {
                    queue: self.queue.push(self.next_ticket as Ticket),
                    next_ticket: self.next_ticket + 1,
                    ..self
                },
                Ok(self.next_ticket as Ticket),
            )
        }
    }

    /// The holder of the write slot asks for its exclusive phase: granted
    /// once no reader holds the lock.
    pub open spec fn begin_write(self, ticket: Ticket) -> (LockState, bool) {
        if self.holds_slot(ticket) && !self.writing && self.readers == 0 {
            (LockState { writing: true, ..self }, true)
        } else {
            (self, false)
        }
    }

    /// The writer ends its exclusive phase and leaves the queue. The slot
    /// passes to the writer behind it.
    pub open spec fn end_write(self, ticket: Ticket) -> (LockState, Result<(), Error>) {
        if self.holds_slot(ticket) && self.writing {
            (LockState { writing: false, queue: self.queue.drop_first(), ..self }, Ok(()))
        } else {
            (self, Err(Error::NotHeld))
        }
    }

    /// A writer that is not in its exclusive phase leaves the queue,
    /// wherever it stands. The others keep their order.
    pub open spec fn cancel(self, ticket: Ticket) -> (LockState, Result<(), Error>) {
        if self.queue.contains(ticket) && !(self.writing && self.holds_slot(ticket)) {
            (LockState { queue: self.queue.remove(self.queue.index_of(ticket)), ..self }, Ok(()))
        } else {
            (self, Err(Error::NotHeld))
        }
    }

    /// Every transition keeps a well-formed lock well formed.
    pub proof fn lemma_steps_keep_wf(self, ticket: Ticket)
        requires
            self.wf(),
        ensures
            self.acquire_read().0.wf(),
            self.release_read().0.wf(),
            self.enqueue().0.wf(),
            self.begin_write(ticket).0.wf(),
            self.end_write(ticket).0.wf(),
            self.cancel(ticket).0.wf(),
    {
        let q = self.queue;
        if self.next_ticket < u64::MAX {
            let grown = self.enqueue().0.queue;
            assert forall|i: int, j: int| 0 <= i < j < grown.len() implies grown[i] < grown[j] by {
                assert(grown[i] == q[i]);
            }
        }
        if self.holds_slot(ticket) && self.writing {
            let rest = self.end_write(ticket).0.queue;
            assert forall|i: int, j: int| 0 <= i < j < rest.len() implies rest[i] < rest[j] by {
                assert(rest[i] == q[i + 1] && rest[j] == q[j + 1]);
            }
            assert forall|i: int| 0 <= i < rest.len() implies (#[trigger] rest[i]) < self.next_ticket by {
                assert(rest[i] == q[i + 1]);
            }
        }
        if q.contains(ticket) && !(self.writing && self.holds_slot(ticket)) {
            let at = q.index_of(ticket);
            let rest = self.cancel(ticket).0.queue;
            assert forall|i: int, j: int| 0 <= i < j < rest.len() implies rest[i] < rest[j] by {
                let fi = if i < at { i } else { i + 1 };
                let fj = if j < at { j } else { j + 1 };
                assert(rest[i] == q[fi] && rest[j] == q[fj]);
            }
            assert forall|i: int| 0 <= i < rest.len() implies (#[trigger] rest[i]) < self.next_ticket by {
                let fi = if i < at { i } else { i + 1 };
                assert(rest[i] == q[fi]);
            }
            if self.writing {
                assert(at != 0);
                assert(rest.len() > 0);
            }
        }
    }
}

/// Readers and the exclusive phase shut each other out. While a reader
/// holds the lock no writer is granted its exclusive phase, so what the
/// reader sees does not change under it; while a writer is in its
/// exclusive phase no reader is granted the lock, so whoever reads after
/// the phase began reads after it ended.
pub proof fn lemma_readers_exclude_writing(lock: LockState, ticket: Ticket)
    requires
        lock.wf(),
    ensures
        lock.readers > 0 ==> !lock.writing && lock.begin_write(ticket) == (lock, false),
        lock.writing ==> lock.readers == 0 && lock.acquire_read() == (lock, false),
{
}

/// Building a transaction does not keep readers out: while no writer is
/// in its exclusive phase, whether or not one holds the write slot, a
/// reader is granted the lock.
pub proof fn lemma_queue_does_not_block_readers(lock: LockState)
    requires
        lock.wf(),
        !lock.writing,
        lock.readers < usize::MAX,
    ensures
        lock.acquire_read().1,
        lock.acquire_read().0.queue == lock.queue,
{
}

/// Writers are served in the order in which they took their tickets: a
/// writer holds the write slot only when no writer with an earlier
/// ticket is in the queue.
pub proof fn lemma_first_come_first_served(lock: LockState, earlier: Ticket, later: Ticket)
    requires
        lock.wf(),
        earlier < later,
        lock.queue.contains(earlier),
    ensures
        !lock.holds_slot(later),
{
    let i = lock.queue.index_of(earlier);
    if lock.holds_slot(later) && i > 0 {
        assert(lock.queue[0] < lock.queue[i]);
    }
}

/// A writer that leaves the queue does not disturb the order of those that
/// stay: two writers that both stay are in the queue afterwards, in the
/// order in which they were before.
pub proof fn lemma_cancel_keeps_order(lock: LockState, gone: Ticket, a: Ticket, b: Ticket)
    requires
        lock.wf(),
        lock.cancel(gone).1.is_ok(),
        lock.queue.contains(a),
        lock.queue.contains(b),
        a != gone,
        b != gone,
        a < b,
    ensures
        ({
            let rest = lock.cancel(gone).0.queue;
            &&& !rest.contains(gone)
            &&& rest.contains(a)
            &&& rest.contains(b)
            &&& rest.index_of(a) < rest.index_of(b)
        }),
{
    let q = lock.queue;
    let at = q.index_of(gone);
    let rest = lock.cancel(gone).0.queue;
    lock.lemma_steps_keep_wf(gone);
    let ia = q.index_of(a);
    let ib = q.index_of(b);
    let ra = if ia < at { ia } else { ia - 1 };
    let rb = if ib < at { ib } else { ib - 1 };
    assert(rest[ra] == a);
    assert(rest[rb] == b);
    if rest.contains(gone) {
        let g = rest.index_of(gone);
        let fg = if g < at { g } else { g + 1 };
        assert(q[fg] == gone);
        if fg < at {
            assert(q[fg] < q[at]);
        } else {
            assert(q[at] < q[fg]);
        }
    }
    let xa = rest.index_of(a);
    let xb = rest.index_of(b);
    if xa >= xb {
        if xa > xb {
            assert(rest[xb] < rest[xa]);
        }
    }
}

/// The lock around a context.
pub struct QueueLock {
    readers: usize,
    queue: Vec<Ticket>,
    writing: bool,
    next_ticket: u64,
}

impl View for QueueLock {
    type V = LockState;

    closed spec fn view(&self) -> LockState {
        LockState {
            readers: self.readers as nat,
            queue: self.queue@,
            writing: self.writing,
            next_ticket: self.next_ticket as nat,
        }
    }
}

impl QueueLock {
    /// A lock that nobody holds.
    pub fn new() -> (lock: Self)
        ensures
            lock@ == LockState::unlocked(0),
            lock@.wf(),
    {
        QueueLock::starting_at(0)
    }

    /// A lock that nobody holds and whose first writer gets the ticket
    /// `first`.
    pub fn starting_at(first: Ticket) -> (lock: Self)
        ensures
            lock@ == LockState::unlocked(first as nat),
            lock@.wf(),
    {
        let lock = QueueLock { readers: 0, queue: Vec::new(), writing: false, next_ticket: first };
        assert(lock@.queue =~= Seq::<Ticket>::empty());
        lock
    }

    /// The number of readers that hold the lock.
    pub fn readers(&self) -> (r: usize)
        ensures
            r == self@.readers,
    {
        self.readers
    }

    /// Whether a writer is in its exclusive phase.
    pub fn is_writing(&self) -> (r: bool)
        ensures
            r == self@.writing,
    {
        self.writing
    }

    /// The number of writers in the queue, the holder of the write slot
    /// among them.
    pub fn queued(&self) -> (r: usize)
        ensures
            r == self@.queue.len(),
    {
        self.queue.len()
    }

    /// Whether `ticket` holds the write slot.
    pub fn holds_slot(&self, ticket: Ticket) -> (r: bool)
        ensures
            r == self@.holds_slot(ticket),
    {
        self.queue.len() > 0 && self.queue[0] == ticket
    }

    /// A reader asks for the lock, and is told whether it has it.
    pub fn acquire_read(&mut self) -> (r: bool)
        requires
            old(self)@.wf(),
        ensures
            final(self)@.wf(),
            (final(self)@, r) == old(self)@.acquire_read(),
    {
        proof {
            self@.lemma_steps_keep_wf(0);
        }
        if self.writing || self.readers == usize::MAX {
            false
        } else {
            self.readers = self.readers + 1;
            true
        }
    }

    /// A reader gives the lock back. Refused where no reader holds it.
    pub fn release_read(&mut self) -> (r: Result<(), Error>)
        requires
            old(self)@.wf(),
        ensures
            final(self)@.wf(),
            (final(self)@, r) == old(self)@.release_read(),
    {
        proof {
            self@.lemma_steps_keep_wf(0);
        }
        if self.readers == 0 {
            Err(Error::NotHeld)
        } else {
            self.readers = self.readers - 1;
            Ok(())
        }
    }

    /// A writer takes a ticket and joins the end of the queue. In an empty
    /// queue it holds the write slot at once.
    pub fn enqueue(&mut self) -> (r: Result<Ticket, Error>)
        requires
            old(self)@.wf(),
        ensures
            final(self)@.wf(),
            (final(self)@, r) == old(self)@.enqueue(),
    {
        proof {
            self@.lemma_steps_keep_wf(0);
        }
        if self.next_ticket == u64::MAX {
            return Err(Error::TicketsExhausted);
        }
        let ticket = self.next_ticket;
        self.queue.push(ticket);
        self.next_ticket = ticket + 1;
        Ok(ticket)
    }

    /// The holder of the write slot asks for its exclusive phase, and is
    /// told whether it has it: it has once no reader holds the lock.
    pub fn begin_write(&mut self, ticket: Ticket) -> (r: bool)
        requires
            old(self)@.wf(),
        ensures
            final(self)@.wf(),
            (final(self)@, r) == old(self)@.begin_write(ticket),
    {
        proof {
            self@.lemma_steps_keep_wf(ticket);
        }
        if self.holds_slot(ticket) && !self.writing && self.readers == 0 {
            self.writing = true;
            true
        } else {
            false
        }
    }

    /// The writer ends its exclusive phase and leaves the queue; the slot
    /// passes to the writer behind it. Refused for a ticket that is not in
    /// its exclusive phase.
    pub fn end_write(&mut self, ticket: Ticket) -> (r: Result<(), Error>)
        requires
            old(self)@.wf(),
        ensures
            final(self)@.wf(),
            (final(self)@, r) == old(self)@.end_write(ticket),
    {
        proof {
            self@.lemma_steps_keep_wf(ticket);
        }
        if self.holds_slot(ticket) && self.writing {
            self.writing = false;
            let _ = self.queue.remove(0);
            assert(self.queue@ =~= old(self).queue@.drop_first());
            Ok(())
        } else {
            Err(Error::NotHeld)
        }
    }

    /// A writer gives up: it leaves the queue, wherever it stands, and
    /// the others keep their order. Refused for a ticket that is not in
    /// the queue, and for the writer in its exclusive phase.
    pub fn cancel(&mut self, ticket: Ticket) -> (r: Result<(), Error>)
        requires
            old(self)@.wf(),
        ensures
            final(self)@.wf(),
            (final(self)@, r) == old(self)@.cancel(ticket),
    {
        proof {
            self@.lemma_steps_keep_wf(ticket);
        }
        let mut i: usize = 0;
        while i < self.queue.len() && self.queue[i] != ticket
            invariant
                *self == *old(self),
                i <= self.queue@.len(),
                forall|j: int| 0 <= j < i ==> self.queue@[j] != ticket,
            decreases self.queue@.len() - i,
        {
            i = i + 1;
        }
        if i == self.queue.len() || (i == 0 && self.writing) {
            proof {
                if i < self.queue@.len() {
                    assert(self@.holds_slot(ticket));
                }
            }
            return Err(Error::NotHeld);
        }
        proof {
            assert(self.queue@[i as int] == ticket);
            assert(self.queue@.contains(ticket));
            let at = self.queue@.index_of(ticket);
            assert(at == i) by {
                if at < i {
                    assert(self.queue@[at] < self.queue@[i as int]);
                } else if at > i {
                    assert(self.queue@[i as int] < self.queue@[at]);
                }
            }
            if self.writing && self@.holds_slot(ticket) {
                assert(i == 0);
            }
        }
        let _ = self.queue.remove(i);
        Ok(())
    }
}

} // verus!
