//! Load once, hand out to all: the coordination of a lazily loaded value.
//!
//! A cell starts empty. The first caller that asks for the value is told
//! to load it; callers that ask while the load is under way are told to
//! wait and are remembered; when the load ends they are all handed back to
//! be woken. A load that fails leaves the cell empty, so that the next
//! caller loads again. The cell itself never loads or waits: it decides,
//! and its caller acts.

use vstd::prelude::*;

use crate::error::Error;

verus! {

/// What a caller that asked for the value has to do.
#[derive(Debug, Clone, Copy, PartialEq, Eq, Structural)]
pub enum Step {
    /// Load the value and report how the load ended.
    Load,
    /// Wait until woken, then ask again.
    Wait,
    /// The value is there.
    Ready,
}

/// A cell as a value.
pub enum CellState<T> {
    /// No value, and nobody loading.
    Empty,
    /// One caller is loading; these callers wait, first come first.
    Loading(Seq<usize>),
    /// The value.
    Ready(T),
}

impl<T> CellState<T> {
    /// A caller asks for the value.
    pub open spec fn request(self, caller: usize) -> (CellState<T>, Step) {
        match self {
            CellState::Empty => (CellState::Loading(Seq::empty()), Step::Load),
            CellState::Loading(waiters) => (CellState::Loading(waiters.push(caller)), Step::Wait),
            CellState::Ready(value) => (self, Step::Ready),
        }
    }

    /// The loader reports how the load ended. The result names the callers
    /// to wake; outside a load the report is refused.
    pub open spec fn complete(self, outcome: Result<T, Error>) -> (CellState<T>, Result<Seq<usize>, Error>) {
        match self {
            CellState::Loading(waiters) => match outcome {
                Ok(value) => (CellState::Ready(value), Ok(waiters)),
                Err(_) => (CellState::Empty, Ok(waiters)),
            },
            _ => (self, Err(Error::NotLoading)),
        }
    }

    /// The callers ask one after the other, and none reports in between.
    pub open spec fn requests(self, callers: Seq<usize>) -> (CellState<T>, Seq<Step>)
        decreases callers.len(),
    {
        if callers.len() == 0 {
            (self, Seq::empty())
        } else {
            let (before, steps) = self.requests(callers.drop_last());
            let (after, step) = before.request(callers.last());
            (after, steps.push(step))
        }
    }

    /// The value, where there is one.
    pub open spec fn value(self) -> Option<T> {
        match self {
            CellState::Ready(value) => Some(value),
            _ => None,
        }
    }
}

/// However many callers ask an empty cell for its value before the load
/// has ended, the first of them is told to load and every other is told
/// to wait, so the value is loaded once. The cell remembers the others in
/// the order in which they asked.
pub proof fn lemma_single_load<T>(callers: Seq<usize>)
    requires
        callers.len() > 0,
    ensures
        ({
            let (state, steps) = CellState::<T>::Empty.requests(callers);
            &&& steps.len() == callers.len()
            &&& steps[0] == Step::Load
            &&& forall|i: int| 1 <= i < steps.len() ==> steps[i] == Step::Wait
            &&& state == CellState::<T>::Loading(callers.drop_first())
        }),
    decreases callers.len(),
{
    let (state, steps) = CellState::<T>::Empty.requests(callers);
    if callers.len() == 1 {
        assert(callers.drop_last().len() == 0);
        assert(CellState::<T>::Empty.requests(callers.drop_last()) == (CellState::<T>::Empty, Seq::<Step>::empty()));
        assert(callers.drop_first() =~= Seq::<usize>::empty());
    } else {
        lemma_single_load::<T>(callers.drop_last());
        assert(callers.drop_last().drop_first().push(callers.last()) =~= callers.drop_first());
    }
}

/// When the load succeeds, the callers that waited are named to be woken,
/// and whoever asks from then on finds the loaded value: one and the same
/// for all. No later caller is told to load.
pub proof fn lemma_loaded_value_is_shared<T>(waiters: Seq<usize>, value: T, callers: Seq<usize>)
    ensures
        ({
            let (ready, woken) = CellState::<T>::Loading(waiters).complete(Ok(value));
            let (state, steps) = ready.requests(callers);
            &&& woken == Ok::<Seq<usize>, Error>(waiters)
            &&& state.value() == Some(value)
            &&& steps.len() == callers.len()
            &&& forall|i: int| 0 <= i < steps.len() ==> steps[i] == Step::Ready
        }),
    decreases callers.len(),
{
    if callers.len() > 0 {
        lemma_loaded_value_is_shared(waiters, value, callers.drop_last());
    }
}

/// When the load fails, the cell is empty again: the callers that waited
/// are named to be woken, and the next caller that asks is told to load.
pub proof fn lemma_failed_load_can_be_retried<T>(waiters: Seq<usize>, e: Error, caller: usize)
    ensures
        ({
            let (state, woken) = CellState::<T>::Loading(waiters).complete(Err(e));
            &&& woken == Ok::<Seq<usize>, Error>(waiters)
            &&& state == CellState::<T>::Empty
            &&& state.request(caller).1 == Step::Load
        }),
{
}

enum Slot<T> {
    Empty,
    Loading(Vec<usize>),
    Ready(T),
}

/// The cell of a lazily loaded value.
pub struct LoadCell<T> {
    slot: Slot<T>,
}

impl<T> View for LoadCell<T> {
    type V = CellState<T>;

    closed spec fn view(&self) -> CellState<T> {
        match self.slot {
            Slot::Empty => CellState::Empty,
            Slot::Loading(waiters) => CellState::Loading(waiters@),
            Slot::Ready(value) => CellState::Ready(value),
        }
    }
}

impl<T> LoadCell<T> {
    /// An empty cell.
    pub fn new() -> (cell: Self)
        ensures
            cell@ == CellState::<T>::Empty,
    {
        LoadCell { slot: Slot::Empty }
    }

    /// A cell that holds `value` from the start.
    pub fn ready(value: T) -> (cell: Self)
        ensures
            cell@ == CellState::Ready(value),
    {
        LoadCell { slot: Slot::Ready(value) }
    }

    /// The value, where it is loaded.
    pub fn get(&self) -> (r: Option<&T>)
        ensures
            r == (match self@.value() {
                Some(value) => Some(&value),
                None => None,
            }),
    {
        match &self.slot {
            Slot::Ready(value) => Some(value),
            _ => None,
        }
    }

    /// Whether a load is under way.
    pub fn is_loading(&self) -> (r: bool)
        ensures
            r == (self@ is Loading),
    {
        match &self.slot {
            Slot::Loading(_) => true,
            _ => false,
        }
    }

    /// The caller `caller` asks for the value and is told what to do. An
    /// empty cell tells it to load, and counts as loading from then on; a
    /// loading cell tells it to wait, and remembers it; a cell with its
    /// value tells it so.
    pub fn request(&mut self, caller: usize) -> (r: Step)
        ensures
            (final(self)@, r) == old(self)@.request(caller),
    {
        let mut slot = Slot::Empty;
        std::mem::swap(&mut self.slot, &mut slot);
        match slot {
            Slot::Empty => {
                let waiters: Vec<usize> = Vec::new();
                assert(waiters@ =~= Seq::<usize>::empty());
                self.slot = Slot::Loading(waiters);
                Step::Load
            },
            Slot::Loading(waiters) => {
                let mut waiters = waiters;
                waiters.push(caller);
                self.slot = Slot::Loading(waiters);
                Step::Wait
            },
            Slot::Ready(value) => {
                self.slot = Slot::Ready(value);
                Step::Ready
            },
        }
    }

    /// The loader reports how the load ended. On success the cell holds
    /// the value from now on; on failure it is empty again, and the next
    /// caller loads. Either way the result names the callers that waited,
    /// first come first: they are to be woken. A report that comes while
    /// no load is under way is refused and changes nothing.
    pub fn complete(&mut self, outcome: Result<T, Error>) -> (r: Result<Vec<usize>, Error>)
        ensures
            final(self)@ == old(self)@.complete(outcome).0,
            match old(self)@.complete(outcome).1 {
                Ok(waiters) => r.is_ok() && r.unwrap()@ == waiters,
                Err(e) => r == Err::<Vec<usize>, Error>(e),
            },
    {
        let mut slot = Slot::Empty;
        std::mem::swap(&mut self.slot, &mut slot);
        match slot {
            Slot::Loading(waiters) => {
                match outcome {
                    Ok(value) => {
                        self.slot = Slot::Ready(value);
                    },
                    Err(_) => {},
                }
                Ok(waiters)
            },
            Slot::Empty => Err(Error::NotLoading),
            Slot::Ready(value) => {
                self.slot = Slot::Ready(value);
                Err(Error::NotLoading)
            },
        }
    }

    /// The value, loaded now if need be, for a caller that can load on the
    /// spot. A cell with its value returns it and `load` is not called. An
    /// empty cell calls `load` once: on success it holds and returns the
    /// value, on failure it stays empty and returns the error. While
    /// another caller's load is under way the call is refused.
    pub fn get_or_load<F: FnOnce() -> Result<T, Error>>(&mut self, load: F) -> (r: Result<&T, Error>)
        requires
            load.requires(()),
        ensures
            match old(self)@ {
                CellState::Ready(value) => r == Ok::<&T, Error>(&value) && final(self)@ == old(self)@,
                CellState::Loading(_) => r == Err::<&T, Error>(Error::LoadInFlight) && final(self)@ == old(self)@,
                CellState::Empty => match r {
                    Ok(value) => load.ensures((), Ok(*value)) && final(self)@ == CellState::Ready(*value),
                    Err(e) => load.ensures((), Err(e)) && final(self)@ == CellState::<T>::Empty,
                },
            },
    {
        match &self.slot {
            Slot::Loading(_) => {
                return Err(Error::LoadInFlight);
            },
            Slot::Empty => {
                match load() {
                    Ok(value) => {
                        self.slot = Slot::Ready(value);
                    },
                    Err(e) => {
                        return Err(e);
                    },
                }
            },
            Slot::Ready(_) => {},
        }
        match self.get() {
            Some(value) => Ok(value),
            None => Err(Error::NotLoaded),
        }
    }
}

} // verus!
