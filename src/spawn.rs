//! Join/abort handle over a background computation.
use vstd::prelude::*;

use crate::Attempt;

verus! {

/// The computation did not run to completion: it was cancelled.
#[derive(Debug, PartialEq, Eq)]
#[non_exhaustive]
pub struct JoinError {}

impl JoinError {
    /// Creates the error that reports a cancelled computation.
    pub fn cancelled() -> (e: Self) {
        JoinError {}
    }

    /// Whether the computation was cancelled; the only cause there is.
    pub fn is_cancelled(&self) -> (r: bool)
        ensures
            r,
    {
        true
    }
}

/// The result slot of a handle.
#[derive(Debug)]
pub enum Slot<T> {
    /// No outcome recorded yet.
    Empty,
    /// An outcome was recorded and not yet taken by a join.
    Filled(Result<T, JoinError>),
    /// The outcome was recorded and then taken by a join.
    Taken,
}

/// The slot after an attempt to record `outcome`: only the first outcome
/// is kept.
pub open spec fn recorded<T>(slot: Slot<T>, outcome: Result<T, JoinError>) -> Slot<T> {
    match slot {
        Slot::Empty => Slot::Filled(outcome),
        _ => slot,
    }
}

/// Shared state between a spawned computation and whoever joins on it.
///
/// The outcome is written once: by the computation when it completes, or
/// as a cancellation by `abort`, whichever comes first.
pub struct JoinHandle<T> {
    slot: Slot<T>,
    waiting: bool,
}

impl<T> JoinHandle<T> {
    pub closed spec fn slot(&self) -> Slot<T> {
        self.slot
    }

    /// Whether a join is suspended on this handle.
    pub closed spec fn has_waiter(&self) -> bool {
        self.waiting
    }

    /// Creates the state of a computation that has produced nothing yet.
    pub fn new() -> (h: Self)
        ensures
            h.slot() is Empty,
            !h.has_waiter(),
    {
        JoinHandle { slot: Slot::Empty, waiting: false }
    }

    /// Records `outcome` unless one was recorded before. Returns whether
    /// a suspended join must be notified; its registration is then cleared.
    fn record(&mut self, outcome: Result<T, JoinError>) -> (wake: bool)
        ensures
            final(self).slot() == recorded(old(self).slot(), outcome),
            old(self).slot() is Empty ==> wake == old(self).has_waiter() && !final(self).has_waiter(),
            !(old(self).slot() is Empty) ==> !wake && final(self).has_waiter()
                == old(self).has_waiter(),
    {
        match self.slot {
            Slot::Empty => {
                self.slot = Slot::Filled(outcome);
                self.wake()
            },
            _ => false,
        }
    }

    /// Clears the registration of a suspended join, returning whether there
    /// was one.
    fn wake(&mut self) -> (wake: bool)
        ensures
            final(self).slot() == old(self).slot(),
            wake == old(self).has_waiter(),
            !final(self).has_waiter(),
    {
        let wake = self.waiting;
        self.waiting = false;
        wake
    }

    /// Cancels the computation unless it has already produced an outcome:
    /// a recorded outcome is kept. Returns whether a suspended join must be
    /// notified.
    pub fn abort(&mut self) -> (wake: bool)
        ensures
            final(self).slot() == recorded(old(self).slot(), Err(JoinError {})),
            old(self).slot() is Empty ==> final(self).slot() == Slot::<T>::Filled(Err(JoinError {}))
                && wake == old(self).has_waiter(),
            !(old(self).slot() is Empty) ==> final(self).slot() == old(self).slot() && !wake,
            final(self).has_waiter() == (!(old(self).slot() is Empty) && old(self).has_waiter()),
    {
        self.record(Err(JoinError {}))
    }

    /// Records the value the computation returned, unless an outcome was
    /// recorded before. Returns whether a suspended join must be notified.
    pub fn set_result(&mut self, value: T) -> (wake: bool)
        ensures
            final(self).slot() == recorded(old(self).slot(), Ok(value)),
            old(self).slot() is Empty ==> wake == old(self).has_waiter(),
            !(old(self).slot() is Empty) ==> !wake,
            final(self).has_waiter() == (!(old(self).slot() is Empty) && old(self).has_waiter()),
    {
        self.record(Ok(value))
    }

    /// Whether an outcome, a value or a cancellation, has been recorded.
    pub fn is_finished(&self) -> (r: bool)
        ensures
            r == !(self.slot() is Empty),
    {
        match self.slot {
            Slot::Empty => false,
            _ => true,
        }
    }

    /// Registers a suspended join.
    fn update_waker(&mut self)
        ensures
            final(self).slot() == old(self).slot(),
            final(self).has_waiter(),
    {
        self.waiting = true;
    }

    /// Attempts to join: takes the recorded outcome, or registers the caller
    /// and is `Pending`. An outcome is handed out once; later attempts are
    /// `Pending`.
    pub fn poll(&mut self) -> (r: Attempt<Result<T, JoinError>>)
        ensures
            old(self).slot() matches Slot::Filled(outcome) ==> r == Attempt::Ready(outcome)
                && final(self).slot() is Taken,
            !(old(self).slot() is Filled) ==> r is Pending && final(self).slot() == old(self).slot()
                && final(self).has_waiter(),
    {
        let mut slot = Slot::Taken;
        std::mem::swap(&mut self.slot, &mut slot);
        match slot {
            Slot::Filled(outcome) => Attempt::Ready(outcome),
            other => {
                self.slot = other;
                self.update_waker();
                Attempt::Pending
            },
        }
    }
}

/// An outcome, once recorded, stays: a later attempt to record, whether a
/// value or a cancellation, leaves it, and a join receives it. So `abort`
/// after completion keeps the value, and `abort` before completion makes the
/// join resolve to the cancellation.
pub proof fn lemma_first_outcome_wins<T>(value: T)
    ensures
        recorded(recorded(Slot::Empty, Ok(value)), Err(JoinError {})) == Slot::Filled(
            Ok::<T, JoinError>(value),
        ),
        recorded(recorded(Slot::Empty, Err(JoinError {})), Ok(value)) == Slot::<T>::Filled(
            Err(JoinError {}),
        ),
{
}

} // verus!
