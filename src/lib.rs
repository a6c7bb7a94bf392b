//! Asynchronous coordination primitives for single-threaded, cooperatively
//! scheduled programs: a FIFO queue with suspending pop, a join/abort handle
//! for a background computation, and an adapter that turns pushed events into
//! a pulled sequence.
//!
//! Each primitive is a state machine over plain values. Wherever a suspended
//! consumer must be notified, the operation returns that notification as a
//! value (a waiter token, or a flag) instead of performing it, so the caller
//! can deliver it after releasing whatever exclusive access guards the state.
use vstd::prelude::*;

pub mod event;
pub mod queue;
pub mod spawn;

pub use queue::Queue;

verus! {

#[derive(Debug, PartialEq, Eq)]
/// The outcome of one attempt to make progress on a suspension point.
pub enum Attempt<T> {
    /// The operation completed with a value.
    Ready(T),
    /// Nothing is available yet; the caller is registered to be notified.
    Pending,
}

} // verus!
