//! Adapter from a push-style event source to a pulled sequence.
use std::collections::VecDeque;
use vstd::prelude::*;

use crate::Attempt;

verus! {

/// The buffer and liveness after the source delivers `event`: it is kept
/// only while the source is live.
pub open spec fn delivered<E>(buffer: Seq<E>, live: bool, event: E) -> Seq<E> {
    if live {
        buffer.push(event)
    } else {
        buffer
    }
}

/// What one pull from `buffer` gives: the oldest event, the end of the
/// sequence once the source is stopped and nothing is left, or nothing yet.
pub open spec fn pulled<E>(buffer: Seq<E>, live: bool) -> Attempt<Option<E>> {
    if buffer.len() > 0 {
        Attempt::Ready(Some(buffer[0]))
    } else if !live {
        Attempt::Ready(None)
    } else {
        Attempt::Pending
    }
}

/// The buffer after one pull.
pub open spec fn after_pull<E>(buffer: Seq<E>) -> Seq<E> {
    if buffer.len() > 0 {
        buffer.drop_first()
    } else {
        buffer
    }
}

/// A stopped adapter driven by `steps`, where `Some(e)` is event `e` from
/// the source and `None` a pull by the consumer: the buffer at the end, and
/// what the pulls gave, in order.
pub open spec fn run_stopped<E>(buffer: Seq<E>, steps: Seq<Option<E>>) -> (Seq<E>, Seq<Option<E>>)
    decreases steps.len(),
{
    if steps.len() == 0 {
        (buffer, Seq::empty())
    } else {
        let (b, out) = run_stopped(buffer, steps.drop_last());
        match steps.last() {
            Some(e) => (delivered(b, false, e), out),
            None => match pulled(b, false) {
                Attempt::Ready(x) => (after_pull(b), out.push(x)),
                Attempt::Pending => (b, out),
            },
        }
    }
}

/// The number of pulls among `steps`.
pub open spec fn pulls<E>(steps: Seq<Option<E>>) -> nat
    decreases steps.len(),
{
    if steps.len() == 0 {
        0
    } else {
        pulls(steps.drop_last()) + if steps.last() is None {
            1nat
        } else {
            0nat
        }
    }
}

/// Once the source is stopped with `buffer` held, the pulls give exactly
/// the buffered events, oldest first, and then only the end of the
/// sequence; events that the source still fires are never delivered.
pub proof fn lemma_stop_drains<E>(buffer: Seq<E>, steps: Seq<Option<E>>)
    ensures
        run_stopped(buffer, steps).1.len() == pulls(steps),
        forall|i: int|
            0 <= i < pulls(steps) ==> run_stopped(buffer, steps).1[i] == if i < buffer.len() {
                Some(buffer[i])
            } else {
                None
            },
        pulls(steps) <= buffer.len() ==> run_stopped(buffer, steps).0 =~= buffer.subrange(
            pulls(steps) as int,
            buffer.len() as int,
        ),
        pulls(steps) > buffer.len() ==> run_stopped(buffer, steps).0.len() == 0,
    decreases steps.len(),
{
    if steps.len() > 0 {
        let prev = steps.drop_last();
        lemma_stop_drains(buffer, prev);
        let (b, out) = run_stopped(buffer, prev);
        let n: int = pulls(prev) as int;
        if steps.last() is None {
            if n < buffer.len() {
                assert(b[0] == buffer[n]);
                assert(after_pull(b) =~= buffer.subrange(n + 1, buffer.len() as int));
            }
            let r = run_stopped(buffer, steps).1;
            assert forall|i: int| 0 <= i < pulls(steps) implies r[i] == if i < buffer.len() {
                Some(buffer[i])
            } else {
                None
            } by {
                if i < n {
                    assert(r[i] == out[i]);
                }
            }
        }
    }
}

/// Buffers events pushed by a source and hands them out on demand.
///
/// Live while subscribed to the source; after `stop` it hands out what it
/// holds and then reports the end of the sequence.
pub struct EventStream<E> {
    queue: VecDeque<E>,
    waiting: bool,
    live: bool,
}

impl<E> EventStream<E> {
    /// The buffered events, oldest first.
    pub closed spec fn buffer(&self) -> Seq<E> {
        self.queue@
    }

    /// Whether the source is still subscribed.
    pub closed spec fn is_live(&self) -> bool {
        self.live
    }

    /// Whether a consumer is suspended waiting for an event.
    pub closed spec fn has_waiter(&self) -> bool {
        self.waiting
    }

    /// Creates a live adapter with nothing buffered.
    pub fn new() -> (s: Self)
        ensures
            s.buffer() == Seq::<E>::empty(),
            s.is_live(),
            !s.has_waiter(),
    {
        EventStream { queue: VecDeque::new(), waiting: false, live: true }
    }

    /// Takes `event` from the source: buffered while live, dropped after a
    /// stop. Returns whether a suspended consumer must be notified.
    pub fn on_event(&mut self, event: E) -> (wake: bool)
        ensures
            final(self).buffer() == delivered(old(self).buffer(), old(self).is_live(), event),
            final(self).is_live() == old(self).is_live(),
            final(self).has_waiter() == old(self).has_waiter(),
            wake == (old(self).is_live() && old(self).has_waiter()),
    {
        if self.live {
            self.queue.push_back(event);
            self.waiting
        } else {
            false
        }
    }

    /// Pulls the next event: the oldest buffered one, the end of the sequence
    /// (`Ready(None)`) once stopped and drained, or `Pending`, registering the
    /// consumer, while live and empty.
    pub fn poll_next(&mut self) -> (r: Attempt<Option<E>>)
        ensures
            r == pulled(old(self).buffer(), old(self).is_live()),
            final(self).buffer() == after_pull(old(self).buffer()),
            final(self).is_live() == old(self).is_live(),
            r is Pending ==> final(self).has_waiter(),
            !(r is Pending) ==> final(self).has_waiter() == old(self).has_waiter(),
    {
        match self.queue.pop_front() {
            Some(event) => Attempt::Ready(Some(event)),
            None => {
                if !self.live {
                    Attempt::Ready(None)
                } else {
                    self.waiting = true;
                    Attempt::Pending
                }
            },
        }
    }

    /// Stops taking events from the source; what is buffered stays to be
    /// pulled. Returns whether a suspended consumer must be notified, so that
    /// it can observe the end.
    pub fn stop(&mut self) -> (wake: bool)
        ensures
            final(self).buffer() == old(self).buffer(),
            !final(self).is_live(),
            final(self).has_waiter() == old(self).has_waiter(),
            wake == old(self).has_waiter(),
    {
        self.live = false;
        self.waiting
    }

    /// Whether the sequence has ended: stopped, with nothing left to pull.
    pub fn is_terminated(&self) -> (r: bool)
        ensures
            r == (!self.is_live() && self.buffer().len() == 0),
    {
        !self.live && self.queue.len() == 0
    }
}

} // verus!
