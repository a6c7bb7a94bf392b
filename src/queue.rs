//! FIFO queue with a cancellation-safe suspending pop.
use std::collections::VecDeque;
use vstd::prelude::*;

use crate::Attempt;

verus! {

/// `s` with every occurrence of `t` removed, order otherwise kept.
pub open spec fn without(s: Seq<u64>, t: u64) -> Seq<u64>
    decreases s.len(),
{
    if s.len() == 0 {
        s
    } else if s.last() == t {
        without(s.drop_last(), t)
    } else {
        without(s.drop_last(), t).push(s.last())
    }
}

/// The buffer after `v` is pushed onto `items`: `v` becomes the newest
/// element, and when a bound `capacity` (zero meaning none) would be exceeded
/// the oldest element is dropped.
pub open spec fn pushed<T>(items: Seq<T>, capacity: nat, v: T) -> Seq<T> {
    if capacity > 0 && items.len() + 1 > capacity {
        items.push(v).drop_first()
    } else {
        items.push(v)
    }
}

/// A queue with bound `capacity` (zero meaning none) holding `items`, driven
/// by `steps`: `Some(v)` pushes `v`, `None` takes the oldest element if there
/// is one (by `try_pop` or by a pop that becomes ready). The buffer at the
/// end, and the elements taken, in order.
pub open spec fn run<T>(items: Seq<T>, capacity: nat, steps: Seq<Option<T>>) -> (Seq<T>, Seq<T>)
    decreases steps.len(),
{
    if steps.len() == 0 {
        (items, Seq::empty())
    } else {
        let (b, out) = run(items, capacity, steps.drop_last());
        match steps.last() {
            Some(v) => (pushed(b, capacity, v), out),
            None => if b.len() > 0 {
                (b.drop_first(), out.push(b[0]))
            } else {
                (b, out)
            },
        }
    }
}

/// The values pushed by `steps`, in order.
pub open spec fn pushes<T>(steps: Seq<Option<T>>) -> Seq<T>
    decreases steps.len(),
{
    if steps.len() == 0 {
        Seq::empty()
    } else {
        match steps.last() {
            Some(v) => pushes(steps.drop_last()).push(v),
            None => pushes(steps.drop_last()),
        }
    }
}

/// In an unbounded queue, however pushes and takes interleave, the elements
/// taken followed by those still buffered are exactly the elements pushed:
/// each is taken at most once, none is lost, and they are taken in the order
/// they were pushed.
pub proof fn lemma_fifo_exactly_once<T>(steps: Seq<Option<T>>)
    ensures
        run(Seq::<T>::empty(), 0, steps).1 + run(Seq::<T>::empty(), 0, steps).0 == pushes(steps),
        run(Seq::<T>::empty(), 0, steps).1 == pushes(steps).subrange(
            0,
            run(Seq::<T>::empty(), 0, steps).1.len() as int,
        ),
    decreases steps.len(),
{
    if steps.len() > 0 {
        let prev = steps.drop_last();
        lemma_fifo_exactly_once(prev);
        let (b, out) = run(Seq::<T>::empty(), 0, prev);
        match steps.last() {
            Some(v) => {
                assert(out + b.push(v) =~= (out + b).push(v));
            },
            None => {
                if b.len() > 0 {
                    assert(out.push(b[0]) + b.drop_first() =~= out + b);
                }
            },
        }
    }
    let (b, out) = run(Seq::<T>::empty(), 0, steps);
    assert(out =~= (out + b).subrange(0, out.len() as int));
}

/// The buffer after pushing `vs` onto `items` one by one, with no element
/// taken in between.
pub open spec fn push_all<T>(items: Seq<T>, capacity: nat, vs: Seq<T>) -> Seq<T>
    decreases vs.len(),
{
    if vs.len() == 0 {
        items
    } else {
        pushed(push_all(items, capacity, vs.drop_last()), capacity, vs.last())
    }
}

/// A queue bounded by `capacity` that receives `vs` while empty keeps the
/// newest `capacity` of them, oldest first: pushing one more than the bound
/// evicts exactly the first.
pub proof fn lemma_keeps_newest<T>(capacity: nat, vs: Seq<T>)
    requires
        capacity > 0,
    ensures
        vs.len() <= capacity ==> push_all(Seq::<T>::empty(), capacity, vs) == vs,
        vs.len() > capacity ==> push_all(Seq::<T>::empty(), capacity, vs) == vs.subrange(
            vs.len() - capacity,
            vs.len() as int,
        ),
        vs.len() == capacity + 1 ==> push_all(Seq::<T>::empty(), capacity, vs) == vs.drop_first(),
    decreases vs.len(),
{
    if vs.len() > 0 {
        let prev = vs.drop_last();
        lemma_keeps_newest(capacity, prev);
        let b = push_all(Seq::<T>::empty(), capacity, prev);
        if prev.len() < capacity {
            assert(b.push(vs.last()) =~= vs);
        } else if prev.len() == capacity {
            assert(b.push(vs.last()).drop_first() =~= vs.subrange(vs.len() - capacity, vs.len() as int));
        } else {
            assert(b.push(vs.last()).drop_first() =~= vs.subrange(vs.len() - capacity, vs.len() as int));
        }
    }
    if vs.len() == capacity + 1 {
        assert(vs.subrange(vs.len() - capacity, vs.len() as int) =~= vs.drop_first());
    }
}

proof fn lemma_without_subset(s: Seq<u64>, t: u64, x: u64)
    requires
        without(s, t).contains(x),
    ensures
        s.contains(x),
        x != t,
    decreases s.len(),
{
    if s.len() > 0 {
        let r = without(s.drop_last(), t);
        if s.last() == t || x != s.last() {
            if s.last() != t {
                let i = choose|i: int| 0 <= i < without(s, t).len() && without(s, t)[i] == x;
                assert(r.contains(x)) by {
                    assert(i < r.len());
                    assert(r[i] == x);
                }
            }
            lemma_without_subset(s.drop_last(), t, x);
            let j = choose|j: int| 0 <= j < s.drop_last().len() && s.drop_last()[j] == x;
            assert(s[j] == x);
        } else {
            assert(s[s.len() - 1] == x);
        }
    }
}

/// A copy of `tokens` without `t`.
fn without_token(tokens: &VecDeque<u64>, t: u64) -> (r: VecDeque<u64>)
    ensures
        r@ == without(tokens@, t),
{
    let mut out: VecDeque<u64> = VecDeque::new();
    let mut i: usize = 0;
    while i < tokens.len()
        invariant
            i <= tokens@.len(),
            out@ == without(tokens@.subrange(0, i as int), t),
        decreases tokens@.len() - i,
    {
        let x = tokens[i];
        proof {
            let next = tokens@.subrange(0, i + 1);
            assert(next.drop_last() =~= tokens@.subrange(0, i as int));
            assert(next.last() == x);
        }
        if x != t {
            out.push_back(x);
        }
        i = i + 1;
    }
    assert(tokens@.subrange(0, tokens@.len() as int) =~= tokens@);
    out
}

/// Whether `t` occurs in `tokens`.
fn contains_token(tokens: &VecDeque<u64>, t: u64) -> (r: bool)
    ensures
        r == tokens@.contains(t),
{
    let mut i: usize = 0;
    while i < tokens.len()
        invariant
            i <= tokens@.len(),
            forall|j: int| 0 <= j < i ==> tokens@[j] != t,
        decreases tokens@.len() - i,
    {
        if tokens[i] == t {
            return true;
        }
        i = i + 1;
    }
    false
}

/// FIFO queue whose consumers may suspend until an element arrives.
///
/// A consumer that finds the queue empty is registered under a token; a push
/// hands back the token of the consumer that has waited longest, which the
/// caller then notifies.
pub struct Queue<T> {
    buffer: VecDeque<T>,
    capacity: usize,
    waiters: VecDeque<u64>,
    notified: VecDeque<u64>,
    next_token: u64,
}

impl<T> Queue<T> {
    /// The buffered elements, oldest first.
    pub closed spec fn items(&self) -> Seq<T> {
        self.buffer@
    }

    /// The bound on the number of buffered elements; zero means unbounded.
    pub closed spec fn bound(&self) -> nat {
        self.capacity as nat
    }

    /// Tokens of the registered consumers that have not been notified, in
    /// order of registration.
    pub closed spec fn waiting(&self) -> Seq<u64> {
        self.waiters@
    }

    /// Tokens of consumers that were notified and have not polled since.
    pub closed spec fn woken(&self) -> Seq<u64> {
        self.notified@
    }

    /// Every token handed out so far is below this one.
    pub closed spec fn token_limit(&self) -> nat {
        self.next_token as nat
    }

    pub closed spec fn wf(&self) -> bool {
        &&& (self.capacity == 0 || self.buffer@.len() <= self.capacity)
        &&& forall|i: int| 0 <= i < self.waiters@.len() ==> self.waiters@[i] < self.next_token
        &&& forall|i: int| 0 <= i < self.notified@.len() ==> self.notified@[i] < self.next_token
    }

    /// Creates an empty queue with no bound.
    pub fn new() -> (q: Self)
        ensures
            q.wf(),
            q.items() == Seq::<T>::empty(),
            q.bound() == 0,
            q.waiting() == Seq::<u64>::empty(),
            q.woken() == Seq::<u64>::empty(),
            q.token_limit() == 0,
    {
        Queue {
            buffer: VecDeque::new(),
            capacity: 0,
            waiters: VecDeque::new(),
            notified: VecDeque::new(),
            next_token: 0,
        }
    }

    /// Creates an empty queue holding at most `capacity` elements.
    pub fn with_capacity(capacity: usize) -> (q: Self)
        requires
            capacity > 0,
        ensures
            q.wf(),
            q.items() == Seq::<T>::empty(),
            q.bound() == capacity,
            q.waiting() == Seq::<u64>::empty(),
            q.woken() == Seq::<u64>::empty(),
            q.token_limit() == 0,
    {
        Queue {
            buffer: VecDeque::new(),
            capacity,
            waiters: VecDeque::new(),
            notified: VecDeque::new(),
            next_token: 0,
        }
    }

    /// Pushes `element` as the newest element, dropping the oldest one when
    /// the queue is full. Returns the token of the consumer to notify: the
    /// one registered first, if any is registered.
    pub fn push(&mut self, element: T) -> (woken: Option<u64>)
        requires
            old(self).wf(),
        ensures
            final(self).wf(),
            final(self).items() == pushed(old(self).items(), old(self).bound(), element),
            final(self).bound() == old(self).bound(),
            final(self).token_limit() == old(self).token_limit(),
            old(self).waiting().len() == 0 ==> {
                &&& woken is None
                &&& final(self).waiting() == old(self).waiting()
                &&& final(self).woken() == old(self).woken()
            },
            old(self).waiting().len() > 0 ==> {
                &&& woken == Some(old(self).waiting()[0])
                &&& final(self).waiting() == old(self).waiting().drop_first()
                &&& final(self).woken() == old(self).woken().push(old(self).waiting()[0])
            },
    {
        self.buffer.push_back(element);
        if self.capacity > 0 && self.buffer.len() > self.capacity {
            self.buffer.pop_front();
        }
        self.wake_next()
    }

    /// Moves the longest-registered consumer to the notified ones and
    /// returns its token.
    fn wake_next(&mut self) -> (woken: Option<u64>)
        ensures
            final(self).buffer@ == old(self).buffer@,
            final(self).capacity == old(self).capacity,
            final(self).next_token == old(self).next_token,
            old(self).wf() ==> final(self).wf(),
            old(self).waiters@.len() == 0 ==> {
                &&& woken is None
                &&& final(self).waiters@ == old(self).waiters@
                &&& final(self).notified@ == old(self).notified@
            },
            old(self).waiters@.len() > 0 ==> {
                &&& woken == Some(old(self).waiters@[0])
                &&& final(self).waiters@ == old(self).waiters@.drop_first()
                &&& final(self).notified@ == old(self).notified@.push(old(self).waiters@[0])
            },
    {
        match self.waiters.pop_front() {
            Some(token) => {
                self.notified.push_back(token);
                proof {
                    if old(self).wf() {
                        assert forall|i: int| 0 <= i < self.waiters@.len() implies self.waiters@[i]
                            < self.next_token by {
                            assert(self.waiters@[i] == old(self).waiters@[i + 1]);
                        }
                        assert forall|i: int| 0 <= i < self.notified@.len() implies self.notified@[i]
                            < self.next_token by {
                            if i < old(self).notified@.len() {
                                assert(self.notified@[i] == old(self).notified@[i]);
                            }
                        }
                    }
                }
                Some(token)
            },
            None => None,
        }
    }

    /// Takes the oldest element, or returns `None` when the queue is empty.
    pub fn try_pop(&mut self) -> (r: Option<T>)
        requires
            old(self).wf(),
        ensures
            final(self).wf(),
            final(self).bound() == old(self).bound(),
            final(self).waiting() == old(self).waiting(),
            final(self).woken() == old(self).woken(),
            final(self).token_limit() == old(self).token_limit(),
            old(self).items().len() == 0 ==> r is None && final(self).items() == old(self).items(),
            old(self).items().len() > 0 ==> r == Some(old(self).items()[0]) && final(self).items()
                == old(self).items().drop_first(),
    {
        self.buffer.pop_front()
    }

    /// The number of buffered elements.
    pub fn len(&self) -> (n: usize)
        ensures
            n == self.items().len(),
    {
        self.buffer.len()
    }

    /// Whether no element is buffered.
    pub fn is_empty(&self) -> (r: bool)
        ensures
            r == (self.items().len() == 0),
    {
        self.buffer.len() == 0
    }

    /// Whether the queue is bounded and holds as many elements as its bound;
    /// always `false` for an unbounded queue.
    pub fn is_full(&self) -> (r: bool)
        ensures
            r == (self.bound() > 0 && self.items().len() == self.bound()),
    {
        if self.capacity == 0 {
            false
        } else {
            self.buffer.len() == self.capacity
        }
    }

    /// Starts a suspending pop, identified by a fresh token.
    pub fn pop(&mut self) -> (p: Pop)
        requires
            old(self).wf(),
            old(self).token_limit() < u64::MAX,
        ensures
            final(self).wf(),
            final(self).items() == old(self).items(),
            final(self).bound() == old(self).bound(),
            final(self).waiting() == old(self).waiting(),
            final(self).woken() == old(self).woken(),
            final(self).token_limit() == old(self).token_limit() + 1,
            p.token() == old(self).token_limit(),
            !p.is_done(),
            !old(self).waiting().contains(p.token()),
            !old(self).woken().contains(p.token()),
    {
        let token = self.next_token;
        self.next_token = self.next_token + 1;
        Pop { token, terminated: false }
    }

    /// Whether another pop can be started: tokens are not exhausted.
    pub fn can_pop(&self) -> (r: bool)
        ensures
            r == (self.token_limit() < u64::MAX),
    {
        self.next_token < u64::MAX
    }
}

impl<T> Default for Queue<T> {
    /// An empty, unbounded queue.
    fn default() -> (q: Self)
        ensures
            q.wf(),
            q.items() == Seq::<T>::empty(),
            q.bound() == 0,
            q.waiting() == Seq::<u64>::empty(),
            q.woken() == Seq::<u64>::empty(),
            q.token_limit() == 0,
    {
        Queue::new()
    }
}

/// One suspending pop of a [`Queue`], identified by its token.
pub struct Pop {
    token: u64,
    terminated: bool,
}

impl Pop {
    pub closed spec fn token(&self) -> u64 {
        self.token
    }

    /// Whether this pop has already delivered its element.
    pub closed spec fn is_done(&self) -> bool {
        self.terminated
    }

    /// The token under which this pop registers.
    pub fn id(&self) -> (r: u64)
        ensures
            r == self.token(),
    {
        self.token
    }

    /// Whether this pop has already delivered its element.
    pub fn is_terminated(&self) -> (r: bool)
        ensures
            r == self.is_done(),
    {
        self.terminated
    }

    /// Attempts to take the oldest element of `queue`. When the queue is
    /// empty the pop registers as the newest waiter (unless it is registered
    /// already) and is `Pending`. A pop that has delivered stays `Pending`.
    pub fn poll<T>(&mut self, queue: &mut Queue<T>) -> (r: Attempt<T>)
        requires
            old(queue).wf(),
            old(self).token() < old(queue).token_limit(),
        ensures
            final(queue).wf(),
            final(queue).bound() == old(queue).bound(),
            final(queue).token_limit() == old(queue).token_limit(),
            final(self).token() == old(self).token(),
            old(self).is_done() ==> {
                &&& r is Pending
                &&& final(self).is_done()
                &&& final(queue).items() == old(queue).items()
                &&& final(queue).waiting() == old(queue).waiting()
                &&& final(queue).woken() == old(queue).woken()
            },
            !old(self).is_done() && old(queue).items().len() > 0 ==> {
                &&& r == Attempt::Ready(old(queue).items()[0])
                &&& final(self).is_done()
                &&& final(queue).items() == old(queue).items().drop_first()
                &&& final(queue).waiting() == without(old(queue).waiting(), old(self).token())
                &&& final(queue).woken() == without(old(queue).woken(), old(self).token())
            },
            !old(self).is_done() && old(queue).items().len() == 0 ==> {
                &&& r is Pending
                &&& !final(self).is_done()
                &&& final(queue).items() == old(queue).items()
                &&& final(queue).waiting() == if old(queue).waiting().contains(old(self).token()) {
                    old(queue).waiting()
                } else {
                    old(queue).waiting().push(old(self).token())
                }
                &&& final(queue).woken() == without(old(queue).woken(), old(self).token())
            },
    {
        if self.terminated {
            return Attempt::Pending;
        }
        let token = self.token;
        match queue.buffer.pop_front() {
            Some(value) => {
                self.terminated = true;
                queue.waiters = without_token(&queue.waiters, token);
                queue.notified = without_token(&queue.notified, token);
                proof {
                    Queue::<T>::lemma_limit(old(queue).waiters@, queue.waiters@, token, queue.next_token);
                    Queue::<T>::lemma_limit(old(queue).notified@, queue.notified@, token, queue.next_token);
                }
                Attempt::Ready(value)
            },
            None => {
                queue.notified = without_token(&queue.notified, token);
                proof {
                    Queue::<T>::lemma_limit(old(queue).notified@, queue.notified@, token, queue.next_token);
                }
                if !contains_token(&queue.waiters, token) {
                    queue.waiters.push_back(token);
                }
                Attempt::Pending
            },
        }
    }

    /// Abandons this pop. A pop that was notified and did not take an
    /// element passes the notification on to the longest-registered waiter,
    /// whose token is returned; in any case the pop's own registration is
    /// withdrawn.
    pub fn release<T>(self, queue: &mut Queue<T>) -> (woken: Option<u64>)
        requires
            old(queue).wf(),
        ensures
            final(queue).wf(),
            final(queue).items() == old(queue).items(),
            final(queue).bound() == old(queue).bound(),
            final(queue).token_limit() == old(queue).token_limit(),
            !old(queue).woken().contains(self.token()) ==> {
                &&& woken is None
                &&& final(queue).waiting() == without(old(queue).waiting(), self.token())
                &&& final(queue).woken() == old(queue).woken()
            },
            old(queue).woken().contains(self.token()) ==> {
                let rest = without(old(queue).waiting(), self.token());
                let notified = without(old(queue).woken(), self.token());
                &&& rest.len() == 0 ==> woken is None && final(queue).waiting() == rest
                    && final(queue).woken() == notified
                &&& rest.len() > 0 ==> woken == Some(rest[0]) && final(queue).waiting()
                    == rest.drop_first() && final(queue).woken() == notified.push(rest[0])
            },
    {
        let token = self.token;
        queue.waiters = without_token(&queue.waiters, token);
        proof {
            Queue::<T>::lemma_limit(old(queue).waiters@, queue.waiters@, token, queue.next_token);
        }
        if contains_token(&queue.notified, token) {
            queue.notified = without_token(&queue.notified, token);
            proof {
                Queue::<T>::lemma_limit(old(queue).notified@, queue.notified@, token, queue.next_token);
            }
            queue.wake_next()
        } else {
            None
        }
    }
}

impl<T> Queue<T> {
    proof fn lemma_limit(s: Seq<u64>, r: Seq<u64>, t: u64, limit: u64)
        requires
            r == without(s, t),
            forall|i: int| 0 <= i < s.len() ==> s[i] < limit,
        ensures
            forall|i: int| 0 <= i < r.len() ==> r[i] < limit,
    {
        assert forall|i: int| 0 <= i < r.len() implies r[i] < limit by {
            assert(r.contains(r[i]));
            lemma_without_subset(s, t, r[i]);
        }
    }
}

} // verus!
