use browser_sync::queue::{Pop, Queue};
use browser_sync::Attempt;

fn start(q: &mut Queue<i32>) -> Pop {
    assert!(q.can_pop());
    q.pop()
}

#[test]
fn test_unbounded() {
    let mut queue: Queue<i32> = Queue::new();
    assert_eq!(queue.try_pop(), None);
    assert_eq!(queue.len(), 0);
    assert!(queue.is_empty());
    assert!(!queue.is_full());

    assert_eq!(queue.push(1), None);
    assert_eq!(queue.push(2), None);
    assert_eq!(queue.push(3), None);
    assert_eq!(queue.len(), 3);
    assert!(!queue.is_full());

    assert_eq!(queue.try_pop(), Some(1));
    let mut p = start(&mut queue);
    assert_eq!(p.poll(&mut queue), Attempt::Ready(2));
    assert!(p.is_terminated());
    assert_eq!(queue.len(), 1);
    let mut p = start(&mut queue);
    assert_eq!(p.poll(&mut queue), Attempt::Ready(3));
    assert_eq!(queue.len(), 0);
    assert!(queue.is_empty());
}

#[test]
fn test_bounded() {
    let mut queue: Queue<i32> = Queue::with_capacity(3);
    assert_eq!(queue.try_pop(), None);
    assert!(queue.is_empty());
    assert!(!queue.is_full());
    queue.push(1);
    queue.push(2);
    queue.push(3);
    assert_eq!(queue.len(), 3);
    assert!(queue.is_full());
}

#[test]
fn bounded_push_evicts_oldest() {
    let mut queue: Queue<i32> = Queue::with_capacity(3);
    for v in 1..=4 {
        queue.push(v);
    }
    assert_eq!(queue.len(), 3);
    assert!(queue.is_full());
    assert_eq!(queue.try_pop(), Some(2));
    assert_eq!(queue.try_pop(), Some(3));
    assert_eq!(queue.try_pop(), Some(4));
    assert_eq!(queue.try_pop(), None);
}

#[test]
fn capacity_one_keeps_only_newest() {
    let mut queue: Queue<i32> = Queue::with_capacity(1);
    queue.push(10);
    queue.push(20);
    assert_eq!(queue.len(), 1);
    assert_eq!(queue.try_pop(), Some(20));
}

#[test]
fn default_is_unbounded_and_empty() {
    let mut queue: Queue<u8> = Queue::default();
    assert!(queue.is_empty());
    for v in 0..100u8 {
        queue.push(v);
    }
    assert!(!queue.is_full());
    assert_eq!(queue.len(), 100);
}

#[test]
fn fifo_across_interleaved_pushes_and_takes() {
    let mut queue: Queue<i32> = Queue::new();
    let mut seen = Vec::new();
    queue.push(1);
    queue.push(2);
    seen.push(queue.try_pop().unwrap());
    queue.push(3);
    let mut p = start(&mut queue);
    if let Attempt::Ready(v) = p.poll(&mut queue) {
        seen.push(v);
    }
    queue.push(4);
    while let Some(v) = queue.try_pop() {
        seen.push(v);
    }
    assert_eq!(seen, vec![1, 2, 3, 4]);
}

#[test]
fn empty_pop_registers_and_push_wakes_it() {
    let mut queue: Queue<i32> = Queue::new();
    let mut p = start(&mut queue);
    assert_eq!(p.poll(&mut queue), Attempt::Pending);
    assert!(!p.is_terminated());
    assert_eq!(queue.push(5), Some(p.id()));
    assert_eq!(queue.push(6), None);
    assert_eq!(p.poll(&mut queue), Attempt::Ready(5));
    assert_eq!(p.poll(&mut queue), Attempt::Pending);
    assert_eq!(queue.try_pop(), Some(6));
}

#[test]
fn waiters_are_woken_in_registration_order() {
    let mut queue: Queue<i32> = Queue::new();
    let mut a = start(&mut queue);
    let mut b = start(&mut queue);
    let mut c = start(&mut queue);
    assert_eq!(a.poll(&mut queue), Attempt::Pending);
    assert_eq!(b.poll(&mut queue), Attempt::Pending);
    assert_eq!(c.poll(&mut queue), Attempt::Pending);
    // polling again does not register twice
    assert_eq!(b.poll(&mut queue), Attempt::Pending);
    assert_eq!(queue.push(1), Some(a.id()));
    assert_eq!(queue.push(2), Some(b.id()));
    assert_eq!(queue.push(3), Some(c.id()));
    assert_eq!(queue.push(4), None);
    assert_eq!(a.poll(&mut queue), Attempt::Ready(1));
    assert_eq!(b.poll(&mut queue), Attempt::Ready(2));
    assert_eq!(c.poll(&mut queue), Attempt::Ready(3));
}

#[test]
fn released_pop_passes_its_wake_on() {
    let mut queue: Queue<i32> = Queue::new();
    let mut a = start(&mut queue);
    let mut b = start(&mut queue);
    assert_eq!(a.poll(&mut queue), Attempt::Pending);
    assert_eq!(b.poll(&mut queue), Attempt::Pending);
    assert_eq!(queue.push(7), Some(a.id()));
    // someone else takes the value before `a` polls again
    assert_eq!(queue.try_pop(), Some(7));
    let b_id = b.id();
    assert_eq!(a.release(&mut queue), Some(b_id));
    queue.push(8);
    assert_eq!(b.poll(&mut queue), Attempt::Ready(8));
}

#[test]
fn released_pop_without_wake_only_withdraws() {
    let mut queue: Queue<i32> = Queue::new();
    let mut a = start(&mut queue);
    let mut b = start(&mut queue);
    assert_eq!(a.poll(&mut queue), Attempt::Pending);
    assert_eq!(b.poll(&mut queue), Attempt::Pending);
    assert_eq!(a.release(&mut queue), None);
    assert_eq!(queue.push(9), Some(b.id()));
}

#[test]
fn woken_pop_that_finds_nothing_registers_again() {
    let mut queue: Queue<i32> = Queue::new();
    let mut a = start(&mut queue);
    assert_eq!(a.poll(&mut queue), Attempt::Pending);
    assert_eq!(queue.push(1), Some(a.id()));
    assert_eq!(queue.try_pop(), Some(1));
    assert_eq!(a.poll(&mut queue), Attempt::Pending);
    assert_eq!(a.release(&mut queue), None);
    assert_eq!(queue.push(2), None);
}

#[test]
fn pop_tokens_are_distinct() {
    let mut queue: Queue<i32> = Queue::new();
    let a = start(&mut queue);
    let b = start(&mut queue);
    assert_ne!(a.id(), b.id());
}
