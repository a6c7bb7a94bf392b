use browser_sync::spawn::{JoinError, JoinHandle};
use browser_sync::Attempt;

#[test]
fn test_spawn() {
    let mut task_1: JoinHandle<i32> = JoinHandle::new();
    let mut task_2: JoinHandle<i32> = JoinHandle::new();
    assert!(!task_1.is_finished());
    task_1.set_result(1);
    task_2.set_result(2);
    assert!(task_1.is_finished());
    assert!(task_2.is_finished());
    assert_eq!(task_1.poll(), Attempt::Ready(Ok(1)));
    assert_eq!(task_2.poll(), Attempt::Ready(Ok(2)));
}

#[test]
fn test_abort() {
    let mut task: JoinHandle<i32> = JoinHandle::new();
    task.abort();
    match task.poll() {
        Attempt::Ready(Err(e)) => assert!(e.is_cancelled()),
        other => panic!("expected a cancellation, got {:?}", other),
    }
}

#[test]
fn abort_before_completion_wins_over_late_value() {
    let mut task: JoinHandle<i32> = JoinHandle::new();
    assert!(!task.abort());
    assert!(task.is_finished());
    // the computation finishes later with 7: its outcome is discarded
    assert!(!task.set_result(7));
    assert_eq!(task.poll(), Attempt::Ready(Err(JoinError::cancelled())));
}

#[test]
fn abort_after_completion_keeps_value() {
    let mut task: JoinHandle<i32> = JoinHandle::new();
    task.set_result(7);
    assert!(!task.abort());
    assert_eq!(task.poll(), Attempt::Ready(Ok(7)));
}

#[test]
fn pending_join_is_woken_once_by_completion() {
    let mut task: JoinHandle<&str> = JoinHandle::new();
    assert_eq!(task.poll(), Attempt::Pending);
    assert!(task.set_result("done"));
    assert!(!task.abort());
    assert_eq!(task.poll(), Attempt::Ready(Ok("done")));
}

#[test]
fn pending_join_is_woken_by_abort() {
    let mut task: JoinHandle<u8> = JoinHandle::new();
    assert_eq!(task.poll(), Attempt::Pending);
    assert!(task.abort());
    assert!(matches!(task.poll(), Attempt::Ready(Err(_))));
}

#[test]
fn outcome_is_handed_out_once() {
    let mut task: JoinHandle<i32> = JoinHandle::new();
    task.set_result(3);
    assert_eq!(task.poll(), Attempt::Ready(Ok(3)));
    assert_eq!(task.poll(), Attempt::Pending);
    assert!(task.is_finished());
    assert!(!task.abort());
    assert_eq!(task.poll(), Attempt::Pending);
}
