use scoped_tpool::SynchronizedQueue;
use std::sync::Arc;

#[test]
fn synchronized_queue_test_new() {
    let queue: SynchronizedQueue<i32> = SynchronizedQueue::new();
    assert!(queue.is_empty());
}

#[test]
fn test_push() {
    let queue: Arc<SynchronizedQueue<i32>> = Arc::new(SynchronizedQueue::new());
    queue.push(1);
    assert_eq!(queue.len(), 1);
    assert_eq!(queue.get(0), Some(1));
}

#[test]
fn test_pop() {
    let queue: Arc<SynchronizedQueue<i32>> = Arc::new(SynchronizedQueue::new());
    queue.push(1);
    let item = queue.pop();
    assert_eq!(item, Some(1));
    assert!(queue.is_empty());
}

#[test]
fn pops_come_back_newest_first() {
    let queue: SynchronizedQueue<i32> = SynchronizedQueue::new();
    queue.push(1);
    queue.push(2);
    queue.push(3);
    assert_eq!(queue.pop(), Some(3));
    assert_eq!(queue.pop(), Some(2));
    assert_eq!(queue.pop(), Some(1));
    assert_eq!(queue.pop(), None);
}

#[test]
fn pop_on_empty_queue_gives_nothing() {
    let queue: SynchronizedQueue<i32> = SynchronizedQueue::new();
    assert_eq!(queue.pop(), None);
}

#[test]
fn pop_ignores_the_closed_flag() {
    let queue: SynchronizedQueue<i32> = SynchronizedQueue::new();
    queue.push(7);
    queue.close();
    assert_eq!(queue.pop(), Some(7));
    assert_eq!(queue.pop(), None);
}

#[test]
fn pop_wait_delivers_pending_items_before_reporting_closure() {
    let queue: SynchronizedQueue<i32> = SynchronizedQueue::new();
    queue.push(4);
    queue.push(5);
    queue.close();
    assert_eq!(queue.pop_wait(), Some(5));
    assert_eq!(queue.pop_wait(), Some(4));
    assert_eq!(queue.pop_wait(), None);
}

#[test]
fn pop_wait_on_closed_empty_queue_returns_at_once() {
    let queue: SynchronizedQueue<i32> = SynchronizedQueue::new();
    queue.close();
    assert_eq!(queue.pop_wait(), None);
}

#[test]
fn close_is_idempotent_and_push_after_close_is_kept() {
    let queue: SynchronizedQueue<i32> = SynchronizedQueue::new();
    queue.close();
    queue.close();
    assert!(queue.is_closed());
    queue.push(9);
    assert_eq!(queue.len(), 1);
    assert_eq!(queue.pop_wait(), Some(9));
    assert_eq!(queue.pop_wait(), None);
}

#[test]
fn two_waiters_on_a_closed_empty_queue_both_get_nothing() {
    let queue: SynchronizedQueue<i32> = SynchronizedQueue::new();
    queue.close();
    let first = queue.pop_wait();
    let second = queue.pop_wait();
    assert_eq!(first, None);
    assert_eq!(second, None);
    assert!(queue.is_empty());
}
