use scoped_tpool::{SynchronizedQueue, ThreadPool};
use std::sync::atomic::{AtomicI32, Ordering};
use std::sync::Arc;

type Job<'a> = Box<dyn FnOnce() + Send + 'a>;

/// Plays every worker's loop, one after another, on the calling thread.
fn drain_all(workers: &[Arc<SynchronizedQueue<Job<'_>>>]) {
    for queue in workers {
        while let Some(job) = queue.pop_wait() {
            job();
        }
    }
}

#[test]
fn thread_pool_test_new() {
    let num_threads = 1;
    let t_pool: ThreadPool<Job<'_>> = ThreadPool::new(num_threads);
    assert!(t_pool.max_threads() == num_threads);
    assert_eq!(t_pool.num_threads(), 0);
}

#[test]
fn test_submit() {
    let num_threads = 3;
    let executed_tasks = &AtomicI32::new(0);
    let num_tasks = 100;
    let mut workers = Vec::new();

    let mut t_pool = ThreadPool::new(num_threads);
    for _ in 1..num_tasks + 1 {
        let job: Job<'_> = Box::new(move || {
            executed_tasks.fetch_add(1, Ordering::Relaxed);
        });
        if let Some(worker) = t_pool.submit(job) {
            workers.push(worker);
        }
    }
    let used_threads = t_pool.num_threads();
    t_pool.close();
    drain_all(&workers);

    assert_eq!(used_threads, num_threads);
    assert_eq!(workers.len(), num_threads);
    assert_eq!(num_tasks, executed_tasks.load(Ordering::Relaxed));
}

#[test]
fn workers_start_lazily_one_per_submission() {
    let mut pool: ThreadPool<Job<'_>> = ThreadPool::new(2);
    assert_eq!(pool.num_threads(), 0);
    assert!(pool.submit(Box::new(|| {})).is_some());
    assert_eq!(pool.num_threads(), 1);
    assert!(pool.submit(Box::new(|| {})).is_some());
    assert_eq!(pool.num_threads(), 2);
    assert!(pool.submit(Box::new(|| {})).is_none());
    assert_eq!(pool.num_threads(), 2);
}

#[test]
fn worker_handle_serves_the_pool_queue() {
    let mut pool: ThreadPool<u32> = ThreadPool::new(1);
    let worker = pool.submit(7).unwrap();
    assert_eq!(worker.len(), 1);
    assert_eq!(worker.pop(), Some(7));
    assert!(pool.submit(8).is_none());
    assert_eq!(worker.pop(), Some(8));
    pool.close();
    assert!(worker.is_closed());
    assert_eq!(worker.pop_wait(), None);
}

#[test]
fn closed_and_drained_pool_runs_nothing_more() {
    let executed = &AtomicI32::new(0);
    let mut workers = Vec::new();
    let mut pool: ThreadPool<Job<'_>> = ThreadPool::new(2);
    workers.extend(pool.submit(Box::new(move || {
        executed.fetch_add(1, Ordering::Relaxed);
    })));
    pool.close();
    drain_all(&workers);
    assert_eq!(executed.load(Ordering::Relaxed), 1);
    for queue in &workers {
        assert!(queue.pop_wait().is_none());
    }
    assert_eq!(executed.load(Ordering::Relaxed), 1);
}

#[test]
fn pool_with_zero_capacity_starts_no_worker() {
    let mut pool: ThreadPool<Job<'_>> = ThreadPool::new(0);
    assert!(pool.submit(Box::new(|| {})).is_none());
    assert_eq!(pool.num_threads(), 0);
    assert_eq!(pool.max_threads(), 0);
}

#[test]
fn reserve_starts_workers_up_front_and_stops_at_the_bound() {
    let mut pool: ThreadPool<u32> = ThreadPool::new(3);
    let first = pool.reserve_threads(2);
    assert_eq!(first.len(), 2);
    assert_eq!(pool.num_threads(), 2);
    let second = pool.reserve_threads(5);
    assert_eq!(second.len(), 1);
    assert_eq!(pool.num_threads(), 3);
    assert!(pool.submit(1).is_none());
    assert_eq!(first[0].pop(), Some(1));
    assert_eq!(pool.num_threads(), 3);
}
