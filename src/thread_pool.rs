use std::sync::Arc;
use vstd::prelude::*;

use crate::synchronized_queue::SynchronizedQueue;

verus! {

/// How many workers a pool has after one more submission.
///
/// A submission starts a new worker exactly when the pool is below its bound.
pub open spec fn spawned_after_submit(spawned: nat, max_threads: nat) -> nat {
    if spawned < max_threads {
        spawned + 1
    } else {
        spawned
    }
}

/// How many workers a pool has after an eager reservation of `n`: the
/// reservation stops at the bound.
pub open spec fn spawned_after_reserve(spawned: nat, max_threads: nat, n: nat) -> nat {
    if spawned + n <= max_threads {
        spawned + n
    } else if spawned <= max_threads {
        max_threads
    } else {
        spawned
    }
}

/// How many workers a fresh pool has after `k` submissions.
pub open spec fn spawned_after_submissions(max_threads: nat, k: nat) -> nat
    decreases k,
{
    if k == 0 {
        0
    } else {
        spawned_after_submit(spawned_after_submissions(max_threads, (k - 1) as nat), max_threads)
    }
}

/// Capacity bound: a fresh pool that receives `k` submissions has started
/// `min(max_threads, k)` workers, never more than its bound.
pub proof fn lemma_capacity_bound(max_threads: nat, k: nat)
    ensures
        spawned_after_submissions(max_threads, k) == if k <= max_threads {
            k
        } else {
            max_threads
        },
        spawned_after_submissions(max_threads, k) <= max_threads,
    decreases k,
{
    if k > 0 {
        lemma_capacity_bound(max_threads, (k - 1) as nat);
    }
}

/// Relies on `Arc::clone`: the new handle points at the same queue.
#[verifier::external_body]
fn share<J>(q: &Arc<SynchronizedQueue<J>>) -> (r: Arc<SynchronizedQueue<J>>)
    ensures
        r == *q,
{
    Arc::clone(q)
}

/// A pool of at most `max_threads` persistent workers fed through a shared
/// queue of jobs.
///
/// The pool decides when a worker is due; its owner starts it. Each
/// submission below the bound hands back the queue handle for one new
/// worker, which the owner runs on a thread of its structured-concurrency
/// region: the worker repeatedly takes a job with `pop_wait`, runs it, and
/// stops once `pop_wait` reports the queue closed and drained. Closing the
/// pool closes the queue, so the workers drain it and stop; the region then
/// joins them.
#[verifier::reject_recursive_types(J)]
pub struct ThreadPool<J> {
    task_queue: Arc<SynchronizedQueue<J>>,
    num_threads: usize,
    max_threads: usize,
}

impl<J> ThreadPool<J> {
    /// The number of workers started so far.
    pub closed spec fn spawned(&self) -> nat {
        self.num_threads as nat
    }

    /// The bound on the number of workers.
    pub closed spec fn capacity(&self) -> nat {
        self.max_threads as nat
    }

    /// The pool's job queue, which every worker serves.
    pub closed spec fn queue(&self) -> SynchronizedQueue<J> {
        *self.task_queue
    }

    /// Well-formedness: the pool never holds more workers than its bound.
    pub open spec fn wf(&self) -> bool {
        self.spawned() <= self.capacity()
    }

    /// A pool with an empty, open queue, no worker yet, and room for
    /// `max_threads` workers.
    pub fn new(max_threads: usize) -> (r: Self)
        ensures
            r.wf(),
            r.spawned() == 0,
            r.capacity() == max_threads,
    {
        ThreadPool { task_queue: Arc::new(SynchronizedQueue::new()), num_threads: 0, max_threads }
    }

    /// Closes the job queue: idle workers wake, find it drained and stop.
    /// The owner of the pool calls this when it is done submitting.
    pub fn close(&self) {
        self.task_queue.close();
    }

    /// The number of workers started so far.
    pub fn num_threads(&self) -> (r: usize)
        ensures
            r == self.spawned(),
    {
        self.num_threads
    }

    /// The bound on the number of workers.
    pub fn max_threads(&self) -> (r: usize)
        ensures
            r == self.capacity(),
    {
        self.max_threads
    }

    /// Queues `job`. Below the bound, also counts one more worker and hands
    /// back the queue handle that the caller starts it with; at the bound,
    /// hands back nothing. Never blocks: the queue is unbounded.
    pub fn submit(&mut self, job: J) -> (r: Option<Arc<SynchronizedQueue<J>>>)
        requires
            old(self).wf(),
        ensures
            final(self).wf(),
            final(self).capacity() == old(self).capacity(),
            final(self).queue() == old(self).queue(),
            final(self).spawned() == spawned_after_submit(old(self).spawned(), old(self).capacity()),
            r is Some <==> old(self).spawned() < old(self).capacity(),
            r matches Some(h) ==> *h == old(self).queue(),
    {
        self.task_queue.push(job);
        if self.num_threads < self.max_threads {
            Some(self.spawn_persistent_worker())
        } else {
            None
        }
    }

    /// Counts `n` workers at once, ahead of any job, stopping at the bound,
    /// and hands back one queue handle for each worker that the caller
    /// starts.
    pub fn reserve_threads(&mut self, n: usize) -> (r: Vec<Arc<SynchronizedQueue<J>>>)
        requires
            old(self).wf(),
        ensures
            final(self).wf(),
            final(self).capacity() == old(self).capacity(),
            final(self).queue() == old(self).queue(),
            final(self).spawned() == spawned_after_reserve(old(self).spawned(), old(self).capacity(), n as nat),
            r@.len() == final(self).spawned() - old(self).spawned(),
            forall|i: int| 0 <= i < r@.len() ==> *#[trigger] r@[i] == old(self).queue(),
    {
        let mut handles: Vec<Arc<SynchronizedQueue<J>>> = Vec::new();
        let mut i: usize = 0;
        while i < n && self.num_threads < self.max_threads
            invariant
                i <= n,
                self.max_threads == old(self).max_threads,
                self.task_queue == old(self).task_queue,
                self.num_threads == old(self).num_threads + i,
                self.num_threads <= self.max_threads,
                handles@.len() == i,
                forall|k: int| 0 <= k < handles@.len() ==> *#[trigger] handles@[k] == *old(self).task_queue,
            decreases n - i,
        {
            let h = self.spawn_persistent_worker();
            handles.push(h);
            i = i + 1;
        }
        handles
    }

    /// Counts one more worker and hands back the queue handle it serves.
    fn spawn_persistent_worker(&mut self) -> (r: Arc<SynchronizedQueue<J>>)
        requires
            old(self).num_threads < old(self).max_threads,
        ensures
            final(self).max_threads == old(self).max_threads,
            final(self).task_queue == old(self).task_queue,
            final(self).num_threads == old(self).num_threads + 1,
            *r == *old(self).task_queue,
    {
        let queue = share(&self.task_queue);
        self.num_threads = self.num_threads + 1;
        queue
    }
}

} // verus!
