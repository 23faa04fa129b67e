use vstd::prelude::*;

use crate::queue_state::{after_pop, must_wait_on, popped};
use crate::thread_pool::spawned_after_submit;

verus! {

/// Where one worker stands: blocked in `pop_wait`, running a job, or retired
/// after `pop_wait` reported the queue closed and drained.
pub enum WorkerPhase {
    Waiting,
    Running { job: nat },
    Terminated,
}

/// A whole pool at one instant. Jobs are named by the order in which they
/// were submitted: job `j` is the `j`-th submission.
pub struct PoolModel {
    /// Pending jobs, oldest first.
    pub queue: Seq<nat>,
    pub closed: bool,
    /// One entry per worker ever started.
    pub workers: Seq<WorkerPhase>,
    pub max_threads: nat,
    /// The number of jobs submitted so far.
    pub submitted: nat,
    /// The number of jobs submitted while the pool was still open.
    pub submitted_open: nat,
    /// How many times each job has been started.
    pub runs: Seq<nat>,
}

/// One atomic step of the pool: a submission (which may start a worker), a
/// worker taking a job or retiring at the end of `pop_wait`, a worker
/// finishing its job, or the owner closing the queue.
pub enum PoolStep {
    Submit,
    Take { worker: int },
    Exit { worker: int },
    Finish { worker: int },
    Close,
}

/// A fresh pool: nothing queued, no worker, open.
pub open spec fn initial(max_threads: nat) -> PoolModel {
    PoolModel {
        queue: Seq::empty(),
        closed: false,
        workers: Seq::empty(),
        max_threads,
        submitted: 0,
        submitted_open: 0,
        runs: Seq::empty(),
    }
}

/// Whether worker `w` exists and is blocked in `pop_wait`, which may return.
pub open spec fn may_leave_wait(s: PoolModel, w: int) -> bool {
    &&& 0 <= w < s.workers.len()
    &&& s.workers[w] is Waiting
    &&& !must_wait_on(s.queue, s.closed)
}

/// Whether `step` can happen in state `s`.
pub open spec fn enabled(s: PoolModel, step: PoolStep) -> bool {
    match step {
        PoolStep::Submit => true,
        PoolStep::Take { worker } => may_leave_wait(s, worker) && popped(s.queue) is Some,
        PoolStep::Exit { worker } => may_leave_wait(s, worker) && popped(s.queue) is None,
        PoolStep::Finish { worker } => 0 <= worker < s.workers.len()
            && s.workers[worker] is Running,
        PoolStep::Close => true,
    }
}

/// The state after `step`.
pub open spec fn apply(s: PoolModel, step: PoolStep) -> PoolModel {
    match step {
        PoolStep::Submit => PoolModel {
            queue: s.queue.push(s.submitted),
            workers: if spawned_after_submit(s.workers.len(), s.max_threads) > s.workers.len() {
                s.workers.push(WorkerPhase::Waiting)
            } else {
                s.workers
            },
            submitted: s.submitted + 1,
            submitted_open: if s.closed {
                s.submitted_open
            } else {
                s.submitted + 1
            },
            runs: s.runs.push(0),
            ..s
        },
        PoolStep::Take { worker } => {
            let job = popped(s.queue)->Some_0;
            PoolModel {
                queue: after_pop(s.queue),
                workers: s.workers.update(worker, WorkerPhase::Running { job }),
                runs: s.runs.update(job as int, s.runs[job as int] + 1),
                ..s
            }
        },
        PoolStep::Exit { worker } => PoolModel {
            workers: s.workers.update(worker, WorkerPhase::Terminated),
            ..s
        },
        PoolStep::Finish { worker } => PoolModel {
            workers: s.workers.update(worker, WorkerPhase::Waiting),
            ..s
        },
        PoolStep::Close => PoolModel { closed: true, ..s },
    }
}

/// Whether every step of `steps`, taken in turn from `s`, is enabled.
pub open spec fn runs_through(s: PoolModel, steps: Seq<PoolStep>) -> bool
    decreases steps.len(),
{
    steps.len() == 0 || (enabled(s, steps[0]) && runs_through(
        apply(s, steps[0]),
        steps.drop_first(),
    ))
}

/// The state after taking `steps` in turn from `s`.
pub open spec fn after_steps(s: PoolModel, steps: Seq<PoolStep>) -> PoolModel
    decreases steps.len(),
{
    if steps.len() == 0 {
        s
    } else {
        after_steps(apply(s, steps[0]), steps.drop_first())
    }
}

/// The number of workers running a job.
pub open spec fn running_count(workers: Seq<WorkerPhase>) -> nat
    decreases workers.len(),
{
    if workers.len() == 0 {
        0
    } else {
        running_count(workers.drop_last()) + if workers.last() is Running {
            1nat
        } else {
            0nat
        }
    }
}

/// Whether every worker has retired.
pub open spec fn all_terminated(s: PoolModel) -> bool {
    forall|w: int| 0 <= w < s.workers.len() ==> #[trigger] s.workers[w] is Terminated
}

/// What every reachable state satisfies.
pub open spec fn pool_invariant(s: PoolModel) -> bool {
    &&& s.workers.len() <= s.max_threads
    &&& s.runs.len() == s.submitted
    &&& s.queue.no_duplicates()
    &&& forall|k: int| 0 <= k < s.queue.len() ==> #[trigger] s.queue[k] < s.submitted
    &&& forall|j: int| 0 <= j < s.submitted ==> #[trigger] s.runs[j] <= 1
    &&& forall|j: int| 0 <= j < s.submitted ==> (#[trigger] s.runs[j] == 0 <==> s.queue.contains(j as nat))
    &&& s.submitted_open <= s.submitted
    &&& !s.closed ==> s.submitted_open == s.submitted
    &&& (exists|w: int| 0 <= w < s.workers.len() && #[trigger] s.workers[w] is Terminated) ==> {
        &&& s.closed
        &&& forall|k: int| 0 <= k < s.queue.len() ==> #[trigger] s.queue[k] >= s.submitted_open
    }
    &&& s.max_threads > 0 && s.submitted > 0 ==> s.workers.len() > 0
}

proof fn lemma_initial_invariant(max_threads: nat)
    ensures
        pool_invariant(initial(max_threads)),
{
}

proof fn lemma_step_invariant(s: PoolModel, step: PoolStep)
    requires
        pool_invariant(s),
        enabled(s, step),
    ensures
        pool_invariant(apply(s, step)),
{
    let t = apply(s, step);
    match step {
        PoolStep::Submit => {
            let n = s.submitted;
            assert forall|j: int| 0 <= j < t.submitted implies (#[trigger] t.runs[j] == 0
                <==> t.queue.contains(j as nat)) by {
                if j < n {
                    if s.queue.contains(j as nat) {
                        let k = choose|k: int| 0 <= k < s.queue.len() && s.queue[k] == j as nat;
                        assert(t.queue[k] == j as nat);
                    }
                    if t.queue.contains(j as nat) {
                        let k = choose|k: int| 0 <= k < t.queue.len() && t.queue[k] == j as nat;
                        assert(k < s.queue.len());
                        assert(s.queue[k] == j as nat);
                    }
                } else {
                    assert(t.queue[s.queue.len() as int] == n);
                }
            }
            assert(t.queue.no_duplicates()) by {
                assert forall|a: int, b: int|
                    0 <= a < t.queue.len() && 0 <= b < t.queue.len() && a != b implies t.queue[a]
                    != t.queue[b] by {
                    if a < s.queue.len() && b < s.queue.len() {
                        assert(s.queue[a] != s.queue[b]);
                    } else if a < s.queue.len() {
                        assert(s.queue[a] < n);
                    } else if b < s.queue.len() {
                        assert(s.queue[b] < n);
                    }
                }
            }
            if exists|w: int| 0 <= w < t.workers.len() && #[trigger] t.workers[w] is Terminated {
                let w = choose|w: int| 0 <= w < t.workers.len() && #[trigger] t.workers[w] is Terminated;
                assert(w < s.workers.len());
                assert(s.workers[w] is Terminated);
                assert forall|k: int| 0 <= k < t.queue.len() implies #[trigger] t.queue[k]
                    >= t.submitted_open by {
                    if k < s.queue.len() {
                        assert(s.queue[k] >= s.submitted_open);
                    }
                }
            }
        },
        PoolStep::Take { worker } => {
            let last = s.queue.len() - 1;
            let job = s.queue[last];
            assert(t.queue =~= s.queue.drop_last());
            assert(s.queue.contains(job));
            assert forall|j: int| 0 <= j < t.submitted implies (#[trigger] t.runs[j] == 0
                <==> t.queue.contains(j as nat)) by {
                if j == job {
                    if t.queue.contains(j as nat) {
                        let k = choose|k: int| 0 <= k < t.queue.len() && t.queue[k] == j as nat;
                        assert(s.queue[k] == s.queue[last]);
                    }
                } else {
                    if s.queue.contains(j as nat) {
                        let k = choose|k: int| 0 <= k < s.queue.len() && s.queue[k] == j as nat;
                        assert(k != last);
                        assert(t.queue[k] == j as nat);
                    }
                    if t.queue.contains(j as nat) {
                        let k = choose|k: int| 0 <= k < t.queue.len() && t.queue[k] == j as nat;
                        assert(s.queue[k] == j as nat);
                    }
                }
            }
            assert forall|k: int| 0 <= k < t.queue.len() implies #[trigger] t.queue[k]
                < t.submitted by {
                assert(s.queue[k] < s.submitted);
            }
            if exists|w: int| 0 <= w < t.workers.len() && #[trigger] t.workers[w] is Terminated {
                let w = choose|w: int| 0 <= w < t.workers.len() && #[trigger] t.workers[w] is Terminated;
                assert(s.workers[w] is Terminated);
                assert forall|k: int| 0 <= k < t.queue.len() implies #[trigger] t.queue[k]
                    >= t.submitted_open by {
                    assert(s.queue[k] >= s.submitted_open);
                }
            }
        },
        PoolStep::Exit { worker } => {
        },
        PoolStep::Finish { worker } => {
            if exists|w: int| 0 <= w < t.workers.len() && #[trigger] t.workers[w] is Terminated {
                let w = choose|w: int| 0 <= w < t.workers.len() && #[trigger] t.workers[w] is Terminated;
                assert(s.workers[w] is Terminated);
            }
        },
        PoolStep::Close => {
        },
    }
}

proof fn lemma_steps_invariant(s: PoolModel, steps: Seq<PoolStep>)
    requires
        pool_invariant(s),
        runs_through(s, steps),
    ensures
        pool_invariant(after_steps(s, steps)),
        after_steps(s, steps).max_threads == s.max_threads,
    decreases steps.len(),
{
    if steps.len() > 0 {
        lemma_step_invariant(s, steps[0]);
        lemma_steps_invariant(apply(s, steps[0]), steps.drop_first());
    }
}

proof fn lemma_running_count_bound(workers: Seq<WorkerPhase>)
    ensures
        running_count(workers) <= workers.len(),
    decreases workers.len(),
{
    if workers.len() > 0 {
        lemma_running_count_bound(workers.drop_last());
    }
}

/// At most `max_threads` jobs run at once: in every state that a pool
/// bounded by `max_threads` can reach, at most that many workers are
/// running a job.
pub proof fn lemma_concurrency_bound(max_threads: nat, steps: Seq<PoolStep>)
    requires
        runs_through(initial(max_threads), steps),
    ensures
        running_count(after_steps(initial(max_threads), steps).workers) <= max_threads,
{
    lemma_initial_invariant(max_threads);
    lemma_steps_invariant(initial(max_threads), steps);
    lemma_running_count_bound(after_steps(initial(max_threads), steps).workers);
}

/// No lost jobs: once a pool with room for at least one worker has been
/// closed and every worker has retired, each job submitted before the close
/// has been run exactly once.
pub proof fn lemma_no_lost_jobs(max_threads: nat, steps: Seq<PoolStep>)
    requires
        max_threads > 0,
        runs_through(initial(max_threads), steps),
        after_steps(initial(max_threads), steps).closed,
        all_terminated(after_steps(initial(max_threads), steps)),
    ensures
        forall|j: int|
            0 <= j < after_steps(initial(max_threads), steps).submitted_open
                ==> #[trigger] after_steps(initial(max_threads), steps).runs[j] == 1,
{
    let s = after_steps(initial(max_threads), steps);
    lemma_initial_invariant(max_threads);
    lemma_steps_invariant(initial(max_threads), steps);
    if s.submitted_open > 0 {
        assert(s.workers[0] is Terminated);
        assert forall|j: int| 0 <= j < s.submitted_open implies #[trigger] s.runs[j] == 1 by {
            if s.queue.contains(j as nat) {
                let k = choose|k: int| 0 <= k < s.queue.len() && s.queue[k] == j as nat;
                assert(s.queue[k] >= s.submitted_open);
            }
        }
    }
}

/// Nothing runs after the drain: once every worker has retired, no step
/// short of a new submission starts a job, and the workers stay retired.
pub proof fn lemma_nothing_runs_after_drain(s: PoolModel, steps: Seq<PoolStep>)
    requires
        all_terminated(s),
        runs_through(s, steps),
        forall|i: int| 0 <= i < steps.len() ==> !(#[trigger] steps[i] is Submit),
    ensures
        after_steps(s, steps).runs == s.runs,
        all_terminated(after_steps(s, steps)),
    decreases steps.len(),
{
    if steps.len() > 0 {
        let t = apply(s, steps[0]);
        assert(!(steps[0] is Submit));
        assert(t.runs == s.runs);
        assert(t.workers == s.workers);
        assert forall|i: int| 0 <= i < steps.drop_first().len() implies !(
        #[trigger] steps.drop_first()[i] is Submit) by {
            assert(steps.drop_first()[i] == steps[i + 1]);
        }
        lemma_nothing_runs_after_drain(t, steps.drop_first());
    }
}

} // verus!
