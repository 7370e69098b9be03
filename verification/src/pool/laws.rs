//! What holds of every pool: the invariant is kept by every step, and from the
//! invariant follow the guarantees that callers rely on.

use vstd::prelude::*;
use crate::pool::message::{Directive, Message, Outcome, PoolError};
use crate::pool::model::{
    lemma_busy_count_update,
    lemma_stopped_count_bounds,
    lemma_stopped_count_update,
    stopped_count,
    PoolView,
    WorkerView,
};

verus! {

/// A new pool of `size` workers, for any `size` of at least one, has exactly
/// that many workers, all of them idle, and is well formed.
pub proof fn lemma_init_wf<T>(size: nat)
    requires
        1 <= size <= u32::MAX,
    ensures
        PoolView::<T>::init(size).wf(),
        PoolView::<T>::init(size).size() == size,
        forall|w: int| 0 <= w < size ==> #[trigger] PoolView::<T>::init(size).idle(w),
{
    let v = PoolView::<T>::init(size);
    lemma_stopped_count_bounds(v.workers);
    assert(v.queue =~= v.expected_queue());
    assert(v.dispatched =~= v.submitted.take(0));
}

/// Accepting a task keeps the pool well formed.
pub proof fn lemma_execute_wf<T>(v: PoolView<T>, task: T)
    requires
        v.wf(),
        v.accepts(),
    ensures
        v.execute(task).wf(),
{
    let n = v.execute(task);
    assert(n.pending_tasks() =~= v.pending_tasks().push(task));
    assert(n.queue =~= n.expected_queue());
    assert(n.dispatched =~= n.submitted.take(n.dispatched.len() as int));
}

/// Asking for shutdown keeps the pool well formed.
pub proof fn lemma_shutdown_wf<T>(v: PoolView<T>)
    requires
        v.wf(),
    ensures
        v.shutdown().wf(),
{
    let n = v.shutdown();
    if !v.shutting_down {
        lemma_stopped_count_bounds(v.workers);
        assert(n.queue =~= n.expected_queue());
    }
}

/// Handing the next message to a worker keeps the pool well formed.
pub proof fn lemma_receive_wf<T>(v: PoolView<T>, worker: int)
    requires
        v.wf(),
    ensures
        v.receive(worker).wf(),
{
    let n = v.receive(worker);
    if v.idle(worker) && v.queue.len() > 0 {
        let d = v.dispatched.len();
        lemma_stopped_count_bounds(v.workers);
        assert(v.queue[0] == v.expected_queue()[0]);
        assert(forall|w: int| 0 <= w < n.workers.len() && w != worker ==> n.workers[w] == v.workers[w]);
        match v.queue[0] {
            Message::Execute(task) => {
                assert(v.pending_tasks().len() > 0);
                assert(task == v.submitted[d as int]);
                lemma_stopped_count_update(v.workers, worker, WorkerView::Busy { task: d });
                assert(n.dispatched =~= n.submitted.take(n.dispatched.len() as int));
                assert(n.pending_tasks() =~= v.pending_tasks().skip(1));
                assert(n.queue =~= n.expected_queue());
                assert(n.workers[worker] == (WorkerView::Busy { task: d }));
                assert(!v.outcomes.dom().contains(d));
                assert forall|j: nat| j < n.dispatched.len() implies #[trigger]
                    n.outcomes.dom().contains(j) || exists|w: int|
                    0 <= w < n.workers.len() && #[trigger] n.workers[w] == (WorkerView::Busy {
                        task: j,
                    }) by {
                    if j < d && !v.outcomes.dom().contains(j) {
                        let w = choose|w: int|
                            0 <= w < v.workers.len() && #[trigger] v.workers[w] == (
                            WorkerView::Busy { task: j });
                        assert(n.workers[w] == v.workers[w]);
                    }
                }
            },
            Message::Terminate => {
                assert(v.pending_tasks().len() == 0);
                lemma_stopped_count_update(v.workers, worker, WorkerView::Stopped);
                lemma_stopped_count_bounds(n.workers);
                assert(n.queue =~= n.expected_queue());
                assert forall|j: nat| j < n.dispatched.len() implies #[trigger]
                    n.outcomes.dom().contains(j) || exists|w: int|
                    0 <= w < n.workers.len() && #[trigger] n.workers[w] == (WorkerView::Busy {
                        task: j,
                    }) by {
                    if !v.outcomes.dom().contains(j) {
                        let w = choose|w: int|
                            0 <= w < v.workers.len() && #[trigger] v.workers[w] == (
                            WorkerView::Busy { task: j });
                        assert(n.workers[w] == v.workers[w]);
                    }
                }
            },
        }
    }
}

/// Recording the end of a task keeps the pool well formed.
pub proof fn lemma_complete_wf<T>(v: PoolView<T>, worker: int, outcome: Outcome)
    requires
        v.wf(),
    ensures
        v.complete(worker, outcome).wf(),
{
    let n = v.complete(worker, outcome);
    if v.busy(worker) {
        let t = v.workers[worker]->task;
        lemma_stopped_count_update(v.workers, worker, WorkerView::Idle);
        assert(n.queue =~= n.expected_queue());
        assert(forall|w: int| 0 <= w < n.workers.len() && w != worker ==> n.workers[w] == v.workers[w]);
        assert forall|w: int| 0 <= w < n.workers.len() && (#[trigger] n.workers[w]) is Busy implies {
            &&& n.workers[w]->task < n.dispatched.len()
            &&& !n.outcomes.dom().contains(n.workers[w]->task)
        } by {
            assert(n.workers[w] == v.workers[w]);
            if w < worker {
                assert(v.workers[w]->task != v.workers[worker]->task);
            } else {
                assert(v.workers[worker]->task != v.workers[w]->task);
            }
        }
        assert forall|j: nat| j < n.dispatched.len() implies #[trigger]
            n.outcomes.dom().contains(j) || exists|w: int|
            0 <= w < n.workers.len() && #[trigger] n.workers[w] == (WorkerView::Busy {
                task: j,
            }) by {
            if j != t && !v.outcomes.dom().contains(j) {
                let w = choose|w: int|
                    0 <= w < v.workers.len() && #[trigger] v.workers[w] == (WorkerView::Busy {
                        task: j,
                    });
                assert(n.workers[w] == v.workers[w]);
            }
        }
    }
}

/// The number of workers is fixed at construction: no step adds or removes a
/// worker, whatever the tasks do.
pub proof fn lemma_capacity_is_fixed<T>(v: PoolView<T>, task: T, worker: int, outcome: Outcome)
    ensures
        v.execute(task).size() == v.size(),
        v.shutdown().size() == v.size(),
        v.receive(worker).size() == v.size(),
        v.complete(worker, outcome).size() == v.size(),
{
}

/// Once every worker has stopped, every accepted task has been handed to a
/// worker exactly once, in the order of submission, every one of them has
/// finished, and the queue is empty.
pub proof fn lemma_terminated_pool_ran_every_task<T>(v: PoolView<T>)
    requires
        v.wf(),
        v.terminated(),
    ensures
        v.shutting_down,
        v.dispatched == v.submitted,
        forall|j: nat| j < v.submitted.len() ==> v.finished(j),
        v.queue.len() == 0,
{
    lemma_stopped_count_bounds(v.workers);
    assert(v.workers[0] is Stopped);
    assert(v.dispatched =~= v.submitted);
    assert forall|j: nat| j < v.submitted.len() implies v.finished(j) by {
        if !v.outcomes.dom().contains(j) {
            let w = choose|w: int|
                0 <= w < v.workers.len() && #[trigger] v.workers[w] == (WorkerView::Busy {
                    task: j,
                });
            assert(v.workers[w] is Stopped);
        }
    }
}

/// Shutdown does not complete while a task accepted before it is unfinished:
/// as long as the task at position `task` of the submissions has no outcome on
/// record, some worker has not stopped.
pub proof fn lemma_unfinished_task_blocks_termination<T>(v: PoolView<T>, task: nat)
    requires
        v.wf(),
        task < v.submitted.len(),
        !v.finished(task),
    ensures
        !v.terminated(),
{
    if v.terminated() {
        lemma_terminated_pool_ran_every_task(v);
    }
}

/// No task is handed out twice: the tasks dispatched so far are the first
/// submissions, each at its own position, so the task at position `i` of the
/// submissions has been dispatched once if `i` is below the number of
/// dispatches and not at all otherwise; and the next dispatch, if any, hands
/// out the submission that follows them.
pub proof fn lemma_no_double_dispatch<T>(v: PoolView<T>, worker: int)
    requires
        v.wf(),
    ensures
        v.dispatched.len() <= v.submitted.len(),
        forall|i: int| 0 <= i < v.dispatched.len() ==> v.dispatched[i] == v.submitted[i],
        v.directive(worker) matches Ok(Directive::Run(task)) ==> {
            &&& v.dispatched.len() < v.submitted.len()
            &&& task == v.submitted[v.dispatched.len() as int]
            &&& v.receive(worker).dispatched == v.dispatched.push(task)
        },
        !(v.directive(worker) matches Ok(Directive::Run(_))) ==> v.receive(worker).dispatched
            == v.dispatched,
{
    if v.idle(worker) && v.queue.len() > 0 {
        assert(v.queue[0] == v.expected_queue()[0]);
    }
}

/// A task that was dispatched is in one place at a time: either it has
/// finished, or exactly one worker is running it.
pub proof fn lemma_one_worker_per_task<T>(v: PoolView<T>, task: nat)
    requires
        v.wf(),
        task < v.dispatched.len(),
    ensures
        v.finished(task) != (exists|w: int| v.runs(w, task)),
        forall|w1: int, w2: int| v.runs(w1, task) && v.runs(w2, task) ==> w1 == w2,
{
    if !v.finished(task) {
        let w = choose|w: int|
            0 <= w < v.workers.len() && #[trigger] v.workers[w] == (WorkerView::Busy { task });
        assert(v.runs(w, task));
    }
    assert forall|w1: int, w2: int| v.runs(w1, task) && v.runs(w2, task) implies w1 == w2 by {
        if w1 < w2 {
            assert(v.workers[w1]->task != v.workers[w2]->task);
        } else if w2 < w1 {
            assert(v.workers[w2]->task != v.workers[w1]->task);
        }
    }
}

/// A failed task costs no capacity: the worker that ran it is idle again, as
/// after a task that completed, and is served the next message like any idle
/// worker.
pub proof fn lemma_panic_isolation<T>(v: PoolView<T>, worker: int)
    requires
        v.wf(),
        v.busy(worker),
    ensures
        v.complete(worker, Outcome::Panicked).workers == v.complete(
            worker,
            Outcome::Completed,
        ).workers,
        v.complete(worker, Outcome::Panicked).idle(worker),
        v.complete(worker, Outcome::Panicked).queue == v.queue,
        !(v.complete(worker, Outcome::Panicked).directive(worker) is Err),
        stopped_count(v.complete(worker, Outcome::Panicked).workers) == stopped_count(v.workers),
{
    lemma_stopped_count_update(v.workers, worker, WorkerView::Idle);
}

/// Shutdown cannot hang: while it has begun and is not complete, some worker
/// is running a task, or an idle worker has a message waiting for it. (A pool
/// that asked a worker to stop without queueing its sentinel would fail this.)
pub proof fn lemma_shutdown_makes_progress<T>(v: PoolView<T>)
    requires
        v.wf(),
        v.shutting_down,
        !v.terminated(),
    ensures
        exists|w: int| #[trigger] v.can_step(w),
{
    lemma_stopped_count_bounds(v.workers);
    let w = choose|w: int| 0 <= w < v.workers.len() && !(v.workers[w] is Stopped);
    assert(v.can_step(w));
}

/// Every step that a worker takes uses up work: taking a message and
/// finishing a task each leave less to do than there was. Once shutdown has
/// begun nothing adds work, so after as many worker steps as there is work
/// left, none is left.
pub proof fn lemma_worker_steps_use_up_work<T>(v: PoolView<T>, worker: int, outcome: Outcome)
    ensures
        v.idle(worker) && v.queue.len() > 0 ==> v.receive(worker).remaining() < v.remaining(),
        v.busy(worker) ==> v.complete(worker, outcome).remaining() < v.remaining(),
        v.shutting_down ==> v.shutdown().remaining() == v.remaining(),
{
    if v.idle(worker) && v.queue.len() > 0 {
        match v.queue[0] {
            Message::Execute(task) => {
                lemma_busy_count_update(
                    v.workers,
                    worker,
                    WorkerView::Busy { task: v.dispatched.len() },
                );
            },
            Message::Terminate => {
                lemma_busy_count_update(v.workers, worker, WorkerView::Stopped);
            },
        }
    }
    if v.busy(worker) {
        lemma_busy_count_update(v.workers, worker, WorkerView::Idle);
    }
}

/// When shutdown has begun and no work is left, every worker has stopped:
/// shutdown is complete.
pub proof fn lemma_no_work_left_is_termination<T>(v: PoolView<T>)
    requires
        v.wf(),
        v.shutting_down,
        v.remaining() == 0,
    ensures
        v.terminated(),
{
    lemma_stopped_count_bounds(v.workers);
    assert(v.queue.len() == v.expected_queue().len());
}

/// Shutdown interrupts nothing: it leaves every worker as it is, a task in
/// flight included, and what was queued stays at the front of the queue in
/// its order.
pub proof fn lemma_shutdown_interrupts_nothing<T>(v: PoolView<T>)
    ensures
        v.shutdown().workers == v.workers,
        v.shutdown().submitted == v.submitted,
        v.shutdown().dispatched == v.dispatched,
        v.shutdown().outcomes == v.outcomes,
        v.queue.is_prefix_of(v.shutdown().queue),
        !v.shutdown().accepts(),
{
}

/// A task that was taken by `submit` is the next to be handed out, to
/// whichever free worker asks first.
pub proof fn lemma_submitted_task_is_next<T>(v: PoolView<T>, task: T, worker: int)
    requires
        v.wf(),
        v.has_free_worker(),
        v.idle(worker),
    ensures
        v.execute(task).directive(worker) == Ok::<Directive<T>, PoolError>(Directive::Run(task)),
{
}

/// First in, first out: the queue holds the tasks not yet dispatched in the
/// order of their submission, and behind them nothing but sentinels.
pub proof fn lemma_queue_is_fifo<T>(v: PoolView<T>, i: int)
    requires
        v.wf(),
        0 <= i < v.queue.len(),
    ensures
        i < v.submitted.len() - v.dispatched.len() ==> v.queue[i] == Message::Execute(
            v.submitted[v.dispatched.len() + i],
        ),
        i >= v.submitted.len() - v.dispatched.len() ==> v.queue[i] == Message::<T>::Terminate,
        v.queue.len() == v.submitted.len() - v.dispatched.len() + v.pending_terminates(),
{
    assert(v.queue[i] == v.expected_queue()[i]);
}

} // verus!
