//! The mathematical model of the pool: its abstract state, the steps that
//! change it, and the invariant that every reachable state meets.

use vstd::prelude::*;
use crate::pool::message::{Directive, Message, Outcome, PoolError};

verus! {

/// A worker as the model sees it. A busy worker carries the position, in the
/// order of dispatch, of the task it is running.
pub enum WorkerView {
    Idle,
    Busy { task: nat },
    Stopped,
}

/// The abstract state of a pool, together with its history.
#[verifier::ext_equal]
pub struct PoolView<T> {
    /// The workers, indexed by identity. The length is the pool's size.
    pub workers: Seq<WorkerView>,
    /// The messages that wait in the queue, the next one first.
    pub queue: Seq<Message<T>>,
    /// Whether shutdown has begun.
    pub shutting_down: bool,
    /// Every task that was accepted, in the order of acceptance.
    pub submitted: Seq<T>,
    /// Every task that was handed to a worker, in the order of the hand-over.
    pub dispatched: Seq<T>,
    /// How each finished task ended, by its position in `dispatched`.
    pub outcomes: Map<nat, Outcome>,
}

/// How many of the workers have stopped.
pub open spec fn stopped_count(workers: Seq<WorkerView>) -> nat
    decreases workers.len(),
{
    if workers.len() == 0 {
        0
    } else {
        stopped_count(workers.drop_last()) + if workers.last() is Stopped {
            1nat
        } else {
            0nat
        }
    }
}

/// How many of the workers are running a task.
pub open spec fn busy_count(workers: Seq<WorkerView>) -> nat
    decreases workers.len(),
{
    if workers.len() == 0 {
        0
    } else {
        busy_count(workers.drop_last()) + if workers.last() is Busy {
            1nat
        } else {
            0nat
        }
    }
}

impl<T> PoolView<T> {
    /// The state of a new pool of `size` workers: all idle, nothing queued,
    /// no history.
    pub open spec fn init(size: nat) -> PoolView<T> {
        PoolView {
            workers: Seq::new(size, |w: int| WorkerView::Idle),
            queue: Seq::empty(),
            shutting_down: false,
            submitted: Seq::empty(),
            dispatched: Seq::empty(),
            outcomes: Map::empty(),
        }
    }

    /// The number of workers.
    pub open spec fn size(self) -> nat {
        self.workers.len()
    }

    /// Whether the pool still takes tasks.
    pub open spec fn accepts(self) -> bool {
        !self.shutting_down
    }

    /// Whether `worker` is a worker of the pool that waits for a message.
    pub open spec fn idle(self, worker: int) -> bool {
        0 <= worker < self.workers.len() && self.workers[worker] is Idle
    }

    /// Whether `worker` is a worker of the pool that is running a task.
    pub open spec fn busy(self, worker: int) -> bool {
        0 <= worker < self.workers.len() && self.workers[worker] is Busy
    }

    /// Whether a task submitted now would be taken at once: the pool is open,
    /// nothing is queued ahead of it, and some worker is idle.
    pub open spec fn has_free_worker(self) -> bool {
        self.accepts() && self.queue.len() == 0 && exists|w: int| #[trigger] self.idle(w)
    }

    /// The work that is left: two units for each message that waits, one to
    /// take it and one to finish it, and one unit for each task in flight.
    pub open spec fn remaining(self) -> nat {
        2 * self.queue.len() + busy_count(self.workers)
    }

    /// Whether `worker` can take a step of its own: it is running a task, which
    /// it can finish, or it is idle and a message waits for it.
    pub open spec fn can_step(self, worker: int) -> bool {
        self.busy(worker) || (self.idle(worker) && self.queue.len() > 0)
    }

    /// Whether `worker` is running the task dispatched at position `task`.
    pub open spec fn runs(self, worker: int, task: nat) -> bool {
        0 <= worker < self.workers.len() && self.workers[worker] == (WorkerView::Busy { task })
    }

    /// Whether the task dispatched at position `task` has finished.
    pub open spec fn finished(self, task: nat) -> bool {
        self.outcomes.dom().contains(task)
    }

    /// Whether every worker has stopped: the point at which joining the
    /// workers returns and shutdown is complete.
    pub open spec fn terminated(self) -> bool {
        forall|w: int| 0 <= w < self.workers.len() ==> self.workers[w] is Stopped
    }

    /// The accepted tasks that no worker has taken yet, oldest first.
    pub open spec fn pending_tasks(self) -> Seq<T> {
        self.submitted.skip(self.dispatched.len() as int)
    }

    /// The number of terminate sentinels that no worker has taken yet: one for
    /// each worker still running once shutdown has begun, none before.
    pub open spec fn pending_terminates(self) -> nat {
        if self.shutting_down {
            (self.workers.len() - stopped_count(self.workers)) as nat
        } else {
            0
        }
    }

    /// What the queue holds in a well-formed state: the pending tasks in the
    /// order of submission, then the pending sentinels.
    pub open spec fn expected_queue(self) -> Seq<Message<T>> {
        Seq::new(
            self.pending_tasks().len() + self.pending_terminates(),
            |i: int|
                if i < self.pending_tasks().len() {
                    Message::Execute(self.pending_tasks()[i])
                } else {
                    Message::Terminate
                },
        )
    }

    /// The invariant of the pool. There is at least one worker. The tasks
    /// dispatched are the first of the tasks submitted. The queue holds the
    /// rest of them, in order, and behind them one sentinel for each worker
    /// still running once shutdown has begun. No worker stops before shutdown
    /// begins, nor while a task is still queued. Every dispatched task is
    /// either finished or being run by exactly one worker.
    pub open spec fn wf(self) -> bool {
        &&& 1 <= self.workers.len() <= u32::MAX
        &&& self.dispatched.len() <= self.submitted.len()
        &&& self.dispatched =~= self.submitted.take(self.dispatched.len() as int)
        &&& self.queue =~= self.expected_queue()
        &&& !self.shutting_down ==> stopped_count(self.workers) == 0
        &&& stopped_count(self.workers) > 0 ==> self.dispatched.len() == self.submitted.len()
        &&& forall|j: nat| #[trigger] self.outcomes.dom().contains(j) ==> j < self.dispatched.len()
        &&& forall|w: int|
            0 <= w < self.workers.len() && (#[trigger] self.workers[w]) is Busy ==> {
                &&& self.workers[w]->task < self.dispatched.len()
                &&& !self.outcomes.dom().contains(self.workers[w]->task)
            }
        &&& forall|w1: int, w2: int|
            0 <= w1 < w2 < self.workers.len() && (#[trigger] self.workers[w1]) is Busy && (
            #[trigger] self.workers[w2]) is Busy ==> self.workers[w1]->task
                != self.workers[w2]->task
        &&& forall|j: nat|
            j < self.dispatched.len() ==> #[trigger] self.outcomes.dom().contains(j) || exists|
                w: int,
            |
                0 <= w < self.workers.len() && #[trigger] self.workers[w] == (WorkerView::Busy {
                    task: j,
                })
    }

    /// The state after `task` was accepted: it is the newest submission and
    /// the last message of the queue.
    pub open spec fn execute(self, task: T) -> PoolView<T> {
        PoolView {
            queue: self.queue.push(Message::Execute(task)),
            submitted: self.submitted.push(task),
            ..self
        }
    }

    /// The state after shutdown was asked for: the first time, one sentinel
    /// for each worker joins the queue behind everything already there; after
    /// that, nothing changes.
    pub open spec fn shutdown(self) -> PoolView<T> {
        if self.shutting_down {
            self
        } else {
            PoolView {
                queue: self.queue + Seq::new(self.workers.len(), |i: int| Message::Terminate),
                shutting_down: true,
                ..self
            }
        }
    }

    /// What `worker` is told when it asks for its next message.
    pub open spec fn directive(self, worker: int) -> Result<Directive<T>, PoolError> {
        if !self.idle(worker) {
            Err(PoolError::ChannelBroken)
        } else if self.queue.len() == 0 {
            Ok(Directive::Wait)
        } else {
            match self.queue[0] {
                Message::Execute(task) => Ok(Directive::Run(task)),
                Message::Terminate => Ok(Directive::Stop),
            }
        }
    }

    /// The state after `worker` asked for its next message: an idle worker
    /// takes the head of the queue, if there is one, and becomes busy with it
    /// or stops; in every other case nothing changes.
    pub open spec fn receive(self, worker: int) -> PoolView<T> {
        if !self.idle(worker) || self.queue.len() == 0 {
            self
        } else {
            match self.queue[0] {
                Message::Execute(task) => PoolView {
                    workers: self.workers.update(
                        worker,
                        WorkerView::Busy { task: self.dispatched.len() },
                    ),
                    queue: self.queue.skip(1),
                    dispatched: self.dispatched.push(task),
                    ..self
                },
                Message::Terminate => PoolView {
                    workers: self.workers.update(worker, WorkerView::Stopped),
                    queue: self.queue.skip(1),
                    ..self
                },
            }
        }
    }

    /// The state after `worker` reported the end of its task: a busy worker is
    /// idle again and the outcome is on record; otherwise nothing changes.
    pub open spec fn complete(self, worker: int, outcome: Outcome) -> PoolView<T> {
        if !self.busy(worker) {
            self
        } else {
            PoolView {
                workers: self.workers.update(worker, WorkerView::Idle),
                outcomes: self.outcomes.insert(self.workers[worker]->task, outcome),
                ..self
            }
        }
    }
}

/// Replacing one worker changes the count of stopped workers by what the old
/// and the new entry contribute.
pub proof fn lemma_stopped_count_update(workers: Seq<WorkerView>, w: int, state: WorkerView)
    requires
        0 <= w < workers.len(),
    ensures
        stopped_count(workers.update(w, state)) == stopped_count(workers) - (if workers[w] is Stopped {
            1int
        } else {
            0int
        }) + (if state is Stopped {
            1int
        } else {
            0int
        }),
    decreases workers.len(),
{
    let updated = workers.update(w, state);
    if w == workers.len() - 1 {
        assert(updated.drop_last() =~= workers.drop_last());
    } else {
        assert(updated.drop_last() =~= workers.drop_last().update(w, state));
        lemma_stopped_count_update(workers.drop_last(), w, state);
    }
}

/// Replacing one worker changes the count of busy workers by what the old and
/// the new entry contribute.
pub proof fn lemma_busy_count_update(workers: Seq<WorkerView>, w: int, state: WorkerView)
    requires
        0 <= w < workers.len(),
    ensures
        busy_count(workers.update(w, state)) == busy_count(workers) - (if workers[w] is Busy {
            1int
        } else {
            0int
        }) + (if state is Busy {
            1int
        } else {
            0int
        }),
    decreases workers.len(),
{
    let updated = workers.update(w, state);
    if w == workers.len() - 1 {
        assert(updated.drop_last() =~= workers.drop_last());
    } else {
        assert(updated.drop_last() =~= workers.drop_last().update(w, state));
        lemma_busy_count_update(workers.drop_last(), w, state);
    }
}

/// The count of stopped workers lies between zero and the number of workers,
/// and meets either bound exactly when none, or all, have stopped.
pub proof fn lemma_stopped_count_bounds(workers: Seq<WorkerView>)
    ensures
        stopped_count(workers) <= workers.len(),
        stopped_count(workers) == 0 <==> forall|w: int|
            0 <= w < workers.len() ==> !(workers[w] is Stopped),
        stopped_count(workers) == workers.len() <==> forall|w: int|
            0 <= w < workers.len() ==> workers[w] is Stopped,
    decreases workers.len(),
{
    if workers.len() > 0 {
        let front = workers.drop_last();
        lemma_stopped_count_bounds(front);
        assert(forall|w: int| 0 <= w < front.len() ==> front[w] == workers[w]);
        if stopped_count(workers) == 0 {
            assert forall|w: int| 0 <= w < workers.len() implies !(workers[w] is Stopped) by {
                if w < front.len() {
                    assert(front[w] == workers[w]);
                }
            }
        }
        if stopped_count(workers) == workers.len() {
            assert forall|w: int| 0 <= w < workers.len() implies workers[w] is Stopped by {
                if w < front.len() {
                    assert(front[w] == workers[w]);
                }
            }
        }
    }
}

} // verus!
