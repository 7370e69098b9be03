//! The pool itself: workers, queue and lifecycle, with every step checked
//! against the model.

use std::collections::VecDeque;
use vstd::prelude::*;
use crate::pool::laws::{
    lemma_complete_wf,
    lemma_execute_wf,
    lemma_init_wf,
    lemma_receive_wf,
    lemma_shutdown_wf,
};
use crate::pool::message::{Directive, Message, Outcome, PoolError, TaskFailure};
use crate::pool::model::{PoolView, WorkerView};
use crate::pool::worker::{Worker, WorkerState};

verus! {

/// A pool of a fixed number of workers that share one FIFO queue of tasks.
///
/// `T` is the task: the pool stores it and hands it out, and never looks
/// inside. Submitters call [`ThreadPool::execute`]; each worker calls
/// [`ThreadPool::receive`] for its next directive and
/// [`ThreadPool::complete`] after running a task; the owner calls
/// [`ThreadPool::shutdown`] and waits until [`ThreadPool::is_terminated`].
pub struct ThreadPool<T> {
    workers: Vec<Worker>,
    queue: VecDeque<Message<T>>,
    shutting_down: bool,
    /// For each worker, the position of the task it last took.
    running: Ghost<Seq<nat>>,
    submitted: Ghost<Seq<T>>,
    dispatched: Ghost<Seq<T>>,
    outcomes: Ghost<Map<nat, Outcome>>,
}

/// The model's picture of a worker in `state` whose last task was `task`.
pub open spec fn worker_view(state: WorkerState, task: nat) -> WorkerView {
    match state {
        WorkerState::Idle => WorkerView::Idle,
        WorkerState::Busy => WorkerView::Busy { task },
        WorkerState::Stopped => WorkerView::Stopped,
    }
}

impl<T> View for ThreadPool<T> {
    type V = PoolView<T>;

    closed spec fn view(&self) -> PoolView<T> {
        PoolView {
            workers: Seq::new(
                self.workers@.len(),
                |w: int| worker_view(self.workers@[w].state(), self.running@[w]),
            ),
            queue: self.queue@,
            shutting_down: self.shutting_down,
            submitted: self.submitted@,
            dispatched: self.dispatched@,
            outcomes: self.outcomes@,
        }
    }
}

impl<T> ThreadPool<T> {
    /// How the pool is laid out: one record of the last task for each worker,
    /// and each worker's identity is its index.
    pub closed spec fn represented(&self) -> bool {
        &&& self.running@.len() == self.workers@.len()
        &&& forall|w: int| 0 <= w < self.workers@.len() ==> self.workers@[w].id() == w
    }

    /// Validity of a pool: its state meets the model's invariant.
    pub open spec fn wf(&self) -> bool {
        self.represented() && self@.wf()
    }

    /// A pool of `size` workers, all idle, with an empty queue. A pool of no
    /// workers is refused.
    pub fn new(size: u32) -> (result: Result<ThreadPool<T>, PoolError>)
        ensures
            size == 0 <==> result is Err,
            result matches Err(e) ==> e == PoolError::ConstructionError,
            result matches Ok(pool) ==> pool.wf() && pool@ == PoolView::<T>::init(size as nat),
    {
        if size == 0 {
            return Err(PoolError::ConstructionError);
        }
        let mut workers: Vec<Worker> = Vec::new();
        let mut id: u32 = 0;
        while id < size
            invariant
                id <= size,
                workers@.len() == id,
                forall|w: int|
                    0 <= w < id ==> workers@[w].id() == w && workers@[w].state()
                        == WorkerState::Idle,
            decreases size - id,
        {
            workers.push(Worker::new(id));
            id = id + 1;
        }
        let pool = ThreadPool {
            workers,
            queue: VecDeque::new(),
            shutting_down: false,
            running: Ghost(Seq::new(size as nat, |w: int| 0nat)),
            submitted: Ghost(Seq::empty()),
            dispatched: Ghost(Seq::empty()),
            outcomes: Ghost(Map::empty()),
        };
        proof {
            assert(pool@ =~= PoolView::<T>::init(size as nat));
            lemma_init_wf::<T>(size as nat);
        }
        Ok(pool)
    }

    /// The number of workers.
    pub fn size(&self) -> (size: u32)
        requires
            self.wf(),
        ensures
            size == self@.size(),
    {
        self.workers.len() as u32
    }

    /// The number of messages that wait in the queue.
    pub fn pending(&self) -> (pending: usize)
        ensures
            pending == self@.queue.len(),
    {
        self.queue.len()
    }

    /// Whether shutdown has begun.
    pub fn is_shutting_down(&self) -> (shutting_down: bool)
        ensures
            shutting_down == self@.shutting_down,
    {
        self.shutting_down
    }

    /// The state of `worker`, if the pool has such a worker.
    pub fn worker_state(&self, worker: u32) -> (state: Option<WorkerState>)
        ensures
            state is Some <==> worker < self@.size(),
            state matches Some(s) ==> match s {
                WorkerState::Idle => self@.workers[worker as int] is Idle,
                WorkerState::Busy => self@.workers[worker as int] is Busy,
                WorkerState::Stopped => self@.workers[worker as int] is Stopped,
            },
    {
        let w = worker as usize;
        if w < self.workers.len() {
            Some(self.workers[w].state())
        } else {
            None
        }
    }

    /// Submits `task`. While the pool is open the task joins the queue behind
    /// everything submitted before it, and the call returns at once: it does
    /// not wait for the task to run. After shutdown has begun the task is
    /// refused and nothing changes.
    pub fn execute(&mut self, task: T) -> (result: Result<(), PoolError>)
        requires
            old(self).wf(),
        ensures
            final(self).wf(),
            old(self)@.accepts() ==> result == Ok::<(), PoolError>(()) && final(self)@ == old(
                self,
            )@.execute(task),
            !old(self)@.accepts() ==> result == Err::<(), PoolError>(
                PoolError::SubmissionAfterShutdown,
            ) && final(self)@ == old(self)@,
    {
        if self.shutting_down {
            return Err(PoolError::SubmissionAfterShutdown);
        }
        proof {
            lemma_execute_wf(self@, task);
        }
        self.submitted = Ghost(self.submitted@.push(task));
        self.queue.push_back(Message::Execute(task));
        proof {
            assert(self@ =~= old(self)@.execute(task));
        }
        Ok(())
    }

    /// Submits `task` only if it would be taken at once: the pool is open,
    /// nothing waits in the queue, and some worker is idle. Then the task is
    /// queued as by [`ThreadPool::execute`], and that worker or another free
    /// one takes it next. Otherwise the task is refused and nothing changes.
    pub fn submit(&mut self, task: T) -> (result: Result<(), ()>)
        requires
            old(self).wf(),
        ensures
            final(self).wf(),
            old(self)@.has_free_worker() ==> result == Ok::<(), ()>(()) && final(self)@ == old(
                self,
            )@.execute(task),
            !old(self)@.has_free_worker() ==> result == Err::<(), ()>(()) && final(self)@ == old(
                self,
            )@,
    {
        if self.shutting_down || self.queue.len() > 0 || !self.has_idle_worker() {
            return Err(());
        }
        match self.execute(task) {
            Ok(()) => Ok(()),
            Err(_) => Err(()),
        }
    }

    /// Whether some worker is idle.
    pub fn has_idle_worker(&self) -> (found: bool)
        ensures
            found == exists|w: int| #[trigger] self@.idle(w),
    {
        let mut w: usize = 0;
        while w < self.workers.len()
            invariant
                w <= self.workers@.len(),
                forall|i: int| 0 <= i < w ==> !self@.idle(i),
            decreases self.workers@.len() - w,
        {
            match self.workers[w].state() {
                WorkerState::Idle => {
                    assert(self@.idle(w as int));
                    return true;
                },
                _ => {},
            }
            w = w + 1;
        }
        false
    }

    /// Begins shutdown: queues one terminate sentinel for each worker, behind
    /// every task submitted so far, so that each worker drains what is pending
    /// before it meets a sentinel. From now on the pool takes no tasks. A
    /// second call changes nothing.
    pub fn shutdown(&mut self)
        requires
            old(self).wf(),
        ensures
            final(self).wf(),
            final(self)@ == old(self)@.shutdown(),
    {
        if self.shutting_down {
            return ;
        }
        proof {
            lemma_shutdown_wf(self@);
        }
        let size = self.workers.len();
        let mut sent: usize = 0;
        while sent < size
            invariant
                sent <= size,
                size == self.workers@.len(),
                self.queue@ =~= old(self).queue@ + Seq::new(
                    sent as nat,
                    |i: int| Message::<T>::Terminate,
                ),
                self.workers == old(self).workers,
                self.shutting_down == old(self).shutting_down,
                self.running == old(self).running,
                self.submitted == old(self).submitted,
                self.dispatched == old(self).dispatched,
                self.outcomes == old(self).outcomes,
            decreases size - sent,
        {
            self.queue.push_back(Message::Terminate);
            sent = sent + 1;
        }
        self.shutting_down = true;
        proof {
            assert(self@ =~= old(self)@.shutdown());
        }
    }

    /// Gives `worker` its next directive. An idle worker takes the head of the
    /// queue: a task makes it busy, the sentinel stops it for good, and an
    /// empty queue leaves it waiting. Any other caller is refused, and nothing
    /// changes. Whoever asks first is served first: the pool assigns nothing.
    pub fn receive(&mut self, worker: u32) -> (result: Result<Directive<T>, PoolError>)
        requires
            old(self).wf(),
        ensures
            final(self).wf(),
            result == old(self)@.directive(worker as int),
            final(self)@ == old(self)@.receive(worker as int),
    {
        let w = worker as usize;
        if w >= self.workers.len() {
            return Err(PoolError::ChannelBroken);
        }
        match self.workers[w].state() {
            WorkerState::Idle => {},
            _ => {
                return Err(PoolError::ChannelBroken);
            },
        }
        let ghost before = self@;
        proof {
            lemma_receive_wf(before, worker as int);
        }
        match self.queue.pop_front() {
            None => Ok(Directive::Wait),
            Some(message) => {
                self.running = Ghost(self.running@.update(w as int, self.dispatched@.len()));
                self.dispatched = Ghost(before.receive(worker as int).dispatched);
                let handled = self.workers[w].handle(message);
                proof {
                    assert(self@ =~= old(self)@.receive(worker as int));
                }
                match handled {
                    Ok(directive) => Ok(directive),
                    Err(_) => Err(PoolError::ChannelBroken),
                }
            },
        }
    }

    /// Records that `worker` has finished its task, however it ended. The
    /// worker is idle again and will be served the next message: a task that
    /// failed abruptly costs the pool nothing. The result is the diagnostic to
    /// log, present exactly when the task failed. A caller that is not a busy
    /// worker of the pool is refused, and nothing changes.
    pub fn complete(&mut self, worker: u32, outcome: Outcome) -> (result: Result<
        Option<TaskFailure>,
        PoolError,
    >)
        requires
            old(self).wf(),
        ensures
            final(self).wf(),
            final(self)@ == old(self)@.complete(worker as int, outcome),
            result == if old(self)@.busy(worker as int) {
                Ok::<Option<TaskFailure>, PoolError>(
                    if outcome == Outcome::Panicked {
                        Some(TaskFailure { worker })
                    } else {
                        None
                    },
                )
            } else {
                Err::<Option<TaskFailure>, PoolError>(PoolError::ChannelBroken)
            },
    {
        let w = worker as usize;
        if w >= self.workers.len() {
            return Err(PoolError::ChannelBroken);
        }
        match self.workers[w].state() {
            WorkerState::Busy => {},
            _ => {
                return Err(PoolError::ChannelBroken);
            },
        }
        proof {
            lemma_complete_wf(self@, worker as int, outcome);
        }
        self.outcomes = Ghost(self.outcomes@.insert(self.running@[w as int], outcome));
        let report = self.workers[w].finish(outcome);
        proof {
            assert(self@ =~= old(self)@.complete(worker as int, outcome));
        }
        Ok(report)
    }

    /// Whether every worker has stopped, that is, whether joining the workers
    /// would return and shutdown is complete.
    pub fn is_terminated(&self) -> (terminated: bool)
        ensures
            terminated == self@.terminated(),
    {
        let mut w: usize = 0;
        while w < self.workers.len()
            invariant
                w <= self.workers@.len(),
                forall|i: int| 0 <= i < w ==> self@.workers[i] is Stopped,
            decreases self.workers@.len() - w,
        {
            match self.workers[w].state() {
                WorkerState::Stopped => {},
                _ => {
                    assert(!(self@.workers[w as int] is Stopped));
                    return false;
                },
            }
            w = w + 1;
        }
        true
    }
}

/// The report of joining the workers, one by one and each of them whatever
/// became of the others: `panicked[w]` says whether worker `w` was found to
/// have ended abnormally. The result names those workers, in the order in which
/// they were joined, so that each can be reported.
pub fn failed_prematurely(panicked: &Vec<bool>) -> (failed: Vec<u32>)
    requires
        panicked@.len() <= u32::MAX,
    ensures
        forall|i: int, j: int| 0 <= i < j < failed@.len() ==> failed@[i] < failed@[j],
        forall|w: u32| failed@.contains(w) <==> (w < panicked@.len() && panicked@[w as int]),
{
    let mut failed: Vec<u32> = Vec::new();
    let mut w: usize = 0;
    while w < panicked.len()
        invariant
            w <= panicked@.len() <= u32::MAX,
            forall|i: int, j: int| 0 <= i < j < failed@.len() ==> failed@[i] < failed@[j],
            forall|i: int| 0 <= i < failed@.len() ==> failed@[i] < w,
            forall|x: u32| failed@.contains(x) <==> (x < w && panicked@[x as int]),
        decreases panicked@.len() - w,
    {
        if panicked[w] {
            let ghost before = failed@;
            failed.push(w as u32);
            proof {
                assert(failed@[before.len() as int] == w as u32);
                assert forall|x: u32| failed@.contains(x) <==> (x < w + 1 && panicked@[
                    x as int]) by {
                    if failed@.contains(x) {
                        let i = choose|i: int| 0 <= i < failed@.len() && failed@[i] == x;
                        if i < before.len() {
                            assert(before[i] == x);
                            assert(before.contains(x));
                        }
                    }
                    if x < w + 1 && panicked@[x as int] {
                        if x < w {
                            assert(before.contains(x));
                            let i = choose|i: int| 0 <= i < before.len() && before[i] == x;
                            assert(failed@[i] == x);
                        }
                    }
                }
            }
        }
        w = w + 1;
    }
    failed
}

} // verus!
