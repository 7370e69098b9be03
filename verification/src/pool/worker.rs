//! One worker: an identity and a three-state machine.

use vstd::prelude::*;
use crate::pool::message::{Directive, Message, Outcome, TaskFailure};

verus! {

/// Where a worker stands. `Idle` and `Busy` together are the running state;
/// `Stopped` is terminal.
#[derive(Clone, Copy, Debug, PartialEq, Eq, Structural)]
pub enum WorkerState {
    /// Waiting for the next message.
    Idle,
    /// Running a task.
    Busy,
    /// Has consumed a terminate sentinel; never runs again.
    Stopped,
}

/// A worker of the pool. The runtime pairs it with a thread.
#[derive(Debug)]
pub struct Worker {
    id: u32,
    state: WorkerState,
}

impl Worker {
    /// The worker's identity, for diagnostics.
    pub closed spec fn spec_id(&self) -> u32 {
        self.id
    }

    /// The worker's state.
    pub closed spec fn spec_state(&self) -> WorkerState {
        self.state
    }

    /// A fresh worker: idle, waiting for its first message.
    pub fn new(id: u32) -> (worker: Worker)
        ensures
            worker.spec_id() == id,
            worker.spec_state() == WorkerState::Idle,
    {
        Worker { id, state: WorkerState::Idle }
    }

    #[verifier::when_used_as_spec(spec_id)]
    pub fn id(&self) -> (id: u32)
        ensures
            id == self.spec_id(),
    {
        self.id
    }

    #[verifier::when_used_as_spec(spec_state)]
    pub fn state(&self) -> (state: WorkerState)
        ensures
            state == self.spec_state(),
    {
        self.state
    }

    /// One turn of the receive loop. An idle worker takes the message: a task
    /// makes it busy and is handed out to be run, the sentinel stops it. A
    /// worker that is not idle takes nothing and hands the message back.
    pub fn handle<T>(&mut self, message: Message<T>) -> (result: Result<Directive<T>, Message<T>>)
        ensures
            final(self).id() == old(self).id(),
            old(self).state() == WorkerState::Idle ==> match message {
                Message::Execute(task) => result == Ok::<Directive<T>, Message<T>>(Directive::Run(task))
                    && final(self).state() == WorkerState::Busy,
                Message::Terminate => result == Ok::<Directive<T>, Message<T>>(Directive::Stop)
                    && final(self).state() == WorkerState::Stopped,
            },
            old(self).state() != WorkerState::Idle ==> result == Err::<Directive<T>, Message<T>>(message)
                && final(self).state() == old(self).state(),
    {
        match self.state {
            WorkerState::Idle => match message {
                Message::Execute(task) => {
                    self.state = WorkerState::Busy;
                    Ok(Directive::Run(task))
                },
                Message::Terminate => {
                    self.state = WorkerState::Stopped;
                    Ok(Directive::Stop)
                },
            },
            _ => Err(message),
        }
    }

    /// The end of a task, however it ended: a busy worker becomes idle again,
    /// so a failed task costs the pool no capacity. The result is the
    /// diagnostic to log, present exactly when the task failed. A worker that
    /// is not busy has nothing to finish: `None`, and no change.
    pub fn finish(&mut self, outcome: Outcome) -> (report: Option<TaskFailure>)
        ensures
            final(self).id() == old(self).id(),
            old(self).state() == WorkerState::Busy ==> final(self).state() == WorkerState::Idle,
            old(self).state() != WorkerState::Busy ==> final(self).state() == old(self).state(),
            report == if old(self).state() == WorkerState::Busy && outcome == Outcome::Panicked {
                Some(TaskFailure { worker: old(self).id() })
            } else {
                None
            },
    {
        match self.state {
            WorkerState::Busy => {
                self.state = WorkerState::Idle;
                match outcome {
                    Outcome::Panicked => Some(TaskFailure { worker: self.id }),
                    Outcome::Completed => None,
                }
            },
            _ => None,
        }
    }
}

} // verus!
