//! Messages, directives, outcomes and errors of the pool.

use vstd::prelude::*;

verus! {

/// What travels through the task queue: a task to run, or the sentinel that
/// tells one worker to stop.
#[derive(Debug, PartialEq, Eq)]
pub enum Message<T> {
    Execute(T),
    Terminate,
}

/// What a worker does next, as decided by the pool when the worker asks for a
/// message.
#[derive(Debug, PartialEq, Eq)]
pub enum Directive<T> {
    /// Run the task, then tell the pool how it ended.
    Run(T),
    /// Nothing is queued: block until something is.
    Wait,
    /// The terminate sentinel arrived: leave the receive loop for good.
    Stop,
}

/// How the run of one task ended.
#[derive(Clone, Copy, Debug, PartialEq, Eq, Structural)]
pub enum Outcome {
    Completed,
    /// The task failed abruptly and the failure was caught at the worker.
    Panicked,
}

/// The diagnostic of one failed task. It names the worker that caught the
/// failure and that goes on serving.
#[derive(Clone, Copy, Debug, PartialEq, Eq, Structural)]
pub struct TaskFailure {
    pub worker: u32,
}

/// Why the pool refused an operation.
#[derive(Clone, Copy, Debug, PartialEq, Eq, Structural)]
pub enum PoolError {
    /// A pool of zero workers was asked for.
    ConstructionError,
    /// A task was submitted after shutdown had begun.
    SubmissionAfterShutdown,
    /// The queue was used outside its protocol: by a worker the pool does not
    /// have, by a stopped worker, by a busy worker asking for more, or by an
    /// idle worker reporting an outcome. No message can reach such a caller.
    ChannelBroken,
}

} // verus!
