//! The worker-pool core: a fixed set of workers pulling from one FIFO queue.
//!
//! The pool here is the part of a thread pool that decides: what is queued, which
//! message a worker gets next, when a worker stops, and when shutdown is complete.
//! It never blocks and never runs a task. A runtime wraps it in a lock, blocks a
//! worker thread on [`message::Directive::Wait`], runs the task of a
//! [`message::Directive::Run`] behind a failure boundary, and reports how it ended.
//! Because every decision is taken here, what is proved of the pool holds of every
//! interleaving of submitters and workers that the runtime can produce.

pub mod laws;
pub mod message;
pub mod model;
pub mod thread_pool;
pub mod worker;
