//! Small verified building blocks: a worker-pool core with a FIFO task queue,
//! panic isolation and drain-on-shutdown, and a handful of utilities around it.

pub mod buffer;
pub mod calls;
pub mod collections;
pub mod digits;
pub mod errors;
pub mod graph;
pub mod greeting;
pub mod grep;
pub mod hex;
pub mod http;
pub mod largest;
pub mod pool;
pub mod report;
pub mod sensors;
pub mod sieve;
pub mod stats;
pub mod strtok;
pub mod text;
pub mod zipf;
