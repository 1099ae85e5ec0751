//! A bounded worker pool, stated as a verified state machine.
//!
//! A pool owns one job queue and a fixed number of workers. Callers hand
//! jobs to the pool; every idle worker takes the next job from the shared
//! queue, runs it to the end and comes back for more. Closing the queue lets
//! the backlog drain and then sends every worker home.
//!
//! The crate holds the decisions of that design and proves them: what the
//! queue delivers and in which order, what a worker does at each step, and
//! that a pool which has shut down has run every accepted job exactly once.
//! Threads, locks and sockets are left to the caller, who performs each step
//! under a lock and runs the job that a step hands out.

pub mod queue;
pub mod worker;
pub mod model;
pub mod laws;
pub mod pool;
pub mod http;

