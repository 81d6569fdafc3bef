//! A fixed-size worker pool, stated as a verified dispatch core.
//!
//! The pool owns one ordered queue of pending tasks and a fixed set of
//! workers. A caller submits tasks; a worker claims the task at the head of
//! the queue, runs it outside the pool, and reports back. Every decision
//! (who gets which task, when a worker waits, when it stops) is made here and
//! proved against a mathematical model of the pool.

pub mod error;
pub mod http;
pub mod laws;
pub mod model;
pub mod pool;
pub mod worker;

pub use error::{decimal_string, FatalSubmissionError, PoolCreationError, MAX_WORKERS};
pub use pool::ThreadPool;
pub use worker::{Dispatch, TaskOutcome, Worker, WorkerState};
