//! Workers and the messages exchanged with them.

use vstd::prelude::*;

verus! {

/// Where a worker stands in its loop.
#[derive(Clone, Copy, Debug, PartialEq, Eq, Structural)]
pub enum WorkerState {
    /// Waiting for the next task.
    Idle,
    /// Executing one claimed task; it claims no other until this one ends.
    Running,
    /// Left its loop for good: the queue was closed and empty.
    Stopped,
}

/// One worker of the pool: its stable, 0-based identifier and its state.
#[derive(Clone, Copy, Debug, PartialEq, Eq, Structural)]
pub struct Worker {
    pub id: usize,
    pub state: WorkerState,
}

/// How the run of a task ended.
#[derive(Clone, Copy, Debug, PartialEq, Eq, Structural)]
pub enum TaskOutcome {
    /// The task returned normally.
    Completed,
    /// The task failed abnormally; the fault was caught at the task boundary.
    Faulted,
}

/// What the pool tells a worker that asks for work.
#[derive(Debug)]
pub enum Dispatch<T> {
    /// Run the task carried here, then report how it ended.
    Run(T),
    /// Nothing is pending and the queue is open: block until woken.
    Wait,
    /// The worker is still running a task and gets no second one.
    Busy,
    /// Leave the loop: the queue is closed and empty, or the worker has
    /// stopped already, or the pool has no such worker.
    Stop,
}

impl Worker {
    /// A worker with the given identifier, waiting for its first task.
    pub fn new(id: usize) -> (w: Worker)
        ensures
            w == (Worker { id, state: WorkerState::Idle }),
    {
        Worker { id, state: WorkerState::Idle }
    }
}

} // verus!
