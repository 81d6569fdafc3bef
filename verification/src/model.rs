//! The mathematical model of a pool: its state and its transitions.

use crate::error::MAX_WORKERS;
use crate::worker::{Dispatch, TaskOutcome, Worker, WorkerState};
use vstd::multiset::Multiset;
use vstd::prelude::*;

verus! {

/// The state of a pool, as contracts see it.
pub struct PoolView<T> {
    /// The workers, by identifier.
    pub workers: Seq<Worker>,
    /// The tasks accepted and not yet handed to a worker, oldest first.
    pub pending: Seq<T>,
    /// Whether the queue still accepts tasks.
    pub open: bool,
    /// Every task ever accepted, in the order of acceptance.
    pub submitted: Seq<T>,
    /// Every task ever handed to a worker, in the order of the hand-outs.
    pub delivered: Seq<T>,
    /// For each worker, the task that it is running, if any.
    pub current: Seq<Option<T>>,
    /// Every task whose run has ended, in the order of the reports.
    pub finished: Seq<T>,
    /// How many of the runs that ended did so in a fault.
    pub faulted: nat,
}

/// 1 if `w` is in state `state`, else 0.
pub open spec fn load(w: Worker, state: WorkerState) -> nat {
    if w.state == state {
        1
    } else {
        0
    }
}

/// The number of workers in `workers` that are in state `state`.
pub open spec fn count_in(workers: Seq<Worker>, state: WorkerState) -> nat
    decreases workers.len(),
{
    if workers.len() == 0 {
        0
    } else {
        count_in(workers.drop_last(), state) + load(workers.last(), state)
    }
}

/// Replacing one worker changes the count of a state by the difference of
/// the two workers' loads.
pub proof fn lemma_count_update(workers: Seq<Worker>, i: int, w: Worker, state: WorkerState)
    requires
        0 <= i < workers.len(),
    ensures
        count_in(workers.update(i, w), state) + load(workers[i], state) == count_in(workers, state)
            + load(w, state),
    decreases workers.len(),
{
    let after = workers.update(i, w);
    if i == workers.len() - 1 {
        assert(after.drop_last() =~= workers.drop_last());
    } else {
        assert(after.drop_last() =~= workers.drop_last().update(i, w));
        lemma_count_update(workers.drop_last(), i, w, state);
    }
}

/// A state is counted at most once per worker; it is counted for no worker
/// exactly when no worker is in it, and for all exactly when all are.
pub proof fn lemma_count_bounds(workers: Seq<Worker>, state: WorkerState)
    ensures
        count_in(workers, state) <= workers.len(),
        count_in(workers, state) == 0 <==> (forall|i: int|
            0 <= i < workers.len() ==> workers[i].state != state),
        count_in(workers, state) == workers.len() <==> (forall|i: int|
            0 <= i < workers.len() ==> workers[i].state == state),
    decreases workers.len(),
{
    if workers.len() > 0 {
        let front = workers.drop_last();
        lemma_count_bounds(front, state);
        assert(forall|i: int| 0 <= i < front.len() ==> front[i] == workers[i]);
        assert(workers.last() == workers[workers.len() - 1]);
    }
}

/// The task that a worker holds, as a collection of at most one.
pub open spec fn held<T>(task: Option<T>) -> Multiset<T> {
    match task {
        Some(t) => Multiset::singleton(t),
        None => Multiset::empty(),
    }
}

/// The tasks that the workers are running, each as often as it is held.
pub open spec fn in_flight<T>(current: Seq<Option<T>>) -> Multiset<T>
    decreases current.len(),
{
    if current.len() == 0 {
        Multiset::empty()
    } else {
        in_flight(current.drop_last()).add(held(current.last()))
    }
}

/// Replacing what one worker holds takes the old task out of flight and
/// puts the new one in.
pub proof fn lemma_in_flight_update<T>(current: Seq<Option<T>>, i: int, task: Option<T>)
    requires
        0 <= i < current.len(),
    ensures
        in_flight(current.update(i, task)).add(held(current[i])) =~= in_flight(current).add(
            held(task),
        ),
    decreases current.len(),
{
    let after = current.update(i, task);
    let front = current.drop_last();
    let before_all = in_flight(current).add(held(task));
    let after_all = in_flight(after).add(held(current[i]));
    assert(after.last() == if i == current.len() - 1 {
        task
    } else {
        current.last()
    });
    if i == current.len() - 1 {
        assert(after.drop_last() =~= front);
        assert forall|v: T| after_all.count(v) == before_all.count(v) by {}
    } else {
        assert(after.drop_last() =~= front.update(i, task));
        lemma_in_flight_update(front, i, task);
        let moved = in_flight(front.update(i, task)).add(held(front[i]));
        let kept = in_flight(front).add(held(task));
        assert forall|v: T| after_all.count(v) == before_all.count(v) by {
            assert(moved.count(v) == kept.count(v));
        }
    }
    assert(after_all =~= before_all);
}

/// Where no worker holds a task, none is in flight.
pub proof fn lemma_in_flight_none<T>(current: Seq<Option<T>>)
    requires
        forall|i: int| 0 <= i < current.len() ==> current[i] is None,
    ensures
        in_flight(current) =~= Multiset::empty(),
    decreases current.len(),
{
    if current.len() > 0 {
        lemma_in_flight_none(current.drop_last());
    }
}

impl<T> PoolView<T> {
    /// A new pool of `size` idle workers, with an open, empty queue.
    pub open spec fn fresh(size: nat) -> Self {
        PoolView {
            workers: Seq::new(size, |i: int| Worker { id: i as usize, state: WorkerState::Idle }),
            pending: Seq::empty(),
            open: true,
            submitted: Seq::empty(),
            delivered: Seq::empty(),
            current: Seq::new(size, |i: int| None),
            finished: Seq::empty(),
            faulted: 0,
        }
    }

    /// Whether `w` identifies a worker of this pool.
    pub open spec fn has_worker(self, w: int) -> bool {
        0 <= w < self.workers.len()
    }

    /// The number of workers that are running a task.
    pub open spec fn running(self) -> nat {
        count_in(self.workers, WorkerState::Running)
    }

    /// Whether every worker has stopped.
    pub open spec fn terminated(self) -> bool {
        forall|i: int| 0 <= i < self.workers.len() ==> self.workers[i].state == WorkerState::Stopped
    }

    /// What holds of every pool, in every state it can reach.
    pub open spec fn wf(self) -> bool {
        &&& 1 <= self.workers.len() <= MAX_WORKERS
        &&& forall|i: int| 0 <= i < self.workers.len() ==> self.workers[i].id == i
        &&& self.submitted == self.delivered + self.pending
        &&& self.current.len() == self.workers.len()
        &&& forall|i: int|
            0 <= i < self.workers.len() ==> (self.workers[i].state == WorkerState::Running
                <==> self.current[i] is Some)
        &&& self.delivered.len() == self.finished.len() + self.running()
        &&& self.delivered.to_multiset() == self.finished.to_multiset().add(
            in_flight(self.current),
        )
        &&& self.faulted <= self.finished.len()
        &&& forall|i: int|
            0 <= i < self.workers.len() && self.workers[i].state == WorkerState::Stopped ==> !self.open
                && self.pending.len() == 0
    }

    /// How many runs ended normally.
    pub open spec fn completed(self) -> int {
        self.finished.len() - self.faulted
    }

    /// This pool with worker `w` in state `state`, holding `task`.
    pub open spec fn with_state(self, w: int, state: WorkerState, task: Option<T>) -> Self {
        PoolView {
            workers: self.workers.update(w, Worker { id: w as usize, state }),
            current: self.current.update(w, task),
            ..self
        }
    }

    /// The pool after a submission of `task`: an open queue takes it at its
    /// end, a closed one leaves everything as it was.
    pub open spec fn submit(self, task: T) -> Self {
        if self.open {
            PoolView {
                pending: self.pending.push(task),
                submitted: self.submitted.push(task),
                ..self
            }
        } else {
            self
        }
    }

    /// The pool after worker `w` asked for work.
    ///
    /// Only an idle worker changes anything. With a task pending it takes
    /// the oldest one and runs; with none pending it keeps waiting while the
    /// queue is open and stops once it is closed.
    pub open spec fn claim(self, w: int) -> Self {
        if self.has_worker(w) && self.workers[w].state == WorkerState::Idle {
            if self.pending.len() > 0 {
                PoolView {
                    pending: self.pending.skip(1),
                    delivered: self.delivered.push(self.pending[0]),
                    ..self.with_state(w, WorkerState::Running, Some(self.pending[0]))
                }
            } else if self.open {
                self
            } else {
                self.with_state(w, WorkerState::Stopped, None)
            }
        } else {
            self
        }
    }

    /// What worker `w` is told when it asks for work.
    pub open spec fn answer(self, w: int) -> Dispatch<T> {
        if !self.has_worker(w) {
            Dispatch::Stop
        } else {
            match self.workers[w].state {
                WorkerState::Stopped => Dispatch::Stop,
                WorkerState::Running => Dispatch::Busy,
                WorkerState::Idle => if self.pending.len() > 0 {
                    Dispatch::Run(self.pending[0])
                } else if self.open {
                    Dispatch::Wait
                } else {
                    Dispatch::Stop
                },
            }
        }
    }

    /// Whether a report from worker `w` is taken: it must be running a task.
    pub open spec fn reports(self, w: int) -> bool {
        self.has_worker(w) && self.workers[w].state == WorkerState::Running
    }

    /// The pool after worker `w` reported the end of its task: the run of
    /// the task that it held has ended. The worker is idle again whatever
    /// the outcome, so a fault costs the pool no worker.
    pub open spec fn finish(self, w: int, outcome: TaskOutcome) -> Self {
        if self.reports(w) && self.current[w] is Some {
            PoolView {
                finished: self.finished.push(self.current[w].unwrap()),
                faulted: match outcome {
                    TaskOutcome::Completed => self.faulted,
                    TaskOutcome::Faulted => self.faulted + 1,
                },
                ..self.with_state(w, WorkerState::Idle, None)
            }
        } else {
            self
        }
    }

    /// The pool with its queue closed.
    pub open spec fn close(self) -> Self {
        PoolView { open: false, ..self }
    }

    /// The number of workers that have stopped.
    pub open spec fn stopped(self) -> nat {
        count_in(self.workers, WorkerState::Stopped)
    }

    /// How far a closed pool is from having every worker stopped: each
    /// pending task costs a claim and a report, each running worker a
    /// report, each worker that has not stopped its last claim.
    pub open spec fn remaining(self) -> int {
        2 * self.pending.len() + self.running() + self.workers.len() - self.stopped()
    }
}

} // verus!
