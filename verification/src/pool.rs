//! The pool itself.

use crate::error::{FatalSubmissionError, PoolCreationError, MAX_WORKERS};
use crate::laws::{law_claim_keeps_wf, law_finish_keeps_wf, law_fresh_pool, law_submit_keeps_wf};
use crate::model::{count_in, lemma_count_bounds, PoolView};
use crate::worker::{Dispatch, TaskOutcome, Worker, WorkerState};
use std::collections::VecDeque;
use vstd::prelude::*;

verus! {

/// A pool of a fixed number of workers that share one queue of tasks.
///
/// The pool decides; it runs nothing itself. A task of type `T` is opaque
/// to it: `execute` queues it, `next_task` hands it to the worker that
/// asks, and that worker's `finish` reports the end of its run.
pub struct ThreadPool<T> {
    threads: Vec<Worker>,
    queue: VecDeque<T>,
    open: bool,
    submitted: Ghost<Seq<T>>,
    delivered: Ghost<Seq<T>>,
    current: Ghost<Seq<Option<T>>>,
    finished: Ghost<Seq<T>>,
    faulted: Ghost<nat>,
}

impl<T> View for ThreadPool<T> {
    type V = PoolView<T>;

    closed spec fn view(&self) -> PoolView<T> {
        PoolView {
            workers: self.threads@,
            pending: self.queue@,
            open: self.open,
            submitted: self.submitted@,
            delivered: self.delivered@,
            current: self.current@,
            finished: self.finished@,
            faulted: self.faulted@,
        }
    }
}

impl<T> ThreadPool<T> {
    /// Whether this pool is in a state that a pool can reach.
    pub open spec fn wf(&self) -> bool {
        self@.wf()
    }

    /// Creates a pool of `size` workers, all idle, with an open and empty
    /// queue. The size must lie between 1 and 15.
    pub fn new(size: usize) -> (pool: Self)
        requires
            0 < size < 16,
        ensures
            pool.wf(),
            pool@ == PoolView::<T>::fresh(size as nat),
    {
        let mut threads: Vec<Worker> = Vec::with_capacity(size);
        let mut id: usize = 0;
        while id < size
            invariant
                id <= size,
                threads@.len() == id,
                forall|i: int|
                    0 <= i < id ==> threads@[i] == (Worker {
                        id: i as usize,
                        state: WorkerState::Idle,
                    }),
            decreases size - id,
        {
            threads.push(Worker::new(id));
            id += 1;
        }
        let pool = ThreadPool {
            threads,
            queue: VecDeque::new(),
            open: true,
            submitted: Ghost(Seq::empty()),
            delivered: Ghost(Seq::empty()),
            current: Ghost(Seq::new(size as nat, |i: int| None)),
            finished: Ghost(Seq::empty()),
            faulted: Ghost(0),
        };
        proof {
            law_fresh_pool::<T>(size as nat);
            assert(pool@.workers =~= PoolView::<T>::fresh(size as nat).workers);
        }
        pool
    }

    /// Creates a pool of `size` workers if `size` lies between 1 and 15, and
    /// reports why not otherwise. No worker exists after a failure.
    pub fn build(size: usize) -> (r: Result<Self, PoolCreationError>)
        ensures
            r.is_ok() <==> 1 <= size <= MAX_WORKERS,
            r matches Ok(pool) ==> pool.wf() && pool@ == PoolView::<T>::fresh(size as nat),
            r matches Err(e) ==> PoolCreationError::of_size(size) == Some(e),
    {
        match PoolCreationError::check_size(size) {
            Err(e) => Err(e),
            Ok(()) => Ok(ThreadPool::new(size)),
        }
    }

    /// Submits a task. An open queue takes it at its end; after `shutdown`
    /// the task is refused and the pool stays as it was.
    pub fn execute(&mut self, task: T) -> (r: Result<(), FatalSubmissionError>)
        requires
            old(self).wf(),
        ensures
            final(self).wf(),
            r.is_ok() <==> old(self)@.open,
            final(self)@ == old(self)@.submit(task),
    {
        if !self.open {
            return Err(FatalSubmissionError);
        }
        proof {
            law_submit_keeps_wf(self@, task);
            self.submitted = Ghost(self.submitted@.push(task));
        }
        self.queue.push_back(task);
        Ok(())
    }

    /// Answers worker `worker`, which asks for work.
    ///
    /// An idle worker is handed the oldest pending task and runs from then
    /// on; with nothing pending it is told to wait while the queue is open,
    /// and to stop, for good, once it is closed. A running worker is told
    /// that it is busy. Nothing else changes the pool.
    pub fn next_task(&mut self, worker: usize) -> (d: Dispatch<T>)
        requires
            old(self).wf(),
        ensures
            final(self).wf(),
            d == old(self)@.answer(worker as int),
            final(self)@ == old(self)@.claim(worker as int),
    {
        if worker >= self.threads.len() {
            return Dispatch::Stop;
        }
        proof {
            law_claim_keeps_wf(self@, worker as int);
        }
        match self.threads[worker].state {
            WorkerState::Stopped => Dispatch::Stop,
            WorkerState::Running => Dispatch::Busy,
            WorkerState::Idle => {
                match self.queue.pop_front() {
                    Some(task) => {
                        self.threads.set(worker, Worker { id: worker, state: WorkerState::Running });
                        proof {
                            self.delivered = Ghost(self.delivered@.push(task));
                            self.current = Ghost(self.current@.update(worker as int, Some(task)));
                            assert(self.queue@ =~= old(self)@.pending.skip(1));
                        }
                        Dispatch::Run(task)
                    },
                    None => {
                        if self.open {
                            Dispatch::Wait
                        } else {
                            self.threads.set(
                                worker,
                                Worker { id: worker, state: WorkerState::Stopped },
                            );
                            proof {
                                self.current = Ghost(self.current@.update(worker as int, None));
                            }
                            Dispatch::Stop
                        }
                    },
                }
            },
        }
    }

    /// Takes the report of worker `worker` that its task has ended, and
    /// says whether the report was taken: it is from a running worker only.
    /// That worker is idle afterwards, whether the task completed or
    /// faulted.
    pub fn finish(&mut self, worker: usize, outcome: TaskOutcome) -> (taken: bool)
        requires
            old(self).wf(),
        ensures
            final(self).wf(),
            taken == old(self)@.reports(worker as int),
            final(self)@ == old(self)@.finish(worker as int, outcome),
    {
        if worker >= self.threads.len() {
            return false;
        }
        match self.threads[worker].state {
            WorkerState::Running => {
                proof {
                    law_finish_keeps_wf(self@, worker as int, outcome);
                }
                self.threads.set(worker, Worker { id: worker, state: WorkerState::Idle });
                proof {
                    self.finished = Ghost(self.finished@.push(self.current@[worker as int].unwrap()));
                    self.current = Ghost(self.current@.update(worker as int, None));
                    if outcome == TaskOutcome::Faulted {
                        self.faulted = Ghost((self.faulted@ + 1) as nat);
                    }
                }
                true
            },
            _ => false,
        }
    }

    /// Closes the queue: no task is accepted from now on. What is pending
    /// stays pending, to be handed out before the workers stop. A second
    /// call changes nothing.
    pub fn shutdown(&mut self)
        requires
            old(self).wf(),
        ensures
            final(self).wf(),
            final(self)@ == old(self)@.close(),
    {
        self.open = false;
    }

    /// Whether every worker has stopped.
    pub fn is_terminated(&self) -> (b: bool)
        ensures
            b == self@.terminated(),
    {
        let mut i: usize = 0;
        while i < self.threads.len()
            invariant
                i <= self.threads@.len(),
                forall|j: int| 0 <= j < i ==> self.threads@[j].state == WorkerState::Stopped,
            decreases self.threads@.len() - i,
        {
            match self.threads[i].state {
                WorkerState::Stopped => {},
                _ => {
                    return false;
                },
            }
            i += 1;
        }
        true
    }

    /// The number of workers, fixed at creation.
    pub fn size(&self) -> (n: usize)
        ensures
            n == self@.workers.len(),
            self.wf() ==> 1 <= n <= MAX_WORKERS,
    {
        self.threads.len()
    }

    /// The number of tasks accepted and not yet handed to a worker.
    pub fn pending(&self) -> (n: usize)
        ensures
            n == self@.pending.len(),
    {
        self.queue.len()
    }

    /// Whether the queue still accepts tasks.
    pub fn is_open(&self) -> (b: bool)
        ensures
            b == self@.open,
    {
        self.open
    }

    /// The worker with identifier `worker`, if the pool has one.
    pub fn worker(&self, worker: usize) -> (w: Option<Worker>)
        ensures
            w == if self@.has_worker(worker as int) {
                Some(self@.workers[worker as int])
            } else {
                None
            },
    {
        if worker < self.threads.len() {
            Some(self.threads[worker])
        } else {
            None
        }
    }

    /// The number of workers that are running a task.
    pub fn running(&self) -> (n: usize)
        ensures
            n == self@.running(),
    {
        let mut n: usize = 0;
        let mut i: usize = 0;
        while i < self.threads.len()
            invariant
                i <= self.threads@.len(),
                n == count_in(self.threads@.take(i as int), WorkerState::Running),
                n <= i,
            decreases self.threads@.len() - i,
        {
            proof {
                assert(self.threads@.take(i + 1).drop_last() =~= self.threads@.take(i as int));
                lemma_count_bounds(self.threads@.take(i + 1), WorkerState::Running);
            }
            match self.threads[i].state {
                WorkerState::Running => {
                    n += 1;
                },
                _ => {},
            }
            i += 1;
        }
        proof {
            assert(self.threads@.take(i as int) =~= self.threads@);
        }
        n
    }
}

} // verus!
