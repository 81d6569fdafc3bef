//! What holds of the pool in every state, proved over its model.

use crate::model::{
    held, in_flight, lemma_count_bounds, lemma_count_update, lemma_in_flight_none,
    lemma_in_flight_update, PoolView,
};
use crate::worker::{Dispatch, TaskOutcome, Worker, WorkerState};
use vstd::prelude::*;

verus! {

/// A new pool of 1 to 15 workers is well formed: it has exactly that many
/// workers, numbered from 0, all idle, and nothing submitted.
pub proof fn law_fresh_pool<T>(size: nat)
    requires
        1 <= size <= 15,
    ensures
        PoolView::<T>::fresh(size).wf(),
        PoolView::<T>::fresh(size).workers.len() == size,
        PoolView::<T>::fresh(size).running() == 0,
        forall|i: int|
            0 <= i < size ==> (#[trigger] PoolView::<T>::fresh(size).workers[i]) == (Worker {
                id: i as usize,
                state: WorkerState::Idle,
            }),
{
    let v = PoolView::<T>::fresh(size);
    lemma_count_bounds(v.workers, WorkerState::Running);
    lemma_in_flight_none(v.current);
    v.delivered.to_multiset_ensures();
    v.finished.to_multiset_ensures();
    assert(v.delivered.to_multiset() =~= v.finished.to_multiset().add(in_flight(v.current)));
    assert(v.delivered + v.pending =~= v.submitted);
}

/// A submission keeps the pool well formed.
pub proof fn law_submit_keeps_wf<T>(v: PoolView<T>, task: T)
    requires
        v.wf(),
    ensures
        v.submit(task).wf(),
{
    let n = v.submit(task);
    if v.open {
        assert(n.delivered + n.pending =~= n.submitted);
    }
}

/// A worker's request for work keeps the pool well formed.
pub proof fn law_claim_keeps_wf<T>(v: PoolView<T>, w: int)
    requires
        v.wf(),
    ensures
        v.claim(w).wf(),
{
    let n = v.claim(w);
    if v.has_worker(w) && v.workers[w].state == WorkerState::Idle {
        if v.pending.len() > 0 {
            lemma_count_update(
                v.workers,
                w,
                Worker { id: w as usize, state: WorkerState::Running },
                WorkerState::Running,
            );
            assert(n.delivered + n.pending =~= n.submitted);
            let task = v.pending[0];
            lemma_in_flight_update(v.current, w, Some(task));
            v.delivered.to_multiset_ensures();
            let moved = in_flight(n.current).add(held(v.current[w]));
            let kept = in_flight(v.current).add(held(Some(task)));
            assert(n.delivered.to_multiset() =~= v.delivered.to_multiset().insert(task));
            assert forall|x: T|
                n.delivered.to_multiset().count(x) == n.finished.to_multiset().add(
                    in_flight(n.current),
                ).count(x) by {
                assert(moved.count(x) == kept.count(x));
            }
            assert(n.delivered.to_multiset() =~= n.finished.to_multiset().add(
                in_flight(n.current),
            ));
        } else if !v.open {
            lemma_count_update(
                v.workers,
                w,
                Worker { id: w as usize, state: WorkerState::Stopped },
                WorkerState::Running,
            );
            lemma_in_flight_update(v.current, w, None);
            let moved = in_flight(n.current).add(held(v.current[w]));
            let kept = in_flight(v.current).add(held(None::<T>));
            assert forall|x: T| in_flight(n.current).count(x) == in_flight(v.current).count(x) by {
                assert(moved.count(x) == kept.count(x));
            }
            assert(in_flight(n.current) =~= in_flight(v.current));
        }
    }
}

/// A worker's report keeps the pool well formed.
pub proof fn law_finish_keeps_wf<T>(v: PoolView<T>, w: int, outcome: TaskOutcome)
    requires
        v.wf(),
    ensures
        v.finish(w, outcome).wf(),
{
    if v.reports(w) {
        let n = v.finish(w, outcome);
        lemma_count_update(
            v.workers,
            w,
            Worker { id: w as usize, state: WorkerState::Idle },
            WorkerState::Running,
        );
        let task = v.current[w].unwrap();
        lemma_in_flight_update(v.current, w, None);
        v.finished.to_multiset_ensures();
        let moved = in_flight(n.current).add(held(v.current[w]));
        let kept = in_flight(v.current).add(held(None::<T>));
        assert(n.finished.to_multiset() =~= v.finished.to_multiset().insert(task));
        assert forall|x: T|
            n.delivered.to_multiset().count(x) == n.finished.to_multiset().add(
                in_flight(n.current),
            ).count(x) by {
            assert(moved.count(x) == kept.count(x));
        }
        assert(n.delivered.to_multiset() =~= n.finished.to_multiset().add(in_flight(n.current)));
    }
}

/// Closing the queue keeps the pool well formed.
pub proof fn law_close_keeps_wf<T>(v: PoolView<T>)
    requires
        v.wf(),
    ensures
        v.close().wf(),
{
}

/// No task is lost and none is handed out twice: the tasks submitted are,
/// in order, those handed to workers followed by those still pending; and
/// the tasks handed out are, each as often as it was handed out, those
/// whose run has ended together with those that the workers are running,
/// one for each running worker.
pub proof fn law_exactly_once<T>(v: PoolView<T>)
    requires
        v.wf(),
    ensures
        v.submitted == v.delivered + v.pending,
        v.delivered.to_multiset() == v.finished.to_multiset().add(in_flight(v.current)),
        v.submitted.len() == v.finished.len() + v.running() + v.pending.len(),
        v.finished.len() == v.completed() + v.faulted,
        v.completed() >= 0,
        v.running() <= v.workers.len(),
{
    lemma_count_bounds(v.workers, WorkerState::Running);
}

/// A worker runs at most one task at a time: it is handed a task only while
/// idle and is running afterwards, and while it runs every request of its
/// own is answered `Busy` and changes nothing.
pub proof fn law_one_task_per_worker<T>(v: PoolView<T>, w: int)
    requires
        v.wf(),
    ensures
        v.answer(w) is Run ==> v.has_worker(w) && v.workers[w].state == WorkerState::Idle
            && v.claim(w).workers[w].state == WorkerState::Running,
        v.has_worker(w) && v.workers[w].state == WorkerState::Running ==> v.answer(w) is Busy
            && v.claim(w) == v,
{
}

/// A busy worker holds up nobody else: an open queue accepts a task whatever
/// the workers are doing, and an idle worker that asks is handed the oldest
/// pending task whatever the other workers are doing.
pub proof fn law_idle_worker_is_served<T>(v: PoolView<T>, task: T, w: int)
    requires
        v.wf(),
        v.open,
        v.has_worker(w),
        v.workers[w].state == WorkerState::Idle,
    ensures
        v.submit(task).submitted == v.submitted.push(task),
        v.submit(task).answer(w) == Dispatch::Run(v.submit(task).pending[0]),
        v.pending.len() == 0 ==> v.submit(task).answer(w) == Dispatch::Run(task),
{
}

/// Once every worker has stopped, the queue is closed and empty, no task
/// is running, and the tasks whose run has ended are the tasks that were
/// submitted, each as often as it was submitted.
pub proof fn law_terminated_means_done<T>(v: PoolView<T>)
    requires
        v.wf(),
        v.terminated(),
    ensures
        !v.open,
        v.pending.len() == 0,
        v.delivered == v.submitted,
        v.finished.to_multiset() == v.submitted.to_multiset(),
        v.finished.len() == v.submitted.len(),
        v.running() == 0,
{
    lemma_count_bounds(v.workers, WorkerState::Running);
    assert(v.workers[0].state == WorkerState::Stopped);
    assert(v.delivered + v.pending =~= v.delivered);
    assert forall|i: int| 0 <= i < v.current.len() implies v.current[i] is None by {
        assert(v.workers[i].state == WorkerState::Stopped);
    }
    lemma_in_flight_none(v.current);
    assert(v.finished.to_multiset().add(in_flight(v.current)) =~= v.finished.to_multiset());
}

/// A closed queue takes no task: a submission after the close changes
/// nothing.
pub proof fn law_closed_rejects<T>(v: PoolView<T>, task: T)
    ensures
        v.close().submit(task) == v.close(),
{
}

/// Closing the queue twice is closing it once.
pub proof fn law_close_idempotent<T>(v: PoolView<T>)
    ensures
        v.close().close() == v.close(),
{
}

/// After the close, a pool whose workers have not all stopped is never
/// stuck: some worker has not stopped, and for every such worker the one
/// step that is open to it (a report if it runs, a request for work if it
/// is idle) brings the pool strictly closer to having every worker stopped.
/// So a closed pool whose tasks all end drains its queue and stops.
pub proof fn law_closed_pool_drains<T>(v: PoolView<T>, w: int, outcome: TaskOutcome)
    requires
        v.wf(),
        !v.open,
        v.has_worker(w),
        v.workers[w].state != WorkerState::Stopped,
    ensures
        v.remaining() > 0,
        v.workers[w].state == WorkerState::Running ==> v.finish(w, outcome).remaining()
            < v.remaining(),
        v.workers[w].state == WorkerState::Idle ==> v.claim(w).remaining() < v.remaining(),
        v.remaining() >= 0,
{
    lemma_count_bounds(v.workers, WorkerState::Stopped);
    lemma_count_bounds(v.workers, WorkerState::Running);
    match v.workers[w].state {
        WorkerState::Running => {
            let idle = Worker { id: w as usize, state: WorkerState::Idle };
            lemma_count_update(v.workers, w, idle, WorkerState::Running);
            lemma_count_update(v.workers, w, idle, WorkerState::Stopped);
        },
        WorkerState::Idle => {
            if v.pending.len() > 0 {
                let run = Worker { id: w as usize, state: WorkerState::Running };
                lemma_count_update(v.workers, w, run, WorkerState::Running);
                lemma_count_update(v.workers, w, run, WorkerState::Stopped);
            } else {
                let stop = Worker { id: w as usize, state: WorkerState::Stopped };
                lemma_count_update(v.workers, w, stop, WorkerState::Running);
                lemma_count_update(v.workers, w, stop, WorkerState::Stopped);
            }
        },
        WorkerState::Stopped => {},
    }
}

/// The pool has stopped exactly when nothing remains to be done.
pub proof fn law_stopped_iff_nothing_remains<T>(v: PoolView<T>)
    requires
        v.wf(),
        !v.open,
    ensures
        v.terminated() <==> v.remaining() == 0,
{
    lemma_count_bounds(v.workers, WorkerState::Stopped);
    lemma_count_bounds(v.workers, WorkerState::Running);
    if v.terminated() {
        assert(v.workers[0].state == WorkerState::Stopped);
    }
}

} // verus!
