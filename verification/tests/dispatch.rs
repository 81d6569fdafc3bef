use std::cell::{Cell, RefCell};
use std::rc::Rc;
use web_server::{Dispatch, FatalSubmissionError, TaskOutcome, ThreadPool, Worker, WorkerState};

type Job = Box<dyn FnOnce()>;

fn take(d: Dispatch<u32>) -> u32 {
    match d {
        Dispatch::Run(task) => task,
        other => panic!("expected a task, got {:?}", other),
    }
}

/// Lets worker `worker` work until it waits or stops; returns how many tasks it ran.
fn work(pool: &mut ThreadPool<Job>, worker: usize) -> usize {
    let mut ran = 0;
    loop {
        match pool.next_task(worker) {
            Dispatch::Run(job) => {
                job();
                assert!(pool.finish(worker, TaskOutcome::Completed));
                ran += 1;
            }
            Dispatch::Wait | Dispatch::Stop => return ran,
            Dispatch::Busy => panic!("an idle worker was called busy"),
        }
    }
}

#[test]
fn five_tasks_on_two_workers_count_to_five() {
    let mut pool: ThreadPool<Job> = ThreadPool::build(2).expect("two workers");
    let counter = Rc::new(Cell::new(0u32));
    for _ in 0..5 {
        let c = Rc::clone(&counter);
        assert!(pool.execute(Box::new(move || c.set(c.get() + 1))).is_ok());
    }
    assert_eq!(pool.pending(), 5);
    pool.shutdown();
    let mut ran = 0;
    let mut turn = 0;
    while !pool.is_terminated() {
        match pool.next_task(turn % 2) {
            Dispatch::Run(job) => {
                job();
                assert!(pool.finish(turn % 2, TaskOutcome::Completed));
                ran += 1;
            }
            Dispatch::Stop => {}
            Dispatch::Wait | Dispatch::Busy => panic!("a closed pool made a worker wait"),
        }
        turn += 1;
    }
    assert_eq!(ran, 5);
    assert_eq!(counter.get(), 5);
    assert_eq!(pool.pending(), 0);
}

#[test]
fn single_worker_starts_second_task_after_first_ends() {
    let mut pool: ThreadPool<Job> = ThreadPool::build(1).expect("one worker");
    let log = Rc::new(RefCell::new(Vec::new()));
    let a = Rc::clone(&log);
    let b = Rc::clone(&log);
    pool.execute(Box::new(move || a.borrow_mut().push("a"))).unwrap();
    pool.execute(Box::new(move || b.borrow_mut().push("b"))).unwrap();
    let first = match pool.next_task(0) {
        Dispatch::Run(job) => job,
        _ => panic!("no task for an idle worker"),
    };
    assert!(matches!(pool.next_task(0), Dispatch::Busy));
    assert_eq!(pool.pending(), 1);
    assert!(log.borrow().is_empty());
    first();
    assert!(pool.finish(0, TaskOutcome::Completed));
    match pool.next_task(0) {
        Dispatch::Run(job) => job(),
        _ => panic!("no second task"),
    }
    assert_eq!(*log.borrow(), vec!["a", "b"]);
}

#[test]
fn no_tasks_means_no_runs() {
    let mut pool: ThreadPool<Job> = ThreadPool::build(3).expect("three workers");
    assert!(matches!(pool.next_task(0), Dispatch::Wait));
    pool.shutdown();
    for id in 0..3 {
        assert_eq!(work(&mut pool, id), 0);
    }
    assert!(pool.is_terminated());
}

#[test]
fn every_task_runs_once_for_several_pool_sizes() {
    for size in [1usize, 2, 4, 15] {
        for count in [0usize, 1, 7, 40] {
            let mut pool: ThreadPool<Job> = ThreadPool::build(size).expect("within bounds");
            let runs = Rc::new(RefCell::new(vec![0u32; count]));
            for i in 0..count {
                let r = Rc::clone(&runs);
                pool.execute(Box::new(move || r.borrow_mut()[i] += 1)).unwrap();
            }
            pool.shutdown();
            let mut total = 0;
            for id in 0..size {
                total += work(&mut pool, id);
            }
            assert_eq!(total, count);
            assert!(pool.is_terminated());
            assert!(runs.borrow().iter().all(|n| *n == 1));
        }
    }
}

#[test]
fn tasks_leave_the_queue_oldest_first() {
    let mut pool = ThreadPool::<u32>::build(3).unwrap();
    for task in [10, 20, 30, 40] {
        assert_eq!(pool.execute(task), Ok(()));
    }
    assert_eq!(take(pool.next_task(2)), 10);
    assert_eq!(take(pool.next_task(0)), 20);
    assert_eq!(pool.pending(), 2);
    assert_eq!(pool.running(), 2);
    assert_eq!(pool.worker(2), Some(Worker { id: 2, state: WorkerState::Running }));
    assert_eq!(pool.worker(1), Some(Worker { id: 1, state: WorkerState::Idle }));
    assert_eq!(take(pool.next_task(1)), 30);
    assert_eq!(pool.running(), 3);
    assert!(pool.finish(0, TaskOutcome::Completed));
    assert_eq!(pool.running(), 2);
    assert_eq!(take(pool.next_task(0)), 40);
    assert_eq!(pool.pending(), 0);
}

#[test]
fn busy_worker_does_not_hold_up_the_others() {
    let mut pool = ThreadPool::<u32>::build(2).unwrap();
    pool.execute(1).unwrap();
    assert_eq!(take(pool.next_task(0)), 1);
    assert_eq!(pool.execute(2), Ok(()));
    assert_eq!(pool.execute(3), Ok(()));
    assert!(matches!(pool.next_task(0), Dispatch::Busy));
    assert_eq!(take(pool.next_task(1)), 2);
    assert!(pool.finish(1, TaskOutcome::Completed));
    assert_eq!(take(pool.next_task(1)), 3);
    assert_eq!(pool.worker(0), Some(Worker { id: 0, state: WorkerState::Running }));
}

#[test]
fn idle_worker_waits_on_an_open_empty_queue() {
    let mut pool = ThreadPool::<u32>::build(1).unwrap();
    assert!(matches!(pool.next_task(0), Dispatch::Wait));
    assert_eq!(pool.worker(0), Some(Worker { id: 0, state: WorkerState::Idle }));
    pool.execute(5).unwrap();
    assert_eq!(take(pool.next_task(0)), 5);
}

#[test]
fn unknown_worker_is_told_to_stop() {
    let mut pool = ThreadPool::<u32>::build(2).unwrap();
    pool.execute(5).unwrap();
    assert!(matches!(pool.next_task(2), Dispatch::Stop));
    assert!(matches!(pool.next_task(usize::MAX), Dispatch::Stop));
    assert_eq!(pool.pending(), 1);
    assert!(!pool.finish(2, TaskOutcome::Completed));
}

#[test]
fn report_is_taken_from_a_running_worker_only() {
    let mut pool = ThreadPool::<u32>::build(2).unwrap();
    assert!(!pool.finish(0, TaskOutcome::Completed));
    pool.execute(1).unwrap();
    assert_eq!(take(pool.next_task(0)), 1);
    assert!(!pool.finish(1, TaskOutcome::Completed));
    assert!(pool.finish(0, TaskOutcome::Completed));
    assert!(!pool.finish(0, TaskOutcome::Completed));
    assert_eq!(pool.worker(0), Some(Worker { id: 0, state: WorkerState::Idle }));
}

#[test]
fn faulted_task_costs_no_worker() {
    let mut pool = ThreadPool::<u32>::build(1).unwrap();
    pool.execute(1).unwrap();
    pool.execute(2).unwrap();
    assert_eq!(take(pool.next_task(0)), 1);
    assert!(pool.finish(0, TaskOutcome::Faulted));
    assert_eq!(pool.worker(0), Some(Worker { id: 0, state: WorkerState::Idle }));
    assert_eq!(pool.running(), 0);
    assert_eq!(take(pool.next_task(0)), 2);
}

#[test]
fn submit_after_shutdown_fails() {
    let mut pool = ThreadPool::<u32>::build(2).unwrap();
    pool.execute(1).unwrap();
    pool.shutdown();
    assert!(!pool.is_open());
    assert_eq!(pool.execute(2), Err(FatalSubmissionError));
    assert_eq!(pool.pending(), 1);
    assert_eq!(take(pool.next_task(0)), 1);
}

#[test]
fn shutdown_twice_is_shutdown_once() {
    let mut pool = ThreadPool::<u32>::build(2).unwrap();
    pool.execute(1).unwrap();
    pool.shutdown();
    pool.shutdown();
    assert!(!pool.is_open());
    assert_eq!(pool.pending(), 1);
    assert_eq!(pool.size(), 2);
    assert!(!pool.is_terminated());
}

#[test]
fn shutdown_drains_before_workers_stop() {
    let mut pool = ThreadPool::<u32>::build(2).unwrap();
    for task in [1, 2, 3] {
        pool.execute(task).unwrap();
    }
    assert_eq!(take(pool.next_task(0)), 1);
    pool.shutdown();
    assert_eq!(take(pool.next_task(1)), 2);
    assert!(pool.finish(1, TaskOutcome::Completed));
    assert_eq!(take(pool.next_task(1)), 3);
    assert!(pool.finish(0, TaskOutcome::Completed));
    assert!(matches!(pool.next_task(0), Dispatch::Stop));
    assert_eq!(pool.worker(0), Some(Worker { id: 0, state: WorkerState::Stopped }));
    assert!(!pool.is_terminated());
    assert!(matches!(pool.next_task(1), Dispatch::Busy));
    assert!(pool.finish(1, TaskOutcome::Completed));
    assert!(matches!(pool.next_task(1), Dispatch::Stop));
    assert!(pool.is_terminated());
    assert!(matches!(pool.next_task(1), Dispatch::Stop));
    assert_eq!(pool.execute(4), Err(FatalSubmissionError));
    assert_eq!(pool.pending(), 0);
    assert_eq!(pool.running(), 0);
}
