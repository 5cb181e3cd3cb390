use std::cell::{Cell, RefCell};
use std::rc::Rc;

use worker_pool::error::{ConstructionError, SubmissionError};
use worker_pool::pool::{PoolCore, Step};
use worker_pool::worker::{Worker, WorkerState};

type Job = Box<dyn FnOnce()>;

/// Plays every worker in turn, one message each, until all have left their
/// loop; returns how many jobs were run.
fn drain(core: &mut PoolCore<Job>) -> usize {
    let mut ran = 0;
    let mut rounds = 0;
    while core.live_count() > 0 {
        rounds += 1;
        assert!(rounds < 100_000, "workers never stopped");
        for id in 0..core.size() {
            if core.is_exited(id) {
                continue;
            }
            match core.receive(id) {
                Step::Run(job) => {
                    job();
                    ran += 1;
                }
                Step::Exit => {}
                Step::Wait => panic!("a worker waited while stop signals were queued"),
            }
        }
    }
    ran
}

/// Joins every worker in the order they were built.
fn join_all(core: &mut PoolCore<Job>) -> Vec<usize> {
    let mut order = Vec::new();
    while let Some(id) = core.next_to_join() {
        assert!(core.is_exited(id));
        core.record_joined(id);
        order.push(id);
    }
    order
}

fn counting_job(counter: &Rc<Cell<u64>>) -> Job {
    let c = Rc::clone(counter);
    Box::new(move || c.set(c.get() + 1))
}

#[test]
fn zero_size_is_refused() {
    let r = PoolCore::<Job>::new(0);
    assert!(matches!(r, Err(ConstructionError::ZeroSize)));
}

#[test]
fn new_pool_has_every_worker_live() {
    for size in [1usize, 4, 17] {
        let core = PoolCore::<Job>::new(size).ok().unwrap();
        assert_eq!(core.size(), size);
        assert_eq!(core.live_count(), size);
        assert_eq!(core.pending(), 0);
        assert!(!core.is_shutting_down());
        assert!(!core.is_torn_down());
        for id in 0..size {
            assert_eq!(core.worker(id), Worker { id, state: WorkerState::Idle, joined: false });
        }
        assert_eq!(core.next_to_join(), Some(0));
    }
}

#[test]
fn idle_worker_waits_on_empty_queue() {
    let mut core = PoolCore::<u64>::new(2).ok().unwrap();
    assert!(matches!(core.receive(1), Step::Wait));
    assert_eq!(core.worker(1).state, WorkerState::Idle);
    assert_eq!(core.live_count(), 2);
}

#[test]
fn job_is_taken_by_exactly_one_worker() {
    let mut core = PoolCore::<u64>::new(3).ok().unwrap();
    assert_eq!(core.submit(42), Ok(()));
    assert_eq!(core.pending(), 1);
    assert!(matches!(core.receive(2), Step::Run(42)));
    assert_eq!(core.worker(2).state, WorkerState::Busy);
    assert!(matches!(core.receive(0), Step::Wait));
    assert!(matches!(core.receive(1), Step::Wait));
    assert_eq!(core.pending(), 0);
}

#[test]
fn one_submitter_order_is_kept() {
    let mut core = PoolCore::<u64>::new(2).ok().unwrap();
    for j in 1..=5u64 {
        core.submit(j).unwrap();
    }
    let mut seen = Vec::new();
    let mut id = 0;
    while let Step::Run(j) = core.receive(id) {
        seen.push(j);
        id = 1 - id;
    }
    assert_eq!(seen, vec![1, 2, 3, 4, 5]);
}

#[test]
fn counter_reaches_number_of_jobs() {
    for (m, k) in [(0u64, 1usize), (1, 1), (50, 3), (200, 8), (7, 16)] {
        let counter = Rc::new(Cell::new(0u64));
        let mut core = PoolCore::<Job>::new(k).ok().unwrap();
        for _ in 0..m {
            core.submit(counting_job(&counter)).unwrap();
        }
        assert_eq!(core.begin_teardown(), k);
        assert_eq!(drain(&mut core), m as usize);
        join_all(&mut core);
        assert!(core.is_torn_down());
        assert_eq!(counter.get(), m);
    }
}

#[test]
fn teardown_waits_for_queued_job() {
    let finished = Rc::new(Cell::new(false));
    let mut core = PoolCore::<Job>::new(2).ok().unwrap();
    let f = Rc::clone(&finished);
    core.submit(Box::new(move || f.set(true))).unwrap();
    core.begin_teardown();
    assert_eq!(core.pending(), 3);
    match core.receive(0) {
        Step::Run(job) => {
            assert!(!finished.get());
            assert_eq!(core.worker(0).state, WorkerState::Busy);
            job();
        }
        _ => panic!("the job must leave the queue before any stop signal"),
    }
    assert!(finished.get());
    assert!(matches!(core.receive(1), Step::Exit));
    assert!(matches!(core.receive(0), Step::Exit));
    assert_eq!(core.live_count(), 0);
    join_all(&mut core);
    assert!(core.is_torn_down());
}

#[test]
fn teardown_queues_one_stop_signal_per_worker() {
    let mut core = PoolCore::<u64>::new(4).ok().unwrap();
    core.submit(1).unwrap();
    assert_eq!(core.begin_teardown(), 4);
    assert!(core.is_shutting_down());
    assert_eq!(core.pending(), 5);
    assert_eq!(core.begin_teardown(), 0);
    assert_eq!(core.pending(), 5);
}

#[test]
fn every_worker_is_joined_in_order() {
    let mut core = PoolCore::<Job>::new(5).ok().unwrap();
    core.begin_teardown();
    drain(&mut core);
    assert!(!core.is_torn_down());
    assert_eq!(join_all(&mut core), vec![0, 1, 2, 3, 4]);
    assert!(core.is_torn_down());
    assert_eq!(core.next_to_join(), None);
    for id in 0..5 {
        assert_eq!(core.worker(id), Worker { id, state: WorkerState::Exited, joined: true });
    }
    assert_eq!(core.begin_teardown(), 0);
}

#[test]
fn submit_after_teardown_is_refused() {
    let ran = Rc::new(Cell::new(false));
    let mut core = PoolCore::<Job>::new(2).ok().unwrap();
    core.begin_teardown();
    drain(&mut core);
    join_all(&mut core);
    let r = Rc::clone(&ran);
    let res = core.submit(Box::new(move || r.set(true)));
    assert!(matches!(res, Err(SubmissionError::NoLiveWorker)));
    assert_eq!(core.pending(), 0);
    assert!(!ran.get());
}

#[test]
fn submit_during_teardown_is_refused() {
    let mut core = PoolCore::<u64>::new(2).ok().unwrap();
    core.begin_teardown();
    assert_eq!(core.submit(9), Err(SubmissionError::NoLiveWorker));
    assert_eq!(core.pending(), 2);
}

#[test]
fn interleaved_submitters_lose_and_repeat_nothing() {
    let seen: Rc<RefCell<Vec<(u32, u32)>>> = Rc::new(RefCell::new(Vec::new()));
    let mut core = PoolCore::<Job>::new(4).ok().unwrap();
    for round in 0..10u32 {
        for submitter in 0..10u32 {
            let s = Rc::clone(&seen);
            core.submit(Box::new(move || s.borrow_mut().push((submitter, round)))).unwrap();
        }
        if round % 3 == 0 {
            if let Step::Run(job) = core.receive((round as usize) % 4) {
                job();
            }
        }
    }
    core.begin_teardown();
    drain(&mut core);
    join_all(&mut core);
    let mut got = seen.borrow().clone();
    assert_eq!(got.len(), 100);
    got.sort();
    got.dedup();
    assert_eq!(got.len(), 100);
}
