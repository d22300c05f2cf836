use std::cell::{Cell, RefCell};
use std::rc::Rc;
use std::time::{Duration, Instant};

use web_server::pool::ThreadPool;
use web_server::worker::Action;

type Job = Box<dyn FnOnce()>;

/// Serves the workers in turn until none is left in its loop, running every
/// job that is handed out. Returns the number of messages that were taken.
fn serve_in_turn<H>(pool: &mut ThreadPool<Job, H>) -> usize {
    let mut taken = 0;
    while !pool.is_terminated() {
        for worker in 0..pool.size() {
            if pool.is_running(worker) {
                match pool.next_action(worker) {
                    Action::Run(job) => {
                        taken += 1;
                        job();
                    }
                    Action::Stop => taken += 1,
                    Action::Wait => panic!("a worker was left waiting during shutdown"),
                }
            }
        }
    }
    taken
}

#[test]
fn a_new_pool_has_every_worker_running() {
    for size in 1..=16usize {
        let threads: Vec<usize> = (0..size).collect();
        let pool: ThreadPool<u32, usize> = ThreadPool::new(size, threads);
        assert_eq!(pool.size(), size);
        assert_eq!(pool.live_workers(), size);
        assert_eq!(pool.pending(), 0);
        assert!(!pool.is_shutting_down());
        assert!(!pool.is_terminated());
        for worker in 0..size {
            assert!(pool.is_running(worker));
        }
        assert!(!pool.is_running(size));
    }
}

#[test]
fn a_pool_without_workers_is_refused() {
    let pool: Option<ThreadPool<u32, usize>> = ThreadPool::try_new(0, Vec::new());
    assert!(pool.is_none());
}

#[test]
fn a_pool_with_the_wrong_number_of_threads_is_refused() {
    let pool: Option<ThreadPool<u32, usize>> = ThreadPool::try_new(2, vec![10]);
    assert!(pool.is_none());
    let pool: Option<ThreadPool<u32, usize>> = ThreadPool::try_new(0, vec![10]);
    assert!(pool.is_none());
    let pool: Option<ThreadPool<u32, usize>> = ThreadPool::try_new(1, vec![10, 11]);
    assert!(pool.is_none());
}

#[test]
fn a_checked_pool_is_as_a_new_one() {
    let pool: Option<ThreadPool<u32, usize>> = ThreadPool::try_new(3, vec![10, 11, 12]);
    let mut pool = pool.expect("three threads for three workers");
    assert_eq!(pool.size(), 3);
    assert_eq!(pool.live_workers(), 3);
    assert_eq!(pool.pending(), 0);
    assert_eq!(pool.shutdown(), vec![10, 11, 12]);
}

#[test]
fn an_idle_worker_is_told_to_wait() {
    let mut pool: ThreadPool<u32, usize> = ThreadPool::new(2, vec![0, 1]);
    assert!(matches!(pool.next_action(0), Action::Wait));
    assert!(matches!(pool.next_action(1), Action::Wait));
    assert_eq!(pool.pending(), 0);
    assert_eq!(pool.live_workers(), 2);
    assert!(pool.is_running(0));
    assert!(pool.is_running(1));
    pool.execute(5);
    assert!(matches!(pool.next_action(1), Action::Run(5)));
    assert!(matches!(pool.next_action(0), Action::Wait));
}

#[test]
fn execute_queues_the_job_before_it_returns() {
    let mut pool: ThreadPool<u32, usize> = ThreadPool::new(1, vec![0]);
    assert_eq!(pool.pending(), 0);
    pool.execute(1);
    assert_eq!(pool.pending(), 1);
    pool.execute(2);
    pool.execute(3);
    assert_eq!(pool.pending(), 3);
    assert_eq!(pool.live_workers(), 1);
    assert!(!pool.is_shutting_down());
}

#[test]
fn jobs_are_handed_out_in_the_order_submitted() {
    let mut pool: ThreadPool<u32, usize> = ThreadPool::new(3, vec![0, 1, 2]);
    for job in 0..9u32 {
        pool.execute(job);
    }
    let schedule = [2usize, 0, 0, 1, 2, 2, 1, 0, 1];
    let mut handed_out = Vec::new();
    for worker in schedule {
        match pool.next_action(worker) {
            Action::Run(job) => handed_out.push(job),
            _ => panic!("a job was waiting"),
        }
    }
    assert_eq!(handed_out, vec![0, 1, 2, 3, 4, 5, 6, 7, 8]);
    assert_eq!(pool.pending(), 0);
    assert_eq!(pool.live_workers(), 3);
}

#[test]
fn shutdown_sends_one_stop_signal_per_worker_behind_the_jobs() {
    let mut pool: ThreadPool<u32, &str> = ThreadPool::new(3, vec!["a", "b", "c"]);
    pool.execute(10);
    pool.execute(20);
    let threads = pool.shutdown();
    assert_eq!(threads, vec!["a", "b", "c"]);
    assert!(pool.is_shutting_down());
    assert_eq!(pool.pending(), 5);
    assert_eq!(pool.live_workers(), 3);
    assert!(!pool.is_terminated());
    assert!(matches!(pool.next_action(1), Action::Run(10)));
    assert!(matches!(pool.next_action(1), Action::Run(20)));
    assert!(matches!(pool.next_action(1), Action::Stop));
    assert!(!pool.is_running(1));
    assert_eq!(pool.live_workers(), 2);
    assert_eq!(pool.pending(), 2);
    assert!(matches!(pool.next_action(2), Action::Stop));
    assert!(!pool.is_terminated());
    assert!(matches!(pool.next_action(0), Action::Stop));
    assert_eq!(pool.live_workers(), 0);
    assert_eq!(pool.pending(), 0);
    assert!(pool.is_terminated());
    assert_eq!(pool.size(), 3);
}

#[test]
fn shutdown_without_jobs_stops_every_worker() {
    for size in 1..=12usize {
        let threads: Vec<usize> = (100..100 + size).collect();
        let mut pool: ThreadPool<Job, usize> = ThreadPool::new(size, threads.clone());
        let joined = pool.shutdown();
        assert_eq!(joined, threads);
        assert_eq!(pool.pending(), size);
        assert_eq!(pool.live_workers(), size);
        let taken = serve_in_turn(&mut pool);
        assert_eq!(taken, size);
        assert_eq!(pool.live_workers(), 0);
        assert_eq!(pool.pending(), 0);
        assert!(pool.is_terminated());
    }
}

#[test]
fn ten_jobs_on_three_workers_count_to_ten() {
    let counter = Rc::new(Cell::new(0u32));
    let mut pool: ThreadPool<Job, usize> = ThreadPool::new(3, vec![0, 1, 2]);
    for _ in 0..10 {
        let counter = Rc::clone(&counter);
        pool.execute(Box::new(move || counter.set(counter.get() + 1)));
    }
    assert_eq!(counter.get(), 0);
    let joined = pool.shutdown();
    assert_eq!(joined.len(), 3);
    let taken = serve_in_turn(&mut pool);
    assert_eq!(taken, 13);
    assert_eq!(counter.get(), 10);
    assert!(pool.is_terminated());
    assert_eq!(pool.live_workers(), 0);
}

#[test]
fn a_single_worker_runs_jobs_strictly_in_order() {
    let created = Instant::now();
    let recorded: Rc<Cell<Option<Instant>>> = Rc::new(Cell::new(None));
    let mut pool: ThreadPool<Job, usize> = ThreadPool::new(1, vec![0]);
    pool.execute(Box::new(|| {
        let begun = Instant::now();
        while begun.elapsed() < Duration::from_millis(50) {
            std::hint::spin_loop();
        }
    }));
    let slot = Rc::clone(&recorded);
    pool.execute(Box::new(move || slot.set(Some(Instant::now()))));
    pool.shutdown();
    serve_in_turn(&mut pool);
    let at = recorded.get().expect("the second job ran");
    assert!(at.duration_since(created) >= Duration::from_millis(50));
    assert!(pool.is_terminated());
}

#[test]
fn ten_thousand_jobs_on_two_workers_all_run() {
    let log: Rc<RefCell<Vec<u32>>> = Rc::new(RefCell::new(Vec::new()));
    let mut pool: ThreadPool<Job, usize> = ThreadPool::new(2, vec![0, 1]);
    for job in 0..10_000u32 {
        let log = Rc::clone(&log);
        pool.execute(Box::new(move || log.borrow_mut().push(job)));
    }
    assert_eq!(pool.pending(), 10_000);
    pool.shutdown();
    assert_eq!(pool.pending(), 10_002);
    let taken = serve_in_turn(&mut pool);
    assert_eq!(taken, 10_002);
    let expected: Vec<u32> = (0..10_000).collect();
    assert_eq!(*log.borrow(), expected);
    assert_eq!(pool.pending(), 0);
    assert_eq!(pool.live_workers(), 0);
    assert!(pool.is_terminated());
}

#[test]
fn one_worker_may_take_every_job() {
    let mut pool: ThreadPool<u32, usize> = ThreadPool::new(2, vec![0, 1]);
    for job in 0..5u32 {
        pool.execute(job);
    }
    pool.shutdown();
    let mut handed_out = Vec::new();
    loop {
        match pool.next_action(1) {
            Action::Run(job) => handed_out.push(job),
            Action::Stop => break,
            Action::Wait => panic!("a message was waiting"),
        }
    }
    assert_eq!(handed_out, vec![0, 1, 2, 3, 4]);
    assert!(!pool.is_running(1));
    assert!(pool.is_running(0));
    assert_eq!(pool.pending(), 1);
    assert!(matches!(pool.next_action(0), Action::Stop));
    assert!(pool.is_terminated());
}

#[test]
fn jobs_handed_out_before_shutdown_are_not_handed_out_again() {
    let mut pool: ThreadPool<u32, usize> = ThreadPool::new(2, vec![0, 1]);
    pool.execute(1);
    pool.execute(2);
    pool.execute(3);
    assert!(matches!(pool.next_action(0), Action::Run(1)));
    let joined = pool.shutdown();
    assert_eq!(joined, vec![0, 1]);
    assert_eq!(pool.pending(), 4);
    assert!(matches!(pool.next_action(1), Action::Run(2)));
    assert!(matches!(pool.next_action(0), Action::Run(3)));
    assert!(matches!(pool.next_action(0), Action::Stop));
    assert!(matches!(pool.next_action(1), Action::Stop));
    assert!(pool.is_terminated());
    assert_eq!(pool.pending(), 0);
}
