use worker_pool::pool::Pool;
use worker_pool::queue::SendError;
use worker_pool::worker::Step;
use worker_pool::worker::WorkerState;

#[test]
fn new_pool_has_as_many_live_workers_as_asked() {
    for size in [1usize, 2, 4, 17, 64] {
        let pool: Pool<u32> = Pool::new(size);
        assert_eq!(pool.size(), size);
        assert_eq!(pool.live_workers(), size);
        for worker in 0..size {
            assert_eq!(pool.worker_state(worker), WorkerState::Idle);
        }
        assert_eq!(pool.pending_jobs(), 0);
        assert!(!pool.is_closed());
        assert!(!pool.is_terminated());
    }
}

#[test]
fn more_jobs_than_workers_queue_up_and_each_runs_once() {
    let mut pool: Pool<u32> = Pool::new(2);
    for job in 0..5u32 {
        assert_eq!(pool.execute(job), Ok(()));
    }
    assert_eq!(pool.pending_jobs(), 5);
    let mut ran: Vec<u32> = Vec::new();
    let mut turn: usize = 0;
    while ran.len() < 5 {
        let worker = turn % 2;
        match pool.poll(worker) {
            Step::Run(job) => {
                ran.push(job);
                assert!(pool.complete(worker));
            }
            Step::Wait => panic!("a job was pending"),
            Step::Exit => panic!("the queue is open"),
        }
        turn += 1;
    }
    assert_eq!(ran, vec![0, 1, 2, 3, 4]);
    assert_eq!(pool.pending_jobs(), 0);
    assert_eq!(pool.poll(0), Step::Wait);
    assert_eq!(pool.poll(1), Step::Wait);
}

#[test]
fn jobs_wait_while_every_worker_is_busy() {
    let mut pool: Pool<&str> = Pool::new(2);
    assert!(pool.execute("a").is_ok());
    assert!(pool.execute("b").is_ok());
    assert!(pool.execute("c").is_ok());
    assert_eq!(pool.poll(0), Step::Run("a"));
    assert_eq!(pool.poll(1), Step::Run("b"));
    assert_eq!(pool.pending_jobs(), 1);
    assert_eq!(pool.poll(0), Step::Wait);
    assert_eq!(pool.poll(1), Step::Wait);
    assert_eq!(pool.pending_jobs(), 1);
    assert!(pool.complete(1));
    assert_eq!(pool.poll(1), Step::Run("c"));
    assert_eq!(pool.pending_jobs(), 0);
}

#[test]
fn a_worker_runs_one_job_at_a_time() {
    let mut pool: Pool<u32> = Pool::new(1);
    assert!(pool.execute(1).is_ok());
    assert!(pool.execute(2).is_ok());
    assert_eq!(pool.poll(0), Step::Run(1));
    assert_eq!(pool.worker_state(0), WorkerState::Busy);
    assert_eq!(pool.poll(0), Step::Wait);
    assert_eq!(pool.pending_jobs(), 1);
    assert!(pool.complete(0));
    assert_eq!(pool.worker_state(0), WorkerState::Idle);
    assert_eq!(pool.poll(0), Step::Run(2));
}

#[test]
fn two_jobs_are_in_flight_at_once_on_two_workers() {
    let mut pool: Pool<&str> = Pool::new(2);
    assert!(pool.execute("left").is_ok());
    assert!(pool.execute("right").is_ok());
    assert_eq!(pool.poll(0), Step::Run("left"));
    assert_eq!(pool.poll(1), Step::Run("right"));
    assert_eq!(pool.worker_state(0), WorkerState::Busy);
    assert_eq!(pool.worker_state(1), WorkerState::Busy);
}

#[test]
fn whichever_worker_asks_first_gets_the_next_job() {
    let mut pool: Pool<&str> = Pool::new(3);
    assert!(pool.execute("x").is_ok());
    assert!(pool.execute("y").is_ok());
    assert_eq!(pool.poll(2), Step::Run("x"));
    assert_eq!(pool.poll(0), Step::Run("y"));
    assert_eq!(pool.poll(1), Step::Wait);
    assert_eq!(pool.worker_state(1), WorkerState::Idle);
}

#[test]
fn short_job_on_second_worker_finishes_before_long_job() {
    let mut pool: Pool<(&str, u64)> = Pool::new(2);
    assert!(pool.execute(("A", 200)).is_ok());
    assert!(pool.execute(("B", 50)).is_ok());
    let first = match pool.poll(0) {
        Step::Run(job) => job,
        _ => panic!("worker 0 should be handed a job"),
    };
    let second = match pool.poll(1) {
        Step::Run(job) => job,
        _ => panic!("worker 1 should be handed a job"),
    };
    assert_eq!(first, ("A", 200));
    assert_eq!(second, ("B", 50));
    let mut in_hand = vec![(0usize, first), (1usize, second)];
    in_hand.sort_by_key(|(_, (_, millis))| *millis);
    let mut record: Vec<&str> = Vec::new();
    pool.close();
    for (worker, (name, _)) in in_hand {
        assert!(!pool.is_terminated());
        record.push(name);
        assert!(pool.complete(worker));
        assert_eq!(pool.poll(worker), Step::Exit);
    }
    assert_eq!(record, vec!["B", "A"]);
    assert!(pool.is_terminated());
}

#[test]
fn teardown_drains_the_backlog_before_workers_leave() {
    let mut pool: Pool<u32> = Pool::new(2);
    for job in 10..14u32 {
        assert!(pool.execute(job).is_ok());
    }
    assert_eq!(pool.poll(0), Step::Run(10));
    pool.close();
    assert!(pool.is_closed());
    assert!(!pool.is_terminated());
    assert_eq!(pool.live_workers(), 2);
    assert_eq!(pool.poll(1), Step::Run(11));
    assert!(pool.complete(0));
    assert_eq!(pool.poll(0), Step::Run(12));
    assert!(pool.complete(1));
    assert_eq!(pool.poll(1), Step::Run(13));
    assert!(pool.complete(1));
    assert_eq!(pool.poll(1), Step::Exit);
    assert_eq!(pool.live_workers(), 1);
    assert!(!pool.is_terminated());
    assert!(pool.complete(0));
    assert_eq!(pool.poll(0), Step::Exit);
    assert_eq!(pool.live_workers(), 0);
    assert_eq!(pool.pending_jobs(), 0);
    assert!(pool.is_terminated());
}

#[test]
fn idle_pool_terminates_as_soon_as_every_worker_has_asked() {
    let mut pool: Pool<u32> = Pool::new(3);
    assert_eq!(pool.poll(0), Step::Wait);
    pool.close();
    assert_eq!(pool.poll(0), Step::Exit);
    assert_eq!(pool.poll(1), Step::Exit);
    assert!(!pool.is_terminated());
    assert_eq!(pool.worker_state(2), WorkerState::Idle);
    assert_eq!(pool.poll(2), Step::Exit);
    assert!(pool.is_terminated());
    assert_eq!(pool.live_workers(), 0);
}

#[test]
fn execute_after_close_is_refused_and_changes_nothing() {
    let mut pool: Pool<&str> = Pool::new(1);
    assert!(pool.execute("early").is_ok());
    pool.close();
    assert_eq!(pool.execute("late"), Err(SendError { job: "late" }));
    assert_eq!(pool.pending_jobs(), 1);
    assert_eq!(pool.poll(0), Step::Run("early"));
    assert!(pool.complete(0));
    assert_eq!(pool.poll(0), Step::Exit);
    assert!(pool.is_terminated());
}

#[test]
fn terminated_pool_never_changes_again() {
    let mut pool: Pool<u32> = Pool::new(2);
    pool.close();
    assert_eq!(pool.poll(0), Step::Exit);
    assert_eq!(pool.poll(1), Step::Exit);
    assert!(pool.is_terminated());
    assert_eq!(pool.execute(1), Err(SendError { job: 1 }));
    assert_eq!(pool.poll(0), Step::Exit);
    assert!(!pool.complete(1));
    pool.close();
    assert!(pool.is_terminated());
    assert_eq!(pool.live_workers(), 0);
    assert_eq!(pool.pending_jobs(), 0);
    assert_eq!(pool.size(), 2);
}

#[test]
fn a_job_that_faults_costs_the_pool_no_worker() {
    let mut pool: Pool<&str> = Pool::new(1);
    assert!(pool.execute("faults").is_ok());
    assert!(pool.execute("fine").is_ok());
    assert_eq!(pool.poll(0), Step::Run("faults"));
    assert!(pool.complete(0));
    assert_eq!(pool.live_workers(), 1);
    assert_eq!(pool.worker_state(0), WorkerState::Idle);
    assert_eq!(pool.poll(0), Step::Run("fine"));
}

#[test]
fn complete_without_a_job_is_reported() {
    let mut pool: Pool<u32> = Pool::new(2);
    assert!(!pool.complete(0));
    assert!(pool.execute(1).is_ok());
    assert_eq!(pool.poll(1), Step::Run(1));
    assert!(!pool.complete(0));
    assert_eq!(pool.worker_state(1), WorkerState::Busy);
    assert!(pool.complete(1));
    assert!(!pool.complete(1));
}

#[test]
fn pool_takes_jobs_that_are_closures() {
    let mut pool: Pool<Box<dyn FnOnce() -> u32>> = Pool::new(1);
    let seven: u32 = 7;
    assert!(pool.execute(Box::new(move || seven * 6)).is_ok());
    match pool.poll(0) {
        Step::Run(job) => assert_eq!(job(), 42),
        _ => panic!("the job was pending"),
    }
    assert!(pool.complete(0));
}
