use worker_pool::queue::JobQueue;
use worker_pool::worker::Step;
use worker_pool::worker::Worker;
use worker_pool::worker::WorkerState;

#[test]
fn new_worker_is_idle_and_keeps_its_id() {
    let worker = Worker::new(3);
    assert_eq!(worker.id(), 3);
    assert_eq!(worker.state(), WorkerState::Idle);
}

#[test]
fn idle_worker_takes_the_oldest_job() {
    let mut queue: JobQueue<&str> = JobQueue::new();
    assert!(queue.send("old").is_ok());
    assert!(queue.send("new").is_ok());
    let mut worker = Worker::new(0);
    assert_eq!(worker.poll(&mut queue), Step::Run("old"));
    assert_eq!(worker.state(), WorkerState::Busy);
    assert_eq!(queue.len(), 1);
}

#[test]
fn idle_worker_waits_on_an_open_empty_queue() {
    let mut queue: JobQueue<u32> = JobQueue::new();
    let mut worker = Worker::new(0);
    assert_eq!(worker.poll(&mut queue), Step::Wait);
    assert_eq!(worker.state(), WorkerState::Idle);
}

#[test]
fn idle_worker_exits_on_a_closed_empty_queue() {
    let mut queue: JobQueue<u32> = JobQueue::new();
    queue.close();
    let mut worker = Worker::new(7);
    assert_eq!(worker.poll(&mut queue), Step::Exit);
    assert_eq!(worker.state(), WorkerState::Exited);
    assert_eq!(worker.id(), 7);
}

#[test]
fn busy_worker_is_not_given_a_second_job() {
    let mut queue: JobQueue<u32> = JobQueue::new();
    assert!(queue.send(1).is_ok());
    assert!(queue.send(2).is_ok());
    let mut worker = Worker::new(0);
    assert_eq!(worker.poll(&mut queue), Step::Run(1));
    assert_eq!(worker.poll(&mut queue), Step::Wait);
    assert_eq!(worker.state(), WorkerState::Busy);
    assert_eq!(queue.len(), 1);
}

#[test]
fn worker_is_idle_again_after_its_job() {
    let mut queue: JobQueue<u32> = JobQueue::new();
    assert!(queue.send(1).is_ok());
    assert!(queue.send(2).is_ok());
    let mut worker = Worker::new(0);
    assert_eq!(worker.poll(&mut queue), Step::Run(1));
    assert!(worker.complete());
    assert_eq!(worker.state(), WorkerState::Idle);
    assert_eq!(worker.poll(&mut queue), Step::Run(2));
}

#[test]
fn complete_without_a_job_changes_nothing() {
    let mut worker = Worker::new(0);
    assert!(!worker.complete());
    assert_eq!(worker.state(), WorkerState::Idle);
    let mut queue: JobQueue<u32> = JobQueue::new();
    queue.close();
    assert_eq!(worker.poll(&mut queue), Step::Exit);
    assert!(!worker.complete());
    assert_eq!(worker.state(), WorkerState::Exited);
}

#[test]
fn exited_worker_never_comes_back() {
    let mut queue: JobQueue<u32> = JobQueue::new();
    queue.close();
    let mut worker = Worker::new(0);
    assert_eq!(worker.poll(&mut queue), Step::Exit);
    let mut other: JobQueue<u32> = JobQueue::new();
    assert!(other.send(9).is_ok());
    assert_eq!(worker.poll(&mut other), Step::Exit);
    assert_eq!(worker.state(), WorkerState::Exited);
    assert_eq!(other.len(), 1);
}

#[test]
fn worker_finishes_the_backlog_before_it_exits() {
    let mut queue: JobQueue<u32> = JobQueue::new();
    assert!(queue.send(1).is_ok());
    assert!(queue.send(2).is_ok());
    queue.close();
    let mut worker = Worker::new(0);
    assert_eq!(worker.poll(&mut queue), Step::Run(1));
    assert!(worker.complete());
    assert_eq!(worker.poll(&mut queue), Step::Run(2));
    assert!(worker.complete());
    assert_eq!(worker.poll(&mut queue), Step::Exit);
}
