use worker_pool::queue::Delivery;
use worker_pool::queue::JobQueue;
use worker_pool::queue::SendError;

#[test]
fn new_queue_is_open_and_empty() {
    let queue: JobQueue<u32> = JobQueue::new();
    assert!(queue.is_empty());
    assert_eq!(queue.len(), 0);
    assert!(!queue.is_closed());
}

#[test]
fn jobs_are_delivered_in_the_order_sent() {
    let mut queue: JobQueue<&str> = JobQueue::new();
    assert_eq!(queue.send("first"), Ok(()));
    assert_eq!(queue.send("second"), Ok(()));
    assert_eq!(queue.send("third"), Ok(()));
    assert_eq!(queue.len(), 3);
    assert_eq!(queue.receive(), Delivery::Job("first"));
    assert_eq!(queue.receive(), Delivery::Job("second"));
    assert_eq!(queue.len(), 1);
    assert_eq!(queue.receive(), Delivery::Job("third"));
    assert!(queue.is_empty());
}

#[test]
fn each_job_is_delivered_once() {
    let mut queue: JobQueue<u32> = JobQueue::new();
    assert_eq!(queue.send(41), Ok(()));
    assert_eq!(queue.receive(), Delivery::Job(41));
    assert_eq!(queue.receive(), Delivery::Wait);
    assert_eq!(queue.receive(), Delivery::Wait);
}

#[test]
fn empty_open_queue_tells_the_receiver_to_wait() {
    let mut queue: JobQueue<u32> = JobQueue::new();
    assert_eq!(queue.receive(), Delivery::Wait);
    assert!(!queue.is_closed());
    assert_eq!(queue.send(1), Ok(()));
    assert_eq!(queue.receive(), Delivery::Job(1));
}

#[test]
fn empty_closed_queue_says_closed() {
    let mut queue: JobQueue<u32> = JobQueue::new();
    queue.close();
    assert!(queue.is_closed());
    assert_eq!(queue.receive(), Delivery::Closed);
    assert_eq!(queue.receive(), Delivery::Closed);
}

#[test]
fn closed_queue_delivers_its_backlog_first() {
    let mut queue: JobQueue<u32> = JobQueue::new();
    assert_eq!(queue.send(1), Ok(()));
    assert_eq!(queue.send(2), Ok(()));
    queue.close();
    assert_eq!(queue.len(), 2);
    assert_eq!(queue.receive(), Delivery::Job(1));
    assert_eq!(queue.receive(), Delivery::Job(2));
    assert_eq!(queue.receive(), Delivery::Closed);
}

#[test]
fn send_on_closed_queue_hands_the_job_back() {
    let mut queue: JobQueue<String> = JobQueue::new();
    assert_eq!(queue.send(String::from("kept")), Ok(()));
    queue.close();
    assert_eq!(
        queue.send(String::from("late")),
        Err(SendError { job: String::from("late") })
    );
    assert_eq!(queue.len(), 1);
    assert_eq!(queue.receive(), Delivery::Job(String::from("kept")));
    assert_eq!(queue.receive(), Delivery::Closed);
}

#[test]
fn closing_twice_is_closing_once() {
    let mut queue: JobQueue<u32> = JobQueue::new();
    assert_eq!(queue.send(5), Ok(()));
    queue.close();
    queue.close();
    assert!(queue.is_closed());
    assert_eq!(queue.len(), 1);
    assert_eq!(queue.receive(), Delivery::Job(5));
}

#[test]
fn queue_has_no_capacity_limit_in_sight() {
    let mut queue: JobQueue<usize> = JobQueue::new();
    for n in 0..10_000usize {
        assert_eq!(queue.send(n), Ok(()));
    }
    assert_eq!(queue.len(), 10_000);
    for n in 0..10_000usize {
        assert_eq!(queue.receive(), Delivery::Job(n));
    }
    assert_eq!(queue.receive(), Delivery::Wait);
}
