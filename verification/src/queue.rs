//! The job queue: an unbounded first-in, first-out channel with a terminal
//! closed state.

use std::collections::VecDeque;
use vstd::prelude::*;

verus! {

/// A job that was refused because the queue had already been closed. The job
/// is handed back untouched.
#[derive(Debug, PartialEq, Eq)]
pub struct SendError<T> {
    pub job: T,
}

/// What a receiver finds at the head of the queue.
#[derive(Debug, PartialEq, Eq)]
pub enum Delivery<T> {
    /// The oldest pending job, now owned by the receiver.
    Job(T),
    /// Nothing is pending, but the queue is open: more work may arrive.
    Wait,
    /// Nothing is pending and the queue is closed: no work will ever arrive.
    Closed,
}

/// What the queue answers a receiver that finds `pending` and `closed`: the
/// oldest pending job if there is one, also after closing; else whether more
/// may come.
pub open spec fn delivery_of<T>(pending: Seq<T>, closed: bool) -> Delivery<T> {
    if pending.len() > 0 {
        Delivery::Job(pending[0])
    } else if closed {
        Delivery::Closed
    } else {
        Delivery::Wait
    }
}

/// What is left pending after one receive.
pub open spec fn pending_after_receive<T>(pending: Seq<T>) -> Seq<T> {
    if pending.len() > 0 {
        pending.drop_first()
    } else {
        pending
    }
}

/// The channel that carries jobs from submitters to workers.
pub struct JobQueue<T> {
    items: VecDeque<T>,
    closed: bool,
}

impl<T> JobQueue<T> {
    /// The jobs that were sent and not yet received, oldest first.
    pub closed spec fn pending(&self) -> Seq<T> {
        self.items@
    }

    /// Whether the queue has been closed.
    pub closed spec fn closed(&self) -> bool {
        self.closed
    }

    /// An open queue with nothing pending.
    pub fn new() -> (queue: Self)
        ensures
            queue.pending() == Seq::<T>::empty(),
            !queue.closed(),
    {
        JobQueue { items: VecDeque::new(), closed: false }
    }

    /// Enqueues `job` behind everything that is pending. A closed queue
    /// refuses the job, hands it back and stays as it was.
    pub fn send(&mut self, job: T) -> (result: Result<(), SendError<T>>)
        ensures
            result is Ok <==> !old(self).closed(),
            final(self).closed() == old(self).closed(),
            result is Ok ==> final(self).pending() == old(self).pending().push(job),
            result is Err ==> final(self).pending() == old(self).pending(),
            result is Err ==> result->Err_0.job == job,
    {
        if self.closed {
            Err(SendError { job })
        } else {
            self.items.push_back(job);
            Ok(())
        }
    }

    /// Takes the oldest pending job, if there is one. An empty queue answers
    /// `Wait` while it is open and `Closed` once it has been closed; a closed
    /// queue still delivers its whole backlog first.
    pub fn receive(&mut self) -> (delivery: Delivery<T>)
        ensures
            delivery == delivery_of(old(self).pending(), old(self).closed()),
            final(self).pending() == pending_after_receive(old(self).pending()),
            final(self).closed() == old(self).closed(),
    {
        match self.items.pop_front() {
            Some(job) => Delivery::Job(job),
            None => if self.closed {
                Delivery::Closed
            } else {
                Delivery::Wait
            },
        }
    }

    /// Closes the queue. What is pending stays pending; closing twice is the
    /// same as closing once.
    pub fn close(&mut self)
        ensures
            final(self).closed(),
            final(self).pending() == old(self).pending(),
    {
        self.closed = true;
    }

    /// The number of pending jobs.
    pub fn len(&self) -> (n: usize)
        ensures
            n == self.pending().len(),
    {
        self.items.len()
    }

    /// Whether nothing is pending.
    pub fn is_empty(&self) -> (empty: bool)
        ensures
            empty == (self.pending().len() == 0),
    {
        self.items.len() == 0
    }

    /// Whether the queue has been closed.
    pub fn is_closed(&self) -> (closed: bool)
        ensures
            closed == self.closed(),
    {
        self.closed
    }
}

} // verus!
