//! A worker: one background loop of the pool, seen as a three-state machine.

use crate::queue::delivery_of;
use crate::queue::pending_after_receive;
use crate::queue::Delivery;
use crate::queue::JobQueue;
use vstd::prelude::*;

verus! {

/// Where a worker stands in its loop.
#[derive(Clone, Copy, Debug, PartialEq, Eq, Structural)]
pub enum WorkerState {
    /// At the queue, with no job in hand.
    Idle,
    /// Running the one job it has taken.
    Busy,
    /// Left the loop for good.
    Exited,
}

/// What a worker has to do after asking the queue for work.
#[derive(Debug, PartialEq, Eq)]
pub enum Step<T> {
    /// Run this job to its end, then report back and ask again.
    Run(T),
    /// Nothing to do yet: block until the queue changes, then ask again.
    Wait,
    /// Leave the loop: the queue is closed and drained.
    Exit,
}

/// The step of a worker in `state` that asks a queue holding `pending`.
///
/// Only an idle worker touches the queue. A busy worker is told to wait: it
/// has to finish the job in hand first. A worker that has left stays away.
pub open spec fn step_of<T>(state: WorkerState, pending: Seq<T>, closed: bool) -> Step<T> {
    match state {
        WorkerState::Idle => match delivery_of(pending, closed) {
            Delivery::Job(job) => Step::Run(job),
            Delivery::Wait => Step::Wait,
            Delivery::Closed => Step::Exit,
        },
        WorkerState::Busy => Step::Wait,
        WorkerState::Exited => Step::Exit,
    }
}

/// The state of a worker that was in `state` and has been given `step`.
pub open spec fn state_after<T>(state: WorkerState, step: Step<T>) -> WorkerState {
    match state {
        WorkerState::Idle => match step {
            Step::Run(_) => WorkerState::Busy,
            Step::Wait => WorkerState::Idle,
            Step::Exit => WorkerState::Exited,
        },
        WorkerState::Busy => WorkerState::Busy,
        WorkerState::Exited => WorkerState::Exited,
    }
}

/// What is left pending after a worker in `state` has asked the queue.
pub open spec fn pending_after<T>(state: WorkerState, pending: Seq<T>) -> Seq<T> {
    if state == WorkerState::Idle {
        pending_after_receive(pending)
    } else {
        pending
    }
}

/// One worker of a pool: its ordinal and where it stands in its loop.
#[derive(Clone, Copy, Debug)]
pub struct Worker {
    id: usize,
    state: WorkerState,
}

impl Worker {
    /// The worker's ordinal.
    pub closed spec fn ordinal(&self) -> usize {
        self.id
    }

    /// Where the worker stands.
    pub closed spec fn standing(&self) -> WorkerState {
        self.state
    }

    /// A worker with the given ordinal, idle at the queue.
    pub fn new(id: usize) -> (worker: Worker)
        ensures
            worker.ordinal() == id,
            worker.standing() == WorkerState::Idle,
    {
        Worker { id, state: WorkerState::Idle }
    }

    /// The worker's ordinal.
    pub fn id(&self) -> (id: usize)
        ensures
            id == self.ordinal(),
    {
        self.id
    }

    /// Where the worker stands.
    pub fn state(&self) -> (state: WorkerState)
        ensures
            state == self.standing(),
    {
        self.state
    }

    /// One turn of the worker's loop: asks `queue` for work and says what to
    /// do next.
    ///
    /// An idle worker takes the oldest pending job and becomes busy; with
    /// nothing pending it waits while the queue is open and exits once it is
    /// closed. A busy worker gets no second job, and a worker that has exited
    /// never comes back; neither touches the queue.
    pub fn poll<T>(&mut self, queue: &mut JobQueue<T>) -> (step: Step<T>)
        ensures
            step == step_of(old(self).standing(), old(queue).pending(), old(queue).closed()),
            final(self).standing() == state_after(old(self).standing(), step),
            final(self).ordinal() == old(self).ordinal(),
            final(queue).pending() == pending_after(old(self).standing(), old(queue).pending()),
            final(queue).closed() == old(queue).closed(),
    {
        match self.state {
            WorkerState::Idle => match queue.receive() {
                Delivery::Job(job) => {
                    self.state = WorkerState::Busy;
                    Step::Run(job)
                },
                Delivery::Wait => Step::Wait,
                Delivery::Closed => {
                    self.state = WorkerState::Exited;
                    Step::Exit
                },
            },
            WorkerState::Busy => Step::Wait,
            WorkerState::Exited => Step::Exit,
        }
    }

    /// Reports that the job in hand has come to its end, by returning or by
    /// a fault that the caller contained: a busy worker is idle again. A
    /// worker that had no job stays as it was.
    pub fn complete(&mut self) -> (had_job: bool)
        ensures
            had_job == (old(self).standing() == WorkerState::Busy),
            final(self).ordinal() == old(self).ordinal(),
            final(self).standing() == if had_job {
                WorkerState::Idle
            } else {
                old(self).standing()
            },
    {
        match self.state {
            WorkerState::Busy => {
                self.state = WorkerState::Idle;
                true
            },
            _ => false,
        }
    }
}

} // verus!
