//! The pool as a mathematical state machine.
//!
//! A state records the whole history that matters: every job that was ever
//! accepted, how many of them have been handed out, what each worker is doing
//! and which jobs have come to their end. A job is known by its ticket, its
//! position in the order of acceptance.

use crate::worker::Step;
use crate::worker::WorkerState;
use vstd::prelude::*;

verus! {

/// What a worker is doing, with the ticket of the job it runs.
pub enum Activity {
    /// At the queue, with no job in hand.
    Idle,
    /// Running the job with this ticket.
    Running(nat),
    /// Left the loop for good.
    Exited,
}

impl Activity {
    /// The activity without the ticket.
    pub open spec fn state(self) -> WorkerState {
        match self {
            Activity::Idle => WorkerState::Idle,
            Activity::Running(_) => WorkerState::Busy,
            Activity::Exited => WorkerState::Exited,
        }
    }
}

/// Something that happens to a pool.
pub enum Event<T> {
    /// A caller submits a job.
    Submit(T),
    /// The worker with this ordinal asks the queue for work.
    Poll(int),
    /// The worker with this ordinal reports the end of its job.
    Complete(int),
    /// The queue is closed: teardown begins.
    Close,
}

/// A state of the pool.
pub struct PoolModel<T> {
    /// Every job accepted so far, in the order of acceptance.
    pub accepted: Seq<T>,
    /// How many of them have been handed to a worker: the tickets below
    /// this number have left the queue, the others are pending.
    pub dispatched: nat,
    /// What each worker is doing, by ordinal.
    pub workers: Seq<Activity>,
    /// The tickets of the jobs that have come to their end.
    pub finished: Set<nat>,
    /// Whether the queue has been closed.
    pub closed: bool,
}

impl<T> PoolModel<T> {
    /// A fresh pool of `size` idle workers with an open, empty queue.
    pub open spec fn init(size: nat) -> Self {
        PoolModel {
            accepted: Seq::empty(),
            dispatched: 0,
            workers: Seq::new(size, |w: int| Activity::Idle),
            finished: Set::empty(),
            closed: false,
        }
    }

    /// Whether `w` is the ordinal of a worker of this pool.
    pub open spec fn has_worker(self, w: int) -> bool {
        0 <= w < self.workers.len()
    }

    /// Whether `ticket` names an accepted job.
    pub open spec fn has_ticket(self, ticket: nat) -> bool {
        ticket < self.accepted.len()
    }

    /// The jobs in the queue, oldest first.
    pub open spec fn pending(self) -> Seq<T> {
        self.accepted.skip(self.dispatched as int)
    }

    /// Whether worker `w` is running the job with `ticket`.
    pub open spec fn runs(self, w: int, ticket: nat) -> bool {
        self.has_worker(w) && self.workers[w] == Activity::Running(ticket)
    }

    /// Whether some worker is running the job with `ticket`.
    pub open spec fn in_flight(self, ticket: nat) -> bool {
        exists|w: int| self.runs(w, ticket)
    }

    /// The pool after a caller has submitted `job`: an open queue takes it
    /// in behind the others, a closed one refuses it.
    pub open spec fn submit(self, job: T) -> Self {
        if self.closed {
            self
        } else {
            PoolModel { accepted: self.accepted.push(job), ..self }
        }
    }

    /// What worker `w` is told when it asks for work.
    pub open spec fn step(self, w: int) -> Step<T> {
        crate::worker::step_of(self.workers[w].state(), self.pending(), self.closed)
    }

    /// The pool after worker `w` has asked for work. An idle worker takes the
    /// oldest pending job, or leaves if the queue is closed and drained;
    /// nothing else changes anything.
    pub open spec fn poll(self, w: int) -> Self {
        if self.has_worker(w) && self.workers[w] == Activity::Idle {
            if self.dispatched < self.accepted.len() {
                PoolModel {
                    dispatched: self.dispatched + 1,
                    workers: self.workers.update(w, Activity::Running(self.dispatched)),
                    ..self
                }
            } else if self.closed {
                PoolModel { workers: self.workers.update(w, Activity::Exited), ..self }
            } else {
                self
            }
        } else {
            self
        }
    }

    /// The pool after worker `w` has reported the end of its job. A worker
    /// without a job changes nothing.
    pub open spec fn complete(self, w: int) -> Self {
        if self.has_worker(w) {
            match self.workers[w] {
                Activity::Running(ticket) => PoolModel {
                    workers: self.workers.update(w, Activity::Idle),
                    finished: self.finished.insert(ticket),
                    ..self
                },
                _ => self,
            }
        } else {
            self
        }
    }

    /// The pool after its queue has been closed.
    pub open spec fn close(self) -> Self {
        PoolModel { closed: true, ..self }
    }

    /// The pool after `event`.
    pub open spec fn next(self, event: Event<T>) -> Self {
        match event {
            Event::Submit(job) => self.submit(job),
            Event::Poll(w) => self.poll(w),
            Event::Complete(w) => self.complete(w),
            Event::Close => self.close(),
        }
    }

    /// The pool after all of `events`, in order.
    pub open spec fn run(self, events: Seq<Event<T>>) -> Self
        decreases events.len(),
    {
        if events.len() == 0 {
            self
        } else {
            self.run(events.drop_last()).next(events.last())
        }
    }

    /// The ordinals of the workers that have not left.
    pub open spec fn live_set(self) -> Set<int> {
        Set::new(|w: int| self.has_worker(w) && self.workers[w] != Activity::Exited)
    }

    /// The number of workers that have not left.
    pub open spec fn live(self) -> nat {
        self.live_set().len()
    }

    /// Whether the job with `ticket` is still in the queue.
    pub open spec fn waits(self, ticket: nat) -> bool {
        self.dispatched <= ticket < self.accepted.len()
    }

    /// Whether every accepted job has come to its end.
    pub open spec fn all_done(self) -> bool {
        forall|t: nat| self.has_ticket(t) ==> self.finished.contains(t)
    }

    /// The work that is left: one unit for each job that has still to be
    /// handed out, and one for each that has still to finish.
    pub open spec fn work_left(self) -> nat {
        ((self.accepted.len() - self.dispatched) + (self.accepted.len()
            - self.finished.len())) as nat
    }

    /// What is left to do before the pool can rest: the work that is left,
    /// and one unit for each worker that has still to leave.
    pub open spec fn effort(self) -> nat {
        self.work_left() + self.live()
    }

    /// Whether `event` is a move of a worker that gets something done: an
    /// idle worker asks and is handed a job or told to leave, or a busy
    /// worker reports the end of its job.
    pub open spec fn advances(self, event: Event<T>) -> bool {
        match event {
            Event::Poll(w) => {
                &&& self.has_worker(w)
                &&& self.workers[w] == Activity::Idle
                &&& (self.pending().len() > 0 || self.closed)
            },
            Event::Complete(w) => self.has_worker(w) && self.workers[w] is Running,
            _ => false,
        }
    }

    /// Whether each of `events` in turn is a move that gets something done.
    pub open spec fn all_advance(self, events: Seq<Event<T>>) -> bool
        decreases events.len(),
    {
        events.len() == 0 || {
            &&& self.all_advance(events.drop_last())
            &&& self.run(events.drop_last()).advances(events.last())
        }
    }

    /// Whether teardown is over: the queue is closed and every worker has
    /// left.
    pub open spec fn terminated(self) -> bool {
        self.closed && forall|w: int| self.has_worker(w) ==> self.workers[w] == Activity::Exited
    }

    /// What is true of every state that a pool can reach.
    ///
    /// Only handed-out jobs run or have finished; a job runs on one worker at
    /// most and not after its end; every handed-out job is running or has
    /// finished; and a worker has left only if the queue is closed and
    /// drained.
    pub open spec fn inv(self) -> bool {
        &&& self.workers.len() >= 1
        &&& self.dispatched <= self.accepted.len()
        &&& self.finished.finite()
        &&& forall|t: nat| #[trigger] self.finished.contains(t) ==> t < self.dispatched
        &&& forall|w: int, t: nat| #[trigger]
            self.runs(w, t) ==> t < self.dispatched && !self.finished.contains(t)
        &&& forall|v: int, w: int, t: nat|
            #![trigger self.runs(v, t), self.runs(w, t)]
            self.runs(v, t) && self.runs(w, t) ==> v == w
        &&& forall|t: nat|
            t < self.dispatched ==> #[trigger] self.finished.contains(t) || self.in_flight(t)
        &&& forall|w: int|
            self.has_worker(w) && #[trigger] self.workers[w] == Activity::Exited ==> self.closed
                && self.dispatched == self.accepted.len()
    }
}

} // verus!
