//! The pool: a fixed set of workers around one job queue.

use crate::model::Activity;
use crate::model::PoolModel;
use crate::queue::JobQueue;
use crate::queue::SendError;
use crate::worker::Step;
use crate::worker::Worker;
use crate::worker::WorkerState;
use vstd::prelude::*;

verus! {

/// A pool of workers and the queue that feeds them.
///
/// The pool does not run anything by itself. Whoever drives it performs one
/// operation at a time: a submitter calls [`Pool::execute`], a worker calls
/// [`Pool::poll`] at the top of its loop, runs the job it is handed and then
/// calls [`Pool::complete`]; teardown calls [`Pool::close`] and waits until
/// [`Pool::is_terminated`].
pub struct Pool<T> {
    queue: JobQueue<T>,
    workers: Vec<Worker>,
    model: Ghost<PoolModel<T>>,
}

impl<T> View for Pool<T> {
    type V = PoolModel<T>;

    /// The state of the pool together with its history.
    closed spec fn view(&self) -> PoolModel<T> {
        self.model@
    }
}

/// The live workers of `m` with an ordinal below `n`.
spec fn live_below<T>(m: PoolModel<T>, n: int) -> Set<int> {
    Set::new(|w: int| 0 <= w < n && m.has_worker(w) && m.workers[w] != Activity::Exited)
}

proof fn lemma_live_below<T>(m: PoolModel<T>, n: int)
    requires
        0 <= n <= m.workers.len(),
    ensures
        live_below(m, n).finite(),
        live_below(m, n).len() <= n,
        n < m.workers.len() ==> live_below(m, n + 1) == if m.workers[n] != Activity::Exited {
            live_below(m, n).insert(n)
        } else {
            live_below(m, n)
        },
        n < m.workers.len() ==> !live_below(m, n).contains(n),
        n == m.workers.len() ==> live_below(m, n) == m.live_set(),
{
    vstd::set_lib::lemma_int_range(0, n);
    assert(live_below(m, n).subset_of(vstd::set_lib::set_int_range(0, n)));
    vstd::set_lib::lemma_len_subset(live_below(m, n), vstd::set_lib::set_int_range(0, n));
    if n < m.workers.len() {
        if m.workers[n] != Activity::Exited {
            assert(live_below(m, n + 1) =~= live_below(m, n).insert(n));
        } else {
            assert(live_below(m, n + 1) =~= live_below(m, n));
        }
    } else {
        assert(live_below(m, n) =~= m.live_set());
    }
}

impl<T> Pool<T> {
    /// Whether the pool's data agree with its history and the history is in
    /// order.
    pub closed spec fn wf(&self) -> bool {
        &&& self.model@.inv()
        &&& self.queue.pending() == self.model@.pending()
        &&& self.queue.closed() == self.model@.closed
        &&& self.workers@.len() == self.model@.workers.len()
        &&& forall|w: int|
            0 <= w < self.workers@.len() ==> (#[trigger] self.workers@[w]).ordinal() == w
                && self.workers@[w].standing() == self.model@.workers[w].state()
    }

    /// A well-formed pool is in order.
    pub proof fn lemma_wf_inv(&self)
        requires
            self.wf(),
        ensures
            self@.inv(),
    {
    }

    /// A pool of `size` idle workers, numbered from 0 in the order of their
    /// making, around an open and empty queue.
    pub fn new(size: usize) -> (pool: Pool<T>)
        requires
            size >= 1,
        ensures
            pool.wf(),
            pool@ == PoolModel::<T>::init(size as nat),
            pool@.workers.len() == size,
            pool@.live() == size,
    {
        let mut workers: Vec<Worker> = Vec::new();
        let mut id: usize = 0;
        while id < size
            invariant
                id <= size,
                workers@.len() == id,
                forall|w: int|
                    0 <= w < id ==> (#[trigger] workers@[w]).ordinal() == w
                        && workers@[w].standing() == WorkerState::Idle,
            decreases size - id,
        {
            workers.push(Worker::new(id));
            id = id + 1;
        }
        let pool = Pool {
            queue: JobQueue::new(),
            workers,
            model: Ghost(PoolModel::<T>::init(size as nat)),
        };
        proof {
            crate::laws::lemma_init::<T>(size as nat);
            assert(pool.queue.pending() =~= pool.model@.pending());
        }
        pool
    }

    /// Submits `job`: it goes to the back of the queue, to be run by
    /// whichever worker asks first once everything before it has been handed
    /// out. After teardown has begun the job is refused and handed back, and
    /// the pool stays as it was.
    pub fn execute(&mut self, job: T) -> (result: Result<(), SendError<T>>)
        requires
            old(self).wf(),
        ensures
            final(self).wf(),
            final(self)@ == old(self)@.submit(job),
            result is Ok <==> !old(self)@.closed,
            result is Err ==> result->Err_0.job == job,
    {
        let result = self.queue.send(job);
        proof {
            crate::laws::lemma_submit_inv(self.model@, job);
            self.model = Ghost(self.model@.submit(job));
            assert(self.queue.pending() =~= self.model@.pending());
        }
        result
    }

    /// One turn of the loop of the worker with ordinal `worker`: says what
    /// that worker has to do next.
    ///
    /// An idle worker is handed the oldest pending job; with nothing pending
    /// it is told to wait while the queue is open and to leave once it is
    /// closed. A busy worker is told to wait and gets no second job; a worker
    /// that has left is told to leave again.
    pub fn poll(&mut self, worker: usize) -> (step: Step<T>)
        requires
            old(self).wf(),
            worker < old(self)@.workers.len(),
        ensures
            final(self).wf(),
            final(self)@ == old(self)@.poll(worker as int),
            step == old(self)@.step(worker as int),
    {
        let mut turn: Worker = self.workers[worker];
        let step = turn.poll(&mut self.queue);
        self.workers.set(worker, turn);
        proof {
            crate::laws::lemma_poll_inv(self.model@, worker as int);
            self.model = Ghost(self.model@.poll(worker as int));
            assert(self.queue.pending() =~= self.model@.pending());
        }
        step
    }

    /// The worker with ordinal `worker` reports that the job it was handed
    /// has come to its end, by returning or by a fault that the caller
    /// contained. The worker is idle again and the job counts as finished.
    /// Returns whether the worker had a job; if not, nothing changes.
    pub fn complete(&mut self, worker: usize) -> (had_job: bool)
        requires
            old(self).wf(),
            worker < old(self)@.workers.len(),
        ensures
            final(self).wf(),
            final(self)@ == old(self)@.complete(worker as int),
            had_job == (old(self)@.workers[worker as int] is Running),
    {
        let mut turn: Worker = self.workers[worker];
        let had_job = turn.complete();
        self.workers.set(worker, turn);
        proof {
            crate::laws::lemma_complete_inv(self.model@, worker as int);
            self.model = Ghost(self.model@.complete(worker as int));
        }
        had_job
    }

    /// Begins teardown: closes the queue. Jobs already accepted stay in the
    /// queue and are still handed out; new ones are refused; a worker that
    /// finds the queue empty from now on is told to leave.
    pub fn close(&mut self)
        requires
            old(self).wf(),
        ensures
            final(self).wf(),
            final(self)@ == old(self)@.close(),
    {
        self.queue.close();
        proof {
            crate::laws::lemma_close_inv(self.model@);
            self.model = Ghost(self.model@.close());
        }
    }

    /// The number of workers the pool was made with.
    pub fn size(&self) -> (size: usize)
        requires
            self.wf(),
        ensures
            size == self@.workers.len(),
            size >= 1,
    {
        self.workers.len()
    }

    /// The number of jobs in the queue.
    pub fn pending_jobs(&self) -> (n: usize)
        requires
            self.wf(),
        ensures
            n == self@.pending().len(),
    {
        self.queue.len()
    }

    /// Whether teardown has begun.
    pub fn is_closed(&self) -> (closed: bool)
        requires
            self.wf(),
        ensures
            closed == self@.closed,
    {
        self.queue.is_closed()
    }

    /// Where the worker with ordinal `worker` stands.
    pub fn worker_state(&self, worker: usize) -> (state: WorkerState)
        requires
            self.wf(),
            worker < self@.workers.len(),
        ensures
            state == self@.workers[worker as int].state(),
    {
        self.workers[worker].state()
    }

    /// The number of workers that have not left.
    pub fn live_workers(&self) -> (live: usize)
        requires
            self.wf(),
        ensures
            live == self@.live(),
    {
        let mut live: usize = 0;
        let mut w: usize = 0;
        proof {
            lemma_live_below(self.model@, 0);
            assert(live_below(self.model@, 0) =~= Set::<int>::empty());
        }
        while w < self.workers.len()
            invariant
                self.wf(),
                w <= self.workers@.len(),
                live <= w,
                live == live_below(self.model@, w as int).len(),
            decreases self.workers@.len() - w,
        {
            proof {
                lemma_live_below(self.model@, w as int);
            }
            match self.workers[w].state() {
                WorkerState::Exited => {},
                _ => {
                    live = live + 1;
                },
            }
            w = w + 1;
        }
        proof {
            lemma_live_below(self.model@, w as int);
        }
        live
    }

    /// Whether teardown is over: the queue is closed and every worker has
    /// left. From then on every accepted job has run to its end.
    pub fn is_terminated(&self) -> (over: bool)
        requires
            self.wf(),
        ensures
            over == self@.terminated(),
    {
        if !self.queue.is_closed() {
            return false;
        }
        let mut w: usize = 0;
        while w < self.workers.len()
            invariant
                self.wf(),
                w <= self.workers@.len(),
                forall|v: int| 0 <= v < w ==> self.model@.workers[v] == Activity::Exited,
            decreases self.workers@.len() - w,
        {
            match self.workers[w].state() {
                WorkerState::Exited => {},
                _ => {
                    return false;
                },
            }
            w = w + 1;
        }
        true
    }
}

} // verus!
