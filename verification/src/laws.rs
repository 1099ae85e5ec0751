//! What holds of every pool, proved over the model.

use crate::model::Activity;
use crate::model::Event;
use crate::model::PoolModel;
use crate::worker::Step;
use vstd::prelude::*;

verus! {

/// The tickets below `n`.
pub open spec fn tickets_below(n: nat) -> Set<nat> {
    Set::new(|t: nat| t < n)
}

/// There are exactly `n` tickets below `n`.
pub proof fn lemma_tickets_below(n: nat)
    ensures
        tickets_below(n).finite(),
        tickets_below(n).len() == n,
    decreases n,
{
    if n == 0 {
        assert(tickets_below(n) =~= Set::<nat>::empty());
    } else {
        let m = (n - 1) as nat;
        lemma_tickets_below(m);
        assert(tickets_below(n) =~= tickets_below(m).insert(m));
    }
}

/// A fresh pool of at least one worker is in order: it has exactly `size`
/// workers, all of them alive and idle, and nothing has been accepted yet.
pub proof fn lemma_init<T>(size: nat)
    requires
        size >= 1,
    ensures
        PoolModel::<T>::init(size).inv(),
        PoolModel::<T>::init(size).workers.len() == size,
        forall|w: int|
            0 <= w < size ==> #[trigger] PoolModel::<T>::init(size).workers[w] == Activity::Idle,
        PoolModel::<T>::init(size).live() == size,
        PoolModel::<T>::init(size).accepted.len() == 0,
        !PoolModel::<T>::init(size).closed,
{
    let m = PoolModel::<T>::init(size);
    vstd::set_lib::lemma_int_range(0, size as int);
    assert(m.live_set() =~= vstd::set_lib::set_int_range(0, size as int));
    assert forall|t: nat| t < m.dispatched implies #[trigger] m.finished.contains(t)
        || m.in_flight(t) by {}
}

/// A change that leaves the workers and the finished and handed-out jobs
/// alone keeps a pool in order, as long as it takes no job away and no
/// worker has left an open or undrained queue.
proof fn lemma_same_work_inv<T>(m: PoolModel<T>, n: PoolModel<T>)
    requires
        m.inv(),
        n.workers == m.workers,
        n.finished == m.finished,
        n.dispatched == m.dispatched,
        n.dispatched <= n.accepted.len(),
        forall|w: int|
            n.has_worker(w) && #[trigger] n.workers[w] == Activity::Exited ==> n.closed
                && n.dispatched == n.accepted.len(),
    ensures
        n.inv(),
{
    assert forall|w: int, t: nat| #[trigger] n.runs(w, t) implies t < n.dispatched
        && !n.finished.contains(t) by {
        assert(m.runs(w, t));
    }
    assert forall|v: int, w: int, t: nat| n.runs(v, t) && n.runs(w, t) implies v == w by {
        assert(m.runs(v, t) && m.runs(w, t));
    }
    assert forall|t: nat| t < n.dispatched implies #[trigger] n.finished.contains(t)
        || n.in_flight(t) by {
        if !m.finished.contains(t) {
            let w = choose|w: int| m.runs(w, t);
            assert(n.runs(w, t));
        }
    }
}

/// Submitting keeps a pool in order.
pub proof fn lemma_submit_inv<T>(m: PoolModel<T>, job: T)
    requires
        m.inv(),
    ensures
        m.submit(job).inv(),
{
    lemma_same_work_inv(m, m.submit(job));
}

/// Asking for work keeps a pool in order.
pub proof fn lemma_poll_inv<T>(m: PoolModel<T>, w: int)
    requires
        m.inv(),
    ensures
        m.poll(w).inv(),
{
    let n = m.poll(w);
    if m.has_worker(w) && m.workers[w] == Activity::Idle && (m.dispatched < m.accepted.len()
        || m.closed) {
        let d = m.dispatched;
        assert forall|v: int, t: nat| #[trigger] n.runs(v, t) implies t < n.dispatched
            && !n.finished.contains(t) by {
            if v != w {
                assert(m.runs(v, t));
            }
        }
        assert forall|u: int, v: int, t: nat| n.runs(u, t) && n.runs(v, t) implies u == v by {
            if u != w {
                assert(m.runs(u, t));
            }
            if v != w {
                assert(m.runs(v, t));
            }
        }
        assert forall|t: nat| t < n.dispatched implies #[trigger] n.finished.contains(t)
            || n.in_flight(t) by {
            if t < d {
                if !m.finished.contains(t) {
                    let v = choose|v: int| m.runs(v, t);
                    assert(n.runs(v, t));
                }
            } else {
                assert(n.runs(w, t));
            }
        }
        assert forall|v: int|
            n.has_worker(v) && #[trigger] n.workers[v] == Activity::Exited implies n.closed
            && n.dispatched == n.accepted.len() by {
            if v != w {
                assert(m.workers[v] == Activity::Exited);
            }
        }
    }
}

/// Reporting the end of a job keeps a pool in order.
pub proof fn lemma_complete_inv<T>(m: PoolModel<T>, w: int)
    requires
        m.inv(),
    ensures
        m.complete(w).inv(),
{
    let n = m.complete(w);
    if m.has_worker(w) {
        if let Activity::Running(ticket) = m.workers[w] {
            assert(m.runs(w, ticket));
            assert forall|v: int, t: nat| #[trigger] n.runs(v, t) implies t < n.dispatched
                && !n.finished.contains(t) by {
                assert(m.runs(v, t));
            }
            assert forall|u: int, v: int, t: nat| n.runs(u, t) && n.runs(v, t) implies u
                == v by {
                assert(m.runs(u, t) && m.runs(v, t));
            }
            assert forall|t: nat| t < n.dispatched implies #[trigger] n.finished.contains(t)
                || n.in_flight(t) by {
                if !m.finished.contains(t) && t != ticket {
                    let v = choose|v: int| m.runs(v, t);
                    assert(n.runs(v, t));
                }
            }
            assert forall|v: int|
                n.has_worker(v) && #[trigger] n.workers[v] == Activity::Exited implies n.closed
                && n.dispatched == n.accepted.len() by {
                assert(m.workers[v] == Activity::Exited);
            }
        }
    }
}

/// Closing the queue keeps a pool in order.
pub proof fn lemma_close_inv<T>(m: PoolModel<T>)
    requires
        m.inv(),
    ensures
        m.close().inv(),
{
    lemma_same_work_inv(m, m.close());
}

/// Whatever happens to a pool that is in order leaves it in order.
pub proof fn lemma_next_inv<T>(m: PoolModel<T>, event: Event<T>)
    requires
        m.inv(),
    ensures
        m.next(event).inv(),
{
    match event {
        Event::Submit(job) => lemma_submit_inv(m, job),
        Event::Poll(w) => lemma_poll_inv(m, w),
        Event::Complete(w) => lemma_complete_inv(m, w),
        Event::Close => lemma_close_inv(m),
    }
}

/// A pool that is in order stays in order through any sequence of events.
pub proof fn lemma_run_inv<T>(m: PoolModel<T>, events: Seq<Event<T>>)
    requires
        m.inv(),
    ensures
        m.run(events).inv(),
    decreases events.len(),
{
    if events.len() > 0 {
        lemma_run_inv(m, events.drop_last());
        lemma_next_inv(m.run(events.drop_last()), events.last());
    }
}

/// Every state that a pool of at least one worker can reach is in order,
/// whatever the callers and the workers do and in whatever order, and the
/// pool has the number of workers it was made with.
pub proof fn lemma_reachable_inv<T>(size: nat, events: Seq<Event<T>>)
    requires
        size >= 1,
    ensures
        PoolModel::<T>::init(size).run(events).inv(),
        PoolModel::<T>::init(size).run(events).workers.len() == size,
{
    lemma_init::<T>(size);
    lemma_run_inv(PoolModel::<T>::init(size), events);
    lemma_run_history(PoolModel::<T>::init(size), events);
}

/// History only grows: a ticket keeps its job, what was handed out stays
/// handed out, what has finished stays finished, a closed queue stays closed
/// and a worker that has left stays away. The number of workers never changes.
pub proof fn lemma_history_grows<T>(m: PoolModel<T>, event: Event<T>)
    ensures
        m.accepted.is_prefix_of(m.next(event).accepted),
        m.dispatched <= m.next(event).dispatched,
        m.finished.subset_of(m.next(event).finished),
        m.closed ==> m.next(event).closed,
        m.next(event).workers.len() == m.workers.len(),
        forall|w: int|
            m.has_worker(w) && m.workers[w] == Activity::Exited ==> #[trigger] m.next(
                event,
            ).workers[w] == Activity::Exited,
{
}

/// Once the queue is closed no job is accepted any more.
pub proof fn lemma_closed_accepts_nothing<T>(m: PoolModel<T>, event: Event<T>)
    requires
        m.closed,
    ensures
        m.next(event).accepted == m.accepted,
{
}

/// History only grows through any sequence of events, and a closed queue
/// accepts nothing through all of them.
pub proof fn lemma_run_history<T>(m: PoolModel<T>, events: Seq<Event<T>>)
    ensures
        m.accepted.is_prefix_of(m.run(events).accepted),
        m.dispatched <= m.run(events).dispatched,
        m.finished.subset_of(m.run(events).finished),
        m.closed ==> m.run(events).closed && m.run(events).accepted == m.accepted,
        m.run(events).workers.len() == m.workers.len(),
        forall|w: int|
            m.has_worker(w) && m.workers[w] == Activity::Exited ==> #[trigger] m.run(
                events,
            ).workers[w] == Activity::Exited,
    decreases events.len(),
{
    if events.len() > 0 {
        let before = m.run(events.drop_last());
        lemma_run_history(m, events.drop_last());
        lemma_history_grows(before, events.last());
        if m.closed {
            lemma_closed_accepts_nothing(before, events.last());
        }
    }
}

/// Every accepted job is in exactly one place: waiting in the queue, running
/// on exactly one worker, or finished. None is lost and none is run twice.
pub proof fn lemma_exactly_once<T>(m: PoolModel<T>, ticket: nat)
    requires
        m.inv(),
        m.has_ticket(ticket),
    ensures
        m.waits(ticket) || m.in_flight(ticket) || m.finished.contains(ticket),
        !(m.waits(ticket) && m.in_flight(ticket)),
        !(m.waits(ticket) && m.finished.contains(ticket)),
        !(m.in_flight(ticket) && m.finished.contains(ticket)),
        forall|v: int, w: int| m.runs(v, ticket) && m.runs(w, ticket) ==> v == w,
        m.waits(ticket) ==> m.pending()[ticket - m.dispatched] == m.accepted[ticket as int],
{
    if m.in_flight(ticket) {
        let w = choose|w: int| m.runs(w, ticket);
        assert(m.runs(w, ticket));
    }
}

/// A job is started once. The only way in which a worker comes to run a
/// job is to ask and be handed the oldest pending one; its ticket then
/// counts as handed out, and no ticket that was handed out is ever pending
/// again.
pub proof fn lemma_started_once<T>(m: PoolModel<T>, event: Event<T>, w: int, ticket: nat)
    requires
        m.inv(),
        m.next(event).runs(w, ticket),
        !m.runs(w, ticket),
    ensures
        event == Event::<T>::Poll(w),
        m.waits(ticket),
        ticket == m.dispatched,
        !m.next(event).waits(ticket),
{
}

/// A worker runs one job at a time: while it is busy, asking for work hands
/// it nothing and changes nothing, and only an idle worker is ever given a
/// job.
pub proof fn lemma_one_job_at_a_time<T>(m: PoolModel<T>, w: int)
    requires
        m.has_worker(w),
    ensures
        m.workers[w] is Running ==> m.poll(w) == m && m.step(w) == Step::<T>::Wait,
        m.step(w) is Run ==> m.workers[w] == Activity::Idle,
{
}

/// Jobs leave the queue in the order in which they were accepted: an idle
/// worker that finds work is handed the oldest pending job, the one whose
/// ticket is the number of jobs handed out before.
pub proof fn lemma_dispatch_in_order<T>(m: PoolModel<T>, w: int)
    requires
        m.inv(),
        m.has_worker(w),
        m.workers[w] == Activity::Idle,
        m.pending().len() > 0,
    ensures
        m.step(w) == Step::Run(m.accepted[m.dispatched as int]),
        m.poll(w).runs(w, m.dispatched),
        m.poll(w).dispatched == m.dispatched + 1,
        m.poll(w).pending() == m.pending().drop_first(),
        forall|v: int|
            m.has_worker(v) && v != w ==> #[trigger] m.poll(w).workers[v] == m.workers[v],
{
    assert(m.poll(w).pending() =~= m.pending().drop_first());
}

/// With two idle workers and two pending jobs, both jobs are in flight at
/// once after each worker has asked for work: the second does not wait for
/// the first to finish.
pub proof fn lemma_jobs_run_in_parallel<T>(m: PoolModel<T>, v: int, w: int)
    requires
        m.inv(),
        m.has_worker(v),
        m.has_worker(w),
        v != w,
        m.workers[v] == Activity::Idle,
        m.workers[w] == Activity::Idle,
        m.pending().len() >= 2,
    ensures
        m.step(v) == Step::Run(m.pending()[0]),
        m.poll(v).step(w) == Step::Run(m.pending()[1]),
        m.poll(v).poll(w).runs(v, m.dispatched),
        m.poll(v).poll(w).runs(w, m.dispatched + 1),
{
}

/// When teardown is over every accepted job has run to its end: nothing is
/// pending, nothing is in flight, and no worker is alive.
pub proof fn lemma_terminated_all_done<T>(m: PoolModel<T>)
    requires
        m.inv(),
        m.terminated(),
    ensures
        m.pending().len() == 0,
        m.all_done(),
        m.finished == tickets_below(m.accepted.len()),
        forall|t: nat| !m.in_flight(t),
        m.live() == 0,
        m.work_left() == 0,
{
    assert(m.workers[0] == Activity::Exited);
    assert forall|t: nat| !m.in_flight(t) by {
        if m.in_flight(t) {
            let w = choose|w: int| m.runs(w, t);
            assert(m.workers[w] == Activity::Exited);
        }
    }
    assert(m.finished =~= tickets_below(m.accepted.len()));
    lemma_tickets_below(m.accepted.len());
    assert(m.live_set() =~= Set::<int>::empty());
}

/// A pool whose teardown is over never changes again: it refuses every job
/// and none of its workers comes back.
pub proof fn lemma_terminated_is_final<T>(m: PoolModel<T>, event: Event<T>)
    requires
        m.terminated(),
    ensures
        m.next(event) == m,
{
}

/// Teardown leaves no job behind: whatever happened in between, once
/// teardown is over every job that had been accepted has run to its end and
/// no worker is alive. If the queue was already closed, nothing was accepted
/// in between either.
pub proof fn lemma_teardown_leaves_nothing<T>(m: PoolModel<T>, events: Seq<Event<T>>)
    requires
        m.inv(),
        m.run(events).terminated(),
    ensures
        forall|t: nat| m.has_ticket(t) ==> m.run(events).finished.contains(t),
        forall|t: nat| m.has_ticket(t) ==> m.run(events).accepted[t as int] == m.accepted[t as int],
        m.run(events).live() == 0,
        m.closed ==> m.run(events).accepted == m.accepted,
{
    lemma_run_inv(m, events);
    lemma_run_history(m, events);
    lemma_terminated_all_done(m.run(events));
}

/// The jobs that have finished are among those handed out, and these among
/// the accepted ones.
pub proof fn lemma_finished_count<T>(m: PoolModel<T>)
    requires
        m.inv(),
    ensures
        m.finished.len() <= m.dispatched <= m.accepted.len(),
        m.work_left() == 0 <==> m.all_done(),
{
    lemma_tickets_below(m.dispatched);
    assert(m.finished.subset_of(tickets_below(m.dispatched)));
    vstd::set_lib::lemma_len_subset(m.finished, tickets_below(m.dispatched));
    if m.work_left() == 0 {
        vstd::set_lib::lemma_subset_equality(m.finished, tickets_below(m.dispatched));
    }
    if m.all_done() {
        if m.dispatched < m.accepted.len() {
            assert(m.has_ticket(m.dispatched));
        }
        assert(m.finished =~= tickets_below(m.accepted.len()));
        lemma_tickets_below(m.accepted.len());
    }
}

/// While a job is unfinished some worker can move: one is busy and will
/// report, or one is idle and is handed a job when it asks. A pool never
/// sits on work that nobody can take.
pub proof fn lemma_progress<T>(m: PoolModel<T>) -> (event: Event<T>)
    requires
        m.inv(),
        !m.all_done(),
    ensures
        m.advances(event),
        event matches Event::Poll(w) ==> m.step(w) is Run,
{
    let t = choose|t: nat| m.has_ticket(t) && !m.finished.contains(t);
    if t < m.dispatched {
        let w = choose|w: int| m.runs(w, t);
        Event::Complete(w)
    } else if m.workers[0] is Running {
        Event::Complete(0)
    } else {
        Event::Poll(0)
    }
}

/// During teardown no worker is stuck: until the pool has terminated, some
/// worker is busy and will report, or one is idle and is told to run a job
/// or to leave.
pub proof fn lemma_teardown_progress<T>(m: PoolModel<T>) -> (event: Event<T>)
    requires
        m.inv(),
        m.closed,
        !m.terminated(),
    ensures
        m.advances(event),
        event matches Event::Poll(w) ==> !(m.step(w) is Wait),
{
    let w = choose|w: int| m.has_worker(w) && m.workers[w] != Activity::Exited;
    if m.workers[w] is Running {
        Event::Complete(w)
    } else {
        Event::Poll(w)
    }
}

/// The live workers are among the workers, and teardown is over exactly when
/// the queue is closed and no worker is alive.
pub proof fn lemma_live_count<T>(m: PoolModel<T>)
    ensures
        m.live_set().finite(),
        m.live() <= m.workers.len(),
        m.terminated() <==> m.closed && m.live() == 0,
{
    let all = vstd::set_lib::set_int_range(0, m.workers.len() as int);
    vstd::set_lib::lemma_int_range(0, m.workers.len() as int);
    assert(m.live_set().subset_of(all));
    vstd::set_lib::lemma_len_subset(m.live_set(), all);
    if m.terminated() {
        assert(m.live_set() =~= Set::<int>::empty());
    }
    if m.live() == 0 {
        assert forall|w: int| m.has_worker(w) implies m.workers[w] == Activity::Exited by {
            if m.workers[w] != Activity::Exited {
                assert(m.live_set().contains(w));
            }
        }
    }
}

/// A move that gets something done takes exactly one unit off the effort
/// that is left: being handed a job and reporting its end each take one off
/// the work, and leaving makes one live worker less. It accepts no job, and
/// only leaving changes the number of live workers.
pub proof fn lemma_advance_reduces_effort<T>(m: PoolModel<T>, event: Event<T>)
    requires
        m.inv(),
        m.advances(event),
    ensures
        m.next(event).effort() + 1 == m.effort(),
        m.next(event).accepted == m.accepted,
        m.next(event).closed == m.closed,
        m.next(event).work_left() <= m.work_left(),
        m.next(event).live() <= m.live(),
        m.pending().len() > 0 || event is Complete ==> m.next(event).work_left() + 1
            == m.work_left() && m.next(event).live() == m.live(),
{
    lemma_finished_count(m);
    lemma_live_count(m);
    match event {
        Event::Poll(w) => {
            if m.pending().len() > 0 {
                assert(m.next(event).live_set() =~= m.live_set());
            } else {
                assert(m.next(event).live_set() =~= m.live_set().remove(w));
            }
        },
        Event::Complete(w) => {
            let ticket = m.workers[w]->Running_0;
            assert(m.runs(w, ticket));
            assert(m.next(event).live_set() =~= m.live_set());
        },
        _ => {},
    }
}

/// However the workers take their turns, the effort runs out: after any
/// number of moves that get something done, the effort that is left has gone
/// down by that number. So there are never more such moves than the effort
/// at the start, and the pool stays in order and accepts nothing meanwhile.
pub proof fn lemma_advances_run_out<T>(m: PoolModel<T>, events: Seq<Event<T>>)
    requires
        m.inv(),
        m.all_advance(events),
    ensures
        m.run(events).inv(),
        m.run(events).effort() + events.len() == m.effort(),
        m.run(events).work_left() <= m.work_left(),
        !m.closed ==> m.run(events).work_left() + events.len() == m.work_left(),
        m.run(events).accepted == m.accepted,
        m.run(events).closed == m.closed,
    decreases events.len(),
{
    if events.len() > 0 {
        let before = m.run(events.drop_last());
        lemma_advances_run_out(m, events.drop_last());
        lemma_advance_reduces_effort(before, events.last());
        lemma_next_inv(before, events.last());
    }
}

/// When the effort has run out during teardown, teardown is over and every
/// accepted job has run to its end.
pub proof fn lemma_no_effort_left<T>(m: PoolModel<T>)
    requires
        m.inv(),
        m.closed,
        m.effort() == 0,
    ensures
        m.terminated(),
        m.all_done(),
{
    lemma_live_count(m);
    lemma_terminated_all_done(m);
}

} // verus!
