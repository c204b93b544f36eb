//! Tasks that wait for their responses.

use crate::client::stream::ClientStreamInner;
use crate::client::task::ClientTask;
use crate::client::timer::{
    batch_ok, lemma_idle, lemma_waiting_task_is_found, ClientTaskItem, ClientTaskTimer, TakeTask,
    TimerSpec,
};
use crate::error::RpcIntErr;
use crate::laws::client::{
    after, handed_on, lemma_batch_handed_on, lemma_batches_handed_on, tasks_in,
};
use vstd::prelude::*;

verus! {

/// A new timer has no task, lets each wait for the time that is asked for, and lets twice as many
/// be on their way as may be in flight, or 1000.
pub proof fn lemma_new_timer<C, T: ClientTask<C>, G>(
    conn_id: String,
    task_timeout: usize,
    thresholds: usize,
    r: ClientTaskTimer<C, T, G>,
)
    requires
        call_ensures(ClientTaskTimer::<C, T, G>::new, (conn_id, task_timeout, thresholds), r),
    ensures
        forall|seq: u64, item: ClientTaskItem<T, G>| !#[trigger] r@.holds(seq, item),
        r@.pending == 0 && !r@.stopped,
        r@.timeout == task_timeout,
        r@.name == conn_id@,
        thresholds == 0 ==> r@.bound == 1000,
        0 < thresholds && 2 * thresholds <= usize::MAX ==> r@.bound == 2 * thresholds,
{
    lemma_idle::<C, T, G>(r@, Seq::empty());
}

/// Tasks on their way are counted, and nothing else changes: one more where one is sent, one less
/// where it comes to nothing.
pub proof fn lemma_pending_is_counted<C, T: ClientTask<C>, G>()
    ensures
        forall|t: &mut ClientTaskTimer<C, T, G>| #[trigger]
            call_ensures(ClientTaskTimer::<C, T, G>::add_pending, (t,), ()) ==> (*final(t))@.pending
                == after((*t)@.pending) && (*final(t))@ == (TimerSpec {
                pending: (*final(t))@.pending,
                ..(*t)@
            }),
        forall|t: &mut ClientTaskTimer<C, T, G>| #[trigger]
            call_ensures(ClientTaskTimer::<C, T, G>::sub_pending, (t,), ()) ==> (*t)@.pending
                == after((*final(t))@.pending) && (*final(t))@ == (TimerSpec {
                pending: (*final(t))@.pending,
                ..(*t)@
            }),
        forall|t: &mut ClientTaskTimer<C, T, G>| #[trigger]
            call_ensures(ClientTaskTimer::<C, T, G>::stop_reg_task, (t,), ()) ==> (*final(t))@ == (
            TimerSpec { stopped: true, ..(*t)@ }),
{
}

/// Looking for a task. Where the IDs are in order, one that waits is found, is gone from then on,
/// and no other is touched. One that does not wait is not found; it is to be waited for exactly
/// if its ID is higher than that of any task that was registered or timed out, and more will be
/// registered. Then nothing changes.
pub proof fn lemma_task_is_taken<C, T: ClientTask<C>, G>(seq: u64)
    ensures
        forall|t: &mut ClientTaskTimer<C, T, G>, r: TakeTask<T, G>| #[trigger]
            call_ensures(ClientTaskTimer::<C, T, G>::take_task, (t, seq), r) && (*t)@.ordered() ==> {
                let v = (*t)@;
                let w = (*final(t))@;
                &&& forall|item: ClientTaskItem<T, G>| #[trigger]
                    v.holds(seq, item) ==> r == TakeTask::Found(item)
                &&& (r matches TakeTask::Found(item) ==> v.holds(seq, item))
                &&& r is Wait <==> seq > v.processed_seq && !v.stopped
                &&& r is Found ==> forall|k: u64, x: ClientTaskItem<T, G>| #[trigger]
                    w.holds(k, x) <==> k != seq && v.holds(k, x)
                &&& !(r is Found) ==> w == v
                &&& w.pending == v.pending && w.processed_seq == v.processed_seq && w.stopped
                    == v.stopped && w.timeout == v.timeout && w.min_delay_seq == v.min_delay_seq
            },
{
    assert forall|t: &mut ClientTaskTimer<C, T, G>, r: TakeTask<T, G>| #[trigger]
        call_ensures(ClientTaskTimer::<C, T, G>::take_task, (t, seq), r) && (*t)@.ordered() implies {
        let v = (*t)@;
        let w = (*final(t))@;
        &&& forall|item: ClientTaskItem<T, G>| #[trigger]
            v.holds(seq, item) ==> r == TakeTask::Found(item)
        &&& (r matches TakeTask::Found(item) ==> v.holds(seq, item))
        &&& r is Wait <==> seq > v.processed_seq && !v.stopped
        &&& r is Found ==> forall|k: u64, x: ClientTaskItem<T, G>| #[trigger]
            w.holds(k, x) <==> k != seq && v.holds(k, x)
        &&& !(r is Found) ==> w == v
        &&& w.pending == v.pending && w.processed_seq == v.processed_seq && w.stopped == v.stopped
            && w.timeout == v.timeout && w.min_delay_seq == v.min_delay_seq
    } by {
        let v = (*t)@;
        let w = (*final(t))@;
        assert(v.taken(seq, r, w));
        assert forall|item: ClientTaskItem<T, G>| #[trigger] v.holds(seq, item) implies r
            == TakeTask::Found(item) by {
            lemma_waiting_task_is_found(v, seq, item, r, w);
        }
        if let TakeTask::Found(item) = r {
            if v.sent.contains_key(seq) {
                assert(v.batches()[0] == v.sent);
                assert(v.holds(seq, item));
            } else {
                let i = choose|i: int| #[trigger]
                    crate::client::timer::first_with(v.delayed, seq, i) && r == TakeTask::Found(
                        v.delayed[i][seq],
                    );
                assert(v.batches()[i + 1] == v.delayed[i]);
                assert(v.batches()[i + 1].contains_key(seq));
                assert(v.holds(seq, item));
            }
            lemma_waiting_task_is_found(v, seq, item, r, w);
        }
    }
}

/// No task waits exactly if none can be found.
pub proof fn lemma_nothing_waits<C, T: ClientTask<C>, G>(t: ClientTaskTimer<C, T, G>, r: bool)
    requires
        call_ensures(ClientTaskTimer::<C, T, G>::check_pending_tasks_empty, (&t,), r),
    ensures
        r <==> forall|seq: u64, item: ClientTaskItem<T, G>| !#[trigger] t@.holds(seq, item),
{
    lemma_idle::<C, T, G>(t@, Seq::empty());
}

/// Tasks that have arrived wait from then on, and whether there were any is said.
pub proof fn lemma_tasks_arrive<C, T: ClientTask<C>, G>(items: Vec<ClientTaskItem<T, G>>)
    ensures
        forall|t: &mut ClientTaskTimer<C, T, G>, r: bool| #[trigger]
            call_ensures(ClientTaskTimer::<C, T, G>::poll_sent_task, (t, items), r) ==> {
                let v = (*t)@;
                let w = (*final(t))@;
                &&& r <==> items@.len() > 0
                &&& items@.len() <= v.pending ==> w.pending == v.pending - items@.len()
                &&& items@.len() <= v.pending && items@.len() > 0 ==> w.processed_seq
                    == items@.last().task->0.common().seq
                &&& items@.len() == 0 ==> w == v
            },
{
    assert forall|t: &mut ClientTaskTimer<C, T, G>, r: bool| #[trigger]
        call_ensures(ClientTaskTimer::<C, T, G>::poll_sent_task, (t, items), r) implies {
        let v = (*t)@;
        let w = (*final(t))@;
        &&& items@.len() <= v.pending ==> w.pending == v.pending - items@.len()
        &&& items@.len() <= v.pending && items@.len() > 0 ==> w.processed_seq
            == items@.last().task->0.common().seq
    } by {
        if items@.len() <= (*t)@.pending {
            crate::laws::client::lemma_registered_all::<C, T, G>((*t)@, items@);
        }
    }
}

/// A timer that is cleaned hands on every task that waits, once each, with `IO`; none waits then,
/// and nothing else changes.
pub proof fn lemma_timer_is_cleaned<C, T: ClientTask<C>, G>()
    ensures
        forall|t: &mut ClientTaskTimer<C, T, G>, out: Vec<T>| #[trigger]
            call_ensures(ClientTaskTimer::<C, T, G>::clean_pending_tasks, (t,), out) && (*t).wf()
                ==> {
                let v = (*t)@;
                let w = (*final(t))@;
                &&& out@.len() == tasks_in(v.batches())
                &&& forall|seq: u64, item: ClientTaskItem<T, G>| #[trigger]
                    v.holds(seq, item) ==> handed_on::<C, T, G>(item, out@, RpcIntErr::IO)
                &&& forall|seq: u64, item: ClientTaskItem<T, G>| !#[trigger] w.holds(seq, item)
                &&& w == (TimerSpec { sent: w.sent, delayed: w.delayed, ..v })
            },
{
    assert forall|t: &mut ClientTaskTimer<C, T, G>, out: Vec<T>| #[trigger]
        call_ensures(ClientTaskTimer::<C, T, G>::clean_pending_tasks, (t,), out) && (*t).wf() implies {
        let v = (*t)@;
        let w = (*final(t))@;
        &&& out@.len() == tasks_in(v.batches())
        &&& forall|seq: u64, item: ClientTaskItem<T, G>| #[trigger]
            v.holds(seq, item) ==> handed_on::<C, T, G>(item, out@, RpcIntErr::IO)
        &&& forall|seq: u64, item: ClientTaskItem<T, G>| !#[trigger] w.holds(seq, item)
        &&& w == (TimerSpec { sent: w.sent, delayed: w.delayed, ..v })
    } by {
        let v = (*t)@;
        let w = (*final(t))@;
        let bs = v.batches();
        assert forall|i: int| 0 <= i < bs.len() implies batch_ok::<C, T, G>(#[trigger] bs[i]) by {
            if i > 0 {
                assert(bs[i] == v.delayed[i - 1]);
            }
        }
        lemma_batches_handed_on::<C, T, G>(bs, out@, RpcIntErr::IO);
        assert forall|seq: u64, item: ClientTaskItem<T, G>| #[trigger]
            v.holds(seq, item) implies handed_on::<C, T, G>(item, out@, RpcIntErr::IO) by {
            let i = choose|i: int|
                #![trigger bs[i]]
                0 <= i < bs.len() && bs[i].contains_key(seq) && bs[i][seq] == item;
            assert(bs[i].contains_key(seq));
        }
        lemma_idle::<C, T, G>(w, Seq::empty());
    }
}

/// Each second of a timer: what has waited too long is handed on with `Timeout`, once each, and
/// what has not is kept, in the same order; the tasks of the second that ended are the youngest
/// of those.
pub proof fn lemma_timer_ticks<C, T: ClientTask<C>, G>()
    ensures
        forall|t: &mut ClientTaskTimer<C, T, G>, out: Vec<T>| #[trigger]
            call_ensures(ClientTaskTimer::<C, T, G>::adjust_task_queue, (t,), out) && (*t).wf()
                ==> {
                let v = (*t)@;
                let w = (*final(t))@;
                let all = v.batches();
                let late = v.delayed.len() == v.timeout;
                &&& w.sent.is_empty()
                &&& w.delayed == if late {
                    all.drop_last()
                } else {
                    all
                }
                &&& out@.len() == if late {
                    all.last().dom().len()
                } else {
                    0
                }
                &&& late ==> forall|seq: u64| #[trigger]
                    all.last().contains_key(seq) ==> handed_on::<C, T, G>(
                        all.last()[seq],
                        out@,
                        RpcIntErr::Timeout,
                    )
                &&& late && !all.last().is_empty() ==> all.last().contains_key(w.min_delay_seq)
                    && forall|seq: u64| #[trigger]
                    all.last().contains_key(seq) ==> w.min_delay_seq <= seq
                &&& !late || all.last().is_empty() ==> w.min_delay_seq == v.min_delay_seq
                &&& w.pending == v.pending && w.processed_seq == v.processed_seq && w.stopped
                    == v.stopped && w.timeout == v.timeout && w.bound == v.bound
            },
{
    assert forall|t: &mut ClientTaskTimer<C, T, G>, out: Vec<T>| #[trigger]
        call_ensures(ClientTaskTimer::<C, T, G>::adjust_task_queue, (t,), out) && (*t).wf() implies {
        let v = (*t)@;
        let w = (*final(t))@;
        let all = v.batches();
        let late = v.delayed.len() == v.timeout;
        &&& w.sent.is_empty()
        &&& w.delayed == if late {
            all.drop_last()
        } else {
            all
        }
        &&& out@.len() == if late {
            all.last().dom().len()
        } else {
            0
        }
        &&& late ==> forall|seq: u64| #[trigger]
            all.last().contains_key(seq) ==> handed_on::<C, T, G>(
                all.last()[seq],
                out@,
                RpcIntErr::Timeout,
            )
        &&& late && !all.last().is_empty() ==> all.last().contains_key(w.min_delay_seq) && forall|
            seq: u64,
        | #[trigger]
            all.last().contains_key(seq) ==> w.min_delay_seq <= seq
        &&& !late || all.last().is_empty() ==> w.min_delay_seq == v.min_delay_seq
        &&& w.pending == v.pending && w.processed_seq == v.processed_seq && w.stopped == v.stopped
            && w.timeout == v.timeout && w.bound == v.bound
    } by {
        let v = (*t)@;
        lemma_batch_handed_on::<C, T, G>(v.expiring(), out@, RpcIntErr::Timeout);
        let none = Map::<u64, ClientTaskItem<T, G>>::empty();
        assert(none.dom() =~= Set::<u64>::empty());
    }
}

/// What a connection says of itself.
pub proof fn lemma_state_of_connection<C, T: ClientTask<C>, G>(s: ClientStreamInner<C, T, G>)
    ensures
        forall|r: bool| #[trigger]
            call_ensures(ClientStreamInner::<C, T, G>::is_closed, (&s,), r) ==> (r <==> s@.closed),
        forall|r: bool| #[trigger]
            call_ensures(ClientStreamInner::<C, T, G>::has_err, (&s,), r) ==> (r <==> s@.has_err),
        forall|r: usize| #[trigger]
            call_ensures(ClientStreamInner::<C, T, G>::thresholds, (&s,), r) ==> r == s.limit(),
{
}

/// What a timer says of itself.
pub proof fn lemma_state_of_timer<C, T: ClientTask<C>, G>(t: ClientTaskTimer<C, T, G>)
    ensures
        forall|r: usize| #[trigger]
            call_ensures(ClientTaskTimer::<C, T, G>::pending_bound, (&t,), r) ==> r == t@.bound,
        forall|r: &u64| #[trigger]
            call_ensures(ClientTaskTimer::<C, T, G>::pending_task_count_ref, (&t,), r) ==> *r
                == t@.pending,
        forall|r: &str| #[trigger]
            call_ensures(ClientTaskTimer::<C, T, G>::conn_id, (&t,), r) ==> r@ == t@.name,
{
}

/// Where looking for a task leads, whatever the order of the IDs: to nothing below the lowest ID
/// of those that timed out last, even if it waits; above the ID that was registered last, to
/// waiting, or to nothing where no more will be registered; and else to the task, where one of
/// this second has the ID.
pub proof fn lemma_where_looking_leads<C, T: ClientTask<C>, G>(seq: u64)
    ensures
        forall|t: &mut ClientTaskTimer<C, T, G>, r: TakeTask<T, G>| #[trigger]
            call_ensures(ClientTaskTimer::<C, T, G>::take_task, (t, seq), r) ==> {
                let v = (*t)@;
                let early = seq < v.min_delay_seq;
                let late = !early && seq > v.processed_seq;
                &&& early ==> r is Gone
                &&& late ==> (r is Wait <==> !v.stopped) && (r is Gone <==> v.stopped)
                &&& r is Wait ==> late
                &&& !early && !late && v.sent.contains_key(seq) ==> r == TakeTask::Found(
                    v.sent[seq],
                )
                &&& early || late ==> (*final(t))@ == v
            },
{
}

} // verus!
