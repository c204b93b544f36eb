//! Sending tasks on a connection, and what becomes of those that wait.

use crate::client::stream::{
    ClientStreamInner, PingReq, RecvEvent, RecvStep, SendTask, StreamSpec, Written,
};
use crate::client::task::{ClientTask, ClientTaskState};
use crate::client::timer::{
    batch_failed, batch_failed_as, batch_ok, batches_failed, lemma_failed_once, lemma_idle, Batch,
    ClientTaskItem, ClientTaskTimer, TakeTask, TimerSpec,
};
use crate::error::{RpcError, RpcIntErr};
use crate::laws::protocol::{blob_len, lemma_request_is_sent, number, starts_packet};
use crate::proto::ReqHead;
use vstd::prelude::*;

verus! {

/// Whether `b` is task `a` in all but its ID and its result.
pub open spec fn same_but_id<C, T: ClientTaskState<C>>(a: T, b: T) -> bool {
    &&& b.action() == a.action()
    &&& b.req_blob() == a.req_blob()
    &&& b.takes_blob() == a.takes_blob()
    &&& b.way() == a.way()
    &&& b.resp() == a.resp()
    &&& b.resp_blob() == a.resp_blob()
    &&& forall|codec: &C| #[trigger] a.req_msg(codec) == b.req_msg(codec)
}

/// Whether `b` is task `a` after it failed with the framework error `e`: its ID, its request, its
/// way back and what it has of a response stay.
pub open spec fn failed<C, T: ClientTaskState<C>>(a: T, b: T, e: RpcIntErr) -> bool {
    &&& b.result() == Some(Err::<(), RpcError<T::Err>>(RpcError::Rpc(e)))
    &&& b.common() == a.common()
    &&& same_but_id::<C, T>(a, b)
}

/// Whether the request of a task can be sent: it has an encoding, and its parts fit the head.
pub open spec fn sendable<C, T: ClientTaskState<C>>(codec: &C, task: T) -> bool {
    &&& task.req_msg(codec) is Some
    &&& task.req_msg(codec)->0.len() <= 0xffff_ffff
    &&& blob_len(task.req_blob()) <= 0x7fff_ffff
}

/// The number after `n`, where the highest is followed by 0.
pub open spec fn after(n: u64) -> u64 {
    if n == u64::MAX {
        0
    } else {
        (n + 1) as u64
    }
}

/// Sending a task. On an open connection a request that can be sent is written, under the next ID
/// and with the ID of the client, and the task is counted as on its way; it is flushed where that
/// is asked for or the connection is nearly full. One that cannot be sent ends with `Encode`, is
/// not counted, and breaks the connection. On a closed connection the task ends with `IO` and
/// nothing changes. Whatever happens, the task keeps its way back, and no task that waits is
/// touched.
pub proof fn lemma_task_is_sent<C, T: ClientTask<C>, G>(
    codec: &C,
    task: T,
    need_flush: bool,
    nearly_full: bool,
)
    ensures
        forall|s: &mut ClientStreamInner<C, T, G>, buf: &mut Vec<u8>, r: SendTask<T>| #[trigger]
            call_ensures(
                ClientStreamInner::<C, T, G>::send_task,
                (s, codec, buf, task, need_flush, nearly_full),
                r,
            ) ==> {
                let v = (*s)@;
                let w = (*final(s))@;
                let out = (*final(buf))@;
                &&& w.client_id == v.client_id && (*final(s)).limit() == (*s).limit()
                &&& w.timer.sent == v.timer.sent && w.timer.delayed == v.timer.delayed
                &&& w.timer.stopped == v.timer.stopped
                &&& r is Refused <==> v.closed
                &&& r is Write <==> !v.closed && sendable::<C, T>(codec, task)
                &&& match r {
                    SendTask::Refused(t) => failed::<C, T>(task, t, RpcIntErr::IO) && w == v,
                    SendTask::Unencodable(t) => {
                        &&& t.result() == Some(
                            Err::<(), RpcError<T::Err>>(RpcError::Rpc(RpcIntErr::Encode)),
                        )
                        &&& same_but_id::<C, T>(task, t) && t.common().seq == v.seq
                        &&& w.seq == after(v.seq)
                        &&& w.closed && w.has_err
                        &&& w.timer.pending == v.timer.pending
                    },
                    SendTask::Write { task: t, flush } => {
                        &&& t.common().seq == v.seq
                        &&& t.result() == task.result()
                        &&& same_but_id::<C, T>(task, t)
                        &&& flush <==> need_flush || nearly_full
                        &&& w.seq == after(v.seq)
                        &&& !w.closed && w.has_err == v.has_err
                        &&& w.timer.pending == after(v.timer.pending)
                        &&& Some(out) == ReqHead::frame(
                            v.client_id,
                            v.seq,
                            task.action(),
                            task.req_msg(codec),
                            task.req_blob(),
                        )
                        &&& starts_packet(out)
                        &&& number(out, 8, 8) == v.seq
                        &&& number(out, 16, 8) == v.client_id
                        &&& number(out, 28, 4) == blob_len(task.req_blob())
                        &&& out.subrange(
                            out.len() - task.req_msg(codec)->0.len(),
                            out.len() as int,
                        ) == task.req_msg(codec)->0
                    },
                }
            },
{
    assert forall|s: &mut ClientStreamInner<C, T, G>, buf: &mut Vec<u8>, r: SendTask<T>| #[trigger]
        call_ensures(
            ClientStreamInner::<C, T, G>::send_task,
            (s, codec, buf, task, need_flush, nearly_full),
            r,
        ) implies {
        let v = (*s)@;
        let w = (*final(s))@;
        let out = (*final(buf))@;
        &&& w.client_id == v.client_id && (*final(s)).limit() == (*s).limit()
        &&& w.timer.sent == v.timer.sent && w.timer.delayed == v.timer.delayed
        &&& w.timer.stopped == v.timer.stopped
        &&& r is Refused <==> v.closed
        &&& r is Write <==> !v.closed && sendable::<C, T>(codec, task)
        &&& match r {
            SendTask::Refused(t) => failed::<C, T>(task, t, RpcIntErr::IO) && w == v,
            SendTask::Unencodable(t) => {
                &&& t.result() == Some(
                    Err::<(), RpcError<T::Err>>(RpcError::Rpc(RpcIntErr::Encode)),
                )
                &&& same_but_id::<C, T>(task, t) && t.common().seq == v.seq
                &&& w.seq == after(v.seq)
                &&& w.closed && w.has_err
                &&& w.timer.pending == v.timer.pending
            },
            SendTask::Write { task: t, flush } => {
                &&& t.common().seq == v.seq
                &&& t.result() == task.result()
                &&& same_but_id::<C, T>(task, t)
                &&& flush <==> need_flush || nearly_full
                &&& w.seq == after(v.seq)
                &&& !w.closed && w.has_err == v.has_err
                &&& w.timer.pending == after(v.timer.pending)
                &&& Some(out) == ReqHead::frame(
                    v.client_id,
                    v.seq,
                    task.action(),
                    task.req_msg(codec),
                    task.req_blob(),
                )
                &&& starts_packet(out)
                &&& number(out, 8, 8) == v.seq
                &&& number(out, 16, 8) == v.client_id
                &&& number(out, 28, 4) == blob_len(task.req_blob())
                &&& out.subrange(out.len() - task.req_msg(codec)->0.len(), out.len() as int)
                    == task.req_msg(codec)->0
            },
        }
    } by {
        let v = (*s)@;
        lemma_request_is_sent(
            v.client_id,
            v.seq,
            task.action(),
            task.req_msg(codec),
            task.req_blob(),
        );
    }
}

/// Whether no one will wait for a task that is not registered.
pub open spec fn never_waits<T, G>(v: TimerSpec<T, G>) -> bool {
    forall|seq: u64, r: TakeTask<T, G>, next: TimerSpec<T, G>| #[trigger]
        v.taken(seq, r, next) ==> !(r is Wait)
}

/// A request that was written leaves its task to be registered, as it is. One that could not be
/// written ends its task with `IO`, takes back its count, and breaks the connection, on which
/// nobody waits for tasks to come any more.
pub proof fn lemma_request_is_written<C, T: ClientTask<C>, G>(task: T, ok: bool)
    ensures
        forall|s: &mut ClientStreamInner<C, T, G>, r: Written<T>| #[trigger]
            call_ensures(ClientStreamInner::<C, T, G>::request_written, (s, task, ok), r) ==> {
                let v = (*s)@;
                let w = (*final(s))@;
                if ok {
                    r == Written::Register(task) && w == v
                } else {
                    &&& r matches Written::Failed(t)
                    &&& failed::<C, T>(task, t, RpcIntErr::IO)
                    &&& w.closed && w.has_err && w.timer.stopped
                    &&& v.timer.pending == after(w.timer.pending)
                    &&& w.timer.sent == v.timer.sent && w.timer.delayed == v.timer.delayed
                    &&& never_waits(w.timer)
                }
            },
{
}

/// A task that is registered is no longer counted as on its way, and waits under its ID.
pub proof fn lemma_task_is_registered<C, T: ClientTask<C>, G>(item: ClientTaskItem<T, G>)
    requires
        item.task is Some,
    ensures
        forall|t: &mut ClientTaskTimer<C, T, G>| #[trigger]
            call_ensures(ClientTaskTimer::<C, T, G>::got_pending_task, (t, item), ()) ==> {
                let v = (*t)@;
                let w = (*final(t))@;
                let seq = item.task->0.common().seq;
                &&& v.pending == after(w.pending)
                &&& w.processed_seq == seq
                &&& w.holds(seq, item)
                &&& w.min_delay_seq == v.min_delay_seq && w.timeout == v.timeout
                &&& w.delayed == v.delayed
                &&& forall|k: u64| k != seq ==> w.sent.contains_key(k) == #[trigger] v.sent.contains_key(
                    k,
                )
                &&& forall|k: u64| k != seq && #[trigger] v.sent.contains_key(k) ==> w.sent[k]
                    == v.sent[k]
            },
{
    assert forall|t: &mut ClientTaskTimer<C, T, G>| #[trigger]
        call_ensures(ClientTaskTimer::<C, T, G>::got_pending_task, (t, item), ()) implies (
    *final(t))@.holds(item.task->0.common().seq, item) by {
        let w = (*final(t))@;
        let seq = item.task->0.common().seq;
        assert(w.batches()[0] == w.sent);
        assert(w.batches()[0].contains_key(seq));
    }
}

/// Ending a connection: closing it keeps the tasks that wait; a flush that failed breaks it.
/// After either nobody waits for tasks to come. A ping that failed only closes it, and a probe
/// that found the server gone only marks it broken.
pub proof fn lemma_connection_ends<C, T: ClientTask<C>, G>()
    ensures
        forall|s: &mut ClientStreamInner<C, T, G>| #[trigger]
            call_ensures(ClientStreamInner::<C, T, G>::close, (s,), ()) ==> {
                let w = (*final(s))@;
                &&& w.closed && w.has_err == (*s)@.has_err
                &&& w.timer == (TimerSpec { stopped: true, ..(*s)@.timer })
                &&& never_waits(w.timer)
            },
        forall|s: &mut ClientStreamInner<C, T, G>| #[trigger]
            call_ensures(ClientStreamInner::<C, T, G>::flush_failed, (s,), ()) ==> {
                let w = (*final(s))@;
                &&& w.closed && w.has_err
                &&& w.timer == (TimerSpec { stopped: true, ..(*s)@.timer })
                &&& never_waits(w.timer)
            },
        forall|s: &mut ClientStreamInner<C, T, G>| #[trigger]
            call_ensures(ClientStreamInner::<C, T, G>::ping_failed, (s,), ()) ==> (*final(s))@ == (
            StreamSpec { closed: true, ..(*s)@ }),
        forall|s: &mut ClientStreamInner<C, T, G>| #[trigger]
            call_ensures(ClientStreamInner::<C, T, G>::set_error_and_exit, (s,), ()) ==> (
            *final(s))@ == (StreamSpec { has_err: true, ..(*s)@ }),
{
}

/// A ping is refused on a closed connection, skipped on a full one, and else goes out: a head
/// alone, with action 0, under the next ID. It is not counted, and changes nothing else.
pub proof fn lemma_ping_is_sent<C, T: ClientTask<C>, G>(full: bool)
    ensures
        forall|s: &mut ClientStreamInner<C, T, G>, buf: &mut Vec<u8>, r: PingReq| #[trigger]
            call_ensures(ClientStreamInner::<C, T, G>::send_ping_req, (s, buf, full), r) ==> {
                let v = (*s)@;
                let w = (*final(s))@;
                let out = (*final(buf))@;
                &&& r is Refused <==> v.closed
                &&& r is Skipped <==> !v.closed && full
                &&& r is Write <==> !v.closed && !full
                &&& w.timer == v.timer && w.closed == v.closed && w.has_err == v.has_err
                &&& r is Write ==> {
                    &&& w.seq == after(v.seq)
                    &&& out.len() == 32
                    &&& starts_packet(out)
                    &&& number(out, 4, 4) == 0
                    &&& number(out, 8, 8) == v.seq
                    &&& number(out, 16, 8) == v.client_id
                    &&& number(out, 24, 4) == 0 && number(out, 28, 4) == 0
                }
                &&& !(r is Write) ==> w == v && out == (*buf)@
            },
{
    assert forall|s: &mut ClientStreamInner<C, T, G>, buf: &mut Vec<u8>, r: PingReq| #[trigger]
        call_ensures(ClientStreamInner::<C, T, G>::send_ping_req, (s, buf, full), r) && r
        is Write implies {
        let v = (*s)@;
        let out = (*final(buf))@;
        &&& out.len() == 32
        &&& starts_packet(out)
        &&& number(out, 4, 4) == 0
        &&& number(out, 8, 8) == v.seq
        &&& number(out, 16, 8) == v.client_id
        &&& number(out, 24, 4) == 0 && number(out, 28, 4) == 0
    } by {
        let v = (*s)@;
        let h = ReqHead::spec_new(v.client_id, 0, v.seq, 0, 0);
        crate::laws::protocol::lemma_request_head_layout(h);
        crate::laws::protocol::lemma_first_bytes(h.bytes());
        crate::laws::protocol::lemma_byte(h.bytes());
    }
}

/// A new connection is open, has no task, gives its first request the ID 1, and lets some tasks be
/// in flight: as many as are configured, or 128.
pub proof fn lemma_new_connection<C, T: ClientTask<C>, G>(
    client_id: u64,
    conn_id: String,
    task_timeout: usize,
    thresholds: usize,
    r: ClientStreamInner<C, T, G>,
)
    requires
        call_ensures(
            ClientStreamInner::<C, T, G>::new,
            (client_id, conn_id, task_timeout, thresholds),
            r,
        ),
    ensures
        !r@.closed && !r@.has_err && !r@.timer.stopped,
        r@.seq == 1 && r@.client_id == client_id,
        r@.timer.idle() && r@.timer.pending == 0 && r@.timer.ordered(),
        r@.timer.timeout == task_timeout,
        r@.timer.name == conn_id@,
        thresholds > 0 ==> r.limit() == thresholds,
        thresholds == 0 ==> r.limit() == 128,
        2 * thresholds <= usize::MAX ==> r@.timer.bound == 2 * r.limit(),
{
    let v = r@.timer;
    assert(v.batches() =~= seq![Map::<u64, ClientTaskItem<T, G>>::empty()]);
}

/// A receiver goes on until the connection is closed and no task waits any more, or it is broken.
pub proof fn lemma_receiver_goes_on<C, T: ClientTask<C>, G>(
    s: ClientStreamInner<C, T, G>,
    r: RecvStep,
)
    requires
        call_ensures(ClientStreamInner::<C, T, G>::recv_step, (&s,), r),
    ensures
        r is ReadOrClose <==> !s@.closed,
        r is Stop <==> s@.closed && (s@.has_err || forall|seq: u64, item: ClientTaskItem<T, G>|
            !#[trigger] s@.timer.holds(seq, item)),
{
    lemma_idle::<C, T, G>(s@.timer, Seq::empty());
}

/// A receiver stops where reading failed and only there. A connection that its sender closed
/// counts as closed from then on; none is opened again, and no task is touched.
pub proof fn lemma_receiver_takes_note<C, T: ClientTask<C>, G>(step: RecvStep, event: RecvEvent)
    ensures
        forall|s: &mut ClientStreamInner<C, T, G>, r: bool| #[trigger]
            call_ensures(ClientStreamInner::<C, T, G>::recv_event, (s, step, event), r) ==> {
                let v = (*s)@;
                let w = (*final(s))@;
                &&& r <==> !(event is Failed)
                &&& v.closed ==> w.closed
                &&& step is ReadOrClose && event is Closed ==> w.closed
                &&& step is ReadRemaining && event is Failed ==> w.closed
                &&& event is Response ==> w == v
                &&& step is ReadOrClose && event is Failed ==> w == v
                &&& w == (StreamSpec { closed: w.closed, ..v })
            },
{
}

/// Tasks are on their way exactly while some are counted.
pub proof fn lemma_tasks_on_their_way<C, T: ClientTask<C>, G>(
    s: ClientStreamInner<C, T, G>,
    r: bool,
)
    requires
        call_ensures(ClientStreamInner::<C, T, G>::tasks_on_their_way, (&s,), r),
    ensures
        r <==> s@.timer.pending != 0,
{
}

/// Whether the task of `item` is among those that are handed on, after it failed with `e`.
pub open spec fn handed_on<C, T: ClientTaskState<C>, G>(
    item: ClientTaskItem<T, G>,
    out: Seq<T>,
    e: RpcIntErr,
) -> bool {
    exists|i: int|
        #![trigger out[i]]
        0 <= i < out.len() && failed::<C, T>(item.task->0, out[i], e)
}

/// How many tasks are in batches.
pub open spec fn tasks_in<T, G>(bs: Seq<Batch<T, G>>) -> nat
    decreases bs.len(),
{
    if bs.len() == 0 {
        0
    } else {
        tasks_in(bs.drop_last()) + bs.last().dom().len()
    }
}

pub proof fn lemma_batch_handed_on<C, T: ClientTaskState<C>, G>(
    b: Batch<T, G>,
    out: Seq<T>,
    e: RpcIntErr,
)
    requires
        batch_ok::<C, T, G>(b),
        batch_failed::<C, T, G>(b, out, e),
    ensures
        out.len() == b.dom().len(),
        forall|seq: u64| #[trigger] b.contains_key(seq) ==> handed_on::<C, T, G>(b[seq], out, e),
{
    let keys = choose|keys: Seq<u64>| #[trigger] batch_failed_as::<C, T, G>(b, keys, out, e);
    keys.unique_seq_to_set();
    assert forall|seq: u64| #[trigger] b.contains_key(seq) implies handed_on::<C, T, G>(
        b[seq],
        out,
        e,
    ) by {
        lemma_failed_once::<C, T, G>(b, out, e, seq);
    }
}

pub proof fn lemma_batches_handed_on<C, T: ClientTaskState<C>, G>(
    bs: Seq<Batch<T, G>>,
    out: Seq<T>,
    e: RpcIntErr,
)
    requires
        forall|i: int| 0 <= i < bs.len() ==> batch_ok::<C, T, G>(#[trigger] bs[i]),
        batches_failed::<C, T, G>(bs, out, e),
    ensures
        out.len() == tasks_in(bs),
        forall|i: int, seq: u64|
            0 <= i < bs.len() && #[trigger] bs[i].contains_key(seq) ==> handed_on::<C, T, G>(
                bs[i][seq],
                out,
                e,
            ),
    decreases bs.len(),
{
    if bs.len() > 0 {
        let n = choose|n: int|
            0 <= n <= out.len() && #[trigger] batch_failed::<C, T, G>(
                bs.last(),
                out.subrange(n, out.len() as int),
                e,
            ) && batches_failed::<C, T, G>(bs.drop_last(), out.subrange(0, n), e);
        let head = out.subrange(0, n);
        let tail = out.subrange(n, out.len() as int);
        let hs = bs.drop_last();
        assert forall|i: int| 0 <= i < hs.len() implies batch_ok::<C, T, G>(#[trigger] hs[i]) by {
            assert(hs[i] == bs[i]);
        }
        lemma_batches_handed_on::<C, T, G>(hs, head, e);
        lemma_batch_handed_on::<C, T, G>(bs.last(), tail, e);
        assert forall|i: int, seq: u64|
            0 <= i < bs.len() && #[trigger] bs[i].contains_key(seq) implies handed_on::<C, T, G>(
            bs[i][seq],
            out,
            e,
        ) by {
            let item = bs[i][seq];
            if i < hs.len() {
                assert(hs[i].contains_key(seq));
                assert(handed_on::<C, T, G>(item, head, e));
                let j = choose|j: int|
                    #![trigger head[j]]
                    0 <= j < head.len() && failed::<C, T>(item.task->0, head[j], e);
                assert(out[j] == head[j]);
            } else {
                assert(bs.last().contains_key(seq));
                assert(handed_on::<C, T, G>(item, tail, e));
                let j = choose|j: int|
                    #![trigger tail[j]]
                    0 <= j < tail.len() && failed::<C, T>(item.task->0, tail[j], e);
                assert(out[n + j] == tail[j]);
            }
        }
    }
}

/// A receiver that ends hands on every task that waits, once each, with the error `IO` and its way
/// back; none waits after that, and the connection is closed.
pub proof fn lemma_receiver_ends<C, T: ClientTask<C>, G>()
    ensures
        forall|s: &mut ClientStreamInner<C, T, G>, out: Vec<T>| #[trigger]
            call_ensures(ClientStreamInner::<C, T, G>::receive_failed, (s,), out) && (forall|i: int|
                0 <= i < (*s)@.timer.batches().len() ==> batch_ok::<C, T, G>(
                    #[trigger] (*s)@.timer.batches()[i],
                )) ==> {
                let v = (*s)@;
                let w = (*final(s))@;
                &&& w.closed && w.has_err == v.has_err
                &&& w.timer.idle() && w.timer.pending == v.timer.pending
                &&& out@.len() == tasks_in(v.timer.batches())
                &&& forall|seq: u64, item: ClientTaskItem<T, G>| #[trigger]
                    v.timer.holds(seq, item) ==> handed_on::<C, T, G>(item, out@, RpcIntErr::IO)
            },
{
    assert forall|s: &mut ClientStreamInner<C, T, G>, out: Vec<T>| #[trigger]
        call_ensures(ClientStreamInner::<C, T, G>::receive_failed, (s,), out) && (forall|i: int|
            0 <= i < (*s)@.timer.batches().len() ==> batch_ok::<C, T, G>(
                #[trigger] (*s)@.timer.batches()[i],
            )) implies {
        let v = (*s)@;
        let w = (*final(s))@;
        &&& w.closed && w.has_err == v.has_err
        &&& w.timer.idle() && w.timer.pending == v.timer.pending
        &&& out@.len() == tasks_in(v.timer.batches())
        &&& forall|seq: u64, item: ClientTaskItem<T, G>| #[trigger]
            v.timer.holds(seq, item) ==> handed_on::<C, T, G>(item, out@, RpcIntErr::IO)
    } by {
        let v = (*s)@;
        let bs = v.timer.batches();
        lemma_batches_handed_on::<C, T, G>(bs, out@, RpcIntErr::IO);
        assert forall|seq: u64, item: ClientTaskItem<T, G>| #[trigger]
            v.timer.holds(seq, item) implies handed_on::<C, T, G>(item, out@, RpcIntErr::IO) by {
            let i = choose|i: int|
                #![trigger bs[i]]
                0 <= i < bs.len() && bs[i].contains_key(seq) && bs[i][seq] == item;
            assert(bs[i].contains_key(seq));
        }
    }
}

/// Each second the tasks that have waited too long are handed on, once each, with the error
/// `Timeout` and their way back, and no others; those of the current second start to wait with
/// the others.
pub proof fn lemma_second_passes<C, T: ClientTask<C>, G>()
    ensures
        forall|s: &mut ClientStreamInner<C, T, G>, out: Vec<T>| #[trigger]
            call_ensures(ClientStreamInner::<C, T, G>::time_reach, (s,), out) && batch_ok::<C, T, G>(
                (*s)@.timer.expiring(),
            ) ==> {
                let v = (*s)@.timer;
                let w = (*final(s))@.timer;
                let late = v.delayed.len() >= v.timeout;
                let all = v.batches();
                &&& out@.len() == if late {
                    all.last().dom().len()
                } else {
                    0
                }
                &&& late ==> forall|seq: u64| #[trigger]
                    all.last().contains_key(seq) ==> handed_on::<C, T, G>(
                        all.last()[seq],
                        out@,
                        RpcIntErr::Timeout,
                    )
                &&& w.sent == Map::<u64, ClientTaskItem<T, G>>::empty()
                &&& w.delayed == if late {
                    all.drop_last()
                } else {
                    all
                }
                &&& w.pending == v.pending && w.processed_seq == v.processed_seq
                &&& w.stopped == v.stopped && w.timeout == v.timeout
                &&& (*final(s))@.closed == (*s)@.closed && (*final(s))@.has_err == (*s)@.has_err
            },
{
    assert forall|s: &mut ClientStreamInner<C, T, G>, out: Vec<T>| #[trigger]
        call_ensures(ClientStreamInner::<C, T, G>::time_reach, (s,), out) && batch_ok::<C, T, G>(
            (*s)@.timer.expiring(),
        ) implies {
        let v = (*s)@.timer;
        let w = (*final(s))@.timer;
        let late = v.delayed.len() >= v.timeout;
        let all = v.batches();
        &&& out@.len() == if late {
            all.last().dom().len()
        } else {
            0
        }
        &&& late ==> forall|seq: u64| #[trigger]
            all.last().contains_key(seq) ==> handed_on::<C, T, G>(
                all.last()[seq],
                out@,
                RpcIntErr::Timeout,
            )
        &&& w.sent == Map::<u64, ClientTaskItem<T, G>>::empty()
        &&& w.delayed == if late {
            all.drop_last()
        } else {
            all
        }
        &&& w.pending == v.pending && w.processed_seq == v.processed_seq
        &&& w.stopped == v.stopped && w.timeout == v.timeout
        &&& (*final(s))@.closed == (*s)@.closed && (*final(s))@.has_err == (*s)@.has_err
    } by {
        let v = (*s)@.timer;
        lemma_batch_handed_on::<C, T, G>(v.expiring(), out@, RpcIntErr::Timeout);
    }
}

/// A task counts as timed out only if its ID is lower than that of every task that timed out last:
/// a task that is registered late, but with no lower ID than one of those, can still be had.
pub proof fn lemma_lowest_expired<T, G>(v: TimerSpec<T, G>, w: TimerSpec<T, G>, seq: u64)
    requires
        v.second_later(w),
        v.delayed.len() >= v.timeout,
        v.batches().last().contains_key(seq),
    ensures
        w.min_delay_seq <= seq,
        v.batches().last().contains_key(w.min_delay_seq),
{
    assert(v.expiring() == v.batches().last());
}

/// Looking for a task whose ID is higher than that of any that was registered: it may still come,
/// so it is to be waited for, unless no more will.
pub proof fn lemma_task_to_come<T, G>(
    v: TimerSpec<T, G>,
    seq: u64,
    r: TakeTask<T, G>,
    next: TimerSpec<T, G>,
)
    requires
        v.taken(seq, r, next),
        seq > v.processed_seq,
        seq >= v.min_delay_seq,
    ensures
        r is Wait <==> !v.stopped,
        r is Gone <==> v.stopped,
        next == v,
{
}

/// Registering several tasks is registering one after another: all are counted off, and each is
/// held unless a later one has its ID.
pub proof fn lemma_registered_all<C, T: ClientTaskState<C>, G>(
    v: TimerSpec<T, G>,
    items: Seq<ClientTaskItem<T, G>>,
)
    requires
        items.len() <= v.pending,
    ensures
        ({
            let w = v.registered_all::<C>(items);
            &&& w.pending == v.pending - items.len()
            &&& w.delayed == v.delayed && w.min_delay_seq == v.min_delay_seq
            &&& items.len() > 0 ==> w.processed_seq == items.last().task->0.common().seq
            &&& forall|i: int|
                0 <= i < items.len() && (forall|j: int|
                    i < j < items.len() ==> (#[trigger] items[j]).task->0.common().seq
                        != items[i].task->0.common().seq) ==> w.sent.contains_key(
                    (#[trigger] items[i]).task->0.common().seq,
                ) && w.sent[items[i].task->0.common().seq] == items[i]
            &&& forall|k: u64| #[trigger]
                v.sent.contains_key(k) ==> w.sent.contains_key(k)
        }),
    decreases items.len(),
{
    if items.len() > 0 {
        let head = items.drop_last();
        lemma_registered_all::<C, T, G>(v, head);
        let u = v.registered_all::<C>(head);
        let w = v.registered_all::<C>(items);
        assert forall|i: int|
            0 <= i < items.len() && (forall|j: int|
                i < j < items.len() ==> (#[trigger] items[j]).task->0.common().seq
                    != items[i].task->0.common().seq) implies w.sent.contains_key(
            (#[trigger] items[i]).task->0.common().seq,
        ) && w.sent[items[i].task->0.common().seq] == items[i] by {
            if i < head.len() {
                assert(head[i] == items[i]);
                assert(items[items.len() - 1].task->0.common().seq
                    != items[i].task->0.common().seq);
                assert forall|j: int| i < j < head.len() implies (
                #[trigger] head[j]).task->0.common().seq != head[i].task->0.common().seq by {
                    assert(items[j] == head[j]);
                }
            }
        }
    }
}

} // verus!
