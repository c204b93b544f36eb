//! Reading responses.

use crate::client::task::{ClientTask, ClientTaskState};
use crate::error::{ErrSpec, RpcError, RpcIntErr};
use crate::laws::protocol::{answer_fits, blob_len, lemma_response_is_sent};
use crate::proto::RespHead;
use crate::server::task::RespSpec;
use crate::transport::response::{
    answered, can_skip, delivered, expected_content, is_head_known,
    lemma_error_string, lemma_response_round_trip, recv_body_from, response_bytes, skip_len,
    start_body, with_blob, AwaitBlob, AwaitError, AwaitMsg, BodyRead, Delivery, Finished,
    RespStep,
};
use vstd::prelude::*;

verus! {

/// Whether `b` is still the task that `a` is: with the same ID, request and way back.
pub open spec fn still_task<C, T: ClientTaskState<C>>(a: T, b: T) -> bool {
    &&& b.common() == a.common()
    &&& b.action() == a.action()
    &&& b.req_blob() == a.req_blob()
    &&& b.way() == a.way()
    &&& b.takes_blob() == a.takes_blob()
    &&& forall|codec: &C| #[trigger] a.req_msg(codec) == b.req_msg(codec)
}

/// Whether task `a` ended with the framework error `e`: it has that result, nothing of a response
/// came into it, and it goes to the error handler.
pub open spec fn ended_with<C, T: ClientTaskState<C>>(a: T, f: Finished<T>, e: RpcIntErr) -> bool {
    &&& still_task::<C, T>(a, f.task)
    &&& f.task.result() == Some(Err::<(), RpcError<T::Err>>(RpcError::Rpc(e)))
    &&& f.delivery == Delivery::ErrorHandle
}

/// What a task comes to once the response to it is read. An answer that it can read ends it with
/// success, and it goes back to whoever issued it with the message and the blob of the answer; an
/// empty message or blob leaves what was there. An answer that it cannot read ends it with
/// `Decode`. An error of the framework ends it with that error, and one of the application with
/// what the task makes of it. It takes exactly the bytes of the response, and stays the same
/// task.
pub proof fn lemma_response_reaches_task<C, T: ClientTask<C>>(
    codec: &C,
    seq: u64,
    parts: RespSpec,
    head: RespHead,
    task: T,
    data: &[u8],
    rest: Seq<u8>,
    r: BodyRead<T>,
)
    requires
        parts matches Err(ErrSpec::Bytes(s)) ==> s.len() <= i32::MAX,
        head == RespHead::parse(response_bytes(seq, parts).subrange(0, 20)),
        data@ == response_bytes(seq, parts).subrange(20, response_bytes(seq, parts).len() as int)
            + rest,
        call_ensures(recv_body_from::<C, T>, (codec, &head, task, data), r),
    ensures
        head.seq == seq,
        r.used == response_bytes(seq, parts).len() - 20,
        still_task::<C, T>(task, r.finished.task),
        ({
            let f = r.finished;
            let t = f.task;
            match parts {
                Ok((m, b)) => if !answer_fits(m, b) {
                    ended_with::<C, T>(task, f, RpcIntErr::Encode)
                } else if blob_len(b) > 0 && !task.takes_blob() {
                    ended_with::<C, T>(task, f, RpcIntErr::Decode)
                } else if m.len() > 0 && T::decoded_resp(codec, m) is None {
                    ended_with::<C, T>(task, f, RpcIntErr::Decode)
                } else {
                    &&& t.result() == Some(Ok::<(), RpcError<T::Err>>(()))
                    &&& f.delivery == Delivery::Done
                    &&& t.resp() == if m.len() > 0 {
                        T::decoded_resp(codec, m)
                    } else {
                        task.resp()
                    }
                    &&& t.resp_blob() == if blob_len(b) > 0 {
                        b
                    } else {
                        task.resp_blob()
                    }
                },
                Err(ErrSpec::Rpc(e)) => ended_with::<C, T>(task, f, e),
                Err(ErrSpec::Num(n)) => {
                    &&& t.result() == Some(
                        Err::<(), RpcError<T::Err>>(T::custom_error(codec, ErrSpec::Num(n))),
                    )
                    &&& f.delivery == Delivery::ErrorHandle
                },
                Err(ErrSpec::Bytes(s)) => {
                    &&& f.delivery == Delivery::ErrorHandle
                    &&& forall|e: RpcIntErr| #[trigger] e.name_bytes() == s ==> ended_with::<C, T>(
                        task,
                        f,
                        e,
                    )
                    &&& (forall|e: RpcIntErr| #[trigger] e.name_bytes() != s) ==> t.result() == Some(
                        Err::<(), RpcError<T::Err>>(T::custom_error(codec, ErrSpec::Bytes(s))),
                    )
                },
            }
        }),
{
    let all = response_bytes(seq, parts);
    lemma_response_is_sent(seq, parts);
    lemma_response_round_trip(seq, parts, rest);
    lemma_response_round_trip(seq, parts, Seq::empty());
    assert(all + Seq::<u8>::empty() =~= all);
    assert((all + rest).subrange(0, 20) =~= all.subrange(0, 20));
    let len = crate::transport::response::body_len(head) as int;
    assert(all.subrange(20 + len, all.len() as int).len() == 0);
    assert(all.len() == 20 + len);
    assert(data@.subrange(0, len) =~= (all + rest).subrange(20, 20 + len));
    assert(delivered::<C, T>(codec, task, expected_content(parts), r.finished));
    match parts {
        Ok((m, b)) => {
            if answer_fits(m, b) && blob_len(b) > 0 && task.takes_blob() {
                let bl = b->0;
                let t = choose|t: T| #[trigger]
                    with_blob::<C, T>(task, t, bl) && answered::<C, T>(codec, t, m, r.finished);
                assert(with_blob::<C, T>(task, t, bl));
            }
        },
        Err(ErrSpec::Bytes(s)) => {
            assert forall|e: RpcIntErr| #[trigger] e.name_bytes() == s implies ended_with::<C, T>(
                task,
                r.finished,
                e,
            ) by {
                lemma_error_string(e);
            }
        },
        Err(_) => {},
    }
}

/// A response that nobody waits for is skipped as a whole: as many bytes as follow its head.
pub proof fn lemma_response_is_skipped(seq: u64, parts: RespSpec, head: RespHead, r: i32)
    requires
        parts matches Err(ErrSpec::Bytes(s)) ==> s.len() <= i32::MAX,
        head == RespHead::parse(response_bytes(seq, parts).subrange(0, 20)),
        call_ensures(skip_len, (&head,), r),
    ensures
        r == response_bytes(seq, parts).len() - 20,
{
    let all = response_bytes(seq, parts);
    lemma_response_is_sent(seq, parts);
    lemma_response_round_trip(seq, parts, Seq::empty());
    assert(all + Seq::<u8>::empty() =~= all);
    let len = crate::transport::response::body_len(head) as int;
    assert(all.subrange(20 + len, all.len() as int).len() == 0);
}

/// Which bodies can be skipped, and which heads are known, whatever came: the length must be one
/// of 31 bits, and the flag one of three.
pub proof fn lemma_heads_of_responses(head: RespHead, skip: bool, known: bool)
    requires
        call_ensures(can_skip, (&head,), skip),
        call_ensures(is_head_known, (&head,), known),
    ensures
        skip <==> match head.flag {
            0 => head.blob_len >= 0 && head.msg_len + head.blob_len <= 0x7fff_ffff,
            2 => head.blob_len >= 0,
            _ => true,
        },
        known <==> head.flag == 0 || head.flag == 1 || (head.flag == 2 && head.blob_len >= 0),
{
}

/// A response that a server sends has a head that is known; and where its body is not too long, it
/// can be skipped.
pub proof fn lemma_sent_heads_are_known(
    seq: u64,
    parts: RespSpec,
    head: RespHead,
    skip: bool,
    known: bool,
)
    requires
        parts matches Err(ErrSpec::Bytes(s)) ==> s.len() <= i32::MAX,
        head == RespHead::parse(response_bytes(seq, parts).subrange(0, 20)),
        call_ensures(can_skip, (&head,), skip),
        call_ensures(is_head_known, (&head,), known),
    ensures
        known,
        response_bytes(seq, parts).len() - 20 <= 0x7fff_ffff ==> skip,
{
    let all = response_bytes(seq, parts);
    lemma_response_is_sent(seq, parts);
    lemma_response_round_trip(seq, parts, Seq::empty());
    assert(all + Seq::<u8>::empty() =~= all);
    let len = crate::transport::response::body_len(head) as int;
    assert(all.subrange(20 + len, all.len() as int).len() == 0);
    crate::laws::protocol::lemma_response_head_read(all.subrange(0, 20));
    crate::laws::protocol::lemma_number_shift(all, 16, 4, all.subrange(0, 20), 16);
    let f = RespHead::frame(seq, parts);
    crate::laws::protocol::lemma_number_shift(f, 16, 4, all, 16);
    assert(all[3] == f[3]);
}

/// A task whose response breaks off ends with `IO`, at whatever part of it.
pub proof fn lemma_broken_response<C, T: ClientTask<C>>(
    a: AwaitError<T>,
    b: AwaitMsg<T>,
    c: AwaitBlob<T>,
    fa: Finished<T>,
    fb: Finished<T>,
    fc: Finished<T>,
)
    requires
        call_ensures(AwaitError::<T>::failed::<C>, (a,), fa),
        call_ensures(AwaitMsg::<T>::failed::<C>, (b,), fb),
        call_ensures(AwaitBlob::<T>::failed::<C>, (c,), fc),
    ensures
        ended_with::<C, T>(a.task, fa, RpcIntErr::IO),
        ended_with::<C, T>(b.task, fb, RpcIntErr::IO),
        ended_with::<C, T>(c.task, fc, RpcIntErr::IO),
{
}

/// A task that takes no blob ends with `Decode`, and the whole blob is skipped.
pub proof fn lemma_refused_blob<C, T: ClientTask<C>>(w: AwaitBlob<T>, r: (Finished<T>, i32))
    requires
        call_ensures(AwaitBlob::<T>::refused::<C>, (w,), r),
    ensures
        ended_with::<C, T>(w.task, r.0, RpcIntErr::Decode),
        r.1 == w.head.blob_len,
{
}

/// What is read first for a task: an error string of the length in the head, a message of the
/// length in the head, or a blob; and what needs no more bytes ends the task.
pub proof fn lemma_first_read<C, T: ClientTask<C>>(
    codec: &C,
    head: RespHead,
    task: T,
    s: RespStep<T>,
)
    requires
        call_ensures(start_body::<C, T>, (codec, &head, task), s),
        head.flag <= 2,
    ensures
        s is ReadError <==> head.flag == 2,
        s is ReadMsg <==> head.flag == 0 && head.msg_len > 0,
        s is ReadBlob <==> head.flag == 0 && head.msg_len == 0 && head.blob_len > 0,
        s matches RespStep::ReadError(w) ==> w.task == task && w.len == head.blob_len,
        s matches RespStep::ReadMsg(w) ==> w.task == task && w.head == head,
        s matches RespStep::ReadBlob(w) ==> w.task == task && w.head == head && w.msg@.len() == 0,
        s matches RespStep::Finish(f) ==> still_task::<C, T>(task, f.task) && if head.flag == 1 {
            f.task.result() == Some(
                Err::<(), RpcError<T::Err>>(T::custom_error(codec, ErrSpec::Num(head.msg_len))),
            ) && f.delivery == Delivery::ErrorHandle
        } else {
            f.task.result() == Some(Ok::<(), RpcError<T::Err>>(())) && f.delivery == Delivery::Done
        },
{
}

/// How many bytes follow a head that is known: a message and a blob, an error string, or nothing.
/// A length below 0 stands for none.
pub open spec fn body_size(head: RespHead) -> int {
    let tail: int = if head.blob_len > 0 {
        head.blob_len as int
    } else {
        0
    };
    if head.flag == 0 {
        head.msg_len + tail
    } else if head.flag == 2 {
        tail
    } else {
        0
    }
}

/// What a task comes to by any response with a head that is known, whoever sent it: the flag says
/// whether it holds an answer, an error number or an error string, and each part is where the
/// lengths in the head put it.
pub proof fn lemma_any_response<C, T: ClientTask<C>>(
    codec: &C,
    head: RespHead,
    task: T,
    data: &[u8],
    r: BodyRead<T>,
)
    requires
        head.flag <= 2,
        head.flag == 2 ==> head.blob_len >= 0,
        data@.len() >= body_size(head),
        call_ensures(recv_body_from::<C, T>, (codec, &head, task, data), r),
    ensures
        r.used == body_size(head),
        still_task::<C, T>(task, r.finished.task),
        ({
            let f = r.finished;
            let t = f.task;
            let msg = data@.subrange(0, head.msg_len as int);
            let blob = data@.subrange(head.msg_len as int, body_size(head));
            let text = data@.subrange(0, body_size(head));
            if head.flag == 1 {
                &&& t.result() == Some(
                    Err::<(), RpcError<T::Err>>(
                        T::custom_error(codec, ErrSpec::Num(head.msg_len)),
                    ),
                )
                &&& f.delivery == Delivery::ErrorHandle
            } else if head.flag == 2 {
                &&& f.delivery == Delivery::ErrorHandle
                &&& forall|e: RpcIntErr| #[trigger] e.name_bytes() == text ==> ended_with::<C, T>(
                    task,
                    f,
                    e,
                )
                &&& (forall|e: RpcIntErr| #[trigger] e.name_bytes() != text) ==> t.result() == Some(
                    Err::<(), RpcError<T::Err>>(T::custom_error(codec, ErrSpec::Bytes(text))),
                )
            } else if head.blob_len > 0 && !task.takes_blob() {
                ended_with::<C, T>(task, f, RpcIntErr::Decode)
            } else if head.msg_len > 0 && T::decoded_resp(codec, msg) is None {
                ended_with::<C, T>(task, f, RpcIntErr::Decode)
            } else {
                &&& t.result() == Some(Ok::<(), RpcError<T::Err>>(()))
                &&& f.delivery == Delivery::Done
                &&& head.msg_len > 0 ==> t.resp() == T::decoded_resp(codec, msg)
                &&& head.msg_len == 0 ==> t.resp() == task.resp()
                &&& head.blob_len > 0 ==> t.resp_blob() == Some(blob)
                &&& head.blob_len <= 0 ==> t.resp_blob() == task.resp_blob()
            }
        }),
{
    let len = crate::transport::response::body_len(head) as int;
    assert(len == body_size(head));
    let body = data@.subrange(0, len);
    let f = r.finished;
    if head.flag == 0 {
        let m = head.msg_len as int;
        let msg = data@.subrange(0, m);
        let blob = data@.subrange(m, len);
        assert(body.subrange(0, m) =~= msg);
        assert(body.subrange(m, body.len() as int) =~= blob);
        if head.blob_len > 0 && task.takes_blob() {
            let t = choose|t: T| #[trigger]
                with_blob::<C, T>(task, t, blob) && answered::<C, T>(codec, t, msg, f);
            assert(with_blob::<C, T>(task, t, blob));
        }
    } else if head.flag == 2 {
        assert forall|e: RpcIntErr| #[trigger] e.name_bytes() == body implies ended_with::<C, T>(
            task,
            f,
            e,
        ) by {
            lemma_error_string(e);
        }
    }
}

/// Any response that can be skipped takes as many bytes as its head says.
pub proof fn lemma_any_response_is_skipped(head: RespHead, r: i32)
    requires
        call_ensures(skip_len, (&head,), r),
    ensures
        r == body_size(head),
{
}

/// A message has the length that the head says; and once it is there, the blob is to be read
/// where the head says that there is one, and else the task ends.
pub proof fn lemma_message_is_read<C, T: ClientTask<C>>(codec: &C, w: AwaitMsg<T>, data: Vec<u8>)
    ensures
        forall|n: usize| #[trigger]
            call_ensures(AwaitMsg::<T>::need, (&w,), n) ==> n == w.head.msg_len,
        forall|s: RespStep<T>| #[trigger]
            call_ensures(AwaitMsg::<T>::read::<C>, (w, codec, data), s) ==> {
                &&& s is ReadBlob <==> w.head.blob_len > 0
                &&& s is Finish <==> w.head.blob_len <= 0
                &&& (s matches RespStep::ReadBlob(b) ==> b.task == w.task && b.head == w.head
                    && b.msg@ == data@)
            },
        forall|b: AwaitBlob<T>, f: Finished<T>| #[trigger]
            call_ensures(AwaitBlob::<T>::read::<C>, (b, codec), f) ==> {
                let bad = b.msg@.len() > 0 && T::decoded_resp(codec, b.msg@) is None;
                &&& bad ==> ended_with::<C, T>(b.task, f, RpcIntErr::Decode)
                &&& !bad ==> f.task.result() == Some(Ok::<(), RpcError<T::Err>>(())) && f.delivery
                    == Delivery::Done && f.task.resp_blob() == b.task.resp_blob()
                &&& !bad && b.msg@.len() > 0 ==> f.task.resp() == T::decoded_resp(codec, b.msg@)
                &&& still_task::<C, T>(b.task, f.task)
            },
{
}

} // verus!
