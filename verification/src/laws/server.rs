//! What a server does with requests, and with their answers.

use crate::buffer::buffer_bytes;
use crate::channel::Handed;
use crate::codec::Codec;
use crate::error::{EncodedErr, ErrSpec, RpcErrCodec, RpcIntErr};
use crate::laws::protocol::number;
use crate::laws::request::lemma_request_from_buffer;
use crate::proto::{ActionSpec, ReqHead, RpcAction};
use crate::server::conn::{
    is_ping, is_ping_spec, ReaderAction, ReaderEvent, ReaderState, WriterAction, WriterEvent,
    WriterState,
};
use crate::server::dispatch::DispatchClosure;
use crate::server::listen::{
    close_start, close_waited, get_alive_conn, local_addr, AddrError, CloseStep,
};
use crate::server::noti::{RespItem, RespNoti};
use crate::server::task::{
    RpcSvrResp, ServerTaskAction, ServerTaskDecode, ServerTaskDone, ServerTaskEncode,
    ServerTaskVariant, ServerTaskVariantFull,
};
use crate::transport::request::{
    action_fits, blob_on_wire, lemma_request_round_trip, read_req_from, ReqBuf, ReqErrors,
    ReqOutcome, ReqPhase, ReqRead, ReqReader, RpcSvrReq,
};
use io_buffer::Buffer;
use vstd::prelude::*;

verus! {

/// A ping asks for action number 0 and has no message; and whatever does both is a ping. A request
/// for another number or for a name is none, and neither is one with a message.
pub proof fn lemma_is_ping(req: RpcSvrReq<'_>, r: bool)
    requires
        call_ensures(is_ping, (&req,), r),
    ensures
        r ==> req.action == RpcAction::Num(0) && req.msg@.len() == 0,
        req.action is Str ==> !r,
        (req.action matches RpcAction::Num(n) ==> (n != 0 ==> !r)),
        req.msg@.len() > 0 ==> !r,
        req.action == RpcAction::Num(0) && req.msg@.len() == 0 ==> r,
{
}

/// A request that a client sends is read as a ping only if it was one: with another action, or
/// with a message, it goes to the dispatcher, and the reader gives no answer of its own.
pub proof fn lemma_sent_request_is_dispatched(
    errs: ReqErrors,
    client_id: u64,
    seq: u64,
    action: ActionSpec,
    msg: Seq<u8>,
    blob: Option<Seq<u8>>,
    rest: Seq<u8>,
)
    requires
        action_fits(action),
        ReqHead::frame(client_id, seq, action, Some(msg), blob) is Some,
    ensures
        ({
            let sent = ReqHead::frame(client_id, seq, action, Some(msg), blob)->Some_0
                + blob_on_wire(blob);
            let as_ping = action == ActionSpec::Num(0) && msg.len() == 0;
            &&& ReqPhase::Head.run(errs, sent + rest, true) matches ReqOutcome::Done(req, left)
            &&& left == rest
            &&& req.seq == seq
            &&& is_ping_spec(req) <==> as_ping
            &&& forall|got: RpcSvrReq<'_>, ping: bool, s: &mut ReaderState, r: ReaderAction|
                #![trigger
                    call_ensures(is_ping, (&got,), ping),
                    call_ensures(ReaderState::step, (s, ReaderEvent::Request { seq, ping }), r)]
                got@ == req && call_ensures(is_ping, (&got,), ping) && call_ensures(
                    ReaderState::step,
                    (s, ReaderEvent::Request { seq, ping }),
                    r,
                ) ==> if as_ping {
                    r == (ReaderAction::Reply { seq, err: None }) && *final(s) is Replying
                } else {
                    r is Dispatch && *final(s) == (ReaderState::Dispatching { seq })
                }
        }),
{
    lemma_request_round_trip(errs, client_id, seq, action, msg, blob, rest);
}

/// Of what stands in a buffer, a ping is exactly a request whose head has 0 as the action and as
/// the length of the message.
pub proof fn lemma_ping_in_buffer(reader: ReqReader, data: &[u8], r: ReqRead)
    requires
        reader@ is Head,
        call_ensures(read_req_from, (reader, data), r),
    ensures
        r matches ReqRead::Done(req, _) ==> (is_ping_spec(req@) <==> number(data@, 4, 4) == 0
            && number(data@, 24, 4) == 0),
{
    lemma_request_from_buffer(reader, data, r);
    crate::laws::protocol::lemma_number4(data@, 4);
    crate::laws::protocol::lemma_number4(data@, 24);
}

/// The dispatcher gets the request that was read, whole; only the blob moves out.
pub proof fn lemma_request_is_lent()
    ensures
        forall|b: &mut ReqBuf, r: RpcSvrReq<'_>| #[trigger]
            call_ensures(ReqBuf::as_req, (b,), r) ==> {
                &&& r.seq == (*b).seq
                &&& r.action@ == (*b).action@
                &&& r.msg@ == (*b).msg@
                &&& r.blob == (*b).blob
                &&& (*final(b)).blob is None
                &&& (*final(b)).seq == (*b).seq
                &&& (*final(b)).action == (*b).action
                &&& (*final(b)).msg == (*b).msg
            },
{
}

/// What a reader does. A ping is answered with no error, any other request goes to the
/// dispatcher, and each under its own ID; one that the dispatcher refuses is answered with
/// `Decode` under the ID that it came with. After each of them the next request is read. A reader
/// stops where reading fails or an answer cannot be handed on, and only there.
pub proof fn lemma_reader_steps(event: ReaderEvent)
    ensures
        forall|s: &mut ReaderState, r: ReaderAction| #[trigger]
            call_ensures(ReaderState::step, (s, event), r) ==> {
                let next = *final(s);
                let done = event == (ReaderEvent::Dispatched { ok: true }) || event == (
                ReaderEvent::Replied { ok: true });
                let over = event is ReadFailed || event == (ReaderEvent::Replied { ok: false });
                &&& r is Read <==> done
                &&& r is Stop <==> over
                &&& next is Reading <==> r is Read
                &&& next is Stopped <==> r is Stop
                &&& next is Dispatching <==> r is Dispatch
                &&& next is Replying <==> r is Reply
                &&& match event {
                    ReaderEvent::Request { seq, ping } => {
                        &&& ping ==> r == (ReaderAction::Reply { seq, err: None })
                        &&& !ping ==> r is Dispatch && next == (ReaderState::Dispatching { seq })
                    },
                    ReaderEvent::Dispatched { ok } => {
                        &&& !ok ==> r is Reply && r->err == Some(RpcIntErr::Decode)
                        &&& !ok ==> (*s matches ReaderState::Dispatching { seq } ==> r->Reply_seq
                            == seq)
                    },
                    _ => true,
                }
            },
{
}

/// Whatever a reader waits for can be handed to it, and nothing happens to one that has stopped.
pub proof fn lemma_reader_can_step(s: &mut ReaderState, event: ReaderEvent)
    requires
        (*s) is Reading && (event is Request || event is ReadFailed) || (*s) is Dispatching && event
            is Dispatched || (*s) is Replying && event is Replied,
    ensures
        call_requires(ReaderState::step, (s, event)),
        !ReaderState::Stopped.fits(event),
{
}

/// What a writer does. What comes is written, whatever went before; after each it looks for more,
/// and flushes once there is none for now or will be none; after a flush it waits. It closes the
/// connection once nothing more will come while it waits, and stops where writing or flushing
/// fails, and only there.
pub proof fn lemma_writer_steps(event: WriterEvent)
    ensures
        forall|s: &mut WriterState, r: WriterAction| #[trigger]
            call_ensures(WriterState::step, (s, event), r) ==> {
                let next = *final(s);
                let bad = event == (WriterEvent::Written { ok: false }) || event == (
                WriterEvent::Flushed { ok: false });
                &&& r is Write <==> event is Item
                &&& r is Flush <==> event is Empty || (event is Disconnected && *s is Draining)
                &&& r is Close <==> event is Disconnected && !(*s is Draining)
                &&& r is TryRecv <==> event is Written && !bad
                &&& r is Recv <==> event is Flushed && !bad
                &&& r is Stop <==> bad
                &&& next is Writing <==> r is Write
                &&& next is Flushing <==> r is Flush
                &&& next is Draining <==> r is TryRecv
                &&& next is Waiting <==> r is Recv
                &&& next is Ended <==> r is Close || r is Stop
            },
{
}

/// Whatever a writer waits for can be handed to it, and nothing happens to one that has ended.
pub proof fn lemma_writer_can_step(s: &mut WriterState, event: WriterEvent)
    requires
        (*s) is Waiting && (event is Item || event is Disconnected) || (*s) is Draining && (event
            is Item || event is Empty || event is Disconnected) || (*s) is Writing && event
            is Written || (*s) is Flushing && event is Flushed,
    ensures
        call_requires(WriterState::step, (s, event)),
        !WriterState::Ended.fits(event),
{
}

/// A request is decoded exactly if its message can be, into a task with the ID, the action, the
/// message and the blob of the request, no result yet, and the way to the writer.
pub proof fn lemma_request_becomes_task<C: Codec<M>, T, M, E>(
    codec: &C,
    action: RpcAction<'_>,
    seq: u64,
    msg: &[u8],
    blob: Option<Buffer>,
    noti: RespNoti<T>,
    r: Result<ServerTaskVariant<T, M, E>, ()>,
)
    requires
        call_ensures(
            <ServerTaskVariant<T, M, E> as ServerTaskDecode<C, T>>::decode_req,
            (codec, action, seq, msg, blob, noti),
            r,
        ),
    ensures
        r is Ok <==> codec.decoded(msg@) is Some,
        r matches Ok(t) ==> {
            &&& t.seq == seq && t.action@ == action@
            &&& Some(t.msg) == codec.decoded(msg@)
            &&& t.blob == blob
            &&& t.res is None
            &&& t.noti == Some(noti)
        },
{
}

/// The same for a task with a request and a response side by side: it has no response yet.
pub proof fn lemma_request_becomes_full_task<C: Codec<R>, T, R, P, E>(
    codec: &C,
    action: RpcAction<'_>,
    seq: u64,
    msg: &[u8],
    blob: Option<Buffer>,
    noti: RespNoti<T>,
    r: Result<ServerTaskVariantFull<T, R, P, E>, ()>,
)
    requires
        call_ensures(
            <ServerTaskVariantFull<T, R, P, E> as ServerTaskDecode<C, T>>::decode_req,
            (codec, action, seq, msg, blob, noti),
            r,
        ),
    ensures
        r is Ok <==> codec.decoded(msg@) is Some,
        r matches Ok(t) ==> {
            &&& t.seq == seq && t.action@ == action@
            &&& Some(t.req) == codec.decoded(msg@)
            &&& t.req_blob == blob
            &&& t.resp is None && t.resp_blob is None
            &&& t.res is None
            &&& t.noti == Some(noti)
        },
{
}

/// A task that gets its result gives out its way to the writer, once, and keeps everything else.
pub proof fn lemma_task_gets_result<T: Send + 'static, M, E>(res: Result<(), E>)
    ensures
        forall|t: &mut ServerTaskVariant<T, M, E>, r: RespNoti<T>| #[trigger]
            call_ensures(
                <ServerTaskVariant<T, M, E> as ServerTaskDone<T, E>>::_set_result,
                (t, res),
                r,
            ) ==> {
                let a = *t;
                let b = *final(t);
                &&& a.noti == Some(r) && b.noti is None
                &&& b.res == Some(res)
                &&& b.seq == a.seq && b.action == a.action && b.msg == a.msg && b.blob == a.blob
            },
{
}

/// The same for a task with a request and a response side by side.
pub proof fn lemma_full_task_gets_result<T: Send + 'static, R, P, E>(res: Result<(), E>)
    ensures
        forall|t: &mut ServerTaskVariantFull<T, R, P, E>, r: RespNoti<T>| #[trigger]
            call_ensures(
                <ServerTaskVariantFull<T, R, P, E> as ServerTaskDone<T, E>>::_set_result,
                (t, res),
                r,
            ) ==> {
                let a = *t;
                let b = *final(t);
                &&& a.noti == Some(r) && b.noti is None
                &&& b.res == Some(res)
                &&& b.seq == a.seq && b.action == a.action && b.req == a.req && b.req_blob
                    == a.req_blob && b.resp == a.resp && b.resp_blob == a.resp_blob
            },
{
}

/// A finished task goes to the writer of the connection that it came from, with its result, and
/// without its way to the writer.
pub proof fn lemma_task_goes_to_writer<T: Send + 'static + From<ServerTaskVariant<T, M, E>>, M, E>(
    t: ServerTaskVariant<T, M, E>,
    res: Result<(), E>,
    r: Handed<RespItem<T>>,
)
    requires
        call_ensures(
            <ServerTaskVariant<T, M, E> as ServerTaskDone<T, E>>::set_result,
            (t, res),
            r,
        ),
    ensures
        t.noti matches Some(w) && r.channel() == w.channel(),
        r.item() matches Ok(x) && call_ensures(
            <T as From<ServerTaskVariant<T, M, E>>>::from,
            (ServerTaskVariant { res: Some(res), noti: None, ..t },),
            x,
        ),
{
}

/// What goes to the writer: a task as it is, or an answer of the framework under an ID.
pub proof fn lemma_writer_gets<T: Send + 'static>(noti: RespNoti<T>)
    ensures
        forall|task: T, r: Handed<RespItem<T>>| #[trigger]
            call_ensures(RespNoti::<T>::done, (noti, task), r) ==> r.channel() == noti.channel()
                && r.item() == Ok::<T, (u64, Option<RpcIntErr>)>(task),
        forall|seq: u64, err: Option<RpcIntErr>, r: Handed<RespItem<T>>| #[trigger]
            call_ensures(RespNoti::<T>::send_err, (&noti, seq, err), r) ==> r.channel()
                == noti.channel() && (r.item() matches Err(x) && x.0 == seq && x.1 == err),
{
}

/// The bytes of a blob, where there is one.
pub open spec fn same_blob(s: Option<&[u8]>, b: Option<Buffer>) -> bool {
    match b {
        Some(b) => s matches Some(s) && s@ == buffer_bytes(b),
        None => s is None,
    }
}

/// The answer of a task goes out under the ID of its request: where the result is `Ok`, its
/// message, behind what is in the buffer, and its blob, or `Encode` where the message has no
/// encoding; else the error, as its type encodes it, and nothing in the buffer.
pub proof fn lemma_task_is_answered<C: Codec<M>, T, M, E: RpcErrCodec<C>>(codec: &C)
    ensures
        forall|
            t: &mut ServerTaskVariant<T, M, E>,
            buf: &mut Vec<u8>,
            r: (u64, Result<(usize, Option<&[u8]>), EncodedErr>),
        | #[trigger]
            call_ensures(
                <ServerTaskVariant<T, M, E> as ServerTaskEncode<C>>::encode_resp,
                (t, codec, buf),
                r,
            ) ==> {
                let a = *t;
                &&& *final(t) == a
                &&& r.0 == a.seq
                &&& a.res == Some(Ok::<(), E>(())) ==> match codec.encoded(a.msg) {
                    Some(m) => {
                        &&& r.1 matches Ok(x)
                        &&& x.0 == m.len()
                        &&& same_blob(x.1, a.blob)
                        &&& (*final(buf))@ == (*buf)@ + m
                    },
                    None => r.1 matches Err(x) && x@ == ErrSpec::Rpc(RpcIntErr::Encode),
                }
                &&& (a.res matches Some(Err(e)) ==> (r.1 matches Err(x) && x@ == e.encoded_err(
                    codec,
                )) && (*final(buf))@ == (*buf)@)
            },
{
}

/// The same for a task with a request and a response side by side, which answers with an empty
/// message where it has no response.
pub proof fn lemma_full_task_is_answered<C: Codec<P>, T, R, P, E: RpcErrCodec<C>>(codec: &C)
    ensures
        forall|
            t: &mut ServerTaskVariantFull<T, R, P, E>,
            buf: &mut Vec<u8>,
            r: (u64, Result<(usize, Option<&[u8]>), EncodedErr>),
        | #[trigger]
            call_ensures(
                <ServerTaskVariantFull<T, R, P, E> as ServerTaskEncode<C>>::encode_resp,
                (t, codec, buf),
                r,
            ) ==> {
                let a = *t;
                &&& *final(t) == a
                &&& r.0 == a.seq
                &&& a.res == Some(Ok::<(), E>(())) ==> match a.resp {
                    Some(p) => match codec.encoded(p) {
                        Some(m) => {
                            &&& r.1 matches Ok(x)
                            &&& x.0 == m.len()
                            &&& same_blob(x.1, a.resp_blob)
                            &&& (*final(buf))@ == (*buf)@ + m
                        },
                        None => r.1 matches Err(x) && x@ == ErrSpec::Rpc(RpcIntErr::Encode),
                    },
                    None => {
                        &&& r.1 matches Ok(x)
                        &&& x.0 == 0
                        &&& same_blob(x.1, a.resp_blob)
                        &&& (*final(buf))@ == (*buf)@
                    },
                }
                &&& (a.res matches Some(Err(e)) ==> (r.1 matches Err(x) && x@ == e.encoded_err(
                    codec,
                )) && (*final(buf))@ == (*buf)@)
            },
{
    assert forall|
        t: &mut ServerTaskVariantFull<T, R, P, E>,
        buf: &mut Vec<u8>,
        r: (u64, Result<(usize, Option<&[u8]>), EncodedErr>),
    | #[trigger]
        call_ensures(
            <ServerTaskVariantFull<T, R, P, E> as ServerTaskEncode<C>>::encode_resp,
            (t, codec, buf),
            r,
        ) && (*t).res == Some(Ok::<(), E>(())) && (*t).resp is None implies (*final(buf))@
        == (*buf)@ by {
        assert((*buf)@ + Seq::<u8>::empty() =~= (*buf)@);
    }
}

/// An answer that is already encoded goes out as it is, under its ID.
pub proof fn lemma_encoded_answer<C>(codec: &C)
    ensures
        forall|
            t: &mut RpcSvrResp,
            buf: &mut Vec<u8>,
            r: (u64, Result<(usize, Option<&[u8]>), EncodedErr>),
        | #[trigger]
            call_ensures(<RpcSvrResp as ServerTaskEncode<C>>::encode_resp, (t, codec, buf), r) ==> {
                let a = *t;
                let msg = match a.msg {
                    Some(m) => m@,
                    None => Seq::<u8>::empty(),
                };
                &&& *final(t) == (RpcSvrResp { res: None, ..a })
                &&& r.0 == a.seq
                &&& (a.res matches Some(Ok(_)) ==> {
                    &&& r.1 matches Ok(x)
                    &&& x.0 == msg.len()
                    &&& same_blob(x.1, a.blob)
                    &&& (*final(buf))@ == (*buf)@ + msg
                })
                &&& (a.res matches Some(Err(e)) ==> (r.1 matches Err(x) && x@ == e@)
                    && (*final(buf))@ == (*buf)@)
            },
{
}

/// A task has a result exactly if one was set.
pub proof fn lemma_answered_tasks<C: Codec<M>, T, M, E: RpcErrCodec<C>>(
    t: ServerTaskVariant<T, M, E>,
    resp: RpcSvrResp,
)
    ensures
        forall|r: bool| #[trigger]
            call_ensures(
                <ServerTaskVariant<T, M, E> as ServerTaskEncode<C>>::is_answered,
                (&t,),
                r,
            ) ==> (r <==> t.res is Some),
        forall|r: bool| #[trigger]
            call_ensures(<RpcSvrResp as ServerTaskEncode<C>>::is_answered, (&resp,), r) ==> (r
                <==> resp.res is Some),
{
}

/// A request that can be decoded is handed to the function, as the task for it; one that cannot be
/// is refused.
pub proof fn lemma_request_is_dispatched<C, T: ServerTaskDecode<C, R>, R, F, H: Fn(T) -> F>(
    d: DispatchClosure<T, R, H>,
    codec: &C,
    req: RpcSvrReq<'_>,
    noti: RespNoti<R>,
    r: Result<F, ()>,
)
    requires
        call_ensures(DispatchClosure::<T, R, H>::dispatch_req::<C, F>, (&d, codec, req, noti), r),
    ensures
        !T::decodable(codec, req.action@, req.msg@) ==> r is Err,
        T::decodable(codec, req.action@, req.msg@) ==> r is Ok && exists|t: T| #[trigger]
            t.holds(codec, req.action@, req.seq, req.msg@, req.blob, noti) && call_ensures(
                d.handle(),
                (t,),
                r->Ok_0,
            ),
{
}

/// A server that is closing is closed as soon as no connection is left, or once it has waited for
/// too long; as long as neither holds it waits, and it waits at least once where a connection is
/// left.
pub proof fn lemma_server_closes()
    ensures
        forall|alive: usize, r: CloseStep| #[trigger]
            call_ensures(close_start, (alive,), r) ==> (r is Closed <==> alive == 0),
        forall|alive: usize, late: bool, r: CloseStep| #[trigger]
            call_ensures(close_waited, (alive, late), r) ==> (r is Closed <==> alive == 0 || late),
        forall|holders: usize, r: usize| #[trigger]
            call_ensures(get_alive_conn, (holders,), r) ==> r + 1 == holders,
{
}

/// A listener that has an address reports it, one on a path reports a dummy, and any other error
/// stays as it is.
pub proof fn lemma_reported_address<E>(found: Result<String, AddrError<E>>, r: Result<String, E>)
    requires
        call_ensures(local_addr::<E>, (found,), r),
    ensures
        found matches Ok(a) ==> r == Ok::<String, E>(a),
        found matches Err(AddrError::Other(e)) ==> r == Err::<String, E>(e),
        found matches Err(AddrError::NotAvailable) ==> r is Ok && r->Ok_0@ == "0.0.0.0:0"@,
{
}

/// A server task tells the action that it was asked for.
pub proof fn lemma_task_tells_action<T, M, R, P, E>(
    t: ServerTaskVariant<T, M, E>,
    f: ServerTaskVariantFull<T, R, P, E>,
)
    ensures
        forall|r: RpcAction<'_>| #[trigger]
            call_ensures(
                <ServerTaskVariant<T, M, E> as ServerTaskAction>::get_action,
                (&t,),
                r,
            ) ==> r@ == t.action@,
        forall|r: RpcAction<'_>| #[trigger]
            call_ensures(
                <ServerTaskVariantFull<T, R, P, E> as ServerTaskAction>::get_action,
                (&f,),
                r,
            ) ==> r@ == f.action@,
{
}

/// A task with a request and a response side by side has a result exactly if one was set, and
/// goes to the writer of the connection that it came from, with it.
pub proof fn lemma_full_task_goes_to_writer<
    C: Codec<P>,
    T: Send + 'static + From<ServerTaskVariantFull<T, R, P, E>>,
    R,
    P,
    E: RpcErrCodec<C>,
>(t: ServerTaskVariantFull<T, R, P, E>, res: Result<(), E>)
    ensures
        forall|r: bool| #[trigger]
            call_ensures(
                <ServerTaskVariantFull<T, R, P, E> as ServerTaskEncode<C>>::is_answered,
                (&t,),
                r,
            ) ==> (r <==> t.res is Some),
        forall|r: Handed<RespItem<T>>| #[trigger]
            call_ensures(
                <ServerTaskVariantFull<T, R, P, E> as ServerTaskDone<T, E>>::set_result,
                (t, res),
                r,
            ) ==> (t.noti matches Some(w) && r.channel() == w.channel()) && (r.item() matches Ok(x)
                && call_ensures(
                <T as From<ServerTaskVariantFull<T, R, P, E>>>::from,
                (ServerTaskVariantFull { res: Some(res), noti: None, ..t },),
                x,
            )),
{
}

/// A way to the writer leads to the channel that it was made for, and so does a copy of it.
pub proof fn lemma_way_to_writer<T: Send + 'static>(
    tx: crossfire::MTx<RespItem<T>>,
    noti: RespNoti<T>,
)
    ensures
        forall|r: RespNoti<T>| #[trigger]
            call_ensures(RespNoti::<T>::new, (tx,), r) ==> r.channel() == tx,
        forall|r: RespNoti<T>| #[trigger]
            call_ensures(<RespNoti<T> as Clone>::clone, (&noti,), r) ==> r == noti,
{
}

} // verus!
