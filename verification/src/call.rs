//! What a call comes to, from one end to the other.

use crate::buffer::blob_bytes;
use crate::channel::Handed;
use crate::client::stream::with_seq;
use crate::client::task::{
    ClientTaskDecode, ClientTaskDone, ClientTaskEncode, ClientTaskState,
};
use crate::client::variant::ClientTaskVariant;
use crate::codec::{codec_inverts, Codec};
use crate::error::{decoded_rpc_error, ErrSpec, RpcErrCodec, RpcError, RpcIntErr};
use crate::proto::{ReqHead, RespHead, RPC_RESP_HEADER_LEN};
use crate::server::task::{RespSpec, ServerTaskEncode, ServerTaskVariantFull};
use crate::transport::request::{
    action_fits, blob_on_wire, blob_received, lemma_request_round_trip, ReqErrors, ReqOutcome,
    ReqPhase,
};
use crate::transport::response::{
    answered, body_len, content, delivered, error_string, expected_content, failed_with,
    lemma_response_round_trip, response_bytes, with_blob, Delivery, Finished, RespContent,
};
use vstd::prelude::*;

verus! {

/// The bytes that a client writes for a task, if it can write any.
pub open spec fn request_bytes<C, T: ClientTaskState<C>>(
    codec: &C,
    client_id: u64,
    task: T,
) -> Option<Seq<u8>> {
    match ReqHead::frame(
        client_id,
        task.common().seq,
        task.action(),
        task.req_msg(codec),
        task.req_blob(),
    ) {
        Some(f) => Some(f + blob_on_wire(task.req_blob())),
        None => None,
    }
}

/// A request arrives: the server reads the ID, the action, the message and the blob of the task
/// that the client sent, where the codec reads back what it writes.
pub proof fn lemma_request_arrives<C: Codec<Q>, N, Q, P, E>(
    codec: &C,
    errs: ReqErrors,
    client_id: u64,
    task: ClientTaskVariant<N, Q, P, E>,
    rest: Seq<u8>,
)
    requires
        codec_inverts::<Q, C>(codec),
        action_fits(task.action@),
        request_bytes::<C, ClientTaskVariant<N, Q, P, E>>(codec, client_id, task) is Some,
    ensures
        ({
            let sent = request_bytes::<C, ClientTaskVariant<N, Q, P, E>>(
                codec,
                client_id,
                task,
            )->Some_0;
            &&& ReqPhase::Head.run(errs, sent + rest, true) matches ReqOutcome::Done(req, left)
            &&& left == rest
            &&& req.seq == task.common.seq
            &&& req.action == task.action@
            &&& codec.decoded(req.msg) == Some(task.req)
            &&& req.blob == blob_received(match task.req_blob {
                Some(b) => Some(b@),
                None => None,
            })
        }),
{
    let blob = match task.req_blob {
        Some(b) => Some(b@),
        None => None,
    };
    let msg = codec.encoded(task.req)->Some_0;
    assert(ClientTaskEncode::<C>::req_blob(&task) == blob);
    lemma_request_round_trip(
        errs,
        client_id,
        task.common.seq,
        task.action@,
        msg,
        blob,
        rest,
    );
}

/// Whether a task of the client has become `f` once the response to the request with this ID
/// was read, where the server answered it with `parts`.
pub open spec fn received<C, T: ClientTaskDecode<C> + ClientTaskDone<C>>(
    codec: &C,
    seq: u64,
    parts: RespSpec,
    task: T,
    f: Finished<T>,
) -> bool {
    let data = response_bytes(seq, parts);
    let head = RespHead::parse(data.subrange(0, RPC_RESP_HEADER_LEN as int));
    let body = data.subrange(RPC_RESP_HEADER_LEN as int, RPC_RESP_HEADER_LEN + body_len(head));
    delivered::<C, T>(codec, task, content(head, body), f)
}

proof fn lemma_received<C, T: ClientTaskDecode<C> + ClientTaskDone<C>>(
    codec: &C,
    seq: u64,
    parts: RespSpec,
    task: T,
    f: Finished<T>,
)
    requires
        parts matches Err(ErrSpec::Bytes(s)) ==> s.len() <= i32::MAX,
        received::<C, T>(codec, seq, parts, task, f),
    ensures
        delivered::<C, T>(codec, task, expected_content(parts), f),
{
    let none = Seq::<u8>::empty();
    lemma_response_round_trip(seq, parts, none);
    let data = response_bytes(seq, parts);
    assert(data + none =~= data);
}

/// The message that a server sends for its response: none where it has no response.
pub open spec fn response_msg<C: Codec<P>, P>(codec: &C, resp: Option<P>) -> Option<Seq<u8>> {
    match resp {
        Some(p) => codec.encoded(p),
        None => Some(Seq::empty()),
    }
}

/// A call succeeds: where the server set the result `Ok`, the task of the client ends with the
/// result `Ok`, the response and the blob of the server, and goes back to whoever issued it. A
/// response without a single byte leaves that of the task as it is, and so does an empty blob.
/// Where the client takes no blob and there is one, the call fails.
pub proof fn lemma_call_succeeds<
    C: Codec<Q> + Codec<P>,
    N: From<ClientTaskVariant<N, Q, P, E>> + Send + 'static,
    Q,
    P,
    E: RpcErrCodec<C>,
    T,
    R,
    S: RpcErrCodec<C>,
>(
    codec: &C,
    server: ServerTaskVariantFull<T, R, P, S>,
    task: ClientTaskVariant<N, Q, P, E>,
    f: Finished<ClientTaskVariant<N, Q, P, E>>,
)
    requires
        codec_inverts::<P, C>(codec),
        server.res == Some(Ok::<(), S>(())),
        response_msg::<C, P>(codec, server.resp) matches Some(m) && RespHead::fits(
            m,
            blob_bytes(server.resp_blob),
        ),
        received::<C, ClientTaskVariant<N, Q, P, E>>(
            codec,
            server.seq,
            ServerTaskEncode::<C>::resp_parts(&server, codec),
            task,
            f,
        ),
    ensures
        ({
            let blob = blob_received(blob_bytes(server.resp_blob));
            if blob is Some && !task.with_resp_blob {
                &&& f.task.res == Some(Err::<(), RpcError<E>>(RpcError::Rpc(RpcIntErr::Decode)))
                &&& f.delivery == Delivery::ErrorHandle
            } else {
                &&& f.task.res == Some(Ok::<(), RpcError<E>>(()))
                &&& f.task.resp == if response_msg::<C, P>(codec, server.resp)->Some_0.len() > 0 {
                    server.resp
                } else {
                    task.resp
                }
                &&& f.delivery == Delivery::Done
                &&& match blob {
                    Some(b) => f.task.resp_blob matches Some(v) && v@ == b,
                    None => (f.task.resp_blob matches Some(v) ==> task.resp_blob matches Some(w)
                        && v@ == w@) && (f.task.resp_blob is None ==> task.resp_blob is None),
                }
            }
        }),
{
    let parts = ServerTaskEncode::<C>::resp_parts(&server, codec);
    lemma_received::<C, ClientTaskVariant<N, Q, P, E>>(codec, server.seq, parts, task, f);
    let m = response_msg::<C, P>(codec, server.resp)->Some_0;
    let blob = blob_received(blob_bytes(server.resp_blob));
    if let Some(p) = server.resp {
        assert(Codec::<P>::decoded(codec, m) == Some(p));
    }
    assert(ClientTaskState::<C>::takes_blob(&task) == task.with_resp_blob);
    assert(ClientTaskState::<C>::result(&f.task) == f.task.res);
    assert(ClientTaskState::<C>::resp(&f.task) == f.task.resp);
    if blob is None {
        assert(answered::<C, ClientTaskVariant<N, Q, P, E>>(codec, task, m, f));
        assert(ClientTaskState::<C>::resp_blob(&f.task) == ClientTaskState::<C>::resp_blob(&task));
    } else if task.with_resp_blob {
        let b = blob->Some_0;
        let t = choose|t: ClientTaskVariant<N, Q, P, E>| #[trigger]
            with_blob::<C, ClientTaskVariant<N, Q, P, E>>(task, t, b) && answered::<
                C,
                ClientTaskVariant<N, Q, P, E>,
            >(codec, t, m, f);
        assert(ClientTaskState::<C>::resp_blob(&t) == Some(b));
        assert(ClientTaskState::<C>::resp_blob(&f.task) == Some(b));
    } else {
        assert(failed_with::<C, ClientTaskVariant<N, Q, P, E>>(task, f, RpcIntErr::Decode));
    }
}

/// A call fails with the error that the server gave: one of the framework arrives as it is, and
/// one of the application as what the client makes of it. An error string of the application
/// must not be the name of a framework error.
pub proof fn lemma_call_fails<
    C: Codec<Q> + Codec<P>,
    N: From<ClientTaskVariant<N, Q, P, E>> + Send + 'static,
    Q,
    P,
    E: RpcErrCodec<C>,
>(
    codec: &C,
    seq: u64,
    e: ErrSpec,
    task: ClientTaskVariant<N, Q, P, E>,
    f: Finished<ClientTaskVariant<N, Q, P, E>>,
)
    requires
        e matches ErrSpec::Bytes(s) ==> s.len() <= i32::MAX && forall|x: RpcIntErr| #[trigger]
            x.name_bytes() != s,
        received::<C, ClientTaskVariant<N, Q, P, E>>(codec, seq, Err(e), task, f),
    ensures
        f.task.res == Some(Err::<(), RpcError<E>>(decoded_rpc_error::<C, E>(codec, e))),
        f.delivery == Delivery::ErrorHandle,
{
    lemma_received::<C, ClientTaskVariant<N, Q, P, E>>(codec, seq, Err(e), task, f);
    assert(ClientTaskState::<C>::result(&f.task) == f.task.res);
    match e {
        ErrSpec::Rpc(x) => {
            assert(failed_with::<C, ClientTaskVariant<N, Q, P, E>>(task, f, x));
        },
        ErrSpec::Num(_) => {},
        ErrSpec::Bytes(s) => {
            assert(error_string(s) == e);
        },
    }
}

/// A task comes back the way that it was issued with: whatever the response to it holds, the task
/// that is finished has the ID that it got when it was sent, and the way back of the task that was
/// to be sent.
pub proof fn lemma_task_keeps_its_way<C, T: ClientTaskDecode<C> + ClientTaskDone<C>>(
    codec: &C,
    task: T,
    seq: u64,
    sent: T,
    content: RespContent,
    f: Finished<T>,
)
    requires
        with_seq::<C, T>(task, sent, seq),
        delivered::<C, T>(codec, sent, content, f),
    ensures
        f.task.way() == task.way(),
        f.task.common().seq == seq,
{
}

/// A finished task goes to the channel that it was issued with, with its result and without the
/// channel. A task with no channel goes nowhere.
pub proof fn lemma_task_reaches_its_channel<
    C: Codec<Q> + Codec<P>,
    N: From<ClientTaskVariant<N, Q, P, E>> + Send + 'static,
    Q,
    P,
    E: RpcErrCodec<C>,
>(
    codec: &C,
    task: ClientTaskVariant<N, Q, P, E>,
    seq: u64,
    sent: ClientTaskVariant<N, Q, P, E>,
    content: RespContent,
    f: Finished<ClientTaskVariant<N, Q, P, E>>,
    receipt: Option<Handed<N>>,
)
    requires
        with_seq::<C, ClientTaskVariant<N, Q, P, E>>(task, sent, seq),
        delivered::<C, ClientTaskVariant<N, Q, P, E>>(codec, sent, content, f),
        ClientTaskDone::<C>::delivered(&f.task, receipt),
    ensures
        f.task.noti == task.noti,
        match task.noti {
            Some(tx) => receipt matches Some(h) && h.channel() == tx && call_ensures(
                N::from,
                (ClientTaskVariant { noti: None, ..f.task },),
                h.item(),
            ),
            None => receipt is None,
        },
{
    lemma_task_keeps_its_way::<C, ClientTaskVariant<N, Q, P, E>>(
        codec,
        task,
        seq,
        sent,
        content,
        f,
    );
    assert(ClientTaskState::<C>::way(&f.task) == f.task.noti);
    assert(ClientTaskState::<C>::way(&task) == task.noti);
}

} // verus!
