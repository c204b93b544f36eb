//! Client tasks.

use crate::channel::Handed;
use crate::client::caller::{ClientCaller, ClientCallerBlocking, PoolSender};
use crate::client::task::{
    ClientTask, ClientTaskAction, ClientTaskCommon, ClientTaskDecode, ClientTaskDone,
    ClientTaskEncode, ClientTaskGetResult,
};
use crate::client::variant::{
    blob_room, hand_back, store_resp, task_result, ClientTaskEnumVariant, ClientTaskVariant,
};
use crate::codec::Codec;
use crate::error::{decode_rpc_error, EncodedErr, RpcErrCodec, RpcError, RpcIntErr};
use crate::proto::RpcAction;
use std::sync::Arc;
use vstd::prelude::*;
use vstd::utf8::encode_utf8;

verus! {

/// A task keeps the ID that it was given last.
pub proof fn lemma_task_ids()
    ensures
        forall|c: &mut ClientTaskCommon, seq: u64| #[trigger]
            call_ensures(ClientTaskCommon::set_seq, (c, seq), ()) ==> (*final(c)).seq == seq,
        forall|c: ClientTaskCommon, r: u64| #[trigger]
            call_ensures(ClientTaskCommon::seq, (&c,), r) ==> r == c.seq,
        forall|c: ClientTaskCommon| #[trigger]
            call_ensures(<ClientTaskCommon as Default>::default, (), c) ==> c.seq == 0,
{
}

/// The result that a task has is the one that was set; a task without one failed with `Internal`.
pub proof fn lemma_task_result<E>(
    res: Option<Result<(), RpcError<E>>>,
    r: Result<(), &RpcError<E>>,
)
    requires
        call_ensures(task_result::<E>, (&res,), r),
    ensures
        r is Ok <==> res matches Some(Ok(_)),
        res matches Some(Err(e)) ==> *r->Err_0 == e,
        res is None ==> *r->Err_0 == RpcError::<E>::Rpc(RpcIntErr::Internal),
{
}

/// A response is stored exactly if it can be decoded, and what was there stays otherwise.
pub proof fn lemma_response_is_stored<C: Codec<P>, P>(codec: &C, buf: &[u8])
    ensures
        forall|resp: &mut Option<P>, r: Result<(), ()>| #[trigger]
            call_ensures(store_resp::<C, P>, (codec, buf, resp), r) ==> {
                &&& r is Ok <==> codec.decoded(buf@) is Some
                &&& r is Ok ==> *final(resp) == codec.decoded(buf@)
                &&& r is Err ==> *final(resp) == *resp
            },
{
}

/// Room for a blob has the size that is asked for, and what is written there is the blob.
pub proof fn lemma_blob_room(size: i32)
    ensures
        forall|blob: &mut Option<Vec<u8>>, r: &mut [u8]| #[trigger]
            call_ensures(blob_room, (blob, size), r) ==> r@.len() == size && (*final(blob)
                matches Some(b) && b@ == final(r)@),
{
}

/// A task goes back through the channel that is given, once, and nowhere without one.
pub proof fn lemma_hand_back<T, N: From<T> + Send + 'static>(
    task: T,
    noti: Option<crossfire::MTx<N>>,
    r: Option<Handed<N>>,
)
    requires
        call_ensures(hand_back::<T, N>, (task, noti), r),
    ensures
        r is Some <==> noti is Some,
        r matches Some(h) ==> h.channel() == noti->0 && call_ensures(
            <N as From<T>>::from,
            (task,),
            h.item(),
        ),
{
}

/// What is sent of a task is its action, its request as the codec encodes it, and its blob.
pub proof fn lemma_task_is_what_it_holds<C: Codec<Q>, N, Q, P, E>(
    codec: &C,
    t: ClientTaskVariant<N, Q, P, E>,
)
    ensures
        forall|r: RpcAction<'_>| #[trigger]
            call_ensures(
                <ClientTaskVariant<N, Q, P, E> as ClientTaskAction>::get_action,
                (&t,),
                r,
            ) ==> r@ == t.action@,
        forall|buf: &mut Vec<u8>, r: Result<usize, ()>| #[trigger]
            call_ensures(
                <ClientTaskVariant<N, Q, P, E> as ClientTaskEncode<C>>::encode_req,
                (&t, codec, buf),
                r,
            ) ==> match codec.encoded(t.req) {
                Some(m) => r is Ok && r->Ok_0 == m.len() && (*final(buf))@ == (*buf)@ + m,
                None => r is Err,
            },
        forall|r: Option<&[u8]>| #[trigger]
            call_ensures(
                <ClientTaskVariant<N, Q, P, E> as ClientTaskEncode<C>>::get_req_blob,
                (&t,),
                r,
            ) ==> (r is Some <==> t.req_blob is Some) && (r matches Some(s) ==> s@
                == t.req_blob->0@),
{
}

/// What a task takes of a response: the message, where it can be decoded, and nothing else
/// changes.
pub proof fn lemma_task_takes_response<C: Codec<Q> + Codec<P>, N, Q, P, E>(codec: &C, buf: &[u8])
    ensures
        forall|t: &mut ClientTaskVariant<N, Q, P, E>, r: Result<(), ()>| #[trigger]
            call_ensures(
                <ClientTaskVariant<N, Q, P, E> as ClientTaskDecode<C>>::decode_resp,
                (t, codec, buf),
                r,
            ) ==> {
                let got = Codec::<P>::decoded(codec, buf@);
                &&& r is Ok <==> got is Some
                &&& got is Some ==> (*final(t)).resp == got
                &&& got is None ==> (*final(t)).resp == (*t).resp
                &&& (*final(t)) == (ClientTaskVariant { resp: (*final(t)).resp, ..*t })
            },
{
}

/// How a task ends: with `Ok`, with an error of the framework as it is, or with what the client
/// makes of an error that came. Nothing but the result changes.
pub proof fn lemma_task_ends<
    C: Codec<Q>,
    N: From<ClientTaskVariant<N, Q, P, E>> + Send + 'static,
    Q,
    P,
    E: RpcErrCodec<C>,
>(codec: &C, e: RpcIntErr, x: EncodedErr)
    ensures
        forall|t: &mut ClientTaskVariant<N, Q, P, E>| #[trigger]
            call_ensures(
                <ClientTaskVariant<N, Q, P, E> as ClientTaskDone<C>>::set_ok,
                (t,),
                (),
            ) ==> *final(t) == (ClientTaskVariant { res: Some(Ok(())), ..*t }),
        forall|t: &mut ClientTaskVariant<N, Q, P, E>| #[trigger]
            call_ensures(
                <ClientTaskVariant<N, Q, P, E> as ClientTaskDone<C>>::set_rpc_error,
                (t, e),
                (),
            ) ==> *final(t) == (ClientTaskVariant { res: Some(Err(RpcError::Rpc(e))), ..*t }),
        forall|t: &mut ClientTaskVariant<N, Q, P, E>| #[trigger]
            call_ensures(
                <ClientTaskVariant<N, Q, P, E> as ClientTaskDone<C>>::set_custom_error,
                (t, codec, x),
                (),
            ) ==> {
                &&& *final(t) == (ClientTaskVariant { res: (*final(t)).res, ..*t })
                &&& (*final(t)).res matches Some(Err(y))
                &&& (x matches EncodedErr::Rpc(z) ==> y == RpcError::<E>::Rpc(z))
                &&& (x matches EncodedErr::Num(n) ==> y == match E::decoded_err(codec, Ok(n)) {
                    Some(u) => RpcError::User(u),
                    None => RpcError::Rpc(RpcIntErr::Decode),
                })
                &&& (x matches EncodedErr::Buf(b) ==> y == match E::decoded_err(codec, Err(b@)) {
                    Some(u) => RpcError::User(u),
                    None => RpcError::Rpc(RpcIntErr::Decode),
                })
                &&& (x matches EncodedErr::Static(s) ==> y == match E::decoded_err(
                    codec,
                    Err(encode_utf8(s@)),
                ) {
                    Some(u) => RpcError::User(u),
                    None => RpcError::Rpc(RpcIntErr::Decode),
                })
            },
{
}

/// A task that is done goes to its channel, as it is but without the channel; one without a
/// channel goes nowhere.
pub proof fn lemma_task_is_done<
    C: Codec<Q>,
    N: From<ClientTaskVariant<N, Q, P, E>> + Send + 'static,
    Q,
    P,
    E: RpcErrCodec<C>,
>(t: ClientTaskVariant<N, Q, P, E>, r: Option<Handed<N>>)
    requires
        call_ensures(<ClientTaskVariant<N, Q, P, E> as ClientTaskDone<C>>::done, (t,), r),
    ensures
        r is Some <==> t.noti is Some,
        r matches Some(h) ==> h.channel() == t.noti->0 && call_ensures(
            <N as From<ClientTaskVariant<N, Q, P, E>>>::from,
            (ClientTaskVariant { noti: None, ..t },),
            h.item(),
        ),
{
}

/// The ID of a task is the one that it was given.
pub proof fn lemma_task_seq<
    C: Codec<Q> + Codec<P>,
    N: From<ClientTaskVariant<N, Q, P, E>> + Send + 'static,
    Q,
    P,
    E: RpcErrCodec<C>,
>(seq: u64)
    ensures
        forall|t: &mut ClientTaskVariant<N, Q, P, E>| #[trigger]
            call_ensures(
                <ClientTaskVariant<N, Q, P, E> as ClientTask<C>>::set_seq,
                (t, seq),
                (),
            ) ==> (*final(t)).common.seq == seq && *final(t) == (ClientTaskVariant {
                common: (*final(t)).common,
                ..*t
            }),
        forall|t: ClientTaskVariant<N, Q, P, E>, r: u64| #[trigger]
            call_ensures(<ClientTaskVariant<N, Q, P, E> as ClientTask<C>>::seq, (&t,), r) ==> r
                == t.common.seq,
{
}

/// A task takes a blob exactly if it is meant to; the room for it has the size that is asked for,
/// and what is written there is the blob.
pub proof fn lemma_task_takes_blob<C: Codec<Q> + Codec<P>, N, Q, P, E>(size: i32)
    ensures
        forall|t: &mut ClientTaskVariant<N, Q, P, E>, r: Option<&mut [u8]>| #[trigger]
            call_ensures(
                <ClientTaskVariant<N, Q, P, E> as ClientTaskDecode<C>>::reserve_resp_blob,
                (t, size),
                r,
            ) ==> {
                &&& r is Some <==> (*t).with_resp_blob
                &&& (r matches Some(b) ==> b@.len() == size && ((*final(t)).resp_blob matches Some(
                    v,
                ) && v@ == final(b)@))
                &&& *final(t) == (ClientTaskVariant { resp_blob: (*final(t)).resp_blob, ..*t })
            },
{
}

/// The result of a task that came back is the one that was set.
pub proof fn lemma_result_of_task<C: Codec<Q>, N, Q, P, E>(
    t: ClientTaskVariant<N, Q, P, E>,
    r: Result<(), &RpcError<E>>,
)
    requires
        call_ensures(
            <ClientTaskVariant<N, Q, P, E> as ClientTaskGetResult<C>>::get_result,
            (&t,),
            r,
        ),
    ensures
        r is Ok <==> t.res matches Some(Ok(_)),
        t.res matches Some(Err(e)) ==> *r->Err_0 == e,
        t.res is None ==> *r->Err_0 == RpcError::<E>::Rpc(RpcIntErr::Internal),
{
}

/// A task inside an enum has the action that the enum gives it, and its own where it gives none.
/// As it is put there it has its own.
pub proof fn lemma_action_in_enum<T: ClientTaskAction>(t: T, e: ClientTaskEnumVariant<T>)
    ensures
        forall|r: RpcAction<'_>| #[trigger]
            call_ensures(
                <ClientTaskEnumVariant<T> as ClientTaskAction>::get_action,
                (&e,),
                r,
            ) ==> match e.action {
                Some(a) => r@ == a@,
                None => r@ == e.inner.action(),
            },
        forall|r: ClientTaskEnumVariant<T>| #[trigger]
            call_ensures(<ClientTaskEnumVariant<T> as From<T>>::from, (t,), r) ==> r.inner == t
                && r.action is None,
{
}

/// What a client makes of an error: one of the framework stays what it is, an error number or
/// string is the application's where it can read it, and `Decode` where it cannot.
pub proof fn lemma_error_is_read<C, E: RpcErrCodec<C>>(codec: &C, x: EncodedErr, y: RpcError<E>)
    requires
        call_ensures(decode_rpc_error::<C, E>, (codec, &x), y),
    ensures
        x matches EncodedErr::Rpc(z) ==> y == RpcError::<E>::Rpc(z),
        y matches RpcError::User(u) ==> match x {
            EncodedErr::Rpc(_) => false,
            EncodedErr::Num(n) => E::decoded_err(codec, Ok(n)) == Some(u),
            EncodedErr::Buf(b) => E::decoded_err(codec, Err(b@)) == Some(u),
            EncodedErr::Static(s) => E::decoded_err(codec, Err(encode_utf8(s@))) == Some(u),
        },
        y matches RpcError::Rpc(z) ==> x == EncodedErr::Rpc(z) || (z == RpcIntErr::Decode && match x {
            EncodedErr::Rpc(_) => false,
            EncodedErr::Num(n) => E::decoded_err(codec, Ok(n)) is None,
            EncodedErr::Buf(b) => E::decoded_err(codec, Err(b@)) is None,
            EncodedErr::Static(s) => E::decoded_err(codec, Err(encode_utf8(s@))) is None,
        }),
{
}

/// An error number that is not negative reads back as it was sent; a number that no such error
/// has, and a string, are none.
pub proof fn lemma_error_numbers<C>(codec: &C, n: i32)
    ensures
        forall|x: EncodedErr| #[trigger]
            call_ensures(<i32 as RpcErrCodec<C>>::encode, (&n, codec), x) && n >= 0 ==> x@
                == crate::error::ErrSpec::Num(n as u32),
        forall|m: u32, r: Result<i32, ()>| #[trigger]
            call_ensures(
                <i32 as RpcErrCodec<C>>::decode,
                (codec, Ok::<u32, &[u8]>(m)),
                r,
            ) ==> (r is Ok <==> m <= 0x7fff_ffff) && (r is Ok ==> r->Ok_0 == m),
        forall|b: &[u8], r: Result<i32, ()>| #[trigger]
            call_ensures(
                <i32 as RpcErrCodec<C>>::decode,
                (codec, Err::<u32, &[u8]>(b)),
                r,
            ) ==> r is Err,
{
}

/// The name of a framework error reads back as this error, and nothing else reads as one.
pub proof fn lemma_error_names(buf: &[u8], r: Option<RpcIntErr>)
    requires
        call_ensures(RpcIntErr::from_bytes, (buf,), r),
    ensures
        forall|e: RpcIntErr|
            (r == Some(e)) <==> #[trigger] e.name_bytes() == buf@,
{
    assert forall|e: RpcIntErr| (r == Some(e)) <==> #[trigger] e.name_bytes() == buf@ by {
        if e.name_bytes() == buf@ {
            match r {
                Some(x) => {
                    crate::error::lemma_names_are_distinct(x, e);
                },
                None => {
                    assert(crate::error::names_no_error(buf@));
                },
            }
        }
    }
}

/// The order of the errors: those of the connection come first.
pub proof fn lemma_order_of_errors(a: RpcIntErr, b: RpcIntErr)
    ensures
        a.rank() == b.rank() <==> a == b,
        a.rank() < RpcIntErr::Method.rank() <==> a is Unreachable || a is IO || a is Timeout,
{
}

/// A task for a pool goes into the channel of the pool.
pub proof fn lemma_pool_takes_task<T: Send + 'static>(p: PoolSender<T>, task: T, r: Handed<T>)
    requires
        call_ensures(
            <PoolSender<T> as ClientCallerBlocking<T>>::send_req_blocking,
            (&p, task),
            r,
        ),
    ensures
        r.channel() == p.0,
        r.item() == task,
{
}

/// Sending through a shared caller is sending through the caller.
pub proof fn lemma_shared_caller<T, K: ClientCaller<T> + Send + Sync>(
    k: Arc<K>,
    task: T,
    s: K::Sending,
)
    requires
        call_ensures(<Arc<K> as ClientCaller<T>>::send_req, (&k, task), s),
    ensures
        (*k).sending(task, s),
{
}

/// The same for one that blocks.
pub proof fn lemma_shared_blocking_caller<T, K: ClientCallerBlocking<T> + Send + Sync>(
    k: Arc<K>,
    task: T,
    r: K::Receipt,
)
    requires
        call_ensures(<Arc<K> as ClientCallerBlocking<T>>::send_req_blocking, (&k, task), r),
    ensures
        (*k).submitted(task, r),
{
}

} // verus!
