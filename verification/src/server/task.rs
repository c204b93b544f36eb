//! What a server task is.
//!
//! A server task is decoded from a request, gets its result from the application, and is
//! encoded into a response. Two ready-made ones are here: [`ServerTaskVariant`] for a message
//! that the answer replaces, and [`ServerTaskVariantFull`] for a request and a response side by
//! side. An implementation of the traits in code that is not verified may leave the spec
//! functions out; nothing is known of its values then.

use crate::buffer::{blob_bytes, buffer_as_slice};
use crate::channel::Handed;
use crate::codec::Codec;
use crate::error::{EncodedErr, ErrSpec, RpcErrCodec, RpcIntErr};
use crate::proto::{ActionSpec, RpcAction, RpcActionOwned};
use crate::server::noti::{RespItem, RespNoti};
use crate::text::{decimal, push_decimal};
use io_buffer::Buffer;
use vstd::prelude::*;

verus! {

/// What a server answers: the encoded message and the blob, or an error.
pub type RespSpec = Result<(Seq<u8>, Option<Seq<u8>>), ErrSpec>;

/// The answer of a server task as it is sent.
pub trait ServerTaskEncode<C> {
    /// The ID of the request that is answered.
    open spec fn resp_seq(&self) -> u64 {
        arbitrary()
    }

    /// Whether the task has a result yet.
    open spec fn has_result(&self) -> bool {
        arbitrary()
    }

    /// The answer.
    open spec fn resp_parts(&self, codec: &C) -> RespSpec {
        arbitrary()
    }

    /// Whether the task has a result yet.
    fn is_answered(&self) -> (r: bool)
        ensures
            r == self.has_result(),
    ;

    /// Appends the encoded message to `buf`, and returns the ID of the request with the
    /// length of the message and the blob, or with the error. What a codec leaves in `buf` where
    /// it fails is up to the codec.
    fn encode_resp<'a>(&'a mut self, codec: &C, buf: &mut Vec<u8>) -> (r: (
        u64,
        Result<(usize, Option<&'a [u8]>), EncodedErr>,
    ))
        requires
            old(self).has_result(),
        ensures
            r.0 == old(self).resp_seq(),
            match old(self).resp_parts(codec) {
                Ok((m, b)) => {
                    &&& r.1 matches Ok((len, blob))
                    &&& len == m.len()
                    &&& final(buf)@ == old(buf)@ + m
                    &&& match b {
                        Some(b) => blob matches Some(s) && s@ == b,
                        None => blob is None,
                    }
                },
                Err(e) => r.1 matches Err(x) && x@ == e,
            },
    ;
}

/// How a request becomes a server task, which goes to the writer as an `R`.
pub trait ServerTaskDecode<C, R>: Sized {
    /// Whether this action and this message are such a request.
    open spec fn decodable(codec: &C, action: ActionSpec, msg: Seq<u8>) -> bool {
        arbitrary()
    }

    /// Whether this is the task for such a request, with this ID, message, blob and way to the
    /// writer.
    open spec fn holds(
        &self,
        codec: &C,
        action: ActionSpec,
        seq: u64,
        msg: Seq<u8>,
        blob: Option<Buffer>,
        noti: RespNoti<R>,
    ) -> bool {
        arbitrary()
    }

    fn decode_req(
        codec: &C,
        action: RpcAction<'_>,
        seq: u64,
        msg: &[u8],
        blob: Option<Buffer>,
        noti: RespNoti<R>,
    ) -> (r: Result<Self, ()>)
        ensures
            r is Ok <==> Self::decodable(codec, action@, msg@),
            r matches Ok(t) ==> t.holds(codec, action@, seq, msg@, blob, noti),
    ;
}

/// How a server task gets its result and goes to the writer.
pub trait ServerTaskDone<T: Send + 'static, E>: Sized {
    /// Whether the task has not gone to the writer yet.
    open spec fn unanswered(&self) -> bool {
        arbitrary()
    }

    /// The result.
    open spec fn result(&self) -> Option<Result<(), E>> {
        arbitrary()
    }

    /// The way to the writer.
    open spec fn way(&self) -> Option<RespNoti<T>> {
        arbitrary()
    }

    /// The task after it got the result `res`.
    open spec fn answered(&self, res: Result<(), E>) -> Self {
        arbitrary()
    }

    /// Sets the result, and gives out the way to the writer. For tasks that are part of
    /// another; users call `set_result`.
    fn _set_result(&mut self, res: Result<(), E>) -> (r: RespNoti<T>)
        requires
            old(self).unanswered(),
        ensures
            old(self).way() == Some(r),
            final(self).way() is None,
            final(self).result() == Some(res),
            *final(self) == old(self).answered(res),
    ;

    /// Sets the result, and hands the task to the writer.
    fn set_result(self, res: Result<(), E>) -> (r: Handed<RespItem<T>>) where T: From<Self>
        requires
            self.unanswered(),
        ensures
            self.way() matches Some(w) && r.channel() == w.channel(),
            r.item() matches Ok(t) && call_ensures(T::from, (self.answered(res),), t),
    {
        let mut task = self;
        let noti = task._set_result(res);
        let parent: T = T::from(task);
        noti.done(parent)
    }
}

/// The action that a server task was asked for.
pub trait ServerTaskAction {
    open spec fn action(&self) -> ActionSpec {
        arbitrary()
    }

    fn get_action<'a>(&'a self) -> (r: RpcAction<'a>)
        ensures
            r@ == self.action(),
    ;
}

/// A task as text: its ID, its action, its request, and its result where it has one. The texts
/// of the action, of the request and of the error are given.
pub fn describe_task(seq: u64, action: &str, req: &str, res: Option<Result<(), &str>>) -> (r: String)
    ensures
        r@ == "task seq="@ + decimal(seq as nat) + " action="@ + action@ + " "@ + req@
            + match res {
            Some(Ok(_)) => " ok"@,
            Some(Err(e)) => " err: "@ + e@,
            None => Seq::empty(),
        },
{
    let mut s: String = "task seq=".to_owned();
    push_decimal(&mut s, seq);
    s.append(" action=");
    s.append(action);
    s.append(" ");
    s.append(req);
    let ghost head = s@;
    match res {
        Some(Ok(_)) => {
            s.append(" ok");
        },
        Some(Err(e)) => {
            s.append(" err: ");
            s.append(e);
            assert(s@ =~= head + (" err: "@ + e@));
        },
        None => {
            assert(s@ =~= head + Seq::<char>::empty());
        },
    }
    s
}

/// The bytes of a blob, where there is one.
fn blob_slice<'a>(b: &'a Option<Buffer>) -> (r: Option<&'a [u8]>)
    ensures
        match blob_bytes(*b) {
            Some(x) => r matches Some(s) && s@ == x,
            None => r is None,
        },
{
    match b {
        Some(b) => Some(buffer_as_slice(b)),
        None => None,
    }
}

/// A server task with one message, which is the request first and the response in the end.
#[verifier::reject_recursive_types(T)]
pub struct ServerTaskVariant<T, M, E> {
    pub seq: u64,
    pub action: RpcActionOwned,
    pub msg: M,
    pub blob: Option<Buffer>,
    pub res: Option<Result<(), E>>,
    pub noti: Option<RespNoti<T>>,
}

impl<T: Send + 'static, M, E> ServerTaskDone<T, E> for ServerTaskVariant<T, M, E> {
    open spec fn unanswered(&self) -> bool {
        self.noti is Some
    }

    open spec fn result(&self) -> Option<Result<(), E>> {
        self.res
    }

    open spec fn way(&self) -> Option<RespNoti<T>> {
        self.noti
    }

    open spec fn answered(&self, res: Result<(), E>) -> Self {
        ServerTaskVariant { res: Some(res), noti: None, ..*self }
    }

    fn _set_result(&mut self, res: Result<(), E>) -> (r: RespNoti<T>) {
        self.res = Some(res);
        let r = self.noti.take().unwrap();
        assert(old(self).way() == old(self).noti);
        assert(self.way() == self.noti && self.result() == self.res);
        r
    }
}

impl<C: Codec<M>, T, M, E> ServerTaskDecode<C, T> for ServerTaskVariant<T, M, E> {
    open spec fn decodable(codec: &C, action: ActionSpec, msg: Seq<u8>) -> bool {
        codec.decoded(msg) is Some
    }

    open spec fn holds(
        &self,
        codec: &C,
        action: ActionSpec,
        seq: u64,
        msg: Seq<u8>,
        blob: Option<Buffer>,
        noti: RespNoti<T>,
    ) -> bool {
        &&& self.seq == seq
        &&& self.action@ == action
        &&& codec.decoded(msg) == Some(self.msg)
        &&& self.blob == blob
        &&& self.res is None
        &&& self.noti == Some(noti)
    }

    fn decode_req(
        codec: &C,
        action: RpcAction<'_>,
        seq: u64,
        msg: &[u8],
        blob: Option<Buffer>,
        noti: RespNoti<T>,
    ) -> (r: Result<Self, ()>) {
        match codec.decode(msg) {
            Ok(req) => Ok(
                ServerTaskVariant {
                    seq,
                    action: action.to_owned_action(),
                    msg: req,
                    blob,
                    res: None,
                    noti: Some(noti),
                },
            ),
            Err(_) => Err(()),
        }
    }
}

impl<T, M, E> ServerTaskAction for ServerTaskVariant<T, M, E> {
    open spec fn action(&self) -> ActionSpec {
        self.action@
    }

    fn get_action<'a>(&'a self) -> (r: RpcAction<'a>) {
        self.action.to_action()
    }
}

impl<C: Codec<M>, T, M, E: RpcErrCodec<C>> ServerTaskEncode<C> for ServerTaskVariant<T, M, E> {
    open spec fn resp_seq(&self) -> u64 {
        self.seq
    }

    open spec fn has_result(&self) -> bool {
        self.res is Some
    }

    open spec fn resp_parts(&self, codec: &C) -> RespSpec {
        match self.res->0 {
            Ok(_) => match codec.encoded(self.msg) {
                Some(m) => Ok((m, blob_bytes(self.blob))),
                None => Err(ErrSpec::Rpc(RpcIntErr::Encode)),
            },
            Err(e) => Err(e.encoded_err(codec)),
        }
    }

    fn is_answered(&self) -> (r: bool) {
        self.res.is_some()
    }

    fn encode_resp<'a>(&'a mut self, codec: &C, buf: &mut Vec<u8>) -> (r: (
        u64,
        Result<(usize, Option<&'a [u8]>), EncodedErr>,
    ))
        ensures
            *final(self) == *old(self),
            old(self).res matches Some(Err(_)) ==> final(buf)@ == old(buf)@,
    {
        match self.res.as_ref().unwrap() {
            Ok(_) => match codec.encode_into(&self.msg, buf) {
                Err(_) => (self.seq, Err(EncodedErr::Rpc(RpcIntErr::Encode))),
                Ok(msg_len) => (self.seq, Ok((msg_len, blob_slice(&self.blob)))),
            },
            Err(e) => (self.seq, Err(e.encode(codec))),
        }
    }
}

/// A server task with a request and a response side by side.
#[verifier::reject_recursive_types(T)]
pub struct ServerTaskVariantFull<T, R, P, E> {
    pub seq: u64,
    pub action: RpcActionOwned,
    pub req: R,
    pub req_blob: Option<Buffer>,
    pub resp: Option<P>,
    pub resp_blob: Option<Buffer>,
    pub res: Option<Result<(), E>>,
    pub noti: Option<RespNoti<T>>,
}

impl<T: Send + 'static, R, P, E> ServerTaskDone<T, E> for ServerTaskVariantFull<T, R, P, E> {
    open spec fn unanswered(&self) -> bool {
        self.noti is Some
    }

    open spec fn result(&self) -> Option<Result<(), E>> {
        self.res
    }

    open spec fn way(&self) -> Option<RespNoti<T>> {
        self.noti
    }

    open spec fn answered(&self, res: Result<(), E>) -> Self {
        ServerTaskVariantFull { res: Some(res), noti: None, ..*self }
    }

    fn _set_result(&mut self, res: Result<(), E>) -> (r: RespNoti<T>) {
        self.res = Some(res);
        let r = self.noti.take().unwrap();
        assert(old(self).way() == old(self).noti);
        assert(self.way() == self.noti && self.result() == self.res);
        r
    }
}

impl<C: Codec<R>, T, R, P, E> ServerTaskDecode<C, T> for ServerTaskVariantFull<T, R, P, E> {
    open spec fn decodable(codec: &C, action: ActionSpec, msg: Seq<u8>) -> bool {
        codec.decoded(msg) is Some
    }

    open spec fn holds(
        &self,
        codec: &C,
        action: ActionSpec,
        seq: u64,
        msg: Seq<u8>,
        blob: Option<Buffer>,
        noti: RespNoti<T>,
    ) -> bool {
        &&& self.seq == seq
        &&& self.action@ == action
        &&& codec.decoded(msg) == Some(self.req)
        &&& self.req_blob == blob
        &&& self.resp is None
        &&& self.resp_blob is None
        &&& self.res is None
        &&& self.noti == Some(noti)
    }

    fn decode_req(
        codec: &C,
        action: RpcAction<'_>,
        seq: u64,
        msg: &[u8],
        blob: Option<Buffer>,
        noti: RespNoti<T>,
    ) -> (r: Result<Self, ()>) {
        match codec.decode(msg) {
            Ok(req) => Ok(
                ServerTaskVariantFull {
                    seq,
                    action: action.to_owned_action(),
                    req,
                    req_blob: blob,
                    resp: None,
                    resp_blob: None,
                    res: None,
                    noti: Some(noti),
                },
            ),
            Err(_) => Err(()),
        }
    }
}

impl<T, R, P, E> ServerTaskAction for ServerTaskVariantFull<T, R, P, E> {
    open spec fn action(&self) -> ActionSpec {
        self.action@
    }

    fn get_action<'a>(&'a self) -> (r: RpcAction<'a>) {
        self.action.to_action()
    }
}

impl<C: Codec<P>, T, R, P, E: RpcErrCodec<C>> ServerTaskEncode<C> for ServerTaskVariantFull<
    T,
    R,
    P,
    E,
> {
    open spec fn resp_seq(&self) -> u64 {
        self.seq
    }

    open spec fn has_result(&self) -> bool {
        self.res is Some
    }

    /// A task without a response answers with an empty message.
    open spec fn resp_parts(&self, codec: &C) -> RespSpec {
        match self.res->0 {
            Ok(_) => match self.resp {
                Some(p) => match codec.encoded(p) {
                    Some(m) => Ok((m, blob_bytes(self.resp_blob))),
                    None => Err(ErrSpec::Rpc(RpcIntErr::Encode)),
                },
                None => Ok((Seq::empty(), blob_bytes(self.resp_blob))),
            },
            Err(e) => Err(e.encoded_err(codec)),
        }
    }

    fn is_answered(&self) -> (r: bool) {
        self.res.is_some()
    }

    fn encode_resp<'a>(&'a mut self, codec: &C, buf: &mut Vec<u8>) -> (r: (
        u64,
        Result<(usize, Option<&'a [u8]>), EncodedErr>,
    ))
        ensures
            *final(self) == *old(self),
            old(self).res matches Some(Err(_)) ==> final(buf)@ == old(buf)@,
    {
        match self.res.as_ref().unwrap() {
            Ok(_) => match self.resp.as_ref() {
                Some(resp) => match codec.encode_into(resp, buf) {
                    Err(_) => (self.seq, Err(EncodedErr::Rpc(RpcIntErr::Encode))),
                    Ok(msg_len) => (self.seq, Ok((msg_len, blob_slice(&self.resp_blob)))),
                },
                None => {
                    assert(buf@ =~= old(buf)@ + Seq::<u8>::empty());
                    (self.seq, Ok((0, blob_slice(&self.resp_blob))))
                },
            },
            Err(e) => (self.seq, Err(e.encode(codec))),
        }
    }
}

/// An answer that is already encoded.
#[derive(Debug)]
pub struct RpcSvrResp {
    pub seq: u64,
    pub msg: Option<Vec<u8>>,
    pub blob: Option<Buffer>,
    pub res: Option<Result<(), EncodedErr>>,
}

impl<C> ServerTaskEncode<C> for RpcSvrResp {
    open spec fn resp_seq(&self) -> u64 {
        self.seq
    }

    open spec fn has_result(&self) -> bool {
        self.res is Some
    }

    open spec fn resp_parts(&self, codec: &C) -> RespSpec {
        match self.res->0 {
            Ok(_) => Ok(
                (
                    match self.msg {
                        Some(m) => m@,
                        None => Seq::empty(),
                    },
                    blob_bytes(self.blob),
                ),
            ),
            Err(e) => Err(e@),
        }
    }

    fn is_answered(&self) -> (r: bool) {
        self.res.is_some()
    }

    fn encode_resp<'a>(&'a mut self, codec: &C, buf: &mut Vec<u8>) -> (r: (
        u64,
        Result<(usize, Option<&'a [u8]>), EncodedErr>,
    ))
        ensures
            *final(self) == (RpcSvrResp { res: None, ..*old(self) }),
            old(self).res matches Some(Err(_)) ==> final(buf)@ == old(buf)@,
    {
        match self.res.take().unwrap() {
            Ok(_) => {
                let len: usize = match &self.msg {
                    Some(msg) => {
                        buf.extend_from_slice(msg.as_slice());
                        assert(buf@ =~= old(buf)@ + msg@);
                        msg.len()
                    },
                    None => {
                        assert(buf@ =~= old(buf)@ + Seq::<u8>::empty());
                        0
                    },
                };
                (self.seq, Ok((len, blob_slice(&self.blob))))
            },
            Err(e) => (self.seq, Err(e)),
        }
    }
}

} // verus!
