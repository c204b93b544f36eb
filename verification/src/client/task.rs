//! What a client task is.
//!
//! A task carries a request to the server and the response back to whoever issued it. The
//! traits here say what the framework needs of one. Each states in spec functions what a
//! value means, and its methods are tied to those. An implementation in code that is not
//! verified may leave the spec functions out; nothing is known of its values then.

use crate::error::{EncodedErr, ErrSpec, RpcError, RpcIntErr};
use crate::proto::{ActionSpec, RpcAction};
use vstd::prelude::*;

verus! {

/// What every client task has in common.
#[derive(Debug, Clone, Copy)]
pub struct ClientTaskCommon {
    /// An ID that is unique inside a connection.
    pub seq: u64,
}

impl ClientTaskCommon {
    pub fn seq(&self) -> (r: u64)
        ensures
            r == self.seq,
    {
        self.seq
    }

    pub fn set_seq(&mut self, seq: u64)
        ensures
            *final(self) == (ClientTaskCommon { seq }),
    {
        self.seq = seq;
    }
}

impl Default for ClientTaskCommon {
    fn default() -> (r: Self)
        ensures
            r.seq == 0,
    {
        ClientTaskCommon { seq: 0 }
    }
}

/// The action that a task asks for.
pub trait ClientTaskAction {
    open spec fn action(&self) -> ActionSpec {
        arbitrary()
    }

    fn get_action<'a>(&'a self) -> (r: RpcAction<'a>)
        ensures
            r@ == self.action(),
    ;
}

/// The request of a task as it is sent.
pub trait ClientTaskEncode<C> {
    /// The encoded request, or `None` where it has no encoding.
    open spec fn req_msg(&self, codec: &C) -> Option<Seq<u8>> {
        arbitrary()
    }

    /// Extra data that goes with the request.
    open spec fn req_blob(&self) -> Option<Seq<u8>> {
        arbitrary()
    }

    /// Appends the encoded request to `buf` and returns its length.
    fn encode_req(&self, codec: &C, buf: &mut Vec<u8>) -> (r: Result<usize, ()>)
        ensures
            match self.req_msg(codec) {
                Some(b) => {
                    &&& r == Ok::<usize, ()>(b.len() as usize)
                    &&& b.len() <= usize::MAX
                    &&& final(buf)@ == old(buf)@ + b
                },
                None => r is Err,
            },
    ;

    /// The extra data to send along, if any.
    fn get_req_blob(&self) -> (r: Option<&[u8]>)
        ensures
            match self.req_blob() {
                Some(b) => r matches Some(s) && s@ == b,
                None => r is None,
            },
    ;
}

/// What a task holds besides its request. Only the changes between two states of one task
/// matter to the framework, so these are spec functions alone.
pub trait ClientTaskState<C>: ClientTaskAction + ClientTaskEncode<C> + Sized {
    /// The error type of the application.
    type Err;

    /// The response message.
    type Resp;

    /// The way back to whoever issued the task.
    type Way;

    open spec fn common(&self) -> ClientTaskCommon {
        arbitrary()
    }

    /// The result, once there is one.
    open spec fn result(&self) -> Option<Result<(), RpcError<Self::Err>>> {
        arbitrary()
    }

    /// The response message, once there is one.
    open spec fn resp(&self) -> Option<Self::Resp> {
        arbitrary()
    }

    /// Extra data of the response, once there is any.
    open spec fn resp_blob(&self) -> Option<Seq<u8>> {
        arbitrary()
    }

    /// Whether the task takes extra data of a response.
    open spec fn takes_blob(&self) -> bool {
        arbitrary()
    }

    /// The way back to whoever issued the task.
    open spec fn way(&self) -> Self::Way {
        arbitrary()
    }
}

/// Whether two states of a task carry the same request and ID, and go back the same way.
pub open spec fn same_request<C, T: ClientTaskState<C>>(a: T, b: T) -> bool {
    &&& a.common() == b.common()
    &&& a.action() == b.action()
    &&& a.req_blob() == b.req_blob()
    &&& a.takes_blob() == b.takes_blob()
    &&& a.way() == b.way()
    &&& forall|codec: &C| #[trigger] a.req_msg(codec) == b.req_msg(codec)
}

/// Whether two states of a task hold the same response.
pub open spec fn same_response<C, T: ClientTaskState<C>>(a: T, b: T) -> bool {
    &&& a.resp() == b.resp()
    &&& a.resp_blob() == b.resp_blob()
}

/// Whether `b` is task `a` with its result set to `res` and nothing else changed.
pub open spec fn with_result<C, T: ClientTaskState<C>>(
    a: T,
    b: T,
    res: Result<(), RpcError<T::Err>>,
) -> bool {
    &&& b.result() == Some(res)
    &&& same_request::<C, T>(a, b)
    &&& same_response::<C, T>(a, b)
}

/// Whether `b` is task `a` after it failed with the framework error `e`.
pub open spec fn rpc_failed<C, T: ClientTaskState<C>>(a: T, b: T, e: RpcIntErr) -> bool {
    with_result::<C, T>(a, b, Err(RpcError::Rpc(e)))
}

/// Takes the response of the server into the task.
pub trait ClientTaskDecode<C>: ClientTaskState<C> {
    /// The response that `buf` holds, or `None` where it holds none.
    open spec fn decoded_resp(codec: &C, buf: Seq<u8>) -> Option<Self::Resp> {
        arbitrary()
    }

    /// Whether `b` is task `a` with, at most, other extra data of the response.
    open spec fn only_blob_differs(a: Self, b: Self) -> bool {
        arbitrary()
    }

    fn decode_resp(&mut self, codec: &C, buf: &[u8]) -> (r: Result<(), ()>)
        ensures
            match Self::decoded_resp(codec, buf@) {
                Some(m) => r is Ok && final(self).resp() == Some(m),
                None => r is Err && final(self).resp() == old(self).resp(),
            },
            final(self).result() == old(self).result(),
            final(self).resp_blob() == old(self).resp_blob(),
            same_request::<C, Self>(*old(self), *final(self)),
    ;

    /// Makes room for `size` bytes of extra data and returns the place to put them, or
    /// `None` where the task takes no extra data.
    fn reserve_resp_blob(&mut self, size: i32) -> (r: Option<&mut [u8]>)
        requires
            size >= 0,
        ensures
            r is Some <==> old(self).takes_blob(),
            r matches Some(b) ==> b@.len() == size && final(self).resp_blob() == Some(final(b)@),
            r is None ==> final(self).resp_blob() == old(self).resp_blob(),
            Self::only_blob_differs(*old(self), *final(self)),
            final(self).resp() == old(self).resp(),
            final(self).result() == old(self).result(),
            same_request::<C, Self>(*old(self), *final(self)),
    ;
}

/// The result of a task, and its delivery.
///
/// The framework first calls one of `set_ok`, `set_rpc_error` and `set_custom_error`, then
/// `done`.
pub trait ClientTaskDone<C>: ClientTaskState<C> {
    /// What an error that a response carried means to the task.
    open spec fn custom_error(codec: &C, e: ErrSpec) -> RpcError<Self::Err> {
        arbitrary()
    }

    fn set_custom_error(&mut self, codec: &C, e: EncodedErr)
        ensures
            with_result::<C, Self>(*old(self), *final(self), Err(Self::custom_error(codec, e@))),
    ;

    fn set_rpc_error(&mut self, e: RpcIntErr)
        ensures
            rpc_failed::<C, Self>(*old(self), *final(self), e),
    ;

    fn set_ok(&mut self)
        ensures
            with_result::<C, Self>(*old(self), *final(self), Ok(())),
    ;

    /// What delivering the task leaves.
    type Receipt;

    /// Whether `r` is left by delivering the task.
    open spec fn delivered(&self, r: Self::Receipt) -> bool {
        arbitrary()
    }

    /// Hands the task back to whoever issued it.
    fn done(self) -> (r: Self::Receipt)
        ensures
            self.delivered(r),
    ;
}

/// Everything that a client task is.
pub trait ClientTask<C>: ClientTaskDecode<C> + ClientTaskDone<C> {
    /// The ID of the task on its connection.
    fn seq(&self) -> (r: u64)
        ensures
            r == self.common().seq,
    ;

    fn set_seq(&mut self, seq: u64)
        ensures
            final(self).common().seq == seq,
            final(self).result() == old(self).result(),
            final(self).action() == old(self).action(),
            final(self).req_blob() == old(self).req_blob(),
            final(self).takes_blob() == old(self).takes_blob(),
            final(self).way() == old(self).way(),
            forall|codec: &C| #[trigger]
                final(self).req_msg(codec) == old(self).req_msg(codec),
            same_response::<C, Self>(*old(self), *final(self)),
    ;
}

/// Reads the result of a task that came back.
pub trait ClientTaskGetResult<C>: ClientTaskState<C> {
    /// The result; a task without one counts as failed with `Internal`.
    fn get_result(&self) -> (r: Result<(), &RpcError<Self::Err>>)
        ensures
            match self.result() {
                Some(Ok(_)) => r is Ok,
                Some(Err(e)) => r matches Err(x) && *x == e,
                None => r matches Err(x) && *x == RpcError::<Self::Err>::Rpc(RpcIntErr::Internal),
            },
    ;
}

} // verus!
