//! The way of a finished task to the writer of its connection.

use crate::channel::{mtx_clone, mtx_send, Handed};
use crate::error::RpcIntErr;
use vstd::prelude::*;

verus! {

/// What goes to the writer: a task with its answer, or a response of the framework itself.
pub type RespItem<T> = Result<T, (u64, Option<RpcIntErr>)>;

/// Hands finished tasks to the writer of their connection. It can be cloned and kept anywhere;
/// users need not call it themselves.
#[verifier::reject_recursive_types(T)]
pub struct RespNoti<T>(crossfire::MTx<RespItem<T>>);

impl<T> Clone for RespNoti<T> {
    fn clone(&self) -> (r: Self)
        ensures
            r == *self,
    {
        RespNoti(mtx_clone(&self.0))
    }
}

impl<T: Send + 'static> RespNoti<T> {
    /// The channel to the writer.
    pub closed spec fn channel(&self) -> crossfire::MTx<RespItem<T>> {
        self.0
    }

    pub fn new(tx: crossfire::MTx<RespItem<T>>) -> (r: Self)
        ensures
            r.channel() == tx,
    {
        RespNoti(tx)
    }

    /// Hands over a task that has its answer. A task whose connection is gone is dropped.
    pub fn done(self, task: T) -> (r: Handed<RespItem<T>>)
        ensures
            r.channel() == self.channel(),
            r.item() == Ok::<T, (u64, Option<RpcIntErr>)>(task),
    {
        mtx_send(&self.0, Ok(task))
    }

    /// Hands over a response of the framework itself. It is dropped where the connection is
    /// gone.
    pub fn send_err(&self, seq: u64, err: Option<RpcIntErr>) -> (r: Handed<RespItem<T>>)
        ensures
            r.channel() == self.channel(),
            r.item() == Err::<T, (u64, Option<RpcIntErr>)>((seq, err)),
    {
        mtx_send(&self.0, Err((seq, err)))
    }
}

} // verus!
