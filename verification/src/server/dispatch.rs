//! Handing requests to the application.

use crate::server::noti::RespNoti;
use crate::server::task::ServerTaskDecode;
use crate::transport::request::RpcSvrReq;
use std::marker::PhantomData;
use vstd::prelude::*;

verus! {

/// Decodes requests into tasks of type `T` and hands them to a function. The tasks go to the
/// writer as an `R`. What the function returns (a future, where it is asynchronous) is handed
/// back.
#[verifier::reject_recursive_types(R)]
#[verifier::reject_recursive_types(T)]
pub struct DispatchClosure<T, R, H> {
    task_handle: H,
    _phan: PhantomData<(T, R)>,
}

impl<T, R, H> DispatchClosure<T, R, H> {
    /// The function that takes the tasks.
    pub closed spec fn handle(&self) -> H {
        self.task_handle
    }

    pub fn new(task_handle: H) -> (r: Self)
        ensures
            r.handle() == task_handle,
    {
        DispatchClosure { task_handle, _phan: PhantomData }
    }

    /// Decodes a request and hands it over. Fails where it cannot be decoded; the function is
    /// not called then.
    pub fn dispatch_req<C, F>(&self, codec: &C, req: RpcSvrReq<'_>, noti: RespNoti<R>) -> (r: Result<
        F,
        (),
    >) where T: ServerTaskDecode<C, R>, H: Fn(T) -> F
        requires
            forall|t: T| #[trigger] call_requires(self.handle(), (t,)),
        ensures
            r is Ok <==> T::decodable(codec, req.action@, req.msg@),
            r matches Ok(f) ==> exists|t: T| #[trigger]
                t.holds(codec, req.action@, req.seq, req.msg@, req.blob, noti) && call_ensures(
                    self.handle(),
                    (t,),
                    f,
                ),
    {
        match T::decode_req(codec, req.action, req.seq, req.msg, req.blob, noti) {
            Err(_) => Err(()),
            Ok(task) => {
                assert(call_requires(self.handle(), (task,)));
                Ok((self.task_handle)(task))
            },
        }
    }
}

} // verus!
