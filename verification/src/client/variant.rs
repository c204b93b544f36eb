//! Ready-made client tasks.
//!
//! [`ClientTaskVariant`] is a task with everything that one can declare, and what the declared
//! traits do. [`ClientTaskEnumVariant`] is a task inside an enum of tasks: everything goes to
//! the task inside, except that the enum may give it another action.
//!
//! What a task does with its fields for the response, the result and the way back stands in
//! functions of its own, for task types that are declared elsewhere.

use crate::channel::{mtx_send, Handed};
use crate::client::task::{
    ClientTask, ClientTaskAction, ClientTaskCommon, ClientTaskDecode, ClientTaskDone,
    ClientTaskEncode, ClientTaskGetResult, ClientTaskState,
};
use crate::codec::Codec;
use crate::error::{
    decode_rpc_error, decoded_rpc_error, EncodedErr, ErrSpec, RpcErrCodec, RpcError, RpcIntErr,
};
use crate::proto::{ActionSpec, RpcAction, RpcActionOwned};
use crate::text::{decimal, push_decimal};
use vstd::prelude::*;

verus! {

/// The result of a task whose field for it is `res`; a task without one counts as failed with
/// `Internal`.
pub fn task_result<E>(res: &Option<Result<(), RpcError<E>>>) -> (r: Result<(), &RpcError<E>>)
    ensures
        match *res {
            Some(Ok(_)) => r is Ok,
            Some(Err(e)) => r matches Err(x) && *x == e,
            None => r matches Err(x) && *x == RpcError::<E>::Rpc(RpcIntErr::Internal),
        },
{
    match res {
        Some(Ok(_)) => Ok(()),
        Some(Err(e)) => Err(e),
        None => Err(&RpcError::Rpc(RpcIntErr::Internal)),
    }
}

/// Puts the response that `buf` holds into the field for it. Where it holds none, the field stays
/// as it is.
pub fn store_resp<C: Codec<P>, P>(codec: &C, buf: &[u8], resp: &mut Option<P>) -> (r: Result<(), ()>)
    ensures
        match codec.decoded(buf@) {
            Some(m) => r is Ok && *final(resp) == Some(m),
            None => r is Err && *final(resp) == *old(resp),
        },
{
    match codec.decode(buf) {
        Ok(m) => {
            *resp = Some(m);
            Ok(())
        },
        Err(_) => Err(()),
    }
}

/// Makes room for a blob of `size` bytes in the field for it, and returns that.
pub fn blob_room(blob: &mut Option<Vec<u8>>, size: i32) -> (r: &mut [u8])
    requires
        size >= 0,
    ensures
        r@.len() == size,
        *final(blob) matches Some(b) && b@ == final(r)@,
{
    let mut room: Vec<u8> = match blob.take() {
        Some(b) => b,
        None => Vec::new(),
    };
    room.resize(size as usize, 0);
    blob.insert(room).as_mut_slice()
}

/// Whether `r` is left by handing `task` back through `noti`: it goes there as an `N`, or nowhere
/// where there is no such way.
pub open spec fn handed_back<T, N: From<T>>(
    task: T,
    noti: Option<crossfire::MTx<N>>,
    r: Option<Handed<N>>,
) -> bool {
    match noti {
        Some(tx) => {
            &&& r matches Some(h)
            &&& h.channel() == tx
            &&& call_ensures(N::from, (task,), h.item())
        },
        None => r is None,
    }
}

/// Hands a task back through what was in its field for that.
pub fn hand_back<T, N: From<T> + Send + 'static>(task: T, noti: Option<crossfire::MTx<N>>) -> (r:
    Option<Handed<N>>)
    ensures
        handed_back(task, noti, r),
{
    match noti {
        Some(tx) => {
            let item: N = N::from(task);
            Some(mtx_send(&tx, item))
        },
        None => None,
    }
}

/// A client task, which goes back to whoever issued it as an `N`.
#[verifier::reject_recursive_types(N)]
pub struct ClientTaskVariant<N, Q, P, E> {
    pub common: ClientTaskCommon,
    pub action: RpcActionOwned,
    pub req: Q,
    pub req_blob: Option<Vec<u8>>,
    pub resp: Option<P>,
    /// Whether the task takes a blob with the response.
    pub with_resp_blob: bool,
    pub resp_blob: Option<Vec<u8>>,
    pub res: Option<Result<(), RpcError<E>>>,
    pub noti: Option<crossfire::MTx<N>>,
}

impl<N, Q, P, E> ClientTaskAction for ClientTaskVariant<N, Q, P, E> {
    open spec fn action(&self) -> ActionSpec {
        self.action@
    }

    fn get_action<'a>(&'a self) -> (r: RpcAction<'a>) {
        self.action.to_action()
    }
}

impl<C: Codec<Q>, N, Q, P, E> ClientTaskEncode<C> for ClientTaskVariant<N, Q, P, E> {
    open spec fn req_msg(&self, codec: &C) -> Option<Seq<u8>> {
        codec.encoded(self.req)
    }

    open spec fn req_blob(&self) -> Option<Seq<u8>> {
        match self.req_blob {
            Some(b) => Some(b@),
            None => None,
        }
    }

    fn encode_req(&self, codec: &C, buf: &mut Vec<u8>) -> (r: Result<usize, ()>) {
        codec.encode_into(&self.req, buf)
    }

    fn get_req_blob(&self) -> (r: Option<&[u8]>) {
        match &self.req_blob {
            Some(b) => Some(b.as_slice()),
            None => None,
        }
    }
}

impl<C: Codec<Q>, N, Q, P, E> ClientTaskState<C> for ClientTaskVariant<N, Q, P, E> {
    type Err = E;

    type Resp = P;

    type Way = Option<crossfire::MTx<N>>;

    open spec fn common(&self) -> ClientTaskCommon {
        self.common
    }

    open spec fn result(&self) -> Option<Result<(), RpcError<E>>> {
        self.res
    }

    open spec fn resp(&self) -> Option<P> {
        self.resp
    }

    open spec fn resp_blob(&self) -> Option<Seq<u8>> {
        match self.resp_blob {
            Some(b) => Some(b@),
            None => None,
        }
    }

    open spec fn takes_blob(&self) -> bool {
        self.with_resp_blob
    }

    open spec fn way(&self) -> Option<crossfire::MTx<N>> {
        self.noti
    }
}

impl<C: Codec<Q> + Codec<P>, N, Q, P, E> ClientTaskDecode<C> for ClientTaskVariant<N, Q, P, E> {
    open spec fn decoded_resp(codec: &C, buf: Seq<u8>) -> Option<P> {
        codec.decoded(buf)
    }

    open spec fn only_blob_differs(a: Self, b: Self) -> bool {
        b == (ClientTaskVariant { resp_blob: b.resp_blob, ..a })
    }

    fn decode_resp(&mut self, codec: &C, buf: &[u8]) -> (r: Result<(), ()>)
        ensures
            *final(self) == match Codec::<P>::decoded(codec, buf@) {
                Some(m) => ClientTaskVariant { resp: Some(m), ..*old(self) },
                None => *old(self),
            },
    {
        store_resp::<C, P>(codec, buf, &mut self.resp)
    }

    fn reserve_resp_blob(&mut self, size: i32) -> (r: Option<&mut [u8]>) {
        if !self.with_resp_blob {
            return None;
        }
        Some(blob_room(&mut self.resp_blob, size))
    }
}

impl<
    C: Codec<Q>,
    N: From<ClientTaskVariant<N, Q, P, E>> + Send + 'static,
    Q,
    P,
    E: RpcErrCodec<C>,
> ClientTaskDone<C> for ClientTaskVariant<N, Q, P, E> {
    open spec fn custom_error(codec: &C, e: ErrSpec) -> RpcError<E> {
        decoded_rpc_error::<C, E>(codec, e)
    }

    fn set_custom_error(&mut self, codec: &C, e: EncodedErr)
        ensures
            *final(self) == (ClientTaskVariant {
                res: Some(Err(decoded_rpc_error::<C, E>(codec, e@))),
                ..*old(self)
            }),
    {
        self.res = Some(Err(decode_rpc_error::<C, E>(codec, &e)));
    }

    fn set_rpc_error(&mut self, e: RpcIntErr)
        ensures
            *final(self) == (ClientTaskVariant {
                res: Some(Err(RpcError::Rpc(e))),
                ..*old(self)
            }),
    {
        self.res = Some(Err(RpcError::Rpc(e)));
    }

    fn set_ok(&mut self)
        ensures
            *final(self) == (ClientTaskVariant { res: Some(Ok(())), ..*old(self) }),
    {
        self.res = Some(Ok(()));
    }

    type Receipt = Option<Handed<N>>;

    /// The task goes to its channel, without it; a task with no channel is dropped.
    open spec fn delivered(&self, r: Option<Handed<N>>) -> bool {
        handed_back(ClientTaskVariant { noti: None, ..*self }, self.noti, r)
    }

    fn done(self) -> (r: Option<Handed<N>>) {
        let mut task = self;
        let noti = task.noti.take();
        hand_back(task, noti)
    }
}

impl<C: Codec<Q>, N, Q, P, E> ClientTaskGetResult<C> for ClientTaskVariant<N, Q, P, E> {
    fn get_result(&self) -> (r: Result<(), &RpcError<E>>) {
        task_result(&self.res)
    }
}

impl<
    C: Codec<Q> + Codec<P>,
    N: From<ClientTaskVariant<N, Q, P, E>> + Send + 'static,
    Q,
    P,
    E: RpcErrCodec<C>,
> ClientTask<C> for ClientTaskVariant<N, Q, P, E> {
    fn seq(&self) -> (r: u64) {
        self.common.seq()
    }

    fn set_seq(&mut self, seq: u64)
        ensures
            *final(self) == (ClientTaskVariant {
                common: ClientTaskCommon { seq },
                ..*old(self)
            }),
    {
        self.common.set_seq(seq);
    }
}

/// A task as text: its type, its ID, its request, and its response where it has one. The texts
/// of the request and of the response are given.
pub fn describe_task(name: &str, seq: u64, req: &str, resp: Option<&str>) -> (r: String)
    ensures
        r@ == name@ + "(seq="@ + decimal(seq as nat) + " req="@ + req@ + match resp {
            Some(p) => " resp="@ + p@,
            None => Seq::empty(),
        } + ")"@,
{
    let mut s: String = name.to_owned();
    s.append("(seq=");
    push_decimal(&mut s, seq);
    s.append(" req=");
    s.append(req);
    let ghost head = s@;
    if let Some(resp) = resp {
        s.append(" resp=");
        s.append(resp);
        assert(s@ =~= head + (" resp="@ + resp@));
    } else {
        assert(s@ =~= head + Seq::<char>::empty());
    }
    s.append(")");
    s
}

/// A task inside an enum of tasks, with the action that the enum gives it, if any.
pub struct ClientTaskEnumVariant<T> {
    pub inner: T,
    pub action: Option<RpcActionOwned>,
}

impl<T> From<T> for ClientTaskEnumVariant<T> {
    fn from(inner: T) -> (r: Self) {
        ClientTaskEnumVariant { inner, action: None }
    }
}

impl<T> vstd::std_specs::convert::FromSpecImpl<T> for ClientTaskEnumVariant<T> {
    open spec fn obeys_from_spec() -> bool {
        true
    }

    /// The task, with no action but its own.
    open spec fn from_spec(inner: T) -> Self {
        ClientTaskEnumVariant { inner, action: None }
    }
}

impl<T: ClientTaskAction> ClientTaskAction for ClientTaskEnumVariant<T> {
    /// The action of the enum takes precedence.
    open spec fn action(&self) -> ActionSpec {
        match self.action {
            Some(a) => a@,
            None => self.inner.action(),
        }
    }

    fn get_action<'a>(&'a self) -> (r: RpcAction<'a>)
        ensures
            self.action is None ==> call_ensures(T::get_action, (&self.inner,), r),
    {
        match &self.action {
            Some(a) => a.to_action(),
            None => self.inner.get_action(),
        }
    }
}

impl<C, T: ClientTaskEncode<C>> ClientTaskEncode<C> for ClientTaskEnumVariant<T> {
    open spec fn req_msg(&self, codec: &C) -> Option<Seq<u8>> {
        self.inner.req_msg(codec)
    }

    open spec fn req_blob(&self) -> Option<Seq<u8>> {
        self.inner.req_blob()
    }

    fn encode_req(&self, codec: &C, buf: &mut Vec<u8>) -> (r: Result<usize, ()>)
        ensures
            exists|b: &mut Vec<u8>| #[trigger]
                call_ensures(T::encode_req, (&self.inner, codec, b), r) && *b == *old(buf)
                    && *final(b) == *final(buf),
    {
        self.inner.encode_req(codec, buf)
    }

    fn get_req_blob(&self) -> (r: Option<&[u8]>)
        ensures
            call_ensures(T::get_req_blob, (&self.inner,), r),
    {
        self.inner.get_req_blob()
    }
}

impl<C, T: ClientTaskState<C>> ClientTaskState<C> for ClientTaskEnumVariant<T> {
    type Err = T::Err;

    type Resp = T::Resp;

    type Way = T::Way;

    open spec fn common(&self) -> ClientTaskCommon {
        self.inner.common()
    }

    open spec fn result(&self) -> Option<Result<(), RpcError<T::Err>>> {
        self.inner.result()
    }

    open spec fn resp(&self) -> Option<T::Resp> {
        self.inner.resp()
    }

    open spec fn resp_blob(&self) -> Option<Seq<u8>> {
        self.inner.resp_blob()
    }

    open spec fn takes_blob(&self) -> bool {
        self.inner.takes_blob()
    }

    open spec fn way(&self) -> T::Way {
        self.inner.way()
    }
}

impl<C, T: ClientTaskDecode<C>> ClientTaskDecode<C> for ClientTaskEnumVariant<T> {
    open spec fn decoded_resp(codec: &C, buf: Seq<u8>) -> Option<T::Resp> {
        T::decoded_resp(codec, buf)
    }

    open spec fn only_blob_differs(a: Self, b: Self) -> bool {
        b.action == a.action && T::only_blob_differs(a.inner, b.inner)
    }

    fn decode_resp(&mut self, codec: &C, buf: &[u8]) -> (r: Result<(), ()>)
        ensures
            final(self).action == old(self).action,
            exists|m: &mut T| #[trigger]
                call_ensures(T::decode_resp, (m, codec, buf), r) && *m == old(self).inner && *final(m)
                    == final(self).inner,
    {
        self.inner.decode_resp(codec, buf)
    }

    fn reserve_resp_blob(&mut self, size: i32) -> (r: Option<&mut [u8]>)
        ensures
            final(self).action == old(self).action,
            exists|m: &mut T| #[trigger]
                call_ensures(T::reserve_resp_blob, (m, size), r) && *m == old(self).inner && *final(m)
                    == final(self).inner,
    {
        self.inner.reserve_resp_blob(size)
    }
}

impl<C, T: ClientTaskDone<C>> ClientTaskDone<C> for ClientTaskEnumVariant<T> {
    open spec fn custom_error(codec: &C, e: ErrSpec) -> RpcError<T::Err> {
        T::custom_error(codec, e)
    }

    fn set_custom_error(&mut self, codec: &C, e: EncodedErr)
        ensures
            final(self).action == old(self).action,
            exists|m: &mut T| #[trigger]
                call_ensures(T::set_custom_error, (m, codec, e), ()) && *m == old(self).inner && *final(m)
                    == final(self).inner,
    {
        self.inner.set_custom_error(codec, e);
    }

    fn set_rpc_error(&mut self, e: RpcIntErr)
        ensures
            final(self).action == old(self).action,
            exists|m: &mut T| #[trigger]
                call_ensures(T::set_rpc_error, (m, e), ()) && *m == old(self).inner && *final(m)
                    == final(self).inner,
    {
        self.inner.set_rpc_error(e);
    }

    fn set_ok(&mut self)
        ensures
            final(self).action == old(self).action,
            exists|m: &mut T| #[trigger]
                call_ensures(T::set_ok, (m,), ()) && *m == old(self).inner && *final(m)
                    == final(self).inner,
    {
        self.inner.set_ok();
    }

    type Receipt = T::Receipt;

    open spec fn delivered(&self, r: T::Receipt) -> bool {
        self.inner.delivered(r)
    }

    fn done(self) -> (r: T::Receipt)
        ensures
            call_ensures(T::done, (self.inner,), r),
    {
        self.inner.done()
    }
}

impl<C, T: ClientTaskGetResult<C>> ClientTaskGetResult<C> for ClientTaskEnumVariant<T> {
    fn get_result(&self) -> (r: Result<(), &RpcError<T::Err>>)
        ensures
            call_ensures(T::get_result, (&self.inner,), r),
    {
        self.inner.get_result()
    }
}

impl<C, T: ClientTask<C>> ClientTask<C> for ClientTaskEnumVariant<T> {
    fn seq(&self) -> (r: u64)
        ensures
            call_ensures(T::seq, (&self.inner,), r),
    {
        self.inner.seq()
    }

    fn set_seq(&mut self, seq: u64)
        ensures
            final(self).action == old(self).action,
            exists|m: &mut T| #[trigger]
                call_ensures(T::set_seq, (m, seq), ()) && *m == old(self).inner && *final(m)
                    == final(self).inner,
    {
        self.inner.set_seq(seq);
    }
}

/// A task inside an enum of tasks is the task itself in everything that is said of it, and has its
/// action too unless the enum gives it another.
pub proof fn lemma_enum_task_is_its_task<C, T: ClientTaskDecode<C> + ClientTaskDone<C>>(
    e: ClientTaskEnumVariant<T>,
)
    ensures
        e.common() == e.inner.common(),
        e.action is None ==> e.action() == e.inner.action(),
        forall|codec: &C| #[trigger] e.req_msg(codec) == e.inner.req_msg(codec),
        e.req_blob() == e.inner.req_blob(),
        e.resp() == e.inner.resp(),
        e.resp_blob() == e.inner.resp_blob(),
        e.takes_blob() == e.inner.takes_blob(),
        e.result() == e.inner.result(),
        e.way() == e.inner.way(),
        forall|r: T::Receipt| #[trigger] e.delivered(r) == e.inner.delivered(r),
        forall|codec: &C, buf: Seq<u8>|
            #![trigger T::decoded_resp(codec, buf)]
            ClientTaskEnumVariant::<T>::decoded_resp(codec, buf) == T::decoded_resp(codec, buf),
        forall|codec: &C, x: ErrSpec|
            #![trigger T::custom_error(codec, x)]
            ClientTaskEnumVariant::<T>::custom_error(codec, x) == T::custom_error(codec, x),
{
}

} // verus!
