//! Reading a response from a stream of bytes.
//!
//! Once the head of a response is there, the task with the same ID is looked up. The body
//! then goes into that task, or is skipped where nobody waits for it any more.

use crate::client::task::{
    rpc_failed, same_request, same_response, with_result, ClientTask, ClientTaskDecode,
    ClientTaskDone, ClientTaskState,
};
use crate::error::{
    bytes_start_with, lemma_names_are_distinct, EncodedErr, ErrSpec, RpcError, RpcIntErr,
    RPC_ERR_PREFIX,
};
use crate::proto::{
    checked_head, RespHead, RESP_FLAG_HAS_ERRNO, RESP_FLAG_HAS_ERR_STRING, RPC_RESP_HEADER_LEN,
};
use crate::server::task::RespSpec;
use vstd::prelude::*;

verus! {

/// What the body of a response holds.
pub enum RespContent {
    Answer { msg: Seq<u8>, blob: Seq<u8> },
    Error(ErrSpec),
}

/// Whether a head is one that this protocol defines: the flag is known, and an error string
/// has a length.
pub open spec fn head_known(head: RespHead) -> bool {
    &&& head.flag <= RESP_FLAG_HAS_ERR_STRING
    &&& head.flag == RESP_FLAG_HAS_ERR_STRING ==> head.blob_len >= 0
}

/// Whether a head is one that this protocol defines.
pub fn is_head_known(head: &RespHead) -> (r: bool)
    ensures
        r == head_known(*head),
{
    head.flag <= RESP_FLAG_HAS_ERR_STRING && (head.flag != RESP_FLAG_HAS_ERR_STRING || head.blob_len
        >= 0)
}

/// The length of the blob or the error string. A negative length stands for none.
pub open spec fn tail_len(head: RespHead) -> nat {
    if head.blob_len > 0 {
        head.blob_len as nat
    } else {
        0
    }
}

/// The length of the body.
pub open spec fn body_len(head: RespHead) -> nat {
    if head.flag == 0 {
        head.msg_len as nat + tail_len(head)
    } else if head.flag == RESP_FLAG_HAS_ERR_STRING {
        tail_len(head)
    } else {
        0
    }
}

/// What an error string means: the framework error that has this name, if one has, else
/// whatever the application makes of it.
pub open spec fn error_string(s: Seq<u8>) -> ErrSpec {
    if exists|e: RpcIntErr| #[trigger] e.name_bytes() == s {
        ErrSpec::Rpc(choose|e: RpcIntErr| #[trigger] e.name_bytes() == s)
    } else {
        ErrSpec::Bytes(s)
    }
}

/// What the body of a response holds.
pub open spec fn content(head: RespHead, body: Seq<u8>) -> RespContent {
    if head.flag == 0 {
        RespContent::Answer {
            msg: body.subrange(0, head.msg_len as int),
            blob: body.subrange(head.msg_len as int, body.len() as int),
        }
    } else if head.flag == RESP_FLAG_HAS_ERRNO {
        RespContent::Error(ErrSpec::Num(head.msg_len))
    } else {
        RespContent::Error(error_string(body))
    }
}

/// How a finished task goes back.
#[derive(Clone, Copy, Debug, PartialEq, Eq, Structural)]
pub enum Delivery {
    /// To whoever issued it.
    Done,
    /// To the error handler of the client, which may try it again.
    ErrorHandle,
}

/// A task that is finished, and how it goes back.
pub struct Finished<T> {
    pub task: T,
    pub delivery: Delivery,
}

/// Whether `f` is task `a` after it failed with the framework error `e`.
pub open spec fn failed_with<C, T: ClientTaskState<C>>(a: T, f: Finished<T>, e: RpcIntErr) -> bool {
    &&& rpc_failed::<C, T>(a, f.task, e)
    &&& f.delivery == Delivery::ErrorHandle
}

/// Whether `f` is task `a`, which has its blob if there is one, after the message `msg` came.
pub open spec fn answered<C, T: ClientTaskDecode<C>>(
    codec: &C,
    a: T,
    msg: Seq<u8>,
    f: Finished<T>,
) -> bool {
    let decoded = T::decoded_resp(codec, msg);
    if msg.len() > 0 && decoded is None {
        failed_with::<C, T>(a, f, RpcIntErr::Decode)
    } else {
        &&& f.delivery == Delivery::Done
        &&& f.task.result() == Some(Ok::<(), RpcError<T::Err>>(()))
        &&& f.task.resp() == if msg.len() > 0 {
            decoded
        } else {
            a.resp()
        }
        &&& f.task.resp_blob() == a.resp_blob()
        &&& same_request::<C, T>(a, f.task)
    }
}

/// Whether `b` is task `a` with its blob set to `blob` and nothing else changed.
pub open spec fn with_blob<C, T: ClientTaskState<C>>(a: T, b: T, blob: Seq<u8>) -> bool {
    &&& b.resp_blob() == Some(blob)
    &&& b.resp() == a.resp()
    &&& b.result() == a.result()
    &&& same_request::<C, T>(a, b)
}

/// Whether `f` is task `a` after a response with this content came.
pub open spec fn delivered<C, T: ClientTaskDecode<C> + ClientTaskDone<C>>(
    codec: &C,
    a: T,
    content: RespContent,
    f: Finished<T>,
) -> bool {
    match content {
        RespContent::Answer { msg, blob } => if blob.len() == 0 {
            answered::<C, T>(codec, a, msg, f)
        } else if a.takes_blob() {
            exists|b: T| #[trigger]
                with_blob::<C, T>(a, b, blob) && answered::<C, T>(codec, b, msg, f)
        } else {
            failed_with::<C, T>(a, f, RpcIntErr::Decode)
        },
        RespContent::Error(ErrSpec::Rpc(e)) => failed_with::<C, T>(a, f, e),
        RespContent::Error(e) => {
            &&& with_result::<C, T>(a, f.task, Err(T::custom_error(codec, e)))
            &&& f.delivery == Delivery::ErrorHandle
        },
    }
}

/// A task that waits for an error string.
pub struct AwaitError<T> {
    pub task: T,
    pub len: usize,
}

/// A task that waits for its message.
pub struct AwaitMsg<T> {
    pub task: T,
    pub head: RespHead,
}

/// A task that has its message, and waits for its blob.
pub struct AwaitBlob<T> {
    pub task: T,
    pub head: RespHead,
    pub msg: Vec<u8>,
}

/// What to read next for a task.
pub enum RespStep<T> {
    ReadError(AwaitError<T>),
    ReadMsg(AwaitMsg<T>),
    ReadBlob(AwaitBlob<T>),
    Finish(Finished<T>),
}

/// Whether `s` is what follows once task `a` has its message `msg`.
pub open spec fn after_msg<C, T: ClientTaskDecode<C>>(
    codec: &C,
    a: T,
    head: RespHead,
    msg: Seq<u8>,
    s: RespStep<T>,
) -> bool {
    if head.blob_len > 0 {
        s matches RespStep::ReadBlob(w) && w.task == a && w.head == head && w.msg@ == msg
    } else {
        s matches RespStep::Finish(f) && answered::<C, T>(codec, a, msg, f)
    }
}

/// Sets the result of a task that is complete.
fn finish_msg<C, T: ClientTask<C>>(codec: &C, task: T, msg: &[u8]) -> (r: Finished<T>)
    ensures
        answered::<C, T>(codec, task, msg@, r),
{
    let mut task = task;
    if msg.len() > 0 {
        if task.decode_resp(codec, msg).is_err() {
            task.set_rpc_error(RpcIntErr::Decode);
            return Finished { task, delivery: Delivery::ErrorHandle };
        }
    }
    task.set_ok();
    Finished { task, delivery: Delivery::Done }
}

fn fail_task<C, T: ClientTask<C>>(task: T, e: RpcIntErr) -> (r: Finished<T>)
    ensures
        failed_with::<C, T>(task, r, e),
{
    let mut task = task;
    task.set_rpc_error(e);
    Finished { task, delivery: Delivery::ErrorHandle }
}

/// Starts on the body of the response to `task`.
pub fn start_body<C, T: ClientTask<C>>(codec: &C, head: &RespHead, task: T) -> (r: RespStep<T>)
    requires
        head_known(*head),
    ensures
        if head.flag == RESP_FLAG_HAS_ERRNO {
            r matches RespStep::Finish(f) && delivered::<C, T>(
                codec,
                task,
                content(*head, Seq::empty()),
                f,
            )
        } else if head.flag == RESP_FLAG_HAS_ERR_STRING {
            r matches RespStep::ReadError(w) && w.task == task && w.len == head.blob_len
        } else if head.msg_len > 0 {
            r matches RespStep::ReadMsg(w) && w.task == task && w.head == *head
        } else {
            after_msg::<C, T>(codec, task, *head, Seq::empty(), r)
        },
{
    if head.flag == RESP_FLAG_HAS_ERRNO {
        let mut task = task;
        task.set_custom_error(codec, EncodedErr::Num(head.msg_len));
        return RespStep::Finish(Finished { task, delivery: Delivery::ErrorHandle });
    }
    if head.flag == RESP_FLAG_HAS_ERR_STRING {
        return RespStep::ReadError(AwaitError { task, len: head.blob_len as usize });
    }
    if head.msg_len > 0 {
        RespStep::ReadMsg(AwaitMsg { task, head: *head })
    } else {
        let msg: Vec<u8> = Vec::new();
        assert(msg@ =~= Seq::<u8>::empty());
        msg_read(codec, task, *head, msg)
    }
}

fn msg_read<C, T: ClientTask<C>>(codec: &C, task: T, head: RespHead, msg: Vec<u8>) -> (r: RespStep<
    T,
>)
    ensures
        after_msg::<C, T>(codec, task, head, msg@, r),
{
    if head.blob_len > 0 {
        RespStep::ReadBlob(AwaitBlob { task, head, msg })
    } else {
        RespStep::Finish(finish_msg(codec, task, msg.as_slice()))
    }
}

impl<T> AwaitError<T> {
    /// Takes the error string.
    pub fn read<C>(self, codec: &C, data: Vec<u8>) -> (r: Finished<T>) where T: ClientTask<C>
        ensures
            delivered::<C, T>(codec, self.task, RespContent::Error(error_string(data@)), r),
    {
        let mut task = self.task;
        // Only names of framework errors start with this.
        if bytes_start_with(data.as_slice(), RPC_ERR_PREFIX.as_bytes()) {
            if let Some(e) = RpcIntErr::from_bytes(data.as_slice()) {
                proof {
                    let x = choose|x: RpcIntErr| #[trigger] x.name_bytes() == data@;
                    assert(e.name_bytes() == data@);
                    lemma_names_are_distinct(e, x);
                }
                return fail_task(task, e);
            }
        }
        proof {
            assert forall|e: RpcIntErr| #[trigger] e.name_bytes() != data@ by {
                lemma_names_are_distinct(e, e);
            }
        }
        task.set_custom_error(codec, EncodedErr::Buf(data));
        Finished { task, delivery: Delivery::ErrorHandle }
    }

    /// Gives up where the error string could not be read.
    pub fn failed<C>(self) -> (r: Finished<T>) where T: ClientTask<C>
        ensures
            failed_with::<C, T>(self.task, r, RpcIntErr::IO),
    {
        fail_task(self.task, RpcIntErr::IO)
    }
}

impl<T> AwaitMsg<T> {
    /// How many bytes the message has.
    pub fn need(&self) -> (r: usize)
        ensures
            r == self.head.msg_len,
    {
        self.head.msg_len as usize
    }

    /// Takes the message.
    pub fn read<C>(self, codec: &C, data: Vec<u8>) -> (r: RespStep<T>) where T: ClientTask<C>
        ensures
            after_msg::<C, T>(codec, self.task, self.head, data@, r),
    {
        msg_read(codec, self.task, self.head, data)
    }

    /// Gives up where the message could not be read.
    pub fn failed<C>(self) -> (r: Finished<T>) where T: ClientTask<C>
        ensures
            failed_with::<C, T>(self.task, r, RpcIntErr::IO),
    {
        fail_task(self.task, RpcIntErr::IO)
    }
}

impl<T> AwaitBlob<T> {
    /// The place for the blob, or `None` where the task takes none.
    pub fn room<C>(&mut self) -> (r: Option<&mut [u8]>) where T: ClientTask<C>
        requires
            old(self).head.blob_len > 0,
        ensures
            r is Some <==> old(self).task.takes_blob(),
            r matches Some(b) ==> {
                &&& b@.len() == old(self).head.blob_len
                &&& with_blob::<C, T>(old(self).task, final(self).task, final(b)@)
            },
            r is None ==> {
                &&& same_request::<C, T>(old(self).task, final(self).task)
                &&& same_response::<C, T>(old(self).task, final(self).task)
                &&& final(self).task.result() == old(self).task.result()
            },
            final(self).head == old(self).head,
            final(self).msg == old(self).msg,
    {
        self.task.reserve_resp_blob(self.head.blob_len)
    }

    /// Ends a task that has its message and its blob.
    pub fn read<C>(self, codec: &C) -> (r: Finished<T>) where T: ClientTask<C>
        ensures
            answered::<C, T>(codec, self.task, self.msg@, r),
    {
        finish_msg(codec, self.task, self.msg.as_slice())
    }

    /// Gives up on a task that takes no blob. As many bytes as the blob has are to be skipped
    /// then.
    pub fn refused<C>(self) -> (r: (Finished<T>, i32)) where T: ClientTask<C>
        ensures
            failed_with::<C, T>(self.task, r.0, RpcIntErr::Decode),
            r.1 == self.head.blob_len,
    {
        (fail_task(self.task, RpcIntErr::Decode), self.head.blob_len)
    }

    /// Gives up where the blob could not be read.
    pub fn failed<C>(self) -> (r: Finished<T>) where T: ClientTask<C>
        ensures
            failed_with::<C, T>(self.task, r, RpcIntErr::IO),
    {
        fail_task(self.task, RpcIntErr::IO)
    }
}

/// Whether the body of a response can be skipped: its length is one that a buffer can have.
pub open spec fn skippable(head: RespHead) -> bool {
    &&& head.flag == 0 ==> head.blob_len >= 0 && head.msg_len + head.blob_len <= i32::MAX
    &&& head.flag == RESP_FLAG_HAS_ERR_STRING ==> head.blob_len >= 0
}

/// Whether the body of a response can be skipped.
pub fn can_skip(head: &RespHead) -> (r: bool)
    ensures
        r == skippable(*head),
{
    if head.flag == 0 {
        head.blob_len >= 0 && head.msg_len as i64 + head.blob_len as i64 <= i32::MAX as i64
    } else if head.flag == RESP_FLAG_HAS_ERR_STRING {
        head.blob_len >= 0
    } else {
        true
    }
}

/// How many bytes to skip for a response that nobody waits for.
pub fn skip_len(head: &RespHead) -> (r: i32)
    requires
        skippable(*head),
    ensures
        r == body_len(*head),
{
    if head.flag == 0 {
        head.msg_len as i32 + head.blob_len
    } else if head.flag == RESP_FLAG_HAS_ERR_STRING {
        head.blob_len
    } else {
        0
    }
}

/// A response that was taken from a buffer.
pub struct BodyRead<T> {
    pub finished: Finished<T>,
    /// How many bytes the body took.
    pub used: usize,
}

/// Takes the body of the response to `task` from the start of a buffer that holds all of it.
pub fn recv_body_from<C, T: ClientTask<C>>(
    codec: &C,
    head: &RespHead,
    task: T,
    data: &[u8],
) -> (r: BodyRead<T>)
    requires
        head_known(*head),
        data@.len() >= body_len(*head),
    ensures
        r.used == body_len(*head),
        delivered::<C, T>(
            codec,
            task,
            content(*head, data@.subrange(0, body_len(*head) as int)),
            r.finished,
        ),
{
    let ghost body = data@.subrange(0, body_len(*head) as int);
    match start_body(codec, head, task) {
        RespStep::Finish(finished) => {
            proof {
                if head.flag == 0 {
                    assert(body.subrange(0, 0) =~= Seq::<u8>::empty());
                    assert(body.subrange(0, body.len() as int) =~= Seq::<u8>::empty());
                }
            }
            BodyRead { finished, used: 0 }
        },
        RespStep::ReadError(w) => {
            let used: usize = w.len;
            let s = take_vec(data, 0, used);
            assert(s@ =~= body);
            BodyRead { finished: w.read(codec, s), used }
        },
        RespStep::ReadMsg(w) => {
            let len: usize = w.need();
            let msg = take_vec(data, 0, len);
            assert(msg@ =~= body.subrange(0, len as int));
            match w.read(codec, msg) {
                RespStep::ReadBlob(w) => recv_blob_from(codec, w, data, len, Ghost(body)),
                RespStep::Finish(finished) => {
                    assert(body.subrange(len as int, body.len() as int) =~= Seq::<u8>::empty());
                    BodyRead { finished, used: len }
                },
                RespStep::ReadError(w) => BodyRead { finished: w.failed::<C>(), used: 0 },
                RespStep::ReadMsg(w) => BodyRead { finished: w.failed::<C>(), used: 0 },
            }
        },
        RespStep::ReadBlob(w) => {
            assert(body.subrange(0, 0) =~= Seq::<u8>::empty());
            recv_blob_from(codec, w, data, 0, Ghost(body))
        },
    }
}

fn recv_blob_from<C, T: ClientTask<C>>(
    codec: &C,
    w: AwaitBlob<T>,
    data: &[u8],
    pos: usize,
    body: Ghost<Seq<u8>>,
) -> (r: BodyRead<T>)
    requires
        w.head.flag == 0,
        w.head.blob_len > 0,
        pos == w.head.msg_len,
        body@.len() == pos + w.head.blob_len <= data@.len(),
        body@ == data@.subrange(0, body@.len() as int),
        w.msg@ == body@.subrange(0, pos as int),
    ensures
        r.used == body@.len(),
        delivered::<C, T>(codec, w.task, content(w.head, body@), r.finished),
{
    let len: usize = w.head.blob_len as usize;
    let total: usize = data.len();
    assert(pos + len <= total);
    let mut w = w;
    let ghost t0 = w.task;
    let ghost blob = body@.subrange(pos as int, body@.len() as int);
    match w.room::<C>() {
        Some(dst) => {
            fill(dst, data, pos);
            assert(dst@ =~= blob);
        },
        None => {
            let (finished, _) = w.refused::<C>();
            return BodyRead { finished, used: pos + len };
        },
    }
    assert(with_blob::<C, T>(t0, w.task, blob));
    BodyRead { finished: w.read(codec), used: pos + len }
}

/// Fills `dst` from `src`, starting at `pos`.
fn fill(dst: &mut [u8], src: &[u8], pos: usize)
    requires
        pos + old(dst)@.len() <= src@.len(),
    ensures
        final(dst)@ == src@.subrange(pos as int, pos + old(dst)@.len()),
{
    let len: usize = dst.len();
    let total: usize = src.len();
    let mut i: usize = 0;
    while i < len
        invariant
            i <= len == dst@.len(),
            len == old(dst)@.len(),
            pos + len <= src@.len() == total,
            forall|j: int| 0 <= j < i ==> dst@[j] == src@[pos + j],
        decreases len - i,
    {
        dst[i] = src[pos + i];
        i += 1;
    }
    assert(dst@ =~= src@.subrange(pos as int, pos + len));
}

/// A copy of `len` bytes of `src`, starting at `pos`.
fn take_vec(src: &[u8], pos: usize, len: usize) -> (r: Vec<u8>)
    requires
        pos + len <= src@.len(),
    ensures
        r@ == src@.subrange(pos as int, pos + len),
{
    let total: usize = src.len();
    assert(pos + len <= total);
    let mut r: Vec<u8> = Vec::new();
    r.extend_from_slice(vstd::slice::slice_subrange(src, pos, pos + len));
    assert(r@ =~= src@.subrange(pos as int, pos + len));
    r
}

/// What a client finds in the response to an answer.
pub open spec fn expected_content(parts: RespSpec) -> RespContent {
    match parts {
        Ok((m, b)) => if RespHead::fits(m, b) {
            RespContent::Answer {
                msg: m,
                blob: match b {
                    Some(b) => b,
                    None => Seq::empty(),
                },
            }
        } else {
            RespContent::Error(ErrSpec::Rpc(RpcIntErr::Encode))
        },
        Err(ErrSpec::Bytes(s)) => RespContent::Error(error_string(s)),
        Err(e) => RespContent::Error(e),
    }
}

/// Everything that a server writes for an answer.
pub open spec fn response_bytes(seq: u64, parts: RespSpec) -> Seq<u8> {
    RespHead::frame(seq, parts) + match RespHead::frame_blob(parts) {
        Some(b) => b,
        None => Seq::empty(),
    }
}

/// The name of a framework error is read as that error.
pub proof fn lemma_error_string(e: RpcIntErr)
    ensures
        error_string(e.name_bytes()) == ErrSpec::Rpc(e),
{
    let x = choose|x: RpcIntErr| #[trigger] x.name_bytes() == e.name_bytes();
    lemma_names_are_distinct(x, e);
}

/// A response arrives as it was sent: its head is valid and carries the ID of the request,
/// the body has the length that the head gives, and holds the message and the blob, or the
/// error, of the answer. An answer that does not fit arrives as the error `Encode`.
pub proof fn lemma_response_round_trip(seq: u64, parts: RespSpec, rest: Seq<u8>)
    requires
        parts matches Err(ErrSpec::Bytes(s)) ==> s.len() <= i32::MAX,
    ensures
        ({
            let data = response_bytes(seq, parts) + rest;
            let head = RespHead::parse(data.subrange(0, RPC_RESP_HEADER_LEN as int));
            let end = RPC_RESP_HEADER_LEN + body_len(head);
            &&& data.len() >= end
            &&& checked_head(head, head.magic, head.ver) == Ok::<RespHead, RpcIntErr>(head)
            &&& head_known(head)
            &&& head.seq == seq
            &&& content(head, data.subrange(RPC_RESP_HEADER_LEN as int, end as int))
                == expected_content(parts)
            &&& data.subrange(end as int, data.len() as int) == rest
        }),
{
    match parts {
        Ok((m, b)) => {
            let blob = match b {
                Some(b) => b,
                None => Seq::empty(),
            };
            if RespHead::fits(m, b) {
                let head = RespHead::spec_new(0, seq, m.len() as u32, blob.len() as i32);
                let body = m + blob;
                lemma_layout(head, body, rest);
                lemma_concat(head.bytes(), m, blob);
                assert(body.subrange(0, m.len() as int) =~= m);
                assert(body.subrange(m.len() as int, body.len() as int) =~= blob);
            } else {
                lemma_names_are_distinct(RpcIntErr::Encode, RpcIntErr::Encode);
                lemma_error_layout(seq, RpcIntErr::Encode.name_bytes(), rest);
                lemma_error_string(RpcIntErr::Encode);
            }
        },
        Err(ErrSpec::Num(n)) => {
            let head = RespHead::spec_new(RESP_FLAG_HAS_ERRNO, seq, n, 0);
            lemma_layout(head, Seq::empty(), rest);
        },
        Err(ErrSpec::Rpc(e)) => {
            lemma_names_are_distinct(e, e);
            lemma_error_layout(seq, e.name_bytes(), rest);
            lemma_error_string(e);
        },
        Err(ErrSpec::Bytes(s)) => {
            lemma_error_layout(seq, s, rest);
        },
    }
}

proof fn lemma_concat(a: Seq<u8>, b: Seq<u8>, c: Seq<u8>)
    ensures
        a + b + c == a + (b + c),
{
    assert(a + b + c =~= a + (b + c));
}

/// Where the head, the body and what follows stand.
proof fn lemma_layout(head: RespHead, body: Seq<u8>, rest: Seq<u8>)
    requires
        body.len() == body_len(head),
    ensures
        ({
            let data = head.bytes() + body + rest;
            let end = RPC_RESP_HEADER_LEN + body_len(head);
            &&& data.len() >= end
            &&& RespHead::parse(data.subrange(0, RPC_RESP_HEADER_LEN as int)) == head
            &&& data.subrange(RPC_RESP_HEADER_LEN as int, end as int) == body
            &&& data.subrange(end as int, data.len() as int) == rest
        }),
{
    head.lemma_round_trip();
    lemma_cut(head.bytes(), body, rest);
}

proof fn lemma_cut(a: Seq<u8>, b: Seq<u8>, c: Seq<u8>)
    ensures
        ({
            let d = a + b + c;
            let i = a.len() as int;
            let j = (a.len() + b.len()) as int;
            &&& d.subrange(0, i) == a
            &&& d.subrange(i, j) == b
            &&& d.subrange(j, d.len() as int) == c
        }),
{
    let d = a + b + c;
    let i = a.len() as int;
    let j = (a.len() + b.len()) as int;
    assert(d.subrange(0, i) =~= a);
    assert(d.subrange(i, j) =~= b);
    assert(d.subrange(j, d.len() as int) =~= c);
}

/// The layout of a response that carries an error string.
proof fn lemma_error_layout(seq: u64, s: Seq<u8>, rest: Seq<u8>)
    requires
        s.len() <= i32::MAX,
    ensures
        ({
            let data = RespHead::error_frame(seq, ErrSpec::Bytes(s)) + Seq::<u8>::empty() + rest;
            let head = RespHead::spec_new(RESP_FLAG_HAS_ERR_STRING, seq, 0, s.len() as i32);
            let end = RPC_RESP_HEADER_LEN + body_len(head);
            &&& data.len() >= end
            &&& body_len(head) == s.len()
            &&& RespHead::parse(data.subrange(0, RPC_RESP_HEADER_LEN as int)) == head
            &&& data.subrange(RPC_RESP_HEADER_LEN as int, end as int) == s
            &&& data.subrange(end as int, data.len() as int) == rest
        }),
{
    let head = RespHead::spec_new(RESP_FLAG_HAS_ERR_STRING, seq, 0, s.len() as i32);
    lemma_layout(head, s, rest);
    lemma_concat(head.bytes(), s, Seq::empty());
    assert(s + Seq::<u8>::empty() =~= s);
}

} // verus!
