//! Reading a request from a stream of bytes.
//!
//! A request comes in up to four pieces: the head, the name of the action, the message and
//! the blob. [`ReqReader`] says how many bytes the next piece has, takes them, and ends with
//! the request or with the error that closes the connection.

use crate::buffer::{
    blob_bytes, buffer_alloc, buffer_bytes, buffer_copy_from, buffer_mutable,
};
use crate::error::{str_from_utf8, RpcIntErr};
use crate::proto::{
    action_bytes, action_flag, checked_head, ActionSpec, ReqHead, RpcAction, RpcActionOwned,
    RPC_REQ_HEADER_LEN,
};
use io_buffer::Buffer;
use vstd::prelude::*;
use vstd::utf8::{decode_utf8, encode_utf8, valid_utf8};

verus! {

/// A request as the server sees it.
pub struct ReqSpec {
    pub seq: u64,
    pub action: ActionSpec,
    pub msg: Seq<u8>,
    pub blob: Option<Seq<u8>>,
}

/// A request that was read, with the buffers that it was read into.
#[derive(Debug)]
pub struct ReqBuf {
    pub seq: u64,
    pub action: RpcActionOwned,
    pub msg: Vec<u8>,
    pub blob: Option<Buffer>,
}

impl View for ReqBuf {
    type V = ReqSpec;

    open spec fn view(&self) -> ReqSpec {
        ReqSpec {
            seq: self.seq,
            action: self.action@,
            msg: self.msg@,
            blob: blob_bytes(self.blob),
        }
    }
}

/// A request, borrowed from the buffers that it was read into. What is needed of `action`
/// and `msg` is to be parsed or copied before the next request is read.
#[derive(Debug)]
pub struct RpcSvrReq<'a> {
    pub seq: u64,
    pub action: RpcAction<'a>,
    pub msg: &'a [u8],
    pub blob: Option<Buffer>,
}

impl<'a> View for RpcSvrReq<'a> {
    type V = ReqSpec;

    open spec fn view(&self) -> ReqSpec {
        ReqSpec {
            seq: self.seq,
            action: self.action@,
            msg: self.msg@,
            blob: blob_bytes(self.blob),
        }
    }
}

impl ReqBuf {
    /// The request for a dispatcher. The blob moves out.
    pub fn as_req<'a>(&'a mut self) -> (r: RpcSvrReq<'a>)
        ensures
            r@ == old(self)@,
            r.blob == old(self).blob,
            *final(self) == (ReqBuf { blob: None, ..*old(self) }),
    {
        let blob = self.blob.take();
        RpcSvrReq { seq: self.seq, action: self.action.to_action(), msg: self.msg.as_slice(), blob }
    }
}

/// The errors that a transport reports for what it cannot take.
#[derive(Clone, Copy, Debug, PartialEq, Eq, Structural)]
pub struct ReqErrors {
    /// The head is not one of this protocol.
    pub head: RpcIntErr,
    /// There is no memory for the blob.
    pub alloc: RpcIntErr,
}

/// Which piece of a request comes next, and what is known so far.
pub enum ReqPhase {
    Head,
    Action { head: ReqHead },
    Msg { head: ReqHead, action: ActionSpec },
    Blob { head: ReqHead, action: ActionSpec, msg: Seq<u8> },
}

/// Where taking a piece leads.
pub enum ReqNext {
    /// Another piece is needed.
    More(ReqPhase),
    /// A buffer for the blob is needed, and then the blob.
    Alloc { head: ReqHead, action: ActionSpec, msg: Seq<u8> },
    Done(ReqSpec),
    Fail(RpcIntErr),
}

impl ReqPhase {
    /// The length of the piece that comes next.
    pub open spec fn need(self) -> nat {
        match self {
            ReqPhase::Head => RPC_REQ_HEADER_LEN as nat,
            ReqPhase::Action { head } => match head.spec_get_action() {
                Ok(_) => 0,
                Err(len) => len as nat,
            },
            ReqPhase::Msg { head, .. } => head.msg_len as nat,
            ReqPhase::Blob { head, .. } => head.blob_len as nat,
        }
    }

    /// What follows once the message is there. A blob length that is not a positive `i32`
    /// stands for no blob.
    pub open spec fn after_msg(head: ReqHead, action: ActionSpec, msg: Seq<u8>) -> ReqNext {
        if 0 < head.blob_len <= i32::MAX {
            ReqNext::Alloc { head, action, msg }
        } else {
            ReqNext::Done(ReqSpec { seq: head.seq, action, msg, blob: None })
        }
    }

    /// What follows once the action is there.
    pub open spec fn after_action(head: ReqHead, action: ActionSpec) -> ReqNext {
        if head.msg_len > 0 {
            ReqNext::More(ReqPhase::Msg { head, action })
        } else {
            ReqPhase::after_msg(head, action, Seq::empty())
        }
    }

    /// What follows once `data`, the piece that was needed, is there.
    pub open spec fn next(self, errs: ReqErrors, data: Seq<u8>) -> ReqNext {
        match self {
            ReqPhase::Head => {
                let head = ReqHead::parse(data);
                match checked_head(head, head.magic, head.ver) {
                    Err(_) => ReqNext::Fail(errs.head),
                    Ok(head) => match head.spec_get_action() {
                        Ok(n) => ReqPhase::after_action(head, ActionSpec::Num(n)),
                        Err(_) => ReqNext::More(ReqPhase::Action { head }),
                    },
                }
            },
            ReqPhase::Action { head } => if valid_utf8(data) {
                ReqPhase::after_action(head, ActionSpec::Str(decode_utf8(data)))
            } else {
                ReqNext::Fail(RpcIntErr::Decode)
            },
            ReqPhase::Msg { head, action } => ReqPhase::after_msg(head, action, data),
            ReqPhase::Blob { head, action, msg } => ReqNext::Done(
                ReqSpec { seq: head.seq, action, msg, blob: Some(data) },
            ),
        }
    }
}

/// What a reader holds.
enum Phase {
    Head,
    Action(ReqHead),
    Msg(ReqHead, RpcActionOwned),
    Blob(ReqHead, RpcActionOwned, Vec<u8>, Buffer),
}

/// Takes a request piece by piece.
pub struct ReqReader {
    errs: ReqErrors,
    phase: Phase,
}

/// A request that lacks only a buffer for its blob.
pub struct BlobWanted {
    errs: ReqErrors,
    head: ReqHead,
    action: RpcActionOwned,
    msg: Vec<u8>,
}

/// Where a reader got to.
pub enum ReqStep {
    More(ReqReader),
    Done(ReqBuf),
    Fail(RpcIntErr),
}

/// Where a reader got to, before it looked for memory.
pub enum ReqProgress {
    More(ReqReader),
    Alloc(BlobWanted),
    Done(ReqBuf),
    Fail(RpcIntErr),
}

impl ReqProgress {
    /// Whether this is the progress that `next` describes.
    pub open spec fn is_next(self, errs: ReqErrors, next: ReqNext) -> bool {
        match next {
            ReqNext::More(p) => {
                &&& self matches ReqProgress::More(reader)
                &&& reader.wf()
                &&& reader@ == p
                &&& reader.errors() == errs
            },
            ReqNext::Alloc { head, action, msg } => {
                &&& self matches ReqProgress::Alloc(w)
                &&& w.wf()
                &&& w@ == (head, action, msg)
                &&& w.errors() == errs
            },
            ReqNext::Done(req) => self matches ReqProgress::Done(r) && r@ == req,
            ReqNext::Fail(e) => self == ReqProgress::Fail(e),
        }
    }
}

impl View for BlobWanted {
    type V = (ReqHead, ActionSpec, Seq<u8>);

    closed spec fn view(&self) -> (ReqHead, ActionSpec, Seq<u8>) {
        (self.head, self.action@, self.msg@)
    }
}

impl BlobWanted {
    pub closed spec fn errors(&self) -> ReqErrors {
        self.errs
    }

    /// There is a blob.
    pub closed spec fn wf(&self) -> bool {
        0 < self.head.blob_len <= i32::MAX
    }

    /// The length of the blob.
    pub fn size(&self) -> (r: i32)
        requires
            self.wf(),
        ensures
            r == self@.0.blob_len,
            r > 0,
    {
        self.head.blob_len as i32
    }

    /// Goes on with the buffer that was allocated, or fails where there was none.
    pub fn with_buffer(self, buf: Option<Buffer>) -> (r: ReqStep)
        requires
            buf matches Some(b) ==> buffer_mutable(b) && buffer_bytes(b).len()
                == self@.0.blob_len,
        ensures
            match buf {
                Some(_) => {
                    &&& r matches ReqStep::More(reader)
                    &&& reader.wf()
                    &&& reader@ == (ReqPhase::Blob { head: self@.0, action: self@.1, msg: self@.2 })
                    &&& reader.errors() == self.errors()
                },
                None => r == ReqStep::Fail(self.errors().alloc),
            },
    {
        match buf {
            Some(b) => ReqStep::More(
                ReqReader {
                    errs: self.errs,
                    phase: Phase::Blob(self.head, self.action, self.msg, b),
                },
            ),
            None => ReqStep::Fail(self.errs.alloc),
        }
    }
}

impl View for ReqReader {
    type V = ReqPhase;

    closed spec fn view(&self) -> ReqPhase {
        match self.phase {
            Phase::Head => ReqPhase::Head,
            Phase::Action(head) => ReqPhase::Action { head },
            Phase::Msg(head, action) => ReqPhase::Msg { head, action: action@ },
            Phase::Blob(head, action, msg, _) => ReqPhase::Blob {
                head,
                action: action@,
                msg: msg@,
            },
        }
    }
}

impl ReqReader {
    /// The errors that this reader reports.
    pub closed spec fn errors(&self) -> ReqErrors {
        self.errs
    }

    /// The pieces fit the head.
    pub closed spec fn wf(&self) -> bool {
        match self.phase {
            Phase::Blob(head, _, _, b) => buffer_mutable(b) && buffer_bytes(b).len()
                == head.blob_len,
            _ => true,
        }
    }

    /// A reader at the start of a request, which reports `head` for a head that is not one of
    /// this protocol, and `alloc` where there is no memory for the blob.
    pub fn new(head: RpcIntErr, alloc: RpcIntErr) -> (r: ReqReader)
        ensures
            r.wf(),
            r@ == ReqPhase::Head,
            r.errors() == (ReqErrors { head, alloc }),
    {
        ReqReader { errs: ReqErrors { head, alloc }, phase: Phase::Head }
    }

    /// A reader for TCP and Unix sockets.
    pub fn tcp() -> (r: ReqReader)
        ensures
            r.wf(),
            r@ == ReqPhase::Head,
            r.errors() == (ReqErrors { head: RpcIntErr::Decode, alloc: RpcIntErr::Decode }),
    {
        ReqReader::new(RpcIntErr::Decode, RpcIntErr::Decode)
    }

    /// A reader for QUIC streams.
    pub fn quic() -> (r: ReqReader)
        ensures
            r.wf(),
            r@ == ReqPhase::Head,
            r.errors() == (ReqErrors { head: RpcIntErr::Decode, alloc: RpcIntErr::Encode }),
    {
        ReqReader::new(RpcIntErr::Decode, RpcIntErr::Encode)
    }

    /// How many bytes to read next.
    pub fn need(&self) -> (r: usize)
        ensures
            r == self@.need(),
    {
        match &self.phase {
            Phase::Head => RPC_REQ_HEADER_LEN,
            Phase::Action(head) => match head.get_action() {
                Ok(_) => 0,
                Err(len) => len as usize,
            },
            Phase::Msg(head, _) => head.msg_len as usize,
            Phase::Blob(head, _, _, _) => head.blob_len as usize,
        }
    }

    /// The error to report where reading failed: `Timeout` where nothing came while the
    /// connection was idle or it is being closed, `IO` for anything else.
    pub fn read_failed(&self, cancelled: bool) -> (r: RpcIntErr)
        ensures
            r == if self@ is Head && cancelled {
                RpcIntErr::Timeout
            } else {
                RpcIntErr::IO
            },
    {
        match &self.phase {
            Phase::Head => if cancelled {
                RpcIntErr::Timeout
            } else {
                RpcIntErr::IO
            },
            _ => RpcIntErr::IO,
        }
    }

    fn after_msg(
        errs: ReqErrors,
        head: ReqHead,
        action: RpcActionOwned,
        msg: Vec<u8>,
    ) -> (r: ReqProgress)
        ensures
            r.is_next(errs, ReqPhase::after_msg(head, action@, msg@)),
    {
        let len: u32 = head.blob_len;
        assert((0 < len <= 0x7fff_ffff) == (len as i32 > 0)) by (bit_vector);
        if len as i32 > 0 {
            ReqProgress::Alloc(BlobWanted { errs, head, action, msg })
        } else {
            ReqProgress::Done(ReqBuf { seq: head.seq, action, msg, blob: None })
        }
    }

    fn after_action(errs: ReqErrors, head: ReqHead, action: RpcActionOwned) -> (r: ReqProgress)
        ensures
            r.is_next(errs, ReqPhase::after_action(head, action@)),
    {
        if head.msg_len > 0 {
            ReqProgress::More(ReqReader { errs, phase: Phase::Msg(head, action) })
        } else {
            let msg: Vec<u8> = Vec::new();
            assert(msg@ =~= Seq::<u8>::empty());
            Self::after_msg(errs, head, action, msg)
        }
    }

    /// Takes the bytes that were needed.
    pub fn advance(self, data: &[u8]) -> (r: ReqProgress)
        requires
            self.wf(),
            data@.len() == self@.need(),
        ensures
            r.is_next(self.errors(), self@.next(self.errors(), data@)),
    {
        let errs = self.errs;
        match self.phase {
            Phase::Head => match ReqHead::decode_head(data) {
                Err(_) => ReqProgress::Fail(errs.head),
                Ok(head) => match head.get_action() {
                    Ok(num) => Self::after_action(errs, head, RpcActionOwned::Num(num)),
                    Err(_) => ReqProgress::More(ReqReader { errs, phase: Phase::Action(head) }),
                },
            },
            Phase::Action(head) => match str_from_utf8(data) {
                Ok(s) => {
                    proof {
                        vstd::utf8::encode_utf8_decode_utf8(s@);
                    }
                    Self::after_action(errs, head, RpcActionOwned::Str(s.to_owned()))
                },
                Err(_) => ReqProgress::Fail(RpcIntErr::Decode),
            },
            Phase::Msg(head, action) => {
                let msg = copy_bytes(data);
                Self::after_msg(errs, head, action, msg)
            },
            Phase::Blob(head, action, msg, mut buf) => {
                buffer_copy_from(&mut buf, data);
                ReqProgress::Done(ReqBuf { seq: head.seq, action, msg, blob: Some(buf) })
            },
        }
    }
}

impl ReqReader {
    /// Takes the bytes that were needed, and a buffer for the blob where one is called for.
    pub fn feed(self, data: &[u8]) -> (r: ReqStep)
        requires
            self.wf(),
            data@.len() == self@.need(),
        ensures
            match self@.next(self.errors(), data@) {
                ReqNext::More(p) => {
                    &&& r matches ReqStep::More(reader)
                    &&& reader.wf()
                    &&& reader@ == p
                    &&& reader.errors() == self.errors()
                },
                ReqNext::Alloc { head, action, msg } => {
                    ||| r == ReqStep::Fail(self.errors().alloc)
                    ||| {
                        &&& r matches ReqStep::More(reader)
                        &&& reader.wf()
                        &&& reader@ == (ReqPhase::Blob { head, action, msg })
                        &&& reader.errors() == self.errors()
                    }
                },
                ReqNext::Done(req) => r matches ReqStep::Done(b) && b@ == req,
                ReqNext::Fail(e) => r == ReqStep::Fail(e),
            },
    {
        match self.advance(data) {
            ReqProgress::More(reader) => ReqStep::More(reader),
            ReqProgress::Alloc(w) => {
                let buf = buffer_alloc(w.size());
                w.with_buffer(buf)
            },
            ReqProgress::Done(req) => ReqStep::Done(req),
            ReqProgress::Fail(e) => ReqStep::Fail(e),
        }
    }
}

/// What reading a request from a stream comes to.
pub enum ReqOutcome {
    /// The stream ends inside the request.
    Short,
    Fail(RpcIntErr),
    /// The request, and what follows it in the stream.
    Done(ReqSpec, Seq<u8>),
}

impl ReqPhase {
    /// How many pieces may still come.
    pub open spec fn pieces(self) -> nat {
        match self {
            ReqPhase::Head => 3,
            ReqPhase::Action { .. } => 2,
            ReqPhase::Msg { .. } => 1,
            ReqPhase::Blob { .. } => 0,
        }
    }

    /// What reading on from `data` comes to, where there is memory for a blob or not.
    #[verifier::opaque]
    pub open spec fn run(self, errs: ReqErrors, data: Seq<u8>, memory: bool) -> ReqOutcome
        decreases self.pieces(),
    {
        let need = self.need() as int;
        if data.len() < need {
            ReqOutcome::Short
        } else {
            let rest = data.subrange(need, data.len() as int);
            match self.next(errs, data.subrange(0, need)) {
                ReqNext::More(p) => p.run(errs, rest, memory),
                ReqNext::Alloc { head, action, msg } => if memory {
                    (ReqPhase::Blob { head, action, msg }).run(errs, rest, memory)
                } else {
                    ReqOutcome::Fail(errs.alloc)
                },
                ReqNext::Done(req) => ReqOutcome::Done(req, rest),
                ReqNext::Fail(e) => ReqOutcome::Fail(e),
            }
        }
    }
}

/// What reading a request from a buffer came to.
pub enum ReqRead {
    /// The buffer ends inside the request.
    Short,
    Fail(RpcIntErr),
    /// The request, and how many bytes it took.
    Done(ReqBuf, usize),
}

impl ReqRead {
    /// Whether this is the outcome `o` of reading from `data`.
    pub open spec fn is_outcome(self, o: ReqOutcome, data: Seq<u8>) -> bool {
        match o {
            ReqOutcome::Short => self is Short,
            ReqOutcome::Fail(e) => self == ReqRead::Fail(e),
            ReqOutcome::Done(req, rest) => {
                &&& self matches ReqRead::Done(b, n)
                &&& b@ == req
                &&& n <= data.len()
                &&& rest == data.subrange(n as int, data.len() as int)
            },
        }
    }
}

/// Reads a request from the start of a buffer. Whether there is memory for a blob is not
/// known beforehand; the outcome is one of the two that this leaves.
pub fn read_req_from(reader: ReqReader, data: &[u8]) -> (r: ReqRead)
    requires
        reader.wf(),
    ensures
        ({
            ||| r.is_outcome(reader@.run(reader.errors(), data@, true), data@)
            ||| r.is_outcome(reader@.run(reader.errors(), data@, false), data@)
        }),
{
    let ghost errs = reader.errors();
    let ghost start = reader@;
    let mut pos: usize = 0;
    let mut cur = reader;
    proof {
        assert(data@.subrange(0, data@.len() as int) =~= data@);
    }
    loop
        invariant
            errs == reader.errors(),
            start == reader@,
            cur.wf(),
            cur.errors() == errs,
            pos <= data@.len(),
            cur@.run(errs, data@.subrange(pos as int, data@.len() as int), true) == start.run(
                errs,
                data@,
                true,
            ),
            cur@ is Blob || cur@.run(errs, data@.subrange(pos as int, data@.len() as int), false)
                == start.run(errs, data@, false),
        decreases cur@.pieces(),
    {
        proof {
            reveal_with_fuel(ReqPhase::run, 1);
        }
        let need: usize = cur.need();
        let ghost left = data@.subrange(pos as int, data@.len() as int);
        if data.len() - pos < need {
            return ReqRead::Short;
        }
        let piece = vstd::slice::slice_subrange(data, pos, pos + need);
        assert(piece@ =~= left.subrange(0, need as int));
        assert(left.subrange(need as int, left.len() as int) =~= data@.subrange(
            pos + need,
            data@.len() as int,
        ));
        pos = pos + need;
        match cur.feed(piece) {
            ReqStep::More(next) => {
                cur = next;
            },
            ReqStep::Done(req) => {
                return ReqRead::Done(req, pos);
            },
            ReqStep::Fail(e) => {
                return ReqRead::Fail(e);
            },
        }
    }
}

/// Whether the head can tell an action from every other: a number is not negative, and the
/// length of a name leaves the highest bit free.
pub open spec fn action_fits(action: ActionSpec) -> bool {
    match action {
        ActionSpec::Num(n) => n >= 0,
        ActionSpec::Str(s) => encode_utf8(s).len() < 0x8000_0000,
    }
}

/// The bytes of a blob on the wire.
pub open spec fn blob_on_wire(blob: Option<Seq<u8>>) -> Seq<u8> {
    match blob {
        Some(b) => b,
        None => Seq::empty(),
    }
}

/// What a server makes of a blob: an empty one is none.
pub open spec fn blob_received(blob: Option<Seq<u8>>) -> Option<Seq<u8>> {
    match blob {
        Some(b) => if b.len() > 0 {
            Some(b)
        } else {
            None
        },
        None => None,
    }
}

/// A request arrives as it was sent: reading what `ReqHead::encode` wrote, followed by the
/// blob, gives the same ID, action, message and blob, and stops where the request ends.
pub proof fn lemma_request_round_trip(
    errs: ReqErrors,
    client_id: u64,
    seq: u64,
    action: ActionSpec,
    msg: Seq<u8>,
    blob: Option<Seq<u8>>,
    rest: Seq<u8>,
)
    requires
        action_fits(action),
        ReqHead::frame(client_id, seq, action, Some(msg), blob) is Some,
    ensures
        ReqPhase::Head.run(
            errs,
            ReqHead::frame(client_id, seq, action, Some(msg), blob)->Some_0 + blob_on_wire(blob)
                + rest,
            true,
        ) == ReqOutcome::Done(ReqSpec { seq, action, msg, blob: blob_received(blob) }, rest),
{
    let bl = blob_on_wire(blob);
    let name = action_bytes(action);
    let head = ReqHead::spec_new(
        client_id,
        action_flag(action),
        seq,
        msg.len() as u32,
        bl.len() as u32,
    );
    let data = ReqHead::frame(client_id, seq, action, Some(msg), blob)->Some_0 + bl + rest;
    head.lemma_round_trip();
    lemma_concat(head.bytes(), name, msg, bl, rest);
    lemma_run_from_head(errs, head.bytes(), head, action, msg, bl, rest);
}

proof fn lemma_concat(a: Seq<u8>, b: Seq<u8>, c: Seq<u8>, d: Seq<u8>, e: Seq<u8>)
    ensures
        a + b + c + d + e == a + (b + (c + d + e)),
{
    assert(a + b + c + d + e =~= a + (b + (c + d + e)));
}

/// Reading a request that starts with the bytes `hb` of a valid head.
proof fn lemma_run_from_head(
    errs: ReqErrors,
    hb: Seq<u8>,
    head: ReqHead,
    action: ActionSpec,
    msg: Seq<u8>,
    bl: Seq<u8>,
    rest: Seq<u8>,
)
    requires
        hb.len() == RPC_REQ_HEADER_LEN,
        ReqHead::parse(hb) == head,
        checked_head(head, head.magic, head.ver) is Ok,
        action_fits(action),
        head.action == action_flag(action),
        head.msg_len == msg.len(),
        head.blob_len == bl.len() <= i32::MAX,
    ensures
        ReqPhase::Head.run(errs, hb + (action_bytes(action) + (msg + bl + rest)), true)
            == ReqOutcome::Done(
            ReqSpec { seq: head.seq, action, msg, blob: blob_received(Some(bl)) },
            rest,
        ),
{
    let name = action_bytes(action);
    let tail = msg + bl + rest;
    let data = hb + (name + tail);
    reveal_with_fuel(ReqPhase::run, 1);
    lemma_action_flag(action);
    assert(data.subrange(0, 32) =~= hb);
    assert(data.subrange(32, data.len() as int) =~= name + tail);
    match action {
        ActionSpec::Num(n) => {
            assert(name + tail =~= tail);
            lemma_run_after_action(errs, ReqPhase::Head, head, action, data, msg, bl, rest);
        },
        ActionSpec::Str(s) => {
            vstd::utf8::encode_utf8_valid_utf8(s);
            vstd::utf8::encode_utf8_decode_utf8(s);
            let phase = ReqPhase::Action { head };
            assert((name + tail).subrange(0, name.len() as int) =~= name);
            assert((name + tail).subrange(name.len() as int, (name + tail).len() as int) =~= tail);
            lemma_run_after_action(errs, phase, head, action, name + tail, msg, bl, rest);
        },
    }
}

/// Reading a message and a blob that have the lengths that the head gives.
proof fn lemma_run_after_action(
    errs: ReqErrors,
    phase: ReqPhase,
    head: ReqHead,
    action: ActionSpec,
    data: Seq<u8>,
    msg: Seq<u8>,
    bl: Seq<u8>,
    rest: Seq<u8>,
)
    requires
        head.msg_len == msg.len(),
        head.blob_len == bl.len() <= i32::MAX,
        phase is Head || phase is Action,
        phase.need() <= data.len(),
        data.subrange(phase.need() as int, data.len() as int) == msg + bl + rest,
        phase.next(errs, data.subrange(0, phase.need() as int)) == ReqPhase::after_action(
            head,
            action,
        ),
    ensures
        phase.run(errs, data, true) == ReqOutcome::Done(
            ReqSpec { seq: head.seq, action, msg, blob: blob_received(Some(bl)) },
            rest,
        ),
{
    reveal_with_fuel(ReqPhase::run, 1);
    let tail = msg + bl + rest;
    let after_msg = bl + rest;
    assert(tail.subrange(0, msg.len() as int) =~= msg);
    assert(tail.subrange(msg.len() as int, tail.len() as int) =~= after_msg);
    assert(after_msg.subrange(0, bl.len() as int) =~= bl);
    assert(after_msg.subrange(bl.len() as int, after_msg.len() as int) =~= rest);
    let done = ReqOutcome::Done(
        ReqSpec { seq: head.seq, action, msg, blob: blob_received(Some(bl)) },
        rest,
    );
    if bl.len() == 0 {
        assert(after_msg =~= rest);
    } else {
        assert((ReqPhase::Blob { head, action, msg }).run(errs, after_msg, true) == done);
    }
    if msg.len() == 0 {
        assert(msg =~= Seq::<u8>::empty());
        assert(tail =~= after_msg);
    } else {
        assert((ReqPhase::Msg { head, action }).run(errs, tail, true) == done);
    }
}

/// The head gives back the number of an action, or the length of its name.
pub proof fn lemma_action_flag(action: ActionSpec)
    requires
        action_fits(action),
    ensures
        forall|head: ReqHead|
            head.action == action_flag(action) ==> (#[trigger] head.spec_get_action() == match action {
                ActionSpec::Num(n) => Ok::<i32, i32>(n),
                ActionSpec::Str(s) => Err::<i32, i32>(encode_utf8(s).len() as i32),
            }),
{
    match action {
        ActionSpec::Num(n) => {},
        ActionSpec::Str(s) => {
            let len = encode_utf8(s).len() as u32;
            assert(len < 0x8000_0000u32 ==> len | 0x8000_0000u32 == len + 0x8000_0000u32)
                by (bit_vector);
        },
    }
}

/// A copy of `src`.
fn copy_bytes(src: &[u8]) -> (r: Vec<u8>)
    ensures
        r@ == src@,
{
    let mut r: Vec<u8> = Vec::new();
    r.extend_from_slice(src);
    assert(r@ =~= src@);
    r
}

} // verus!
