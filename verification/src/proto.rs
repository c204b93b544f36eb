//! The protocol.
//!
//! A request is a head of 32 bytes, then the name of the action where it has one, then the
//! structured message, then the blob:
//!
//! | Offset | Field       | Size | Description                               |
//! |--------|-------------|------|-------------------------------------------|
//! | 0      | `magic`     | 2B   | Magic number                              |
//! | 2      | `ver`       | 1B   | Protocol version                          |
//! | 3      | `format`    | 1B   | Format of the message                     |
//! | 4      | `action`    | 4B   | Number, or length of the name, of action  |
//! | 8      | `seq`       | 8B   | Increasing ID of the request              |
//! | 16     | `client_id` | 8B   | Client identifier                         |
//! | 24     | `msg_len`   | 4B   | Length of the structured message          |
//! | 28     | `blob_len`  | 4B   | Length of the unstructured message (blob) |
//!
//! A response is a head of 20 bytes, then the structured message, then the blob:
//!
//! | Offset | Field       | Size | Description                               |
//! |--------|-------------|------|-------------------------------------------|
//! | 0      | `magic`     | 2B   | Magic number                              |
//! | 2      | `ver`       | 1B   | Protocol version                          |
//! | 3      | `flag`      | 1B   | Whether and how an error is carried       |
//! | 4      | `seq`       | 8B   | ID of the request that it answers         |
//! | 12     | `msg_len`   | 4B   | Length of the structured message, or errno|
//! | 16     | `blob_len`  | 4B   | Length of the unstructured message (blob) |

use crate::client::task::ClientTask;
use crate::error::{EncodedErr, ErrSpec, RpcIntErr};
use crate::le::{
    from_le16, from_le32, from_le64, le16, le32, le64, lemma_le16_round_trip, lemma_le32_round_trip,
    lemma_le64_round_trip, u16_from_le, u16_to_le, u32_from_le, u32_to_le, u64_from_le, u64_to_le,
};
use crate::server::task::{RespSpec, ServerTaskEncode};
use crate::text::{decimal, push_decimal, push_signed, signed_decimal};
use vstd::prelude::*;
use vstd::utf8::encode_utf8;

verus! {

/// The action number of a ping.
pub const PING_ACTION: u32 = 0;

pub const RPC_MAGIC: u16 = 19749;

/// The bit of `action` that tells a name's length from a number.
pub const U32_HIGH_MASK: u32 = 0x8000_0000;

/// The response carries an error number in place of a message length.
pub const RESP_FLAG_HAS_ERRNO: u8 = 1;

/// The response carries an error string in place of a blob.
pub const RESP_FLAG_HAS_ERR_STRING: u8 = 2;

pub const RPC_VERSION_1: u8 = 1;

pub const RPC_REQ_HEADER_LEN: usize = 32;

pub const RPC_RESP_HEADER_LEN: usize = 20;

/// An action: a name, or a number.
pub enum ActionSpec {
    Str(Seq<char>),
    Num(i32),
}

/// The action that a request asks for.
#[derive(Debug, Clone, Copy, PartialEq)]
pub enum RpcAction<'a> {
    Str(&'a str),
    Num(i32),
}

/// The action that a request asks for, held without borrowing.
#[derive(Debug, Clone, PartialEq, Eq, Hash)]
pub enum RpcActionOwned {
    Str(String),
    Num(i32),
}

impl<'a> View for RpcAction<'a> {
    type V = ActionSpec;

    open spec fn view(&self) -> ActionSpec {
        match self {
            RpcAction::Str(s) => ActionSpec::Str(s@),
            RpcAction::Num(n) => ActionSpec::Num(*n),
        }
    }
}

/// What is told of an action, if anything.
pub open spec fn told_view(told: Option<RpcAction<'_>>) -> Option<ActionSpec> {
    match told {
        Some(a) => Some(a@),
        None => None,
    }
}

impl View for RpcActionOwned {
    type V = ActionSpec;

    open spec fn view(&self) -> ActionSpec {
        match self {
            RpcActionOwned::Str(s) => ActionSpec::Str(s@),
            RpcActionOwned::Num(n) => ActionSpec::Num(*n),
        }
    }
}

impl<'a> RpcAction<'a> {
    /// A copy that borrows nothing.
    pub fn to_owned_action(&self) -> (r: RpcActionOwned)
        ensures
            r@ == self@,
    {
        match self {
            RpcAction::Str(s) => RpcActionOwned::Str((*s).to_owned()),
            RpcAction::Num(n) => RpcActionOwned::Num(*n),
        }
    }
}

impl RpcActionOwned {
    pub fn to_action<'a>(&'a self) -> (r: RpcAction<'a>)
        ensures
            r@ == self@,
    {
        match self {
            RpcActionOwned::Str(s) => RpcAction::Str(s.as_str()),
            RpcActionOwned::Num(n) => RpcAction::Num(*n),
        }
    }
}

/// What the head says of an action: the number, or the length of the name with the highest
/// bit set.
pub open spec fn action_flag(action: ActionSpec) -> u32 {
    match action {
        ActionSpec::Num(n) => n as u32,
        ActionSpec::Str(s) => (encode_utf8(s).len() as u32) | U32_HIGH_MASK,
    }
}

/// What follows the head for an action.
pub open spec fn action_bytes(action: ActionSpec) -> Seq<u8> {
    match action {
        ActionSpec::Num(_) => Seq::empty(),
        ActionSpec::Str(s) => encode_utf8(s),
    }
}

/// Overwrites the bytes of `buf` from `pos` on with `src`.
fn overwrite(buf: &mut Vec<u8>, pos: usize, src: &[u8])
    requires
        pos + src@.len() <= old(buf)@.len(),
    ensures
        final(buf)@ == old(buf)@.subrange(0, pos as int) + src@ + old(buf)@.subrange(
            pos + src@.len(),
            old(buf)@.len() as int,
        ),
{
    let len: usize = buf.len();
    let mut i: usize = 0;
    while i < src.len()
        invariant
            i <= src@.len(),
            pos + src@.len() <= buf@.len() == len,
            buf@.len() == old(buf)@.len(),
            forall|j: int| 0 <= j < i ==> buf@[pos + j] == src@[j],
            forall|j: int|
                0 <= j < buf@.len() && !(pos <= j < pos + i) ==> buf@[j] == old(buf)@[j],
        decreases src@.len() - i,
    {
        buf[pos + i] = src[i];
        i += 1;
    }
    assert(buf@ =~= old(buf)@.subrange(0, pos as int) + src@ + old(buf)@.subrange(
        pos + src@.len(),
        old(buf)@.len() as int,
    ));
}

/// Fills `buf` with `len` zeros, the room for a head.
fn reset(buf: &mut Vec<u8>, len: usize)
    ensures
        final(buf)@.len() == len,
{
    buf.clear();
    buf.resize(len, 0);
}

/// Fixed-length head of a request.
#[derive(Debug, Clone, Copy, PartialEq, Eq, Structural)]
pub struct ReqHead {
    pub magic: u16,
    pub ver: u8,
    /// format of the message
    pub format: u8,
    /// If the highest bit is 0, the rest is the number of the action.
    ///
    /// If the highest bit is 1, the rest is the length of its name.
    pub action: u32,
    /// Increasing ID of the request on its connection
    pub seq: u64,
    pub client_id: u64,
    /// length of the structured message
    pub msg_len: u32,
    /// length of the blob
    pub blob_len: u32,
}

impl ReqHead {
    /// The head as it stands on the wire.
    pub open spec fn bytes(self) -> Seq<u8> {
        le16(self.magic) + seq![self.ver, self.format] + le32(self.action) + le64(self.seq) + le64(
            self.client_id,
        ) + le32(self.msg_len) + le32(self.blob_len)
    }

    /// The head that 32 bytes hold.
    pub open spec fn parse(b: Seq<u8>) -> ReqHead {
        ReqHead {
            magic: from_le16(b.subrange(0, 2)),
            ver: b[2],
            format: b[3],
            action: from_le32(b.subrange(4, 8)),
            seq: from_le64(b.subrange(8, 16)),
            client_id: from_le64(b.subrange(16, 24)),
            msg_len: from_le32(b.subrange(24, 28)),
            blob_len: from_le32(b.subrange(28, 32)),
        }
    }

    /// The head of a request of this version of the protocol.
    pub open spec fn spec_new(
        client_id: u64,
        action: u32,
        seq: u64,
        msg_len: u32,
        blob_len: u32,
    ) -> ReqHead {
        ReqHead {
            magic: RPC_MAGIC,
            ver: RPC_VERSION_1,
            format: 0,
            action,
            seq,
            client_id,
            msg_len,
            blob_len,
        }
    }

    /// A head is 32 bytes long, and reading it back gives the same head.
    pub proof fn lemma_round_trip(self)
        ensures
            self.bytes().len() == RPC_REQ_HEADER_LEN,
            ReqHead::parse(self.bytes()) == self,
    {
        lemma_le16_round_trip(self.magic);
        lemma_le32_round_trip(self.action);
        lemma_le64_round_trip(self.seq);
        lemma_le64_round_trip(self.client_id);
        lemma_le32_round_trip(self.msg_len);
        lemma_le32_round_trip(self.blob_len);
        let b = self.bytes();
        assert(b.subrange(0, 2) =~= le16(self.magic));
        assert(b.subrange(4, 8) =~= le32(self.action));
        assert(b.subrange(8, 16) =~= le64(self.seq));
        assert(b.subrange(16, 24) =~= le64(self.client_id));
        assert(b.subrange(24, 28) =~= le32(self.msg_len));
        assert(b.subrange(28, 32) =~= le32(self.blob_len));
    }

    fn write_head(&self, buf: &mut Vec<u8>)
        requires
            old(buf)@.len() >= RPC_REQ_HEADER_LEN,
        ensures
            final(buf)@ == self.bytes() + old(buf)@.subrange(
                RPC_REQ_HEADER_LEN as int,
                old(buf)@.len() as int,
            ),
    {
        let ghost b0 = buf@;
        proof {
            self.lemma_round_trip();
        }
        overwrite(buf, 0, u16_to_le(self.magic).as_slice());
        buf[2] = self.ver;
        buf[3] = self.format;
        overwrite(buf, 4, u32_to_le(self.action).as_slice());
        overwrite(buf, 8, u64_to_le(self.seq).as_slice());
        overwrite(buf, 16, u64_to_le(self.client_id).as_slice());
        overwrite(buf, 24, u32_to_le(self.msg_len).as_slice());
        overwrite(buf, 28, u32_to_le(self.blob_len).as_slice());
        assert(buf@ =~= self.bytes() + b0.subrange(32, b0.len() as int));
    }

    /// Puts a ping into `buf`, in place of what was there.
    pub fn encode_ping(buf: &mut Vec<u8>, client_id: u64, seq: u64)
        ensures
            final(buf)@ == ReqHead::spec_new(client_id, PING_ACTION, seq, 0, 0).bytes(),
    {
        reset(buf, RPC_REQ_HEADER_LEN);
        let head = ReqHead {
            magic: RPC_MAGIC,
            ver: RPC_VERSION_1,
            format: 0,
            action: PING_ACTION,
            seq,
            client_id,
            msg_len: 0,
            blob_len: 0,
        };
        head.write_head(buf);
        assert(buf@ =~= head.bytes());
    }

    /// The head, the action and the message of a request, as `encode` lays them out, or
    /// `None` where the request cannot be sent: it has no encoding, or a part of it is too
    /// long for its field in the head.
    pub open spec fn frame(
        client_id: u64,
        seq: u64,
        action: ActionSpec,
        msg: Option<Seq<u8>>,
        blob: Option<Seq<u8>>,
    ) -> Option<Seq<u8>> {
        let blob_len = match blob {
            Some(b) => b.len(),
            None => 0,
        };
        match msg {
            None => None,
            Some(m) => if m.len() > u32::MAX || blob_len > i32::MAX {
                None
            } else {
                Some(
                    ReqHead::spec_new(
                        client_id,
                        action_flag(action),
                        seq,
                        m.len() as u32,
                        blob_len as u32,
                    ).bytes() + action_bytes(action) + m,
                )
            },
        }
    }

    /// Puts the head, the action and the message of a request into `buf`, in place of what
    /// was there, and returns the blob that is to follow, if any.
    pub fn encode<'a, T: ClientTask<C>, C>(
        codec: &C,
        buf: &mut Vec<u8>,
        client_id: u64,
        task: &'a T,
    ) -> (r: Result<Option<&'a [u8]>, ()>)
        ensures
            match ReqHead::frame(
                client_id,
                task.common().seq,
                task.action(),
                task.req_msg(codec),
                task.req_blob(),
            ) {
                None => r is Err,
                Some(f) => {
                    &&& final(buf)@ == f
                    &&& r is Ok
                    &&& match task.req_blob() {
                        Some(b) => r->Ok_0 matches Some(s) && s@ == b,
                        None => r->Ok_0 is None,
                    }
                },
            },
    {
        // Leave room for the head: the length of the message is not known yet.
        reset(buf, RPC_REQ_HEADER_LEN);
        let ghost room = buf@;
        let flag: u32;
        match task.get_action() {
            RpcAction::Num(num) => {
                flag = num as u32;
            },
            RpcAction::Str(s) => {
                let name = s.as_bytes();
                flag = name.len() as u32 | U32_HIGH_MASK;
                push_bytes(buf, name);
            },
        }
        let ghost action = task.action();
        assert(flag == action_flag(action));
        assert(buf@ =~= room + action_bytes(action));
        let msg_len: usize = match task.encode_req(codec, buf) {
            Ok(len) => len,
            Err(_) => {
                return Err(());
            },
        };
        if msg_len > u32::MAX as usize {
            return Err(());
        }
        let blob: Option<&'a [u8]> = task.get_req_blob();
        let blob_len: usize = match blob {
            Some(b) => b.len(),
            None => 0,
        };
        if blob_len > i32::MAX as usize {
            return Err(());
        }
        let head = ReqHead {
            magic: RPC_MAGIC,
            ver: RPC_VERSION_1,
            format: 0,
            action: flag,
            seq: task.seq(),
            client_id,
            msg_len: msg_len as u32,
            blob_len: blob_len as u32,
        };
        let ghost body = buf@;
        head.write_head(buf);
        proof {
            let msg = task.req_msg(codec)->Some_0;
            assert(body =~= room + action_bytes(action) + msg);
            assert(buf@ =~= head.bytes() + action_bytes(action) + msg);
        }
        Ok(blob)
    }

    /// Reads a head. `IO` where it does not start with the magic number, `Version` where it
    /// is of another version.
    pub fn decode_head(head_buf: &[u8]) -> (r: Result<ReqHead, RpcIntErr>)
        requires
            head_buf@.len() == RPC_REQ_HEADER_LEN,
        ensures
            r == checked_head(
                ReqHead::parse(head_buf@),
                ReqHead::parse(head_buf@).magic,
                ReqHead::parse(head_buf@).ver,
            ),
    {
        let head = ReqHead {
            magic: u16_from_le(bytes2(head_buf, 0)),
            ver: head_buf[2],
            format: head_buf[3],
            action: u32_from_le(bytes4(head_buf, 4)),
            seq: u64_from_le(bytes8(head_buf, 8)),
            client_id: u64_from_le(bytes8(head_buf, 16)),
            msg_len: u32_from_le(bytes4(head_buf, 24)),
            blob_len: u32_from_le(bytes4(head_buf, 28)),
        };
        if head.magic != RPC_MAGIC {
            return Err(RpcIntErr::IO);
        }
        if head.ver != RPC_VERSION_1 {
            return Err(RpcIntErr::Version);
        }
        Ok(head)
    }

    /// The number of the action (`Ok`), or the length of its name (`Err`).
    pub open spec fn spec_get_action(self) -> Result<i32, i32> {
        if self.action < 0x8000_0000 {
            Ok(self.action as i32)
        } else {
            Err((self.action - 0x8000_0000) as i32)
        }
    }

    /// The number of the action (`Ok`), or the length of its name (`Err`).
    pub fn get_action(&self) -> (r: Result<i32, i32>)
        ensures
            r == self.spec_get_action(),
    {
        let action: u32 = self.action;
        assert((action & 0x8000_0000 == 0) == (action < 0x8000_0000)) by (bit_vector);
        if action & U32_HIGH_MASK == 0 {
            Ok(action as i32)
        } else {
            assert(action >= 0x8000_0000 ==> action ^ 0x8000_0000 == action - 0x8000_0000)
                by (bit_vector);
            let action_len: u32 = action ^ U32_HIGH_MASK;
            Err(action_len as i32)
        }
    }
}

impl ReqHead {
    /// The head in a message about it.
    pub fn to_text(&self) -> (r: String)
        ensures
            r@ == "[client_id:"@ + decimal(self.client_id as nat) + ", seq:"@ + decimal(
                self.seq as nat,
            ) + ", msg:"@ + decimal(self.msg_len as nat) + ", blob:"@ + decimal(
                self.blob_len as nat,
            ) + match self.spec_get_action() {
                Ok(num) => ", action:"@ + signed_decimal(num as int) + "]"@,
                Err(len) => "action_len:"@ + signed_decimal(len as int) + "]"@,
            },
    {
        let mut s: String = "[client_id:".to_owned();
        push_decimal(&mut s, self.client_id);
        s.append(", seq:");
        push_decimal(&mut s, self.seq);
        s.append(", msg:");
        push_decimal(&mut s, self.msg_len as u64);
        s.append(", blob:");
        push_decimal(&mut s, self.blob_len as u64);
        let ghost front = s@;
        match self.get_action() {
            Ok(num) => {
                s.append(", action:");
                push_signed(&mut s, num as i64);
                s.append("]");
                assert(s@ =~= front + (", action:"@ + signed_decimal(num as int) + "]"@));
            },
            Err(len) => {
                s.append("action_len:");
                push_signed(&mut s, len as i64);
                s.append("]");
                assert(s@ =~= front + ("action_len:"@ + signed_decimal(len as int) + "]"@));
            },
        }
        s
    }
}

/// Fixed-length head of a response.
#[derive(Debug, Clone, Copy, PartialEq, Eq, Structural)]
pub struct RespHead {
    pub magic: u16,
    pub ver: u8,
    /// when flag == RESP_FLAG_HAS_ERRNO: msg_len is an error number; blob_len = 0
    ///
    /// when flag == RESP_FLAG_HAS_ERR_STRING: msg_len = 0, and an error string of length
    /// blob_len follows
    pub flag: u8,
    /// ID of the request that is answered
    pub seq: u64,
    /// length of the structured message, or an error number
    pub msg_len: u32,
    /// length of the blob
    pub blob_len: i32,
}

impl RespHead {
    /// The head as it stands on the wire.
    pub open spec fn bytes(self) -> Seq<u8> {
        le16(self.magic) + seq![self.ver, self.flag] + le64(self.seq) + le32(self.msg_len) + le32(
            self.blob_len as u32,
        )
    }

    /// The head that 20 bytes hold.
    pub open spec fn parse(b: Seq<u8>) -> RespHead {
        RespHead {
            magic: from_le16(b.subrange(0, 2)),
            ver: b[2],
            flag: b[3],
            seq: from_le64(b.subrange(4, 12)),
            msg_len: from_le32(b.subrange(12, 16)),
            blob_len: from_le32(b.subrange(16, 20)) as i32,
        }
    }

    /// The head of a response of this version of the protocol.
    pub open spec fn spec_new(flag: u8, seq: u64, msg_len: u32, blob_len: i32) -> RespHead {
        RespHead { magic: RPC_MAGIC, ver: RPC_VERSION_1, flag, seq, msg_len, blob_len }
    }

    /// A head is 20 bytes long, and reading it back gives the same head.
    pub proof fn lemma_round_trip(self)
        ensures
            self.bytes().len() == RPC_RESP_HEADER_LEN,
            RespHead::parse(self.bytes()) == self,
    {
        let blob_len = self.blob_len;
        lemma_le16_round_trip(self.magic);
        lemma_le32_round_trip(self.msg_len);
        lemma_le64_round_trip(self.seq);
        lemma_le32_round_trip(self.blob_len as u32);
        assert((blob_len as u32) as i32 == blob_len) by (bit_vector);
        let b = self.bytes();
        assert(b.subrange(0, 2) =~= le16(self.magic));
        assert(b.subrange(4, 12) =~= le64(self.seq));
        assert(b.subrange(12, 16) =~= le32(self.msg_len));
        assert(b.subrange(16, 20) =~= le32(self.blob_len as u32));
    }

    fn write_head(buf: &mut Vec<u8>, flag: u8, seq: u64, msg_len: u32, blob_len: i32)
        requires
            old(buf)@.len() >= RPC_RESP_HEADER_LEN,
        ensures
            final(buf)@ == RespHead::spec_new(flag, seq, msg_len, blob_len).bytes() + old(
                buf,
            )@.subrange(RPC_RESP_HEADER_LEN as int, old(buf)@.len() as int),
    {
        let ghost b0 = buf@;
        let ghost head = RespHead::spec_new(flag, seq, msg_len, blob_len);
        proof {
            head.lemma_round_trip();
        }
        overwrite(buf, 0, u16_to_le(RPC_MAGIC).as_slice());
        buf[2] = RPC_VERSION_1;
        buf[3] = flag;
        overwrite(buf, 4, u64_to_le(seq).as_slice());
        overwrite(buf, 12, u32_to_le(msg_len).as_slice());
        overwrite(buf, 16, u32_to_le(blob_len as u32).as_slice());
        assert(buf@ =~= head.bytes() + b0.subrange(20, b0.len() as int));
    }

    /// A response that carries an error: a number stands in the head, anything else follows
    /// it as an error string.
    pub open spec fn error_frame(seq: u64, e: ErrSpec) -> Seq<u8> {
        match e {
            ErrSpec::Num(n) => RespHead::spec_new(RESP_FLAG_HAS_ERRNO, seq, n, 0).bytes(),
            ErrSpec::Rpc(e) => RespHead::spec_new(
                RESP_FLAG_HAS_ERR_STRING,
                seq,
                0,
                e.name_bytes().len() as i32,
            ).bytes() + e.name_bytes(),
            ErrSpec::Bytes(b) => RespHead::spec_new(
                RESP_FLAG_HAS_ERR_STRING,
                seq,
                0,
                b.len() as i32,
            ).bytes() + b,
        }
    }

    /// Whether an answer fits the fields of a head.
    pub open spec fn fits(m: Seq<u8>, b: Option<Seq<u8>>) -> bool {
        &&& m.len() <= u32::MAX
        &&& b matches Some(b) ==> b.len() <= i32::MAX
    }

    /// The head and the message, or the error, of a response. An answer that does not fit
    /// goes out as the error `Encode`.
    pub open spec fn frame(seq: u64, parts: RespSpec) -> Seq<u8> {
        match parts {
            Ok((m, b)) => if RespHead::fits(m, b) {
                let blob_len = match b {
                    Some(b) => b.len() as i32,
                    None => 0,
                };
                RespHead::spec_new(0, seq, m.len() as u32, blob_len).bytes() + m
            } else {
                RespHead::error_frame(seq, ErrSpec::Rpc(RpcIntErr::Encode))
            },
            Err(e) => RespHead::error_frame(seq, e),
        }
    }

    /// The blob that is to follow a response, if any.
    pub open spec fn frame_blob(parts: RespSpec) -> Option<Seq<u8>> {
        match parts {
            Ok((m, b)) => if RespHead::fits(m, b) {
                b
            } else {
                None
            },
            Err(e) => None,
        }
    }

    /// Puts the head and the message of the answer of `task`, or its error, into `buf`, in
    /// place of what was there. Returns the ID of the request that is answered, and the blob
    /// that is to follow, if any.
    pub fn encode<'a, C, T: ServerTaskEncode<C>>(
        codec: &C,
        buf: &mut Vec<u8>,
        task: &'a mut T,
    ) -> (r: (u64, Option<&'a [u8]>))
        requires
            old(task).has_result(),
        ensures
            r.0 == old(task).resp_seq(),
            final(buf)@ == RespHead::frame(r.0, old(task).resp_parts(codec)),
            match RespHead::frame_blob(old(task).resp_parts(codec)) {
                Some(b) => r.1 matches Some(s) && s@ == b,
                None => r.1 is None,
            },
    {
        // Leave room for the head: the length of the message is not known yet.
        reset(buf, RPC_RESP_HEADER_LEN);
        let ghost parts = task.resp_parts(codec);
        let (seq, res) = task.encode_resp(codec, buf);
        match res {
            Ok((msg_len, blob)) => {
                let blob_len: usize = match blob {
                    Some(b) => b.len(),
                    None => 0,
                };
                if msg_len > u32::MAX as usize || blob_len > i32::MAX as usize {
                    Self::encode_error(buf, seq, EncodedErr::Rpc(RpcIntErr::Encode));
                    return (seq, None);
                }
                let ghost body = buf@;
                Self::write_head(buf, 0, seq, msg_len as u32, blob_len as i32);
                proof {
                    let m = parts->Ok_0.0;
                    assert(body.subrange(20, body.len() as int) =~= m);
                }
                (seq, blob)
            },
            Err(e) => {
                Self::encode_error(buf, seq, e);
                (seq, None)
            },
        }
    }

    /// Puts a response of the framework itself into `buf`, in place of what was there: an
    /// error, or the answer to a ping where there is none. Returns `seq`.
    pub fn encode_internal(buf: &mut Vec<u8>, seq: u64, err: Option<RpcIntErr>) -> (r: u64)
        ensures
            r == seq,
            final(buf)@ == match err {
                Some(e) => RespHead::error_frame(seq, ErrSpec::Rpc(e)),
                None => RespHead::spec_new(0, seq, 0, 0).bytes(),
            },
    {
        match err {
            Some(e) => {
                Self::encode_error(buf, seq, EncodedErr::Rpc(e));
            },
            None => {
                // ping
                reset(buf, RPC_RESP_HEADER_LEN);
                Self::write_head(buf, 0, seq, 0, 0);
                assert(buf@ =~= RespHead::spec_new(0, seq, 0, 0).bytes());
            },
        }
        seq
    }

    /// Puts a response that carries `e` into `buf`, in place of what was there.
    fn encode_error(buf: &mut Vec<u8>, seq: u64, e: EncodedErr)
        ensures
            final(buf)@ == RespHead::error_frame(seq, e@),
    {
        reset(buf, RPC_RESP_HEADER_LEN);
        match e {
            EncodedErr::Num(n) => {
                Self::write_head(buf, RESP_FLAG_HAS_ERRNO, seq, n, 0);
                assert(buf@ =~= RespHead::error_frame(seq, e@));
            },
            EncodedErr::Rpc(s) => {
                Self::write_error_string(buf, seq, s.as_bytes());
            },
            EncodedErr::Buf(s) => {
                Self::write_error_string(buf, seq, s.as_slice());
            },
            EncodedErr::Static(s) => {
                Self::write_error_string(buf, seq, s.as_bytes());
            },
        }
    }

    fn write_error_string(buf: &mut Vec<u8>, seq: u64, s: &[u8])
        requires
            old(buf)@.len() == RPC_RESP_HEADER_LEN,
        ensures
            final(buf)@ == RespHead::error_frame(seq, ErrSpec::Bytes(s@)),
    {
        Self::write_head(buf, RESP_FLAG_HAS_ERR_STRING, seq, 0, s.len() as i32);
        push_bytes(buf, s);
        assert(buf@ =~= RespHead::error_frame(seq, ErrSpec::Bytes(s@)));
    }

    /// Reads a head. `IO` where it does not start with the magic number, `Version` where it
    /// is of another version.
    pub fn decode_head(head_buf: &[u8]) -> (r: Result<RespHead, RpcIntErr>)
        requires
            head_buf@.len() == RPC_RESP_HEADER_LEN,
        ensures
            r == checked_head(
                RespHead::parse(head_buf@),
                RespHead::parse(head_buf@).magic,
                RespHead::parse(head_buf@).ver,
            ),
    {
        let head = RespHead {
            magic: u16_from_le(bytes2(head_buf, 0)),
            ver: head_buf[2],
            flag: head_buf[3],
            seq: u64_from_le(bytes8(head_buf, 4)),
            msg_len: u32_from_le(bytes4(head_buf, 12)),
            blob_len: u32_from_le(bytes4(head_buf, 16)) as i32,
        };
        if head.magic != RPC_MAGIC {
            return Err(RpcIntErr::IO);
        }
        if head.ver != RPC_VERSION_1 {
            return Err(RpcIntErr::Version);
        }
        Ok(head)
    }
}

impl RespHead {
    /// The head in a message about it.
    pub fn to_text(&self) -> (r: String)
        ensures
            r@ == "[seq:"@ + decimal(self.seq as nat) + ", flag:"@ + decimal(self.flag as nat)
                + ", msg:"@ + decimal(self.msg_len as nat) + ", blob:"@ + signed_decimal(
                self.blob_len as int,
            ) + "]"@,
    {
        let mut s: String = "[seq:".to_owned();
        push_decimal(&mut s, self.seq);
        s.append(", flag:");
        push_decimal(&mut s, self.flag as u64);
        s.append(", msg:");
        push_decimal(&mut s, self.msg_len as u64);
        s.append(", blob:");
        push_signed(&mut s, self.blob_len as i64);
        s.append("]");
        s
    }
}

/// What the check of a head gives: `IO` where it does not start with the magic number,
/// `Version` where it is of another version.
pub open spec fn checked_head<H>(head: H, magic: u16, ver: u8) -> Result<H, RpcIntErr> {
    if magic != RPC_MAGIC {
        Err(RpcIntErr::IO)
    } else if ver != RPC_VERSION_1 {
        Err(RpcIntErr::Version)
    } else {
        Ok(head)
    }
}

/// Appends `src` to `buf`.
fn push_bytes(buf: &mut Vec<u8>, src: &[u8])
    ensures
        final(buf)@ == old(buf)@ + src@,
{
    buf.extend_from_slice(src);
    assert(buf@ =~= old(buf)@ + src@);
}

fn bytes2(buf: &[u8], pos: usize) -> (r: [u8; 2])
    requires
        pos + 2 <= buf@.len(),
    ensures
        r@ == buf@.subrange(pos as int, pos + 2),
{
    let r: [u8; 2] = [buf[pos], buf[pos + 1]];
    assert(r@ =~= buf@.subrange(pos as int, pos + 2));
    r
}

fn bytes4(buf: &[u8], pos: usize) -> (r: [u8; 4])
    requires
        pos + 4 <= buf@.len(),
    ensures
        r@ == buf@.subrange(pos as int, pos + 4),
{
    let r: [u8; 4] = [buf[pos], buf[pos + 1], buf[pos + 2], buf[pos + 3]];
    assert(r@ =~= buf@.subrange(pos as int, pos + 4));
    r
}

fn bytes8(buf: &[u8], pos: usize) -> (r: [u8; 8])
    requires
        pos + 8 <= buf@.len(),
    ensures
        r@ == buf@.subrange(pos as int, pos + 8),
{
    let r: [u8; 8] = [
        buf[pos],
        buf[pos + 1],
        buf[pos + 2],
        buf[pos + 3],
        buf[pos + 4],
        buf[pos + 5],
        buf[pos + 6],
        buf[pos + 7],
    ];
    assert(r@ =~= buf@.subrange(pos as int, pos + 8));
    r
}

} // verus!
