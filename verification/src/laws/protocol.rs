//! The packets on the wire.

use crate::client::task::ClientTask;
use crate::error::{ErrSpec, RpcIntErr};
use crate::le::{from_le16, from_le32, from_le64, le16, le32, le64};
use crate::proto::{ActionSpec, ReqHead, RespHead};
use crate::server::task::{RespSpec, ServerTaskEncode};
use vstd::prelude::*;
use vstd::utf8::encode_utf8;

verus! {

/// The number in `n` bytes of `b` from `at` on, lowest byte first.
#[verifier::opaque]
pub open spec fn number(b: Seq<u8>, at: int, n: nat) -> nat
    decreases n,
{
    if n == 0 {
        0
    } else {
        b[at] as nat + 256 * number(b, at + 1, (n - 1) as nat)
    }
}

pub proof fn lemma_number4(b: Seq<u8>, at: int)
    ensures
        number(b, at, 4) == b[at] + 0x100 * b[at + 1] + 0x1_0000 * b[at + 2] + 0x100_0000 * b[at
            + 3],
        number(b, at, 8) == number(b, at, 4) + 0x1_0000_0000 * number(b, at + 4, 4),
        number(b, at, 4) <= u32::MAX,
        number(b, at, 8) <= u64::MAX,
{
    reveal_with_fuel(number, 9);
}

/// Numbers stand lowest byte first, and read back as they were written.
pub proof fn lemma_numbers_on_the_wire(a: u16, b: u32, c: u64)
    ensures
        le16(a).len() == 2 && number(le16(a), 0, 2) == a,
        le32(b).len() == 4 && number(le32(b), 0, 4) == b,
        le64(c).len() == 8 && number(le64(c), 0, 8) == c,
        from_le16(le16(a)) == a,
        from_le32(le32(b)) == b,
        from_le64(le64(c)) == c,
{
    lemma_number_of_le16(a);
    lemma_number_of_le32(b);
    let lo = (c % 0x1_0000_0000) as u32;
    let hi = (c / 0x1_0000_0000) as u32;
    lemma_number_of_le32(lo);
    lemma_number_of_le32(hi);
    lemma_number4(le64(c), 0);
    assert(le64(c).subrange(0, 4) =~= le32(lo));
    assert(le64(c).subrange(4, 8) =~= le32(hi));
    lemma_number_in(le64(c), 0, 4, le32(lo));
    lemma_number_in(le64(c), 4, 4, le32(hi));
    crate::le::lemma_le64_round_trip(c);
}

proof fn lemma_number_of_le16(a: u16)
    ensures
        le16(a).len() == 2 && number(le16(a), 0, 2) == a,
        from_le16(le16(a)) == a,
{
    reveal_with_fuel(number, 3);
}

proof fn lemma_number_of_le32(b: u32)
    ensures
        le32(b).len() == 4 && number(le32(b), 0, 4) == b,
        from_le32(le32(b)) == b,
{
    lemma_number4(le32(b), 0);
}

proof fn lemma_number_in(b: Seq<u8>, at: int, n: nat, part: Seq<u8>)
    requires
        0 <= at,
        at + n <= b.len(),
        part == b.subrange(at, at + n),
    ensures
        number(b, at, n) == number(part, 0, n),
    decreases n,
{
    lemma_number_shift(b, at, n, part, 0);
}

pub proof fn lemma_number_shift(b: Seq<u8>, at: int, n: nat, part: Seq<u8>, off: int)
    requires
        0 <= at,
        0 <= off,
        off + n <= part.len(),
        at + n <= b.len(),
        forall|i: int| 0 <= i < n ==> #[trigger] part[off + i] == b[at + i],
    ensures
        number(b, at, n) == number(part, off, n),
    decreases n,
{
    reveal_with_fuel(number, 2);
    if n > 0 {
        assert(part[off + 0] == b[at + 0]);
        assert forall|i: int| 0 <= i < n - 1 implies #[trigger] part[off + 1 + i] == b[at + 1
            + i] by {
            assert(part[off + (1 + i)] == b[at + (1 + i)]);
        }
        lemma_number_shift(b, at + 1, (n - 1) as nat, part, off + 1);
    }
}

/// The fields of the head of a request stand where the protocol puts them.
pub proof fn lemma_request_head_layout(h: ReqHead)
    ensures
        h.bytes().len() == 32,
        number(h.bytes(), 0, 2) == h.magic,
        number(h.bytes(), 2, 1) == h.ver,
        number(h.bytes(), 3, 1) == h.format,
        number(h.bytes(), 4, 4) == h.action,
        number(h.bytes(), 8, 8) == h.seq,
        number(h.bytes(), 16, 8) == h.client_id,
        number(h.bytes(), 24, 4) == h.msg_len,
        number(h.bytes(), 28, 4) == h.blob_len,
{
    lemma_numbers_on_the_wire(h.magic, h.action, h.seq);
    lemma_numbers_on_the_wire(h.magic, h.msg_len, h.client_id);
    lemma_numbers_on_the_wire(h.magic, h.blob_len, h.client_id);
    lemma_request_pieces(
        le16(h.magic),
        seq![h.ver, h.format],
        le32(h.action),
        le64(h.seq),
        le64(h.client_id),
        le32(h.msg_len),
        le32(h.blob_len),
    );
    lemma_byte(h.bytes());
}

proof fn lemma_request_pieces(
    a: Seq<u8>,
    b: Seq<u8>,
    c: Seq<u8>,
    d: Seq<u8>,
    e: Seq<u8>,
    f: Seq<u8>,
    g: Seq<u8>,
)
    requires
        a.len() == 2 && b.len() == 2 && c.len() == 4 && d.len() == 8 && e.len() == 8,
        f.len() == 4 && g.len() == 4,
    ensures
        ({
            let s = a + b + c + d + e + f + g;
            &&& s.len() == 32
            &&& number(s, 0, 2) == number(a, 0, 2)
            &&& s[2] == b[0] && s[3] == b[1]
            &&& number(s, 4, 4) == number(c, 0, 4)
            &&& number(s, 8, 8) == number(d, 0, 8)
            &&& number(s, 16, 8) == number(e, 0, 8)
            &&& number(s, 24, 4) == number(f, 0, 4)
            &&& number(s, 28, 4) == number(g, 0, 4)
        }),
{
    let s = a + b + c + d + e + f + g;
    lemma_number_shift(s, 0, 2, a, 0);
    lemma_number_shift(s, 4, 4, c, 0);
    lemma_number_shift(s, 8, 8, d, 0);
    lemma_number_shift(s, 16, 8, e, 0);
    lemma_number_shift(s, 24, 4, f, 0);
    lemma_number_shift(s, 28, 4, g, 0);
}

proof fn lemma_response_pieces(
    a: Seq<u8>,
    b: Seq<u8>,
    c: Seq<u8>,
    d: Seq<u8>,
    e: Seq<u8>,
)
    requires
        a.len() == 2 && b.len() == 2 && c.len() == 8 && d.len() == 4 && e.len() == 4,
    ensures
        ({
            let s = a + b + c + d + e;
            &&& s.len() == 20
            &&& number(s, 0, 2) == number(a, 0, 2)
            &&& s[2] == b[0] && s[3] == b[1]
            &&& number(s, 4, 8) == number(c, 0, 8)
            &&& number(s, 12, 4) == number(d, 0, 4)
            &&& number(s, 16, 4) == number(e, 0, 4)
        }),
{
    let s = a + b + c + d + e;
    lemma_number_shift(s, 0, 2, a, 0);
    lemma_number_shift(s, 4, 8, c, 0);
    lemma_number_shift(s, 12, 4, d, 0);
    lemma_number_shift(s, 16, 4, e, 0);
}

/// The fields of the head of a response stand where the protocol puts them. A negative length
/// stands as its complement.
pub proof fn lemma_response_head_layout(h: RespHead)
    ensures
        h.bytes().len() == 20,
        number(h.bytes(), 0, 2) == h.magic,
        number(h.bytes(), 2, 1) == h.ver,
        number(h.bytes(), 3, 1) == h.flag,
        number(h.bytes(), 4, 8) == h.seq,
        number(h.bytes(), 12, 4) == h.msg_len,
        number(h.bytes(), 16, 4) == if h.blob_len >= 0 {
            h.blob_len as int
        } else {
            h.blob_len + 0x1_0000_0000
        },
{
    let l = h.blob_len;
    lemma_numbers_on_the_wire(h.magic, h.msg_len, h.seq);
    lemma_numbers_on_the_wire(h.magic, l as u32, h.seq);
    assert(l >= 0 ==> l as u32 == l) by (bit_vector);
    assert(l < 0 ==> l as u32 == l + 0x1_0000_0000) by (bit_vector);
    lemma_response_pieces(
        le16(h.magic),
        seq![h.ver, h.flag],
        le64(h.seq),
        le32(h.msg_len),
        le32(l as u32),
    );
    lemma_byte(h.bytes());
}

/// What 32 bytes say, field by field.
pub proof fn lemma_request_head_read(b: Seq<u8>)
    requires
        b.len() == 32,
    ensures
        ({
            let h = ReqHead::parse(b);
            &&& h.magic == number(b, 0, 2)
            &&& h.ver == b[2]
            &&& h.format == b[3]
            &&& h.action == number(b, 4, 4)
            &&& h.seq == number(b, 8, 8)
            &&& h.client_id == number(b, 16, 8)
            &&& h.msg_len == number(b, 24, 4)
            &&& h.blob_len == number(b, 28, 4)
        }),
{
    reveal_with_fuel(number, 3);
    lemma_number4(b, 4);
    lemma_number4(b, 8);
    lemma_number4(b, 12);
    lemma_number4(b, 16);
    lemma_number4(b, 20);
    lemma_number4(b, 24);
    lemma_number4(b, 28);
}

/// What 20 bytes say, field by field.
pub proof fn lemma_response_head_read(b: Seq<u8>)
    requires
        b.len() == 20,
    ensures
        ({
            let h = RespHead::parse(b);
            let l = number(b, 16, 4);
            &&& h.magic == number(b, 0, 2)
            &&& h.ver == b[2]
            &&& h.flag == b[3]
            &&& h.seq == number(b, 4, 8)
            &&& h.msg_len == number(b, 12, 4)
            &&& h.blob_len == if l <= i32::MAX {
                l as int
            } else {
                l - 0x1_0000_0000
            }
        }),
{
    reveal_with_fuel(number, 3);
    lemma_number4(b, 4);
    lemma_number4(b, 8);
    lemma_number4(b, 12);
    lemma_number4(b, 16);
    let l = from_le32(b.subrange(16, 20));
    assert(l <= 0x7fff_ffff ==> l as i32 == l) by (bit_vector);
    assert(l > 0x7fff_ffff ==> l as i32 == l - 0x1_0000_0000) by (bit_vector);
}

/// Whether bytes start like a packet of this protocol: with the magic number, then the version.
pub open spec fn starts_packet(b: Seq<u8>) -> bool {
    b.len() > 2 && b[0] == 0x25 && b[1] == 0x4d && b[2] == 1
}

/// The head of a request is read exactly where it starts like one; what does not start with the
/// magic number is `IO`, and another version is `Version`. Writing it again gives the same bytes.
pub proof fn lemma_request_head_checked(b: &[u8], r: Result<ReqHead, RpcIntErr>)
    requires
        b@.len() == 32,
        call_ensures(ReqHead::decode_head, (b,), r),
    ensures
        r is Ok <==> starts_packet(b@),
        r is Err ==> r == Err::<ReqHead, RpcIntErr>(
            if b@[0] == 0x25 && b@[1] == 0x4d {
                RpcIntErr::Version
            } else {
                RpcIntErr::IO
            },
        ),
        r matches Ok(h) ==> h.bytes() == b@ && h.seq == number(b@, 8, 8) && h.client_id == number(
            b@,
            16,
            8,
        ) && h.action == number(b@, 4, 4) && h.msg_len == number(b@, 24, 4) && h.blob_len == number(
            b@,
            28,
            4,
        ),
{
    lemma_request_head_read(b@);
    lemma_request_head_rewritten(b@);
    lemma_first_bytes(b@);
}

/// Writing a head that was read gives the same bytes.
pub proof fn lemma_request_head_rewritten(b: Seq<u8>)
    requires
        b.len() == 32,
    ensures
        ReqHead::parse(b).bytes() == b,
{
    let h = ReqHead::parse(b);
    lemma_request_head_read(b);
    lemma_request_head_layout(h);
    lemma_byte(b);
    lemma_byte(h.bytes());
    lemma_same_numbers(h.bytes(), b, 0, 2);
    lemma_same_numbers(h.bytes(), b, 4, 4);
    lemma_same_numbers(h.bytes(), b, 8, 8);
    lemma_same_numbers(h.bytes(), b, 16, 8);
    lemma_same_numbers(h.bytes(), b, 24, 4);
    lemma_same_numbers(h.bytes(), b, 28, 4);
    assert(h.bytes() =~= b);
}

/// Writing a head that was read gives the same bytes.
pub proof fn lemma_response_head_rewritten(b: Seq<u8>)
    requires
        b.len() == 20,
    ensures
        RespHead::parse(b).bytes() == b,
{
    let h = RespHead::parse(b);
    lemma_response_head_read(b);
    lemma_response_head_layout(h);
    lemma_byte(b);
    lemma_byte(h.bytes());
    lemma_number4(b, 16);
    lemma_same_numbers(h.bytes(), b, 0, 2);
    lemma_same_numbers(h.bytes(), b, 4, 8);
    lemma_same_numbers(h.bytes(), b, 12, 4);
    lemma_same_numbers(h.bytes(), b, 16, 4);
    assert(h.bytes() =~= b);
}

pub proof fn lemma_byte(b: Seq<u8>)
    ensures
        number(b, 2, 1) == b[2],
        number(b, 3, 1) == b[3],
{
    reveal_with_fuel(number, 2);
}

pub proof fn lemma_first_bytes(b: Seq<u8>)
    ensures
        number(b, 0, 2) == 19749 <==> b[0] == 0x25 && b[1] == 0x4d,
{
    reveal_with_fuel(number, 3);
}

/// The head of a response is read exactly where it starts like one; what does not start with the
/// magic number is `IO`, and another version is `Version`. Writing it again gives the same bytes.
pub proof fn lemma_response_head_checked(b: &[u8], r: Result<RespHead, RpcIntErr>)
    requires
        b@.len() == 20,
        call_ensures(RespHead::decode_head, (b,), r),
    ensures
        r is Ok <==> starts_packet(b@),
        r is Err ==> r == Err::<RespHead, RpcIntErr>(
            if b@[0] == 0x25 && b@[1] == 0x4d {
                RpcIntErr::Version
            } else {
                RpcIntErr::IO
            },
        ),
        r matches Ok(h) ==> h.bytes() == b@ && h.flag == b@[3] && h.seq == number(b@, 4, 8)
            && h.msg_len == number(b@, 12, 4) && (h.blob_len >= 0 ==> h.blob_len == number(
            b@,
            16,
            4,
        )),
{
    lemma_response_head_read(b@);
    lemma_response_head_rewritten(b@);
    lemma_first_bytes(b@);
    lemma_number4(b@, 16);
}

/// Bytes that hold the same number are the same.
proof fn lemma_same_numbers(a: Seq<u8>, b: Seq<u8>, at: int, n: nat)
    requires
        number(a, at, n) == number(b, at, n),
    ensures
        forall|i: int| at <= i < at + n ==> #[trigger] a[i] == b[i],
    decreases n,
{
    reveal_with_fuel(number, 2);
    if n > 0 {
        assert(a[at] == b[at]);
        lemma_same_numbers(a, b, at + 1, (n - 1) as nat);
    }
}

/// The action that a head asks for: the number itself, or the length of a name with the highest
/// bit set, which tells the two apart.
pub proof fn lemma_action_of_head(h: ReqHead, r: Result<i32, i32>)
    requires
        call_ensures(ReqHead::get_action, (&h,), r),
    ensures
        match r {
            Ok(n) => 0 <= n && n == h.action,
            Err(len) => 0 <= len && len + 0x8000_0000 == h.action,
        },
{
}

/// The length of the blob, or 0.
pub open spec fn blob_len(blob: Option<Seq<u8>>) -> nat {
    match blob {
        Some(b) => b.len(),
        None => 0,
    }
}

/// A request can be sent exactly if its message has an encoding and the parts fit the fields of
/// the head; and what is sent is its ID, the ID of the client, the lengths, the action and the
/// message, each in its place.
pub proof fn lemma_request_is_sent(
    client_id: u64,
    seq: u64,
    action: ActionSpec,
    msg: Option<Seq<u8>>,
    blob: Option<Seq<u8>>,
)
    ensures
        ({
            let f = ReqHead::frame(client_id, seq, action, msg, blob);
            &&& f is Some <==> msg is Some && msg->0.len() <= 0xffff_ffff && blob_len(blob)
                <= 0x7fff_ffff
            &&& f matches Some(f) ==> {
                let name = match action {
                    ActionSpec::Str(s) => encode_utf8(s),
                    ActionSpec::Num(_) => Seq::empty(),
                };
                &&& starts_packet(f) && f[3] == 0
                &&& number(f, 8, 8) == seq
                &&& number(f, 16, 8) == client_id
                &&& number(f, 24, 4) == msg->0.len()
                &&& number(f, 28, 4) == blob_len(blob)
                &&& action matches ActionSpec::Num(n) ==> (n >= 0 ==> number(f, 4, 4) == n)
                &&& action matches ActionSpec::Num(n) ==> (n < 0 ==> number(f, 4, 4) == n
                    + 0x1_0000_0000)
                &&& action is Str && name.len() < 0x8000_0000 ==> number(f, 4, 4) == name.len()
                    + 0x8000_0000
                &&& f.len() == 32 + name.len() + msg->0.len()
                &&& f.subrange(32, 32 + name.len() as int) == name
                &&& f.subrange(32 + name.len() as int, f.len() as int) == msg->0
            }
        }),
{
    let f = ReqHead::frame(client_id, seq, action, msg, blob);
    if f is Some {
        let m = msg->0;
        let name = match action {
            ActionSpec::Str(s) => encode_utf8(s),
            ActionSpec::Num(_) => Seq::empty(),
        };
        let flag = crate::proto::action_flag(action);
        let h = ReqHead::spec_new(client_id, flag, seq, m.len() as u32, blob_len(blob) as u32);
        let b = f->0;
        lemma_request_head_layout(h);
        reveal_with_fuel(number, 3);
        assert(b =~= h.bytes() + name + m);
        lemma_number_shift(h.bytes(), 0, 4, b, 0);
        lemma_number_shift(h.bytes(), 4, 4, b, 4);
        lemma_number_shift(h.bytes(), 8, 8, b, 8);
        lemma_number_shift(h.bytes(), 16, 8, b, 16);
        lemma_number_shift(h.bytes(), 24, 4, b, 24);
        lemma_number_shift(h.bytes(), 28, 4, b, 28);
        assert(b[0] == h.bytes()[0] && b[1] == h.bytes()[1] && b[2] == h.bytes()[2] && b[3]
            == h.bytes()[3]);
        assert(b.subrange(32, 32 + name.len() as int) =~= name);
        assert(b.subrange(32 + name.len() as int, b.len() as int) =~= m);
        if let ActionSpec::Num(n) = action {
            assert(n < 0 ==> (n as u32) == n + 0x1_0000_0000) by (bit_vector);
        }
        if action is Str {
            let len = name.len() as u32;
            assert(len < 0x8000_0000u32 ==> len | 0x8000_0000u32 == len + 0x8000_0000u32)
                by (bit_vector);
        }
    }
}

/// Encoding a request succeeds exactly if the request can be sent, and gives what
/// [`lemma_request_is_sent`] speaks of, with the blob of the task to follow.
pub proof fn lemma_request_is_encoded<C, T: ClientTask<C>>(codec: &C, client_id: u64, task: T)
    ensures
        forall|buf: &mut Vec<u8>, r: Result<Option<&[u8]>, ()>| #[trigger]
            call_ensures(ReqHead::encode::<T, C>, (codec, buf, client_id, &task), r) ==> {
                let msg = task.req_msg(codec);
                let out = (*final(buf))@;
                &&& r is Ok <==> msg is Some && msg->0.len() <= 0xffff_ffff && blob_len(
                    task.req_blob(),
                ) <= 0x7fff_ffff
                &&& r matches Ok(b) ==> {
                    &&& b is Some <==> task.req_blob() is Some
                    &&& b matches Some(s) ==> s@ == task.req_blob()->0
                    &&& Some(out) == ReqHead::frame(
                        client_id,
                        task.common().seq,
                        task.action(),
                        msg,
                        task.req_blob(),
                    )
                    &&& starts_packet(out)
                    &&& number(out, 8, 8) == task.common().seq
                    &&& number(out, 16, 8) == client_id
                    &&& out.subrange(out.len() - msg->0.len(), out.len() as int) == msg->0
                }
            },
{
    lemma_request_is_sent(
        client_id,
        task.common().seq,
        task.action(),
        task.req_msg(codec),
        task.req_blob(),
    );
}

/// A ping is a head alone, with action 0 and nothing to follow.
pub proof fn lemma_ping_is_encoded(client_id: u64, seq: u64)
    ensures
        forall|buf: &mut Vec<u8>| #[trigger]
            call_ensures(ReqHead::encode_ping, (buf, client_id, seq), ()) ==> {
                let out = (*final(buf))@;
                &&& out.len() == 32
                &&& starts_packet(out)
                &&& number(out, 4, 4) == 0
                &&& number(out, 8, 8) == seq
                &&& number(out, 16, 8) == client_id
                &&& number(out, 24, 4) == 0
                &&& number(out, 28, 4) == 0
            },
{
    let h = ReqHead::spec_new(client_id, 0, seq, 0, 0);
    lemma_request_head_layout(h);
    reveal_with_fuel(number, 3);
}

/// Whether `out` is a response that carries the error string `s`: it follows the head.
pub open spec fn carries_string(out: Seq<u8>, seq: u64, s: Seq<u8>) -> bool {
    &&& out.len() == 20 + s.len()
    &&& starts_packet(out)
    &&& out[3] == 2
    &&& number(out, 4, 8) == seq
    &&& number(out, 12, 4) == 0
    &&& number(out, 16, 4) == s.len()
    &&& out.subrange(20, out.len() as int) == s
}

/// Whether an answer fits the fields of a head: its message has a length of 32 bits, and its blob
/// one of 31.
pub open spec fn answer_fits(m: Seq<u8>, b: Option<Seq<u8>>) -> bool {
    m.len() <= 0xffff_ffff && blob_len(b) <= 0x7fff_ffff
}

/// What a server sends for an answer: the message and the blob wherever they fit the fields of
/// the head, and the error `Encode` where they do not; an error number in the head; and any other
/// error as a string behind it.
pub proof fn lemma_response_is_sent(seq: u64, parts: RespSpec)
    ensures
        ({
            let f = RespHead::frame(seq, parts);
            let blob = RespHead::frame_blob(parts);
            &&& starts_packet(f)
            &&& number(f, 4, 8) == seq
            &&& match parts {
                Ok((m, b)) => if answer_fits(m, b) {
                    &&& f[3] == 0
                    &&& number(f, 12, 4) == m.len()
                    &&& number(f, 16, 4) == blob_len(b)
                    &&& f.len() == 20 + m.len()
                    &&& f.subrange(20, f.len() as int) == m
                    &&& blob == b
                } else {
                    carries_string(f, seq, RpcIntErr::Encode.name_bytes()) && blob is None
                },
                Err(ErrSpec::Num(n)) => {
                    &&& f.len() == 20
                    &&& f[3] == 1
                    &&& number(f, 12, 4) == n
                    &&& number(f, 16, 4) == 0
                    &&& blob is None
                },
                Err(ErrSpec::Rpc(e)) => carries_string(f, seq, e.name_bytes()) && blob is None,
                Err(ErrSpec::Bytes(s)) => blob is None && (s.len() <= 0x7fff_ffff ==> carries_string(
                    f,
                    seq,
                    s,
                )),
            }
        }),
{
    match parts {
        Ok((m, b)) => if answer_fits(m, b) {
            lemma_response_frame(0, seq, m.len() as u32, blob_len(b) as i32, m);
        } else {
            crate::error::lemma_names_are_distinct(RpcIntErr::Encode, RpcIntErr::Encode);
            let s = RpcIntErr::Encode.name_bytes();
            lemma_response_frame(2, seq, 0, s.len() as i32, s);
        },
        Err(ErrSpec::Num(n)) => {
            lemma_response_frame(1, seq, n, 0, Seq::empty());
            let h = RespHead::spec_new(1, seq, n, 0).bytes();
            assert(h + Seq::<u8>::empty() =~= h);
        },
        Err(ErrSpec::Rpc(e)) => {
            crate::error::lemma_names_are_distinct(e, e);
            let s = e.name_bytes();
            lemma_response_frame(2, seq, 0, s.len() as i32, s);
        },
        Err(ErrSpec::Bytes(s)) => {
            lemma_response_frame(2, seq, 0, s.len() as i32, s);
        },
    }
}

proof fn lemma_response_frame(flag: u8, seq: u64, msg_len: u32, tail_len: i32, tail: Seq<u8>)
    ensures
        ({
            let f = RespHead::spec_new(flag, seq, msg_len, tail_len).bytes() + tail;
            &&& f.len() == 20 + tail.len()
            &&& starts_packet(f)
            &&& f[3] == flag
            &&& number(f, 4, 8) == seq
            &&& number(f, 12, 4) == msg_len
            &&& tail_len >= 0 ==> number(f, 16, 4) == tail_len
            &&& f.subrange(20, f.len() as int) == tail
        }),
{
    let h = RespHead::spec_new(flag, seq, msg_len, tail_len);
    let f = h.bytes() + tail;
    lemma_response_head_layout(h);
    reveal_with_fuel(number, 3);
    lemma_number_shift(h.bytes(), 4, 8, f, 4);
    lemma_number_shift(h.bytes(), 12, 4, f, 12);
    lemma_number_shift(h.bytes(), 16, 4, f, 16);
    assert(f[0] == h.bytes()[0] && f[1] == h.bytes()[1] && f[2] == h.bytes()[2] && f[3]
        == h.bytes()[3]);
    assert(f.subrange(20, f.len() as int) =~= tail);
}

/// Encoding a response gives what [`lemma_response_is_sent`] speaks of, under the ID of the
/// request, with the blob of the answer to follow where the answer fits.
pub proof fn lemma_response_is_encoded<C, T: ServerTaskEncode<C>>(codec: &C)
    ensures
        forall|buf: &mut Vec<u8>, task: &mut T, r: (u64, Option<&[u8]>)| #[trigger]
            call_ensures(RespHead::encode::<C, T>, (codec, buf, task), r) ==> {
                let parts = (*task).resp_parts(codec);
                let out = (*final(buf))@;
                &&& r.0 == (*task).resp_seq()
                &&& number(out, 4, 8) == r.0
                &&& out == RespHead::frame(r.0, parts)
                &&& match parts {
                    Ok((m, b)) => if answer_fits(m, b) {
                        &&& out.subrange(20, out.len() as int) == m
                        &&& r.1 is Some <==> b is Some
                        &&& r.1 matches Some(s) ==> s@ == b->0
                    } else {
                        r.1 is None
                    },
                    Err(_) => r.1 is None,
                }
            },
{
    assert forall|buf: &mut Vec<u8>, task: &mut T, r: (u64, Option<&[u8]>)| #[trigger]
        call_ensures(RespHead::encode::<C, T>, (codec, buf, task), r) implies {
        let parts = (*task).resp_parts(codec);
        let out = (*final(buf))@;
        &&& r.0 == (*task).resp_seq()
        &&& number(out, 4, 8) == r.0
        &&& out == RespHead::frame(r.0, parts)
        &&& match parts {
            Ok((m, b)) => if answer_fits(m, b) {
                &&& out.subrange(20, out.len() as int) == m
                &&& r.1 is Some <==> b is Some
                &&& r.1 matches Some(s) ==> s@ == b->0
            } else {
                r.1 is None
            },
            Err(_) => r.1 is None,
        }
    } by {
        lemma_response_is_sent(r.0, (*task).resp_parts(codec));
    }
}

/// A response of the framework itself: its error as a string, or an empty answer where there is
/// none.
pub proof fn lemma_internal_response(seq: u64, err: Option<RpcIntErr>)
    ensures
        forall|buf: &mut Vec<u8>, r: u64| #[trigger]
            call_ensures(RespHead::encode_internal, (buf, seq, err), r) ==> {
                let out = (*final(buf))@;
                &&& r == seq
                &&& match err {
                    Some(e) => carries_string(out, seq, e.name_bytes()),
                    None => {
                        &&& out.len() == 20
                        &&& starts_packet(out)
                        &&& out[3] == 0
                        &&& number(out, 4, 8) == seq
                        &&& number(out, 12, 4) == 0
                        &&& number(out, 16, 4) == 0
                    },
                }
            },
{
    match err {
        Some(e) => {
            lemma_response_is_sent(seq, Err(ErrSpec::Rpc(e)));
        },
        None => {
            lemma_response_frame(0, seq, 0, 0, Seq::empty());
            let h = RespHead::spec_new(0, seq, 0, 0).bytes();
            assert(h + Seq::<u8>::empty() =~= h);
        },
    }
}

} // verus!
