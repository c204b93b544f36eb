//! Reading requests.

use crate::error::RpcIntErr;
use crate::laws::protocol::{lemma_request_head_read, number, starts_packet};
use crate::proto::{ActionSpec, ReqHead};
use crate::transport::request::{
    read_req_from, ReqErrors, ReqOutcome, ReqPhase, ReqRead, ReqReader, ReqSpec,
};
use vstd::prelude::*;
use vstd::utf8::{decode_utf8, valid_utf8};

verus! {

/// The length of the name of the action: where the highest bit of the field is set, the rest of
/// it.
pub open spec fn name_len(data: Seq<u8>) -> int {
    if number(data, 4, 4) >= 0x8000_0000 {
        number(data, 4, 4) - 0x8000_0000
    } else {
        0
    }
}

/// Where the message ends.
pub open spec fn msg_end(data: Seq<u8>) -> int {
    32 + name_len(data) + number(data, 24, 4)
}

/// The length of the blob. One that has the highest bit set stands for none.
pub open spec fn blob_size(data: Seq<u8>) -> int {
    if number(data, 28, 4) <= 0x7fff_ffff {
        number(data, 28, 4) as int
    } else {
        0
    }
}

/// The action that is asked for: a number, or a name behind the head.
pub open spec fn asked_action(data: Seq<u8>) -> ActionSpec {
    if number(data, 4, 4) < 0x8000_0000 {
        ActionSpec::Num(number(data, 4, 4) as i32)
    } else {
        ActionSpec::Str(decode_utf8(data.subrange(32, 32 + name_len(data))))
    }
}

/// Whether the name of the action, where it has one, is no text.
pub open spec fn bad_name(data: Seq<u8>) -> bool {
    number(data, 4, 4) >= 0x8000_0000 && !valid_utf8(data.subrange(32, 32 + name_len(data)))
}

/// What a server reads from a stream: a request takes exactly as many bytes as its head says, and
/// every part stands where the protocol puts it. What does not start like a packet, and a name
/// that is no text, is refused as soon as it is there; and so is a blob for which there is no
/// memory.
pub proof fn lemma_request_is_read(errs: ReqErrors, data: Seq<u8>, memory: bool)
    ensures
        ({
            let o = ReqPhase::Head.run(errs, data, memory);
            let end = msg_end(data) + blob_size(data);
            if data.len() < 32 {
                o is Short
            } else if !starts_packet(data) {
                o == ReqOutcome::Fail(errs.head)
            } else if data.len() < 32 + name_len(data) {
                o is Short
            } else if bad_name(data) {
                o == ReqOutcome::Fail(RpcIntErr::Decode)
            } else if data.len() < msg_end(data) {
                o is Short
            } else if blob_size(data) > 0 && !memory {
                o == ReqOutcome::Fail(errs.alloc)
            } else if data.len() < end {
                o is Short
            } else {
                o == ReqOutcome::Done(
                    ReqSpec {
                        seq: number(data, 8, 8) as u64,
                        action: asked_action(data),
                        msg: data.subrange(32 + name_len(data), msg_end(data)),
                        blob: if blob_size(data) > 0 {
                            Some(data.subrange(msg_end(data), end))
                        } else {
                            None
                        },
                    },
                    data.subrange(end, data.len() as int),
                )
            }
        }),
{
    reveal_with_fuel(ReqPhase::run, 2);
    if data.len() >= 32 {
        let hb = data.subrange(0, 32);
        let head = ReqHead::parse(hb);
        lemma_request_head_read(hb);
        lemma_head_numbers(data);
        let rest = data.subrange(32, data.len() as int);
        if starts_packet(data) {
            if head.action < 0x8000_0000 {
                let action = ActionSpec::Num(head.action as i32);
                lemma_after_action(errs, head, action, rest, memory);
                lemma_parts(data, rest, 0);
            } else {
                let n = name_len(data);
                if data.len() >= 32 + n {
                    let rest2 = rest.subrange(n, rest.len() as int);
                    assert(rest.subrange(0, n) =~= data.subrange(32, 32 + n));
                    assert(rest2 =~= data.subrange(32 + n, data.len() as int));
                    if !bad_name(data) {
                        let action = ActionSpec::Str(decode_utf8(rest.subrange(0, n)));
                        lemma_after_action(errs, head, action, rest2, memory);
                        lemma_parts(data, rest2, n);
                    }
                }
            }
        }
    }
}

proof fn lemma_head_numbers(data: Seq<u8>)
    requires
        data.len() >= 32,
    ensures
        ({
            let hb = data.subrange(0, 32);
            &&& starts_packet(data) <==> number(hb, 0, 2) == 19749 && hb[2] == 1
            &&& number(hb, 4, 4) == number(data, 4, 4) <= u32::MAX
            &&& number(hb, 8, 8) == number(data, 8, 8) <= u64::MAX
            &&& number(hb, 24, 4) == number(data, 24, 4) <= u32::MAX
            &&& number(hb, 28, 4) == number(data, 28, 4) <= u32::MAX
        }),
{
    let hb = data.subrange(0, 32);
    crate::laws::protocol::lemma_first_bytes(hb);
    crate::laws::protocol::lemma_number_shift(data, 4, 4, hb, 4);
    crate::laws::protocol::lemma_number_shift(data, 8, 8, hb, 8);
    crate::laws::protocol::lemma_number_shift(data, 24, 4, hb, 24);
    crate::laws::protocol::lemma_number_shift(data, 28, 4, hb, 28);
    crate::laws::protocol::lemma_number4(data, 4);
    crate::laws::protocol::lemma_number4(data, 8);
    crate::laws::protocol::lemma_number4(data, 24);
    crate::laws::protocol::lemma_number4(data, 28);
}

proof fn lemma_parts(data: Seq<u8>, rest: Seq<u8>, n: int)
    requires
        data.len() >= 32 + n,
        n == name_len(data) >= 0,
        rest == data.subrange(32 + n, data.len() as int),
    ensures
        ({
            let m = number(data, 24, 4) as int;
            let b = blob_size(data);
            &&& rest.len() >= m ==> rest.subrange(0, m) == data.subrange(32 + n, msg_end(data))
            &&& rest.len() >= m + b ==> rest.subrange(m, m + b) == data.subrange(
                msg_end(data),
                msg_end(data) + b,
            ) && rest.subrange(m + b, rest.len() as int) == data.subrange(
                msg_end(data) + b,
                data.len() as int,
            )
        }),
{
    let m = number(data, 24, 4) as int;
    let b = blob_size(data);
    if rest.len() >= m {
        assert(rest.subrange(0, m) =~= data.subrange(32 + n, msg_end(data)));
    }
    if rest.len() >= m + b {
        assert(rest.subrange(m, m + b) =~= data.subrange(msg_end(data), msg_end(data) + b));
        assert(rest.subrange(m + b, rest.len() as int) =~= data.subrange(
            msg_end(data) + b,
            data.len() as int,
        ));
    }
}

/// What reading on from the message comes to.
spec fn body_outcome(
    errs: ReqErrors,
    head: ReqHead,
    action: ActionSpec,
    rest: Seq<u8>,
    memory: bool,
) -> ReqOutcome {
    let m = head.msg_len as int;
    let b = if head.blob_len <= 0x7fff_ffff {
        head.blob_len as int
    } else {
        0
    };
    if rest.len() < m {
        ReqOutcome::Short
    } else if b > 0 && !memory {
        ReqOutcome::Fail(errs.alloc)
    } else if rest.len() < m + b {
        ReqOutcome::Short
    } else {
        ReqOutcome::Done(
            ReqSpec {
                seq: head.seq,
                action,
                msg: rest.subrange(0, m),
                blob: if b > 0 {
                    Some(rest.subrange(m, m + b))
                } else {
                    None
                },
            },
            rest.subrange(m + b, rest.len() as int),
        )
    }
}

proof fn lemma_after_action(
    errs: ReqErrors,
    head: ReqHead,
    action: ActionSpec,
    rest: Seq<u8>,
    memory: bool,
)
    ensures
        ({
            let want = body_outcome(errs, head, action, rest, memory);
            match ReqPhase::after_action(head, action) {
                crate::transport::request::ReqNext::More(p) => p.run(errs, rest, memory) == want,
                crate::transport::request::ReqNext::Alloc { head: h, action: a, msg } => want
                    == if memory {
                    (ReqPhase::Blob { head: h, action: a, msg }).run(errs, rest, memory)
                } else {
                    ReqOutcome::Fail(errs.alloc)
                },
                crate::transport::request::ReqNext::Done(req) => want == ReqOutcome::Done(
                    req,
                    rest,
                ),
                crate::transport::request::ReqNext::Fail(e) => false,
            }
        }),
{
    reveal_with_fuel(ReqPhase::run, 2);
    let m = head.msg_len as int;
    let b = head.blob_len as int;
    if head.msg_len == 0 {
        assert(rest.subrange(0, 0) =~= Seq::<u8>::empty());
        assert(rest.subrange(0, rest.len() as int) =~= rest);
    } else if rest.len() >= m {
        let r2 = rest.subrange(m, rest.len() as int);
        if 0 < b <= 0x7fff_ffff && r2.len() >= b {
            assert(r2.subrange(0, b) =~= rest.subrange(m, m + b));
            assert(r2.subrange(b, r2.len() as int) =~= rest.subrange(m + b, rest.len() as int));
        }
    }
}

/// A request that is read from a buffer took exactly its own bytes, and has the ID, the action,
/// the message and the blob that stand there. Nothing that starts like another packet is read,
/// and nothing that is not all there.
pub proof fn lemma_request_from_buffer(reader: ReqReader, data: &[u8], r: ReqRead)
    requires
        reader@ is Head,
        call_ensures(read_req_from, (reader, data), r),
    ensures
        r matches ReqRead::Done(req, used) ==> {
            let end = msg_end(data@) + blob_size(data@);
            &&& starts_packet(data@)
            &&& used == end <= data@.len()
            &&& req.seq == number(data@, 8, 8)
            &&& req.action@ == asked_action(data@)
            &&& req.msg@ == data@.subrange(32 + name_len(data@), msg_end(data@))
            &&& req@.blob is Some <==> blob_size(data@) > 0
            &&& req@.blob is Some ==> req@.blob->0 == data@.subrange(msg_end(data@), end)
        },
        r matches ReqRead::Fail(e) ==> data@.len() >= 32 && if !starts_packet(data@) {
            e == reader.errors().head
        } else if bad_name(data@) {
            e == RpcIntErr::Decode
        } else {
            blob_size(data@) > 0 && e == reader.errors().alloc
        },
        r is Short ==> data@.len() < 32 || data@.len() < msg_end(data@) + blob_size(data@),
{
    let errs = reader.errors();
    lemma_request_is_read(errs, data@, true);
    lemma_request_is_read(errs, data@, false);
    if data@.len() >= 32 {
        lemma_head_numbers(data@);
    }
    if let ReqRead::Done(req, used) = r {
        let end = msg_end(data@) + blob_size(data@);
        assert(used == end) by {
            let a = data@.subrange(used as int, data@.len() as int);
            let b = data@.subrange(end, data@.len() as int);
            assert(a.len() == data@.len() - used);
            assert(b.len() == data@.len() - end);
        }
    }
}

/// What a reader reports for a head that is no such, and for want of memory, on each transport;
/// and what it reports where reading itself fails: `Timeout` only where nothing came at all, else
/// `IO`.
pub proof fn lemma_reader_errors(tcp: ReqReader, quic: ReqReader)
    requires
        call_ensures(ReqReader::tcp, (), tcp),
        call_ensures(ReqReader::quic, (), quic),
    ensures
        tcp@ is Head && tcp.errors() == (ReqErrors {
            head: RpcIntErr::Decode,
            alloc: RpcIntErr::Decode,
        }),
        quic@ is Head && quic.errors() == (ReqErrors {
            head: RpcIntErr::Decode,
            alloc: RpcIntErr::Encode,
        }),
        forall|reader: ReqReader, cancelled: bool, e: RpcIntErr| #[trigger]
            call_ensures(ReqReader::read_failed, (&reader, cancelled), e) ==> (e is Timeout || e
                is IO) && (e is Timeout <==> reader@ is Head && cancelled),
{
}

} // verus!
