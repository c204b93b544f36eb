//! Little-endian integers, as they stand in the fixed-length packet heads.

use vstd::prelude::*;

verus! {

/// The two bytes of `v`, lowest first.
pub open spec fn le16(v: u16) -> Seq<u8> {
    seq![(v % 0x100) as u8, (v / 0x100) as u8]
}

/// The four bytes of `v`, lowest first.
pub open spec fn le32(v: u32) -> Seq<u8> {
    seq![
        (v % 0x100) as u8,
        (v / 0x100 % 0x100) as u8,
        (v / 0x1_0000 % 0x100) as u8,
        (v / 0x100_0000) as u8,
    ]
}

/// The eight bytes of `v`, lowest first.
pub open spec fn le64(v: u64) -> Seq<u8> {
    le32((v % 0x1_0000_0000) as u32) + le32((v / 0x1_0000_0000) as u32)
}

/// The number whose bytes, lowest first, are `b`.
pub open spec fn from_le16(b: Seq<u8>) -> u16 {
    (b[0] + 0x100 * b[1]) as u16
}

/// The number whose bytes, lowest first, are `b`.
pub open spec fn from_le32(b: Seq<u8>) -> u32 {
    (b[0] + 0x100 * b[1] + 0x1_0000 * b[2] + 0x100_0000 * b[3]) as u32
}

/// The number whose bytes, lowest first, are `b`.
pub open spec fn from_le64(b: Seq<u8>) -> u64 {
    (from_le32(b.subrange(0, 4)) + 0x1_0000_0000 * from_le32(b.subrange(4, 8))) as u64
}

/// Reading two bytes back gives the number that was written.
pub proof fn lemma_le16_round_trip(v: u16)
    ensures
        from_le16(le16(v)) == v,
        le16(v).len() == 2,
{
}

/// Reading four bytes back gives the number that was written.
pub proof fn lemma_le32_round_trip(v: u32)
    ensures
        from_le32(le32(v)) == v,
        le32(v).len() == 4,
{
}

/// Reading eight bytes back gives the number that was written.
pub proof fn lemma_le64_round_trip(v: u64)
    ensures
        from_le64(le64(v)) == v,
        le64(v).len() == 8,
{
    let lo = (v % 0x1_0000_0000) as u32;
    let hi = (v / 0x1_0000_0000) as u32;
    lemma_le32_round_trip(lo);
    lemma_le32_round_trip(hi);
    assert(le64(v).subrange(0, 4) =~= le32(lo));
    assert(le64(v).subrange(4, 8) =~= le32(hi));
}

/// `zerocopy::byteorder::little_endian::U16::new` followed by `to_bytes`: the bytes of a
/// number, lowest first.
#[verifier::external_body]
pub(crate) fn u16_to_le(v: u16) -> (r: [u8; 2])
    ensures
        r@ == le16(v),
{
    zerocopy::byteorder::little_endian::U16::new(v).to_bytes()
}

/// `zerocopy::byteorder::little_endian::U32::new` followed by `to_bytes`: the bytes of a
/// number, lowest first.
#[verifier::external_body]
pub(crate) fn u32_to_le(v: u32) -> (r: [u8; 4])
    ensures
        r@ == le32(v),
{
    zerocopy::byteorder::little_endian::U32::new(v).to_bytes()
}

/// `zerocopy::byteorder::little_endian::U64::new` followed by `to_bytes`: the bytes of a
/// number, lowest first.
#[verifier::external_body]
pub(crate) fn u64_to_le(v: u64) -> (r: [u8; 8])
    ensures
        r@ == le64(v),
{
    zerocopy::byteorder::little_endian::U64::new(v).to_bytes()
}

/// `zerocopy::byteorder::little_endian::U16::from_bytes` followed by `get`: the number
/// that two bytes hold, lowest first.
#[verifier::external_body]
pub(crate) fn u16_from_le(b: [u8; 2]) -> (r: u16)
    ensures
        r == from_le16(b@),
{
    zerocopy::byteorder::little_endian::U16::from_bytes(b).get()
}

/// `zerocopy::byteorder::little_endian::U32::from_bytes` followed by `get`: the number
/// that four bytes hold, lowest first.
#[verifier::external_body]
pub(crate) fn u32_from_le(b: [u8; 4]) -> (r: u32)
    ensures
        r == from_le32(b@),
{
    zerocopy::byteorder::little_endian::U32::from_bytes(b).get()
}

/// `zerocopy::byteorder::little_endian::U64::from_bytes` followed by `get`: the number
/// that eight bytes hold, lowest first.
#[verifier::external_body]
pub(crate) fn u64_from_le(b: [u8; 8]) -> (r: u64)
    ensures
        r == from_le64(b@),
{
    zerocopy::byteorder::little_endian::U64::from_bytes(b).get()
}

} // verus!
