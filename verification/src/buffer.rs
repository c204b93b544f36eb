//! Blobs: `io_buffer::Buffer`, and what is known of it.

use io_buffer::Buffer;
use vstd::prelude::*;

verus! {

/// `io_buffer::Buffer`, a block of bytes that is allocated once and then filled.
#[verifier::external_type_specification]
#[verifier::external_body]
pub struct ExBuffer(io_buffer::Buffer);

/// The bytes that a buffer holds.
pub uninterp spec fn buffer_bytes(b: Buffer) -> Seq<u8>;

/// Whether a buffer may be written to.
pub uninterp spec fn buffer_mutable(b: Buffer) -> bool;

/// The bytes of a blob, where there is one.
pub open spec fn blob_bytes(b: Option<Buffer>) -> Option<Seq<u8>> {
    match b {
        Some(b) => Some(buffer_bytes(b)),
        None => None,
    }
}

/// `io_buffer::Buffer::alloc`: a buffer of exactly `size` bytes that may be written to, or
/// nothing where memory is short. What the bytes are is left open. The function panics on a
/// size that is not positive.
#[verifier::external_body]
pub(crate) fn buffer_alloc(size: i32) -> (r: Option<Buffer>)
    requires
        size > 0,
    ensures
        r matches Some(b) ==> buffer_bytes(b).len() == size && buffer_mutable(b),
{
    Buffer::alloc(size).ok()
}

/// `io_buffer::Buffer::copy_from` at offset 0: as many bytes as the buffer holds are
/// replaced by those of `src`. The function panics on a buffer that may not be written to.
#[verifier::external_body]
pub(crate) fn buffer_copy_from(b: &mut Buffer, src: &[u8])
    requires
        buffer_mutable(*old(b)),
        src@.len() == buffer_bytes(*old(b)).len(),
    ensures
        buffer_bytes(*final(b)) == src@,
        buffer_mutable(*final(b)),
{
    b.copy_from(0, src)
}

/// `io_buffer::Buffer` through its `Deref`: the bytes that it holds.
#[verifier::external_body]
pub(crate) fn buffer_as_slice(b: &Buffer) -> (r: &[u8])
    ensures
        r@ == buffer_bytes(*b),
{
    b
}

} // verus!
