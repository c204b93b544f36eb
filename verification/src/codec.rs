//! How a message becomes bytes and comes back.

use vstd::prelude::*;

verus! {

/// A codec for messages of type `M`. Users choose one (and may write their own); tasks and
/// servers only rely on what is stated here. A codec in code that is not verified may leave the
/// spec functions out; nothing is known of its bytes then.
pub trait Codec<M> {
    /// The bytes of `msg`, or `None` where it has no encoding.
    open spec fn encoded(&self, msg: M) -> Option<Seq<u8>> {
        arbitrary()
    }

    /// The message that `buf` holds, or `None` where it holds none.
    open spec fn decoded(&self, buf: Seq<u8>) -> Option<M> {
        arbitrary()
    }

    /// Appends the bytes of `msg` to `buf` and returns how many there are.
    fn encode_into(&self, msg: &M, buf: &mut Vec<u8>) -> (r: Result<usize, ()>)
        ensures
            match self.encoded(*msg) {
                Some(b) => {
                    &&& r == Ok::<usize, ()>(b.len() as usize)
                    &&& b.len() <= usize::MAX
                    &&& final(buf)@ == old(buf)@ + b
                },
                None => r is Err,
            },
    ;

    /// Reads a message back from `buf`.
    fn decode(&self, buf: &[u8]) -> (r: Result<M, ()>)
        ensures
            match self.decoded(buf@) {
                Some(m) => r == Ok::<M, ()>(m),
                None => r is Err,
            },
    ;
}

/// Whether `codec` reads back what it writes.
pub open spec fn codec_inverts<M, C: Codec<M>>(codec: &C) -> bool {
    forall|m: M|
        #![trigger codec.encoded(m)]
        codec.encoded(m) matches Some(b) ==> codec.decoded(b) == Some(m)
}

} // verus!
