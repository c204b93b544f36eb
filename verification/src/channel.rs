//! Handing a value to a channel.

use vstd::prelude::*;

verus! {

/// `crossfire::MTx`, the blocking sender of a channel. Two senders of one channel count as the
/// same value.
#[verifier::external_type_specification]
#[verifier::external_body]
#[verifier::reject_recursive_types(T)]
pub struct ExMTx<T>(crossfire::MTx<T>);

/// The receipt for an item that was given to a channel. There is no other way to one than
/// giving the item to the channel.
#[verifier::reject_recursive_types(T)]
pub struct Handed<T> {
    through: bool,
    given: Ghost<(crossfire::MTx<T>, T)>,
}

impl<T> Handed<T> {
    /// The channel that the item was given to.
    pub closed spec fn channel(&self) -> crossfire::MTx<T> {
        self.given@.0
    }

    /// The item.
    pub closed spec fn item(&self) -> T {
        self.given@.1
    }

    /// Whether the channel took the item; it did not where its receiver was gone.
    pub closed spec fn taken(&self) -> bool {
        self.through
    }

    /// Whether the channel took the item.
    pub fn sent(&self) -> (r: Result<(), ()>)
        ensures
            r is Ok <==> self.taken(),
    {
        if self.through {
            Ok(())
        } else {
            Err(())
        }
    }
}

/// `crossfire::Tx::send`, which `MTx` inherits: puts an item into the channel, and waits for
/// room in a bounded one. Where the receiver is gone the item is dropped. Whether it is gone
/// cannot be said beforehand.
#[verifier::external_body]
pub(crate) fn mtx_send<T: Send + 'static>(tx: &crossfire::MTx<T>, item: T) -> (r: Handed<T>)
    ensures
        r.channel() == *tx,
        r.item() == item,
{
    Handed { given: Ghost((*tx, item)), through: tx.send(item).is_ok() }
}

/// `crossfire::MTx::clone`: another sender of the same channel.
#[verifier::external_body]
pub(crate) fn mtx_clone<T>(tx: &crossfire::MTx<T>) -> (r: crossfire::MTx<T>)
    ensures
        r == *tx,
{
    tx.clone()
}

} // verus!
