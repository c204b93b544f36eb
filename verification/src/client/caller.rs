//! Whoever takes tasks to send.

use crate::channel::{mtx_send, Handed};
use std::sync::Arc;
use vstd::prelude::*;

verus! {

/// Takes tasks without blocking: what it returns (a future, where it is asynchronous) is to be
/// waited for.
pub trait ClientCaller<T>: Send {
    type Sending;

    /// Whether `s` is what sending `task` leaves.
    open spec fn sending(&self, task: T, s: Self::Sending) -> bool {
        arbitrary()
    }

    fn send_req(&self, task: T) -> (s: Self::Sending)
        ensures
            self.sending(task, s),
    ;
}

/// Takes tasks, and blocks where there is no room for one.
pub trait ClientCallerBlocking<T>: Send {
    type Receipt;

    /// Whether `r` is left by taking `task`.
    open spec fn submitted(&self, task: T, r: Self::Receipt) -> bool {
        arbitrary()
    }

    fn send_req_blocking(&self, task: T) -> (r: Self::Receipt)
        ensures
            self.submitted(task, r),
    ;
}

impl<T, K: ClientCaller<T> + Send + Sync> ClientCaller<T> for Arc<K> {
    type Sending = K::Sending;

    open spec fn sending(&self, task: T, s: K::Sending) -> bool {
        (**self).sending(task, s)
    }

    fn send_req(&self, task: T) -> (s: K::Sending) {
        (**self).send_req(task)
    }
}

impl<T, K: ClientCallerBlocking<T> + Send + Sync> ClientCallerBlocking<T> for Arc<K> {
    type Receipt = K::Receipt;

    open spec fn submitted(&self, task: T, r: K::Receipt) -> bool {
        (**self).submitted(task, r)
    }

    fn send_req_blocking(&self, task: T) -> (r: K::Receipt) {
        (**self).send_req_blocking(task)
    }
}

/// The way into the channel of a pool.
#[verifier::reject_recursive_types(T)]
pub struct PoolSender<T>(pub crossfire::MTx<T>);

impl<T: Send + 'static> ClientCallerBlocking<T> for PoolSender<T> {
    type Receipt = Handed<T>;

    open spec fn submitted(&self, task: T, r: Handed<T>) -> bool {
        r.channel() == self.0 && r.item() == task
    }

    fn send_req_blocking(&self, task: T) -> (r: Handed<T>) {
        mtx_send(&self.0, task)
    }
}

} // verus!
