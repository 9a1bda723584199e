//! The async notification primitive the store and the pool signal through.
//!
//! A notifier is shared (behind `Arc`) by every task that waits on or wakes
//! one session. Waiting on it is an async operation and happens outside the
//! library; firing it is a plain call and happens here, always after the
//! store mutation that justifies it has completed.

use vstd::prelude::*;
use std::sync::Arc;
use tokio::sync::Notify;

verus! {

#[verifier::external_type_specification]
#[verifier::external_body]
pub struct ExNotify(Notify);

/// Relies on tokio::sync::Notify::new and Arc::new: a fresh notifier with
/// no waiters and no stored permit.
#[verifier::external_body]
pub fn new_notify() -> Arc<Notify> {
    Arc::new(Notify::new())
}

/// Relies on Arc::clone: another handle to the same notifier.
#[verifier::external_body]
pub fn clone_notifier(n: &Arc<Notify>) -> (r: Arc<Notify>)
    ensures
        r == *n,
{
    Arc::clone(n)
}

/// Relies on tokio::sync::Notify::notify_waiters: wakes every task
/// currently waiting on this notifier.
#[verifier::external_body]
pub fn notify_waiters(n: &Notify) {
    n.notify_waiters();
}

/// Relies on tokio::sync::Notify::notify_one: wakes one waiting task, or
/// stores a permit for the next waiter.
#[verifier::external_body]
pub fn notify_one(n: &Notify) {
    n.notify_one();
}

} // verus!
