//! Coalescing of asynchronous "new root" notifications.
//!
//! Roots arrive over a `crossbeam_channel` feed, possibly in bursts; the
//! consumer only ever needs the freshest one.  `receive_new_roots` blocks
//! briefly for at least one notification, then drains everything buffered
//! and keeps the last value observed (the maximum, since the feed is
//! non-decreasing).

use vstd::prelude::*;

use crate::Slot;

verus! {

/// Why no root came back: the wait window elapsed with nothing pending
/// (benign; the caller retries), or the feed is permanently closed (fatal;
/// the caller terminates).
#[derive(Clone, Copy, PartialEq, Eq, Structural, Debug)]
pub enum RecvTimeoutError {
    Timeout,
    Disconnected,
}

#[verifier::external_type_specification]
#[verifier::external_body]
#[verifier::reject_recursive_types(T)]
pub struct ExReceiver<T>(crossbeam_channel::Receiver<T>);

/// Relies on crossbeam_channel::Receiver::recv_timeout: waits up to the
/// timeout for one message; errs with Timeout when none arrived in time and
/// with Disconnected when the channel is empty and all senders are gone.
/// Which of the three happens depends on the channel's state, so nothing
/// more is promised of the outcome.
#[verifier::external_body]
fn recv_root_timeout(new_root_receiver: &crossbeam_channel::Receiver<Slot>) -> (r: Result<
    Slot,
    RecvTimeoutError,
>) {
    match new_root_receiver.recv_timeout(std::time::Duration::from_secs(1)) {
        Ok(slot) => Ok(slot),
        Err(crossbeam_channel::RecvTimeoutError::Timeout) => Err(RecvTimeoutError::Timeout),
        Err(crossbeam_channel::RecvTimeoutError::Disconnected) => Err(
            RecvTimeoutError::Disconnected,
        ),
    }
}

/// Relies on crossbeam_channel::Receiver::try_iter: yields the messages
/// currently buffered, in arrival order, without blocking.  What is buffered
/// depends on the channel's state, so nothing is promised of the contents.
#[verifier::external_body]
fn drain_pending_roots(new_root_receiver: &crossbeam_channel::Receiver<Slot>) -> (r: Vec<Slot>) {
    new_root_receiver.try_iter().collect()
}

/// The freshest root among one received value and the notifications drained
/// after it: the last drained value, or the received one when nothing else
/// was pending.
pub fn latest_root(root: Slot, pending: &Vec<Slot>) -> (r: Slot)
    ensures
        r == if pending@.len() > 0 {
            pending@.last()
        } else {
            root
        },
{
    if pending.len() > 0 {
        pending[pending.len() - 1]
    } else {
        root
    }
}

/// Blocks up to one time unit for a root notification, then drains all
/// currently buffered notifications and returns the freshest one.  What
/// comes back depends on what the feed delivered; `latest_root` carries the
/// verified choice among the drained values.
pub fn receive_new_roots(new_root_receiver: &crossbeam_channel::Receiver<Slot>) -> (r: Result<
    Slot,
    RecvTimeoutError,
>) {
    match recv_root_timeout(new_root_receiver) {
        Ok(root) => {
            let pending = drain_pending_roots(new_root_receiver);
            Ok(latest_root(root, &pending))
        },
        Err(e) => Err(e),
    }
}

} // verus!
