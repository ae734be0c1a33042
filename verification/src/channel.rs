//! The delivery channel of a subscriber, as the dispatcher sees it.

use tokio::sync::mpsc::UnboundedSender;
use vstd::prelude::*;

verus! {

/// `tokio::sync::mpsc::UnboundedSender`, the sending half of an unbounded
/// channel. Its inside is not modelled: a sender is carried from the
/// subscribe request to the registry and handed to `enqueue`.
#[verifier::external_type_specification]
#[verifier::external_body]
#[verifier::reject_recursive_types(T)]
pub struct ExUnboundedSender<T>(UnboundedSender<T>);

/// The sending half of a subscriber's private queue of `(topic, message)`
/// pairs.
pub type DeliveryHandle = UnboundedSender<(String, String)>;

/// Offers `(topic, message)` to the queue behind `handle` by calling
/// `UnboundedSender::send`, and tells whether the queue took the pair.
///
/// The call never waits: the queue has no bound but memory. It is refused
/// when the receiving half has been closed or dropped, so nothing is stated
/// of the result: it depends on the state of a channel that other tasks
/// share. (tokio ends the process should the count of queued pairs ever
/// overflow `usize`.)
#[verifier::external_body]
pub(crate) fn enqueue(handle: &DeliveryHandle, topic: String, message: String) -> (accepted: bool) {
    handle.send((topic, message)).is_ok()
}

} // verus!
