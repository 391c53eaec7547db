//! Trusted interface to the bounded broadcast queue that feeds each egress
//! worker. The queue is tokio's broadcast channel: multi-producer, lossy for a
//! lagging receiver, closed once every sender is dropped.

use vstd::prelude::*;
use crate::transport::Message;

verus! {

#[verifier::external_type_specification]
#[verifier::external_body]
#[verifier::reject_recursive_types(T)]
pub struct ExBroadcastSender<T>(tokio::sync::broadcast::Sender<T>);

#[verifier::external_type_specification]
#[verifier::external_body]
#[verifier::reject_recursive_types(T)]
pub struct ExBroadcastReceiver<T>(tokio::sync::broadcast::Receiver<T>);

/// Relies on `tokio::sync::broadcast::Sender::clone`: a clone is another
/// sending handle onto the same channel.
pub assume_specification<T>[ <tokio::sync::broadcast::Sender<T> as Clone>::clone ](
    sender: &tokio::sync::broadcast::Sender<T>,
) -> tokio::sync::broadcast::Sender<T>;

/// Relies on `tokio::sync::broadcast::channel`: creates a bounded broadcast
/// queue and returns a connected sender/receiver pair. The function panics
/// when the capacity is zero or above `usize::MAX / 2`, so those capacities
/// are excluded here.
#[verifier::external_body]
pub(crate) fn new_message_queue(capacity: usize) -> (tokio::sync::broadcast::Sender<Message>, tokio::sync::broadcast::Receiver<Message>)
    requires
        1 <= capacity <= usize::MAX / 2,
{
    tokio::sync::broadcast::channel(capacity)
}

/// Relies on `tokio::sync::broadcast::Sender::send`: queues the message for
/// every active receiver. Returns the number of receivers the message was sent
/// to, or `None` when there is no receiver (the message is dropped). The
/// outcome depends on the channel's runtime state, so nothing more is assumed.
#[verifier::external_body]
pub(crate) fn queue_publish(
    sender: &tokio::sync::broadcast::Sender<Message>,
    message: Message,
) -> Option<usize> {
    match sender.send(message) {
        Ok(receiver_count) => Some(receiver_count),
        Err(_dropped) => None,
    }
}

} // verus!
