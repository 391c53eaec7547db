//! Ingress-route listener: the receive callback installed on a source
//! transport, feeding received messages into the per-route broadcast queue.

use vstd::prelude::*;
use crate::transport::{Message, PayloadFormat};

verus! {

/// What [`ForwardingListener::on_receive`] did with a message.
#[derive(Clone, Copy, PartialEq, Eq, Structural, Debug)]
pub enum IngressDispatch {
    /// The payload was a shared-memory pointer, which cannot cross the bridge:
    /// the message was dropped.
    DroppedUnsupportedPayload,
    /// The message was queued for the given number of receivers.
    Forwarded(usize),
    /// No receiver was attached to the queue; the message was dropped.
    NoReceivers,
}

/// Listener installed on an ingress transport for one route. Cheap to clone;
/// the same listener may be registered under several filter pairs.
pub struct ForwardingListener {
    route_id: String,
    sender: tokio::sync::broadcast::Sender<Message>,
}

impl Clone for ForwardingListener {
    /// A clone is a handle for the same route, feeding the same queue.
    fn clone(&self) -> (r: ForwardingListener)
        ensures
            r.route_id_view() == self.route_id_view(),
    {
        ForwardingListener { route_id: self.route_id.clone(), sender: self.sender.clone() }
    }
}

impl ForwardingListener {
    /// Creates a listener bound to one route's broadcast queue.
    pub fn new(route_id: &str, sender: tokio::sync::broadcast::Sender<Message>) -> (r:
        ForwardingListener)
        ensures
            r.route_id_view() == route_id@,
    {
        ForwardingListener { route_id: route_id.to_owned(), sender }
    }

    /// The route label this listener was created for.
    pub closed spec fn route_id_view(&self) -> Seq<char> {
        self.route_id@
    }

    /// The route label this listener was created for.
    pub fn route_id(&self) -> (r: &str)
        ensures
            r@ == self.route_id_view(),
    {
        self.route_id.as_str()
    }

    /// Receive callback: drops shared-memory-pointer payloads, publishes every
    /// other message into the route's broadcast queue. A publish without
    /// receivers is reported, never retried.
    pub fn on_receive(&self, msg: Message) -> (r: IngressDispatch)
        ensures
            (r is DroppedUnsupportedPayload) <==> msg@.payload_format == PayloadFormat::Shm,
    {
        if msg.payload_format == PayloadFormat::Shm {
            return IngressDispatch::DroppedUnsupportedPayload;
        }
        match crate::queue::queue_publish(&self.sender, msg) {
            Some(receiver_count) => IngressDispatch::Forwarded(receiver_count),
            None => IngressDispatch::NoReceivers,
        }
    }
}

} // verus!
