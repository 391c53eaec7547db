//! Transport capability interface and the message values that cross it.

use vstd::prelude::*;
use crate::uri::{Uri, UriView};
use crate::ingress_listener::ForwardingListener;

verus! {

/// Serialization format of a message payload. The streamer only inspects
/// whether a payload is a shared-memory pointer, which cannot be bridged
/// across transports; every other format is forwarded untouched.
#[derive(Clone, Copy, PartialEq, Eq, Structural, Debug)]
pub enum PayloadFormat {
    Unspecified,
    ProtobufWrappedInAny,
    Protobuf,
    Json,
    Someip,
    SomeipTlv,
    Raw,
    Text,
    Shm,
}

/// Ghost image of a [`Message`].
pub ghost struct MessageView {
    pub source: Option<UriView>,
    pub sink: Option<UriView>,
    pub payload: Seq<u8>,
    pub payload_format: PayloadFormat,
}

/// A uProtocol message as the streamer sees it: addressing, payload bytes and
/// the payload format.
#[derive(Debug)]
pub struct Message {
    pub source: Option<Uri>,
    pub sink: Option<Uri>,
    pub payload: Vec<u8>,
    pub payload_format: PayloadFormat,
}

impl View for Message {
    type V = MessageView;

    open spec fn view(&self) -> MessageView {
        MessageView {
            source: match self.source {
                Some(u) => Some(u@),
                None => None,
            },
            sink: match self.sink {
                Some(u) => Some(u@),
                None => None,
            },
            payload: self.payload@,
            payload_format: self.payload_format,
        }
    }
}

impl Clone for Message {
    /// A clone is the same message.
    fn clone(&self) -> (r: Message)
        ensures
            r@ == self@,
    {
        let source = match &self.source {
            Some(u) => Some(u.clone()),
            None => None,
        };
        let sink = match &self.sink {
            Some(u) => Some(u.clone()),
            None => None,
        };
        let payload = self.payload.clone();
        proof {
            assert(payload@ =~= self.payload@);
        }
        let r = Message { source, sink, payload, payload_format: self.payload_format };
        proof {
            assert(r@.source == self@.source);
            assert(r@.sink == self@.sink);
        }
        r
    }
}

impl Default for Message {
    /// An empty message: no addressing, no payload, unspecified format.
    fn default() -> (r: Message)
        ensures
            r@.source is None,
            r@.sink is None,
            r@.payload == Seq::<u8>::empty(),
            r@.payload_format == PayloadFormat::Unspecified,
    {
        Message { source: None, sink: None, payload: Vec::new(), payload_format: PayloadFormat::Unspecified }
    }
}

/// Failure reported by a transport operation. Transport failures are non-fatal
/// to the streamer; they are surfaced so callers can decide what to roll back.
#[derive(Debug)]
pub struct TransportError {
    pub message: String,
}

impl Clone for TransportError {
    /// A clone carries the same description.
    fn clone(&self) -> (r: TransportError)
        ensures
            r.message@ == self.message@,
    {
        TransportError { message: self.message.clone() }
    }
}

impl TransportError {
    /// Builds a transport error carrying a description.
    pub fn new(message: String) -> (r: TransportError)
        ensures
            r.message@ == message@,
    {
        TransportError { message }
    }
}

/// A transport capability: the handle through which the streamer sends
/// messages and installs or removes receive callbacks. Implementations are
/// supplied by the embedding program; the streamer states nothing about their
/// behaviour and handles success and failure of every call.
pub trait Transport {
    /// Sends one message on this transport.
    fn send(&self, message: &Message) -> Result<(), TransportError>;

    /// Installs `listener` for messages matching `source_filter` (and
    /// `sink_filter`, when given).
    fn register_listener(
        &self,
        source_filter: &Uri,
        sink_filter: Option<&Uri>,
        listener: &ForwardingListener,
    ) -> Result<(), TransportError>;

    /// Removes a previously installed listener registration.
    fn unregister_listener(
        &self,
        source_filter: &Uri,
        sink_filter: Option<&Uri>,
        listener: &ForwardingListener,
    ) -> Result<(), TransportError>;
}

} // verus!
