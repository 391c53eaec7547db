use std::cell::Cell;
use up_streamer::egress_pool::TransportForwarders;
use up_streamer::egress_worker::{route_dispatch_step, DispatchOutcome, QueueEvent};
use up_streamer::ingress_listener::{ForwardingListener, IngressDispatch};
use up_streamer::transport::{Message, PayloadFormat, Transport, TransportError};
use up_streamer::uri::Uri;
use up_streamer::ComparableTransport;

struct CountingTransport {
    send_count: Cell<usize>,
}

impl CountingTransport {
    fn new() -> CountingTransport {
        CountingTransport { send_count: Cell::new(0) }
    }

    fn sent_count(&self) -> usize {
        self.send_count.get()
    }
}

impl Transport for CountingTransport {
    fn send(&self, _message: &Message) -> Result<(), TransportError> {
        self.send_count.set(self.send_count.get() + 1);
        Ok(())
    }

    fn register_listener(
        &self,
        _source_filter: &Uri,
        _sink_filter: Option<&Uri>,
        _listener: &ForwardingListener,
    ) -> Result<(), TransportError> {
        Ok(())
    }

    fn unregister_listener(
        &self,
        _source_filter: &Uri,
        _sink_filter: Option<&Uri>,
        _listener: &ForwardingListener,
    ) -> Result<(), TransportError> {
        Ok(())
    }
}

/// Drives the dispatch policy over a drained queue, as the embedding worker
/// thread would, until the queue reports closed.
fn run_dispatch_loop(
    transport: &CountingTransport,
    receiver: &mut tokio::sync::broadcast::Receiver<Message>,
) {
    loop {
        let event = match receiver.try_recv() {
            Ok(message) => QueueEvent::Received(message),
            Err(tokio::sync::broadcast::error::TryRecvError::Lagged(skipped)) => {
                QueueEvent::Lagged(skipped)
            }
            Err(tokio::sync::broadcast::error::TryRecvError::Closed) => QueueEvent::Closed,
            Err(tokio::sync::broadcast::error::TryRecvError::Empty) => {
                panic!("queue should be drained only after close")
            }
        };
        if route_dispatch_step(transport, event) == DispatchOutcome::Stopped {
            break;
        }
    }
}

#[test]
fn route_dispatch_loop_exits_on_closed_receiver() {
    let transport = CountingTransport::new();
    let (sender, mut receiver) = tokio::sync::broadcast::channel(8);
    drop(sender);

    run_dispatch_loop(&transport, &mut receiver);

    assert_eq!(transport.sent_count(), 0);
}

#[test]
fn route_dispatch_loop_does_not_forward_after_close() {
    let transport = CountingTransport::new();
    let (sender, mut receiver) = tokio::sync::broadcast::channel(8);

    sender.send(Message::default()).expect("queue should accept pre-close message");
    drop(sender);

    run_dispatch_loop(&transport, &mut receiver);

    assert_eq!(transport.sent_count(), 1);
}

#[test]
fn route_dispatch_loop_continues_after_lagged_receive() {
    let transport = CountingTransport::new();
    let (sender, mut receiver) = tokio::sync::broadcast::channel(1);

    sender.send(Message::default()).expect("queue should accept first message");
    sender.send(Message::default()).expect("queue should accept second message");
    drop(sender);

    run_dispatch_loop(&transport, &mut receiver);

    assert_eq!(transport.sent_count(), 1);
}

#[test]
fn route_dispatch_loop_tolerates_overload_and_stops_cleanly() {
    let transport = CountingTransport::new();
    let capacity: usize = 4;
    let overflow: usize = 3;
    let (sender, mut receiver) = tokio::sync::broadcast::channel(capacity);

    for _ in 0..capacity + overflow {
        sender.send(Message::default()).expect("queue accepts while sender lives");
    }
    drop(sender);

    run_dispatch_loop(&transport, &mut receiver);

    assert!(transport.sent_count() >= 1);
    assert!(transport.sent_count() <= capacity);
}

#[test]
fn insert_same_transport_reuses_queue_and_increments_refcount() {
    let mut pool = TransportForwarders::new(8);
    let transport = ComparableTransport::new(21);

    let (sender_a, first_receiver) = pool.insert(transport);
    let (sender_b, second_receiver) = pool.insert(transport);

    assert_eq!(pool.len(), 1);
    assert_eq!(pool.refcount_of(transport), 2);
    assert!(sender_a.same_channel(&sender_b));
    assert!(first_receiver.is_some());
    assert!(second_receiver.is_none());
}

#[test]
fn remove_drops_forwarder_when_refcount_reaches_zero() {
    let mut pool = TransportForwarders::new(8);
    let transport = ComparableTransport::new(22);

    pool.insert(transport);
    pool.insert(transport);

    pool.remove(transport);
    assert_eq!(pool.len(), 1);

    pool.remove(transport);
    assert_eq!(pool.len(), 0);
}

#[test]
fn listener_drops_shared_memory_payloads_and_forwards_the_rest() {
    let (sender, mut receiver) = tokio::sync::broadcast::channel(8);
    let listener = ForwardingListener::new("route-under-test", sender);

    let mut shm_message = Message::default();
    shm_message.payload_format = PayloadFormat::Shm;
    assert_eq!(listener.on_receive(shm_message), IngressDispatch::DroppedUnsupportedPayload);

    let mut data_message = Message::default();
    data_message.payload = vec![1, 2, 3];
    assert_eq!(listener.on_receive(data_message), IngressDispatch::Forwarded(1));

    let forwarded = receiver.try_recv().expect("forwarded message is queued");
    assert_eq!(forwarded.payload, vec![1, 2, 3]);
    assert!(matches!(
        receiver.try_recv(),
        Err(tokio::sync::broadcast::error::TryRecvError::Empty)
    ));
}

#[test]
fn listener_reports_missing_receivers() {
    let (sender, receiver) = tokio::sync::broadcast::channel(8);
    drop(receiver);
    let listener = ForwardingListener::new("route-under-test", sender);

    assert_eq!(listener.on_receive(Message::default()), IngressDispatch::NoReceivers);
}
