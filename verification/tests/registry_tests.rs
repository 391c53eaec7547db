use std::cell::{Cell, RefCell};
use up_streamer::ingress_listener::ForwardingListener;
use up_streamer::ingress_registry::ForwardingListeners;
use up_streamer::subscription::{SubscriptionDirectory, SubscriptionRecord};
use up_streamer::transport::{Message, Transport, TransportError};
use up_streamer::uri::{uauthority_to_uuri, Uri};
use up_streamer::ComparableTransport;

fn uri(text: &str) -> Uri {
    let parsed = <up_rust::UUri as std::str::FromStr>::from_str(text).expect("valid UUri");
    Uri {
        authority_name: parsed.authority_name,
        ue_id: parsed.ue_id,
        ue_version_major: parsed.ue_version_major,
        resource_id: parsed.resource_id,
    }
}

struct ListenerCall {
    source_filter: Uri,
    sink_filter: Option<Uri>,
    route_id: String,
}

struct RecordingTransport {
    register_calls: RefCell<Vec<ListenerCall>>,
    unregister_calls: RefCell<Vec<ListenerCall>>,
    registers_before_failure: Cell<Option<usize>>,
}

impl RecordingTransport {
    fn new() -> RecordingTransport {
        RecordingTransport {
            register_calls: RefCell::new(Vec::new()),
            unregister_calls: RefCell::new(Vec::new()),
            registers_before_failure: Cell::new(None),
        }
    }

    fn failing_after(successful_registers: usize) -> RecordingTransport {
        let transport = RecordingTransport::new();
        transport.registers_before_failure.set(Some(successful_registers));
        transport
    }

    fn count(calls: &[ListenerCall], source_filter: &Uri, sink_filter: Option<&Uri>) -> usize {
        calls
            .iter()
            .filter(|call| {
                call.source_filter.matches(source_filter)
                    && match (&call.sink_filter, sink_filter) {
                        (Some(recorded), Some(wanted)) => recorded.matches(wanted),
                        (None, None) => true,
                        _ => false,
                    }
            })
            .count()
    }

    fn register_call_count(&self, source_filter: &Uri, sink_filter: Option<&Uri>) -> usize {
        RecordingTransport::count(&self.register_calls.borrow(), source_filter, sink_filter)
    }

    fn unregister_call_count(&self, source_filter: &Uri, sink_filter: Option<&Uri>) -> usize {
        RecordingTransport::count(&self.unregister_calls.borrow(), source_filter, sink_filter)
    }
}

impl Transport for RecordingTransport {
    fn send(&self, _message: &Message) -> Result<(), TransportError> {
        Ok(())
    }

    fn register_listener(
        &self,
        source_filter: &Uri,
        sink_filter: Option<&Uri>,
        listener: &ForwardingListener,
    ) -> Result<(), TransportError> {
        if let Some(budget) = self.registers_before_failure.get() {
            if budget == 0 {
                return Err(TransportError::new("registration refused".to_string()));
            }
            self.registers_before_failure.set(Some(budget - 1));
        }
        self.register_calls.borrow_mut().push(ListenerCall {
            source_filter: source_filter.clone(),
            sink_filter: sink_filter.cloned(),
            route_id: listener.route_id().to_string(),
        });
        Ok(())
    }

    fn unregister_listener(
        &self,
        source_filter: &Uri,
        sink_filter: Option<&Uri>,
        listener: &ForwardingListener,
    ) -> Result<(), TransportError> {
        self.unregister_calls.borrow_mut().push(ListenerCall {
            source_filter: source_filter.clone(),
            sink_filter: sink_filter.cloned(),
            route_id: listener.route_id().to_string(),
        });
        Ok(())
    }
}

fn make_subscription_directory(entries: &[(&str, &str)]) -> SubscriptionDirectory {
    let records = entries
        .iter()
        .map(|(topic, subscriber)| SubscriptionRecord {
            topic: uri(topic),
            subscriber: uri(subscriber),
        })
        .collect();
    SubscriptionDirectory::new(records)
}

#[test]
fn insert_and_remove_registers_and_unregisters_request_and_publish_filters() {
    let mut forwarding_listeners = ForwardingListeners::new();
    let recording_transport = RecordingTransport::new();
    let in_transport_key = ComparableTransport::new(31);
    let (out_sender, _out_receiver) = tokio::sync::broadcast::channel(16);
    let subscription_directory =
        make_subscription_directory(&[("//authority-a/5BA0/1/8001", "//authority-b/5678/1/1234")]);

    assert!(forwarding_listeners
        .insert(
            &recording_transport,
            in_transport_key,
            "authority-a",
            "authority-b",
            "test-forwarding",
            out_sender,
            &subscription_directory,
        )
        .is_ok());

    forwarding_listeners.remove(
        &recording_transport,
        in_transport_key,
        "authority-a",
        "authority-b",
        &subscription_directory,
    );

    let request_source = uauthority_to_uuri("authority-a");
    let request_sink = uauthority_to_uuri("authority-b");
    let publish_source = uri("//authority-a/5BA0/1/8001");

    assert_eq!(
        recording_transport.register_call_count(&request_source, Some(&request_sink)),
        1
    );
    assert_eq!(recording_transport.register_call_count(&publish_source, None), 1);
    assert_eq!(
        recording_transport.unregister_call_count(&request_source, Some(&request_sink)),
        1
    );
    assert_eq!(recording_transport.unregister_call_count(&publish_source, None), 1);
}

#[test]
fn duplicate_insert_for_same_route_keeps_single_listener_registration() {
    let mut forwarding_listeners = ForwardingListeners::new();
    let recording_transport = RecordingTransport::new();
    let in_transport_key = ComparableTransport::new(32);
    let (out_sender, _out_receiver) = tokio::sync::broadcast::channel(16);
    let subscription_directory =
        make_subscription_directory(&[("//authority-a/5BA0/1/8001", "//authority-b/5678/1/1234")]);

    let first_insert = forwarding_listeners
        .insert(
            &recording_transport,
            in_transport_key,
            "authority-a",
            "authority-b",
            "test-forwarding",
            out_sender.clone(),
            &subscription_directory,
        )
        .expect("first insert success");
    let second_insert = forwarding_listeners
        .insert(
            &recording_transport,
            in_transport_key,
            "authority-a",
            "authority-b",
            "test-forwarding",
            out_sender,
            &subscription_directory,
        )
        .expect("second insert success");

    assert!(first_insert.is_some());
    assert!(second_insert.is_none());

    let request_source = uauthority_to_uuri("authority-a");
    let request_sink = uauthority_to_uuri("authority-b");
    let publish_source = uri("//authority-a/5BA0/1/8001");

    assert_eq!(
        recording_transport.register_call_count(&request_source, Some(&request_sink)),
        1
    );
    assert_eq!(recording_transport.register_call_count(&publish_source, None), 1);
}

#[test]
fn failed_publish_registration_rolls_back_every_successful_registration() {
    let mut forwarding_listeners = ForwardingListeners::new();
    let recording_transport = RecordingTransport::failing_after(1);
    let in_transport_key = ComparableTransport::new(33);
    let (out_sender, _out_receiver) = tokio::sync::broadcast::channel(16);
    let subscription_directory =
        make_subscription_directory(&[("//authority-a/5BA0/1/8001", "//authority-b/5678/1/1234")]);

    let result = forwarding_listeners.insert(
        &recording_transport,
        in_transport_key,
        "authority-a",
        "authority-b",
        "test-forwarding",
        out_sender,
        &subscription_directory,
    );

    assert!(result.is_err());
    assert_eq!(forwarding_listeners.len(), 0);

    let register_calls = recording_transport.register_calls.borrow();
    let unregister_calls = recording_transport.unregister_calls.borrow();
    for successful in register_calls.iter() {
        assert!(unregister_calls.iter().any(|undone| {
            undone.source_filter.matches(&successful.source_filter)
                && match (&undone.sink_filter, &successful.sink_filter) {
                    (Some(a), Some(b)) => a.matches(b),
                    (None, None) => true,
                    _ => false,
                }
                && undone.route_id == successful.route_id
        }));
    }
}
