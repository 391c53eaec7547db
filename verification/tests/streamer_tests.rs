use std::cell::{Cell, RefCell};
use up_streamer::endpoint::Endpoint;
use up_streamer::ingress_listener::ForwardingListener;
use up_streamer::streamer::{
    FetchSubscriptionsRequest, StreamerError, SubscriptionProvider, UStreamer,
};
use up_streamer::subscription::SubscriptionRecord;
use up_streamer::transport::{Message, Transport, TransportError};
use up_streamer::uri::Uri;
use up_streamer::ComparableTransport;

fn uri(text: &str) -> Uri {
    let parsed = <up_rust::UUri as std::str::FromStr>::from_str(text).expect("valid UUri");
    Uri {
        authority_name: parsed.authority_name,
        ue_id: parsed.ue_id,
        ue_version_major: parsed.ue_version_major,
        resource_id: parsed.resource_id,
    }
}

struct StaticProvider {
    records: RefCell<Vec<SubscriptionRecord>>,
}

impl StaticProvider {
    fn with_records(entries: &[(&str, &str)]) -> StaticProvider {
        StaticProvider {
            records: RefCell::new(
                entries
                    .iter()
                    .map(|(topic, subscriber)| SubscriptionRecord {
                        topic: uri(topic),
                        subscriber: uri(subscriber),
                    })
                    .collect(),
            ),
        }
    }
}

impl SubscriptionProvider for StaticProvider {
    fn fetch_subscriptions(
        &self,
        _request: &FetchSubscriptionsRequest,
    ) -> Result<Vec<SubscriptionRecord>, String> {
        Ok(self.records.borrow().iter().map(|record| record.clone()).collect())
    }
}

struct UnavailableProvider;

impl SubscriptionProvider for UnavailableProvider {
    fn fetch_subscriptions(
        &self,
        _request: &FetchSubscriptionsRequest,
    ) -> Result<Vec<SubscriptionRecord>, String> {
        Err("subscription directory unavailable".to_string())
    }
}

struct QuietTransport {
    register_failures_remaining: Cell<usize>,
    register_count: Cell<usize>,
}

impl QuietTransport {
    fn new() -> QuietTransport {
        QuietTransport { register_failures_remaining: Cell::new(0), register_count: Cell::new(0) }
    }

    fn failing_every_register() -> QuietTransport {
        let transport = QuietTransport::new();
        transport.register_failures_remaining.set(usize::MAX);
        transport
    }
}

impl Transport for QuietTransport {
    fn send(&self, _message: &Message) -> Result<(), TransportError> {
        Ok(())
    }

    fn register_listener(
        &self,
        _source_filter: &Uri,
        _sink_filter: Option<&Uri>,
        _listener: &ForwardingListener,
    ) -> Result<(), TransportError> {
        if self.register_failures_remaining.get() > 0 {
            self.register_failures_remaining.set(self.register_failures_remaining.get() - 1);
            return Err(TransportError::new("registration refused".to_string()));
        }
        self.register_count.set(self.register_count.get() + 1);
        Ok(())
    }

    fn unregister_listener(
        &self,
        _source_filter: &Uri,
        _sink_filter: Option<&Uri>,
        _listener: &ForwardingListener,
    ) -> Result<(), TransportError> {
        Ok(())
    }
}

fn test_streamer() -> UStreamer {
    let provider =
        StaticProvider::with_records(&[("//authority-a/5BA0/1/8001", "//authority-b/5678/1/1234")]);
    UStreamer::new("test-streamer", 16, &provider).expect("streamer initializes")
}

#[test]
fn new_fails_when_subscription_bootstrap_fails() {
    let result = UStreamer::new("test-streamer", 16, &UnavailableProvider);
    assert!(matches!(result, Err(StreamerError::InvalidArgument(_))));
}

#[test]
fn same_authority_route_is_rejected_without_state_change() {
    let mut streamer = test_streamer();
    let transport = QuietTransport::new();
    let ingress = Endpoint::new("in", "authority-a", ComparableTransport::new(1));
    let egress = Endpoint::new("out", "authority-a", ComparableTransport::new(2));

    let added = streamer.add_forwarding_rule(ingress.clone(), egress.clone(), &transport);
    assert!(matches!(added, Err(StreamerError::InvalidArgument(_))));
    assert_eq!(streamer.route_count(), 0);
    assert_eq!(streamer.egress_refcount(ComparableTransport::new(2)), 0);
    assert_eq!(transport.register_count.get(), 0);

    let deleted = streamer.delete_forwarding_rule(ingress, egress, &transport);
    assert!(matches!(deleted, Err(StreamerError::InvalidArgument(_))));
}

#[test]
fn duplicate_route_is_rejected_and_refcounts_stay() {
    let mut streamer = test_streamer();
    let transport = QuietTransport::new();
    let ingress = Endpoint::new("in", "authority-a", ComparableTransport::new(1));
    let egress = Endpoint::new("out", "authority-b", ComparableTransport::new(2));

    assert!(streamer
        .add_forwarding_rule(ingress.clone(), egress.clone(), &transport)
        .is_ok());
    let register_count_after_first = transport.register_count.get();

    let second = streamer.add_forwarding_rule(ingress, egress, &transport);
    assert!(matches!(second, Err(StreamerError::AlreadyExists)));
    assert_eq!(streamer.route_count(), 1);
    assert_eq!(streamer.egress_refcount(ComparableTransport::new(2)), 1);
    assert_eq!(streamer.listener_refcount(ComparableTransport::new(1), "authority-a", "authority-b"), 1);
    assert_eq!(transport.register_count.get(), register_count_after_first);
}

#[test]
fn second_delete_reports_not_found() {
    let mut streamer = test_streamer();
    let transport = QuietTransport::new();
    let ingress = Endpoint::new("in", "authority-a", ComparableTransport::new(1));
    let egress = Endpoint::new("out", "authority-b", ComparableTransport::new(2));

    assert!(streamer
        .add_forwarding_rule(ingress.clone(), egress.clone(), &transport)
        .is_ok());
    assert!(streamer
        .delete_forwarding_rule(ingress.clone(), egress.clone(), &transport)
        .is_ok());

    let second = streamer.delete_forwarding_rule(ingress, egress, &transport);
    assert!(matches!(second, Err(StreamerError::NotFound)));
    assert_eq!(streamer.route_count(), 0);
}

#[test]
fn failed_listener_registration_rolls_back_route_and_pool() {
    let mut streamer = test_streamer();
    let transport = QuietTransport::failing_every_register();
    let ingress = Endpoint::new("in", "authority-a", ComparableTransport::new(1));
    let egress = Endpoint::new("out", "authority-b", ComparableTransport::new(2));

    let added = streamer.add_forwarding_rule(ingress.clone(), egress.clone(), &transport);
    assert!(matches!(added, Err(StreamerError::InvalidArgument(_))));
    assert_eq!(streamer.route_count(), 0);
    assert_eq!(streamer.egress_refcount(ComparableTransport::new(2)), 0);
    assert_eq!(streamer.listener_refcount(ComparableTransport::new(1), "authority-a", "authority-b"), 0);

    let working_transport = QuietTransport::new();
    assert!(streamer
        .add_forwarding_rule(ingress, egress, &working_transport)
        .is_ok());
}

#[test]
fn shared_egress_transport_uses_one_worker_until_last_route_leaves() {
    let mut streamer = test_streamer();
    let transport = QuietTransport::new();
    let shared_egress = ComparableTransport::new(9);
    let first_ingress = Endpoint::new("in-1", "authority-a1", ComparableTransport::new(1));
    let second_ingress = Endpoint::new("in-2", "authority-a2", ComparableTransport::new(2));
    let egress = Endpoint::new("out", "authority-b", shared_egress);

    let first = streamer
        .add_forwarding_rule(first_ingress.clone(), egress.clone(), &transport)
        .expect("first route installs");
    let second = streamer
        .add_forwarding_rule(second_ingress.clone(), egress.clone(), &transport)
        .expect("second route installs");

    let spawn = first.expect("first route brings a new egress worker");
    assert!(second.is_none());
    assert_eq!(streamer.egress_refcount(shared_egress), 2);

    assert!(streamer
        .delete_forwarding_rule(first_ingress, egress.clone(), &transport)
        .is_ok());
    assert_eq!(streamer.egress_refcount(shared_egress), 1);

    assert!(streamer
        .delete_forwarding_rule(second_ingress, egress, &transport)
        .is_ok());
    assert_eq!(streamer.egress_refcount(shared_egress), 0);

    let mut receiver = spawn.receiver;
    assert!(matches!(
        receiver.try_recv(),
        Err(tokio::sync::broadcast::error::TryRecvError::Closed)
    ));
}

#[test]
fn shared_ingress_triple_registers_listeners_once() {
    let mut streamer = test_streamer();
    let transport = QuietTransport::new();
    let shared_ingress = Endpoint::new("in", "authority-a", ComparableTransport::new(1));
    let first_egress = Endpoint::new("out-1", "authority-b", ComparableTransport::new(2));
    let second_egress = Endpoint::new("out-2", "authority-b", ComparableTransport::new(3));

    let first = streamer
        .add_forwarding_rule(shared_ingress.clone(), first_egress, &transport)
        .expect("first route installs");
    let register_count_after_first = transport.register_count.get();
    let second = streamer
        .add_forwarding_rule(shared_ingress, second_egress, &transport)
        .expect("second route installs");

    assert!(first.is_some());
    assert!(second.is_some());
    assert_eq!(transport.register_count.get(), register_count_after_first);
    assert_eq!(
        streamer.listener_refcount(ComparableTransport::new(1), "authority-a", "authority-b"),
        2
    );
}

#[test]
fn api_facade_mirrors_the_route_lifecycle() {
    let provider =
        StaticProvider::with_records(&[("//authority-a/5BA0/1/8001", "//authority-b/5678/1/1234")]);
    let mut streamer =
        up_streamer::api::new("facade", 16, &provider).expect("streamer initializes");
    let transport = QuietTransport::new();
    let ingress = Endpoint::new("in", "authority-a", ComparableTransport::new(1));
    let egress = Endpoint::new("out", "authority-b", ComparableTransport::new(2));

    assert!(up_streamer::api::add_forwarding_rule(
        &mut streamer,
        ingress.clone(),
        egress.clone(),
        &transport
    )
    .is_ok());
    assert!(up_streamer::api::delete_forwarding_rule(&mut streamer, ingress, egress, &transport)
        .is_ok());
    assert_eq!(streamer.route_count(), 0);
}

#[test]
fn route_lifecycle_names_mirror_forwarding_rules() {
    let mut streamer = test_streamer();
    let transport = QuietTransport::new();
    let ingress = Endpoint::new("in", "authority-a", ComparableTransport::new(1));
    let egress = Endpoint::new("out", "authority-b", ComparableTransport::new(2));

    assert!(streamer.add_route(ingress.clone(), egress.clone(), &transport).is_ok());
    assert!(matches!(
        streamer.add_route(ingress.clone(), egress.clone(), &transport),
        Err(StreamerError::AlreadyExists)
    ));
    assert!(streamer.delete_route(ingress.clone(), egress.clone(), &transport).is_ok());
    assert!(matches!(
        streamer.delete_route(ingress, egress, &transport),
        Err(StreamerError::NotFound)
    ));
}
