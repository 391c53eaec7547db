use up_streamer::publish_resolution::PublishRouteResolver;
use up_streamer::subscription::{SubscriptionDirectory, SubscriptionRecord};
use up_streamer::uri::Uri;

fn uri(text: &str) -> Uri {
    let parsed = <up_rust::UUri as std::str::FromStr>::from_str(text).expect("valid topic UUri");
    Uri {
        authority_name: parsed.authority_name,
        ue_id: parsed.ue_id,
        ue_version_major: parsed.ue_version_major,
        resource_id: parsed.resource_id,
    }
}

fn subscription_info(topic: &str, subscriber: &str) -> SubscriptionRecord {
    SubscriptionRecord { topic: uri(topic), subscriber: uri(subscriber) }
}

#[test]
fn resolver_blocks_mismatched_topic_authority() {
    let topic = uri("//authority-a/5BA0/1/8001");

    let source = PublishRouteResolver::derive_source_filter_for_topic(
        "authority-c",
        "authority-b",
        &topic,
    );

    assert!(source.is_none());
}

#[test]
fn resolver_allows_wildcard_topic_authority() {
    let topic = uri("//*/5BA0/1/8001");

    let source = PublishRouteResolver::derive_source_filter_for_topic(
        "authority-c",
        "authority-b",
        &topic,
    )
    .expect("wildcard topic should resolve");

    assert_eq!(source.authority_name, "authority-c");
    assert_eq!(source.ue_id, topic.ue_id);
    assert_eq!(source.ue_version_major, topic.ue_version_major);
    assert_eq!(source.resource_id, topic.resource_id);
}

#[test]
fn resolver_dedupes_sources_across_subscribers() {
    let subscribers = vec![
        subscription_info("//authority-a/5BA0/1/8001", "//authority-b/5678/1/1234"),
        subscription_info("//authority-a/5BA0/1/8001", "//authority-b/5679/1/1234"),
        subscription_info("//authority-z/5BA0/1/8001", "//authority-b/567A/1/1234"),
    ];

    let filters = PublishRouteResolver::derive_source_filters(
        "authority-a",
        "authority-b",
        &subscribers,
    );

    assert_eq!(filters.len(), 1);
    let expected = uri("//authority-a/5BA0/1/8001");
    assert!(filters.iter().any(|source_filter| source_filter.matches(&expected)));
}

#[test]
fn directory_lookup_matches_egress_and_wildcard_subscribers() {
    let directory = SubscriptionDirectory::new(vec![
        subscription_info("//authority-a/5BA0/1/8001", "//authority-b/5678/1/1234"),
        subscription_info("//authority-a/5BA0/1/8001", "//*/5679/1/1234"),
        subscription_info("//authority-a/5BA0/1/8001", "//authority-z/567A/1/1234"),
    ]);

    let matching = directory.lookup_route_subscribers("authority-b");

    assert_eq!(matching.len(), 2);
    assert_eq!(matching[0].subscriber.authority_name, "authority-b");
    assert_eq!(matching[1].subscriber.authority_name, "*");
}

#[test]
fn directory_lookup_returns_empty_for_unknown_authority() {
    let directory = SubscriptionDirectory::new(vec![subscription_info(
        "//authority-a/5BA0/1/8001",
        "//authority-b/5678/1/1234",
    )]);

    let matching = directory.lookup_route_subscribers("authority-q");

    assert!(matching.is_empty());
}
