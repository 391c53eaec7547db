use up_streamer::static_file::USubscriptionStaticFile;
use up_streamer::uri::Uri;

fn uri(text: &str) -> Uri {
    let parsed = <up_rust::UUri as std::str::FromStr>::from_str(text).expect("valid topic");
    Uri {
        authority_name: parsed.authority_name,
        ue_id: parsed.ue_id,
        ue_version_major: parsed.ue_version_major,
        resource_id: parsed.resource_id,
    }
}

const STATIC_CONFIG: &str = r#"{
    "//authority-a/5BA0/1/8001": [
        "//authority-b/5678/1/1234",
        "//authority-b/5678/1/1234",
        "//authority-c/5678/1/1234"
    ],
    "//authority-a/5BA0/1/8002": [
        "//authority-z/5678/1/1234"
    ]
}"#;

#[test]
fn fetch_subscribers_dedupes_duplicate_subscribers_after_topic_normalization() {
    let backend = USubscriptionStaticFile::new("static-config.json".to_string());

    let requested_topic = uri("//authority-a/5BA0/1/FFFF");
    let subscribers = backend
        .fetch_subscribers(STATIC_CONFIG, &requested_topic)
        .expect("fetch_subscribers should succeed");

    assert_eq!(subscribers.len(), 3);
    assert!(subscribers.iter().any(|s| s.matches(&uri("//authority-b/5678/1/1234"))));
    assert!(subscribers.iter().any(|s| s.matches(&uri("//authority-c/5678/1/1234"))));
    assert!(subscribers.iter().any(|s| s.matches(&uri("//authority-z/5678/1/1234"))));
}

#[test]
fn parse_static_subscriptions_normalizes_topics_and_drops_duplicates() {
    let backend = USubscriptionStaticFile::new("static-config.json".to_string());

    let records = backend
        .parse_static_subscriptions(STATIC_CONFIG)
        .expect("valid configuration parses");

    assert_eq!(records.len(), 3);
    for record in &records {
        assert_eq!(record.topic.resource_id, 0x8001);
        assert_eq!(record.topic.authority_name, "authority-a");
    }
}

#[test]
fn parse_static_subscriptions_skips_unusable_entries() {
    let backend = USubscriptionStaticFile::new("static-config.json".to_string());
    let config = r#"{
        "not a uri": ["//authority-b/5678/1/1234"],
        "//authority-a/5BA0/1/8001": "not an array",
        "//authority-d/5BA0/1/8001": [42, "not a uri either", "//authority-b/5678/1/1234"]
    }"#;

    let records = backend.parse_static_subscriptions(config).expect("object still parses");

    assert_eq!(records.len(), 1);
    assert_eq!(records[0].topic.authority_name, "authority-d");
    assert_eq!(records[0].subscriber.authority_name, "authority-b");
}

#[test]
fn parse_static_subscriptions_rejects_non_object_configuration() {
    let backend = USubscriptionStaticFile::new("static-config.json".to_string());

    assert!(backend.parse_static_subscriptions("[1, 2, 3]").is_err());
    assert!(backend.parse_static_subscriptions("not json at all").is_err());
}
