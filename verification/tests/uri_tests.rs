use up_streamer::transport::{Message, PayloadFormat};
use up_streamer::uri::{authority_matches, uauthority_to_uuri, Uri};

#[test]
fn uauthority_to_uuri_uses_all_ones_sentinel_fields() {
    let filter = uauthority_to_uuri("authority-a");

    assert_eq!(filter.authority_name, "authority-a");
    assert_eq!(filter.ue_id, 0xFFFF_FFFF);
    assert_eq!(filter.ue_version_major, 0xFF);
    assert_eq!(filter.resource_id, 0xFFFF);
}

#[test]
fn authority_matching_is_wildcard_aware() {
    assert!(authority_matches("authority-a", "authority-a"));
    assert!(authority_matches("*", "authority-a"));
    assert!(!authority_matches("authority-a", "authority-b"));
    assert!(!authority_matches("authority-a", "*"));
}

#[test]
fn uri_equality_is_structural() {
    let left = Uri::new("authority-a".to_string(), 0x5BA0, 1, 0x8001);
    let right = Uri::new("authority-a".to_string(), 0x5BA0, 1, 0x8001);
    let other = Uri::new("authority-a".to_string(), 0x5BA0, 1, 0x8002);

    assert!(left.matches(&right));
    assert!(!left.matches(&other));
    assert!(left.clone().matches(&left));
}

#[test]
fn default_message_is_empty_and_unspecified() {
    let message = Message::default();

    assert!(message.source.is_none());
    assert!(message.sink.is_none());
    assert!(message.payload.is_empty());
    assert_eq!(message.payload_format, PayloadFormat::Unspecified);
}
