use up_streamer::egress_worker::{
    build_runtime_thread_name, EGRESS_ROUTE_RUNTIME_THREAD_NAME_MAX_LEN,
    EGRESS_ROUTE_RUNTIME_THREAD_NAME_PREFIX,
};
use up_streamer::worker_runtime::{
    sanitize_runtime_thread_name, DEFAULT_EGRESS_ROUTE_RUNTIME_THREAD_NAME,
};

#[test]
fn sanitize_runtime_thread_name_keeps_valid_name() {
    let name = sanitize_runtime_thread_name("up-egress-12345".to_string());
    assert_eq!(name, "up-egress-12345");
}

#[test]
fn sanitize_runtime_thread_name_uses_fallback_for_empty_name() {
    let name = sanitize_runtime_thread_name(String::new());
    assert_eq!(name, DEFAULT_EGRESS_ROUTE_RUNTIME_THREAD_NAME);
}

#[test]
fn sanitize_runtime_thread_name_uses_fallback_for_long_name() {
    let name = sanitize_runtime_thread_name("up-egress-thread-name-too-long".to_string());
    assert_eq!(name, DEFAULT_EGRESS_ROUTE_RUNTIME_THREAD_NAME);
}

#[test]
fn build_runtime_thread_name_keeps_prefix_and_linux_safe_length() {
    let thread_name = build_runtime_thread_name("abcdef0123456789");

    assert!(thread_name.starts_with(EGRESS_ROUTE_RUNTIME_THREAD_NAME_PREFIX));
    assert_eq!(thread_name.len(), EGRESS_ROUTE_RUNTIME_THREAD_NAME_MAX_LEN);
}

#[test]
fn build_runtime_thread_name_uses_fallback_for_short_non_hex_ids() {
    let thread_name = build_runtime_thread_name("zzz");

    assert_eq!(thread_name, DEFAULT_EGRESS_ROUTE_RUNTIME_THREAD_NAME);
}

#[test]
fn build_runtime_thread_name_skips_non_hex_characters() {
    let thread_name = build_runtime_thread_name("z1z2z3z4z5z6");

    assert_eq!(thread_name, "up-egress-12345");
}
