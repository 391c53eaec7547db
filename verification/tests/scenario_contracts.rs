use up_streamer::scenario;

#[test]
fn scenario_registry_contains_exactly_eight_ids() {
    let scenario_ids = scenario::scenario_ids();
    assert_eq!(scenario_ids.len(), 8);
}

#[test]
fn scenario_registry_pairs_each_combination_with_both_directions() {
    let scenario_ids = scenario::scenario_ids();

    for scenario_id in &scenario_ids {
        assert!(scenario_id.starts_with("smoke-zenoh-"));
        assert!(scenario_id.contains("-ps-") || scenario_id.contains("-rr-"));
    }
    assert_eq!(scenario_ids.iter().filter(|id| id.contains("mqtt")).count(), 4);
    assert_eq!(scenario_ids.iter().filter(|id| id.contains("someip")).count(), 4);
}
