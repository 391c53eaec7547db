use up_streamer::claims::{
    evaluate_claims, materialize_claims, ArtifactStore, ClaimCategory, ClaimTemplate,
    ThresholdSelector, Thresholds,
};
use up_streamer::scenario;

fn scenario_claim_templates(scenario_id: &str) -> Vec<ClaimTemplate> {
    let mut claims = Vec::new();

    if scenario_id.contains("-rr-") {
        claims.push(ClaimTemplate::must_match(
            "client_response_evidence",
            ClaimCategory::EndpointCommunication,
            "client.log",
            "ServiceResponseListener: Received a message|UMESSAGE_TYPE_RESPONSE|commstatus: Some\\(OK\\)",
            ThresholdSelector::EndpointCommunication,
        ));
        claims.push(ClaimTemplate::must_match(
            "service_request_response_evidence",
            ClaimCategory::EndpointCommunication,
            "service.log",
            "ServiceResponseListener: Received a message|Sending Response message",
            ThresholdSelector::EndpointCommunication,
        ));
    } else {
        claims.push(ClaimTemplate::must_match(
            "publisher_sent_messages",
            ClaimCategory::EndpointCommunication,
            "publisher.log",
            "Sending Publish message",
            ThresholdSelector::EndpointCommunication,
        ));
        claims.push(ClaimTemplate::must_match(
            "subscriber_received_messages",
            ClaimCategory::EndpointCommunication,
            "subscriber.log",
            "PublishReceiver: Received a message",
            ThresholdSelector::EndpointCommunication,
        ));
    }

    claims.push(ClaimTemplate::must_match(
        "streamer_egress_send_attempt",
        ClaimCategory::StreamerEgress,
        "streamer.log",
        "egress_send_attempt",
        ThresholdSelector::EgressSendAttempt,
    ));
    claims.push(ClaimTemplate::must_match(
        "streamer_egress_send_ok",
        ClaimCategory::StreamerEgress,
        "streamer.log",
        "egress_send_ok",
        ThresholdSelector::EgressSendOk,
    ));
    claims.push(ClaimTemplate::must_match(
        "streamer_egress_worker_create_or_reuse",
        ClaimCategory::StreamerEgress,
        "streamer.log",
        "egress_worker_create|egress_worker_reuse",
        ThresholdSelector::EgressWorkerCreateOrReuse,
    ));

    claims.push(ClaimTemplate::must_not_match(
        "streamer_no_panic",
        ClaimCategory::ForbiddenSignature,
        "streamer.log",
        "panicked at",
    ));
    claims.push(ClaimTemplate::must_not_match(
        "streamer_no_egress_send_failed",
        ClaimCategory::ForbiddenSignature,
        "streamer.log",
        "egress_send_failed",
    ));

    if scenario_id.contains("someip") {
        claims.push(ClaimTemplate::must_not_match(
            "streamer_no_missing_route_info",
            ClaimCategory::ForbiddenSignature,
            "streamer.log",
            "Routing info for remote service could not be found",
        ));
    }

    claims
}

fn streamer_log_with_egress_ok() -> &'static str {
    "event=egress_worker_create route_label=r1\nevent=egress_send_attempt\nevent=egress_send_ok\n"
}

fn streamer_log_without_egress_ok() -> &'static str {
    "event=egress_worker_create route_label=r1\nevent=egress_send_attempt\n"
}

fn pass_fixture(scenario_id: &str) -> ArtifactStore {
    let mut store = ArtifactStore::new();
    if scenario_id.contains("-rr-") {
        store.add_file(
            "client.log".to_string(),
            "ServiceResponseListener: Received a message\n".to_string(),
        );
        store.add_file("service.log".to_string(), "Sending Response message\n".to_string());
    } else {
        store.add_file("publisher.log".to_string(), "Sending Publish message\n".to_string());
        store.add_file(
            "subscriber.log".to_string(),
            "PublishReceiver: Received a message\n".to_string(),
        );
    }
    store.add_file("streamer.log".to_string(), streamer_log_with_egress_ok().to_string());
    store
}

fn fail_missing_egress_ok_fixture(scenario_id: &str) -> ArtifactStore {
    let mut store = ArtifactStore::new();
    if scenario_id.contains("-rr-") {
        store.add_file(
            "client.log".to_string(),
            "ServiceResponseListener: Received a message\n".to_string(),
        );
        store.add_file("service.log".to_string(), "Sending Response message\n".to_string());
    } else {
        store.add_file("publisher.log".to_string(), "Sending Publish message\n".to_string());
        store.add_file(
            "subscriber.log".to_string(),
            "PublishReceiver: Received a message\n".to_string(),
        );
    }
    store.add_file("streamer.log".to_string(), streamer_log_without_egress_ok().to_string());
    store
}

#[test]
fn pass_fixtures_satisfy_scenario_claims() {
    for scenario_id in scenario::scenario_ids() {
        let claims =
            materialize_claims(&scenario_claim_templates(scenario_id), Thresholds::default());
        let outcomes = evaluate_claims(&pass_fixture(scenario_id), &claims);

        let failed = outcomes
            .into_iter()
            .filter(|outcome| !outcome.pass)
            .collect::<Vec<_>>();
        assert!(
            failed.is_empty(),
            "pass fixture failed for {} with {:?}",
            scenario_id,
            failed
        );
    }
}

#[test]
fn fail_fixtures_trigger_claim_failures() {
    for scenario_id in scenario::scenario_ids() {
        let claims =
            materialize_claims(&scenario_claim_templates(scenario_id), Thresholds::default());
        let outcomes = evaluate_claims(&fail_missing_egress_ok_fixture(scenario_id), &claims);

        assert!(
            outcomes.iter().any(|outcome| !outcome.pass),
            "expected at least one failing claim for {}",
            scenario_id
        );
    }
}
