use up_streamer::claims::{
    evaluate_claims, materialize_claims, split_claim_outcomes, ArtifactStore, ClaimCategory,
    ClaimKind, ClaimTemplate, ThresholdSelector, Thresholds,
};

fn artifact_store(files: &[(&str, &str)]) -> ArtifactStore {
    let mut store = ArtifactStore::new();
    for (name, contents) in files {
        store.add_file(name.to_string(), contents.to_string());
    }
    store
}

#[test]
fn must_match_counts_non_overlapping_regex_matches() {
    let artifacts = artifact_store(&[(
        "streamer.log",
        "event=egress_send_attempt event=egress_send_attempt\n",
    )]);

    let claims = materialize_claims(
        &[ClaimTemplate::must_match(
            "attempt",
            ClaimCategory::StreamerEgress,
            "streamer.log",
            "event=egress_send_attempt",
            ThresholdSelector::Fixed(2),
        )],
        Thresholds::default(),
    );

    let outcomes = evaluate_claims(&artifacts, &claims);
    assert_eq!(outcomes[0].observed_count, 2);
    assert!(outcomes[0].pass);
}

#[test]
fn must_not_match_fails_when_forbidden_pattern_exists() {
    let artifacts = artifact_store(&[("streamer.log", "thread panicked at boom\n")]);

    let claims = materialize_claims(
        &[ClaimTemplate::must_not_match(
            "no_panic",
            ClaimCategory::ForbiddenSignature,
            "streamer.log",
            "panicked at",
        )],
        Thresholds::default(),
    );

    let outcomes = evaluate_claims(&artifacts, &claims);
    assert_eq!(outcomes[0].kind, ClaimKind::MustNotMatch);
    assert_eq!(outcomes[0].observed_count, 1);
    assert!(!outcomes[0].pass);
}

#[test]
fn missing_file_is_hard_claim_failure() {
    let artifacts = ArtifactStore::new();
    let claims = materialize_claims(
        &[ClaimTemplate::must_match(
            "missing",
            ClaimCategory::EndpointCommunication,
            "service.log",
            "Sending Response message",
            ThresholdSelector::EndpointCommunication,
        )],
        Thresholds::default(),
    );

    let outcomes = evaluate_claims(&artifacts, &claims);
    assert!(!outcomes[0].pass);
    assert!(outcomes[0].error.is_some());
}

#[test]
fn malformed_regex_is_hard_claim_failure() {
    let artifacts = artifact_store(&[("client.log", "any content\n")]);

    let claims = materialize_claims(
        &[ClaimTemplate::must_match(
            "bad_regex",
            ClaimCategory::EndpointCommunication,
            "client.log",
            "(unclosed",
            ThresholdSelector::Fixed(1),
        )],
        Thresholds::default(),
    );

    let outcomes = evaluate_claims(&artifacts, &claims);
    assert!(!outcomes[0].pass);
    assert!(outcomes[0].error.is_some());
}

#[test]
fn split_claim_outcomes_separates_forbidden_claims() {
    let artifacts = artifact_store(&[("streamer.log", "event=egress_send_ok\n")]);

    let claims = materialize_claims(
        &[
            ClaimTemplate::must_match(
                "send_ok",
                ClaimCategory::StreamerEgress,
                "streamer.log",
                "event=egress_send_ok",
                ThresholdSelector::Fixed(1),
            ),
            ClaimTemplate::must_not_match(
                "no_panic",
                ClaimCategory::ForbiddenSignature,
                "streamer.log",
                "panicked at",
            ),
        ],
        Thresholds::default(),
    );

    let outcomes = evaluate_claims(&artifacts, &claims);
    let (must_outcomes, forbidden_outcomes, first_failure) = split_claim_outcomes(outcomes);

    assert_eq!(must_outcomes.len(), 1);
    assert_eq!(forbidden_outcomes.len(), 1);
    assert!(first_failure.is_none());
}

#[test]
fn split_claim_outcomes_reports_the_first_failure() {
    let artifacts = artifact_store(&[("streamer.log", "nothing of note\n")]);

    let claims = materialize_claims(
        &[ClaimTemplate::must_match(
            "send_ok",
            ClaimCategory::StreamerEgress,
            "streamer.log",
            "event=egress_send_ok",
            ThresholdSelector::Fixed(1),
        )],
        Thresholds::default(),
    );

    let outcomes = evaluate_claims(&artifacts, &claims);
    let (_must_outcomes, _forbidden_outcomes, first_failure) = split_claim_outcomes(outcomes);

    let reason = first_failure.expect("the failing claim is reported");
    assert!(reason.contains("send_ok"));
    assert!(reason.contains("streamer.log"));
}
