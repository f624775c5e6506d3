use altai_control::evaluation_projection::{
    distinct, EvaluationProjectionError, EvaluationReplayProjection,
    QM_084_EVALUATION_PROJECTION_SCHEMA_VERSION,
};
use altai_control::evaluation_summary::{
    CostEvidence, EvaluationAttemptSummary, EvaluationSummaryError, UsageRecord, UsageScope,
};
use altai_control::evidence_replay::{
    credential_like_reference, Evidence, EvidenceReplayActivity, EvidenceReplayArtifact,
    EvidenceReplayError, EvidenceReplayInput, QM_084_EVIDENCE_REPLAY_SCHEMA_VERSION,
};
use altai_control::model::{Actor, EntityId};
use altai_control::event_log::ActivityLog;
use altai_control::protocol_dispatch::{
    ActivityEvent, ActivityEventRepository, ActivityQueryRequest, EventKind, PageRequest,
};
use altai_control::repository_readiness::{
    unsafe_reference, DenialReason, RepositoryReadinessError, RepositoryReadinessManifest,
    ScopePermit,
};

fn organization() -> EntityId {
    EntityId::new("organization_id", "org_qm_084")
}

fn work(value: &str) -> EntityId {
    EntityId::new("work_item_id", value)
}

fn attempt(value: &str) -> EntityId {
    EntityId::new("attempt_id", value)
}

fn evidence(id: &str, work_id: &str, attempt_id: &str, created_at: u64) -> Evidence {
    Evidence {
        id: EntityId::new("evidence_id", id),
        organization_id: organization(),
        work_item_id: work(work_id),
        attempt_id: attempt(attempt_id),
        kind: "test_result".to_string(),
        reference: format!("artifact://{id}"),
        created_at_unix_seconds: created_at,
    }
}

fn event(id: &str, work_id: &str, attempt_id: &str, correlation: Option<&str>) -> ActivityEvent {
    ActivityEvent {
        event_id: id.to_string(),
        kind: EventKind::AttemptTransitioned,
        actor: Actor::System { component: "qm-084-fixture".to_string() },
        timestamp: "2031-01-02T03:04:05Z".to_string(),
        organization_id: organization(),
        project_id: None,
        work_item_id: Some(work(work_id)),
        attempt_id: Some(attempt(attempt_id)),
        summary: "deliberately excluded from comparison input".to_string(),
        correlation_id: correlation.map(|value| value.to_string()),
        causation_id: None,
    }
}

fn from_records(
    evidence: Vec<Evidence>,
    activity: Vec<ActivityEvent>,
) -> Result<EvidenceReplayInput, EvidenceReplayError> {
    EvidenceReplayInput::from_records(
        organization(),
        work("wi_qm_084"),
        attempt("att_qm_084"),
        &evidence,
        &activity,
    )
}

fn own_evidence(id: &str, created_at: u64) -> Evidence {
    evidence(id, "wi_qm_084", "att_qm_084", created_at)
}

fn own_event(id: &str) -> ActivityEvent {
    event(id, "wi_qm_084", "att_qm_084", Some("run_qm_084"))
}

#[test]
fn repository_replay_is_byte_stable_across_idempotent_reopen() {
    let mut activity = ActivityLog::new();
    activity.append(own_event("evt_qm_084_started")).unwrap();
    activity.append(own_event("evt_qm_084_finished")).unwrap();
    let request = ActivityQueryRequest {
        organization_id: organization(),
        page: PageRequest { offset: 0, limit: 50 },
        kind: None,
        work_item_id: Some(work("wi_qm_084")),
    };
    let before = from_records(
        vec![own_evidence("ev_qm_084_first", 20), own_evidence("ev_qm_084_second", 10)],
        activity.query(&request).unwrap().items,
    )
    .unwrap();
    assert_eq!(
        before.evidence.iter().map(|item| item.evidence_id.as_str()).collect::<Vec<_>>(),
        vec!["ev_qm_084_second", "ev_qm_084_first"],
        "immutable evidence repository order is normalized"
    );
    assert_eq!(
        before.activity.iter().map(|item| item.event_id.as_str()).collect::<Vec<_>>(),
        vec!["evt_qm_084_started", "evt_qm_084_finished"],
        "activity replay retains repository sequence order"
    );
    let text = format!("{before:?}");
    assert!(!text.contains("timestamp"));
    assert!(!text.contains("summary"));

    activity.append(own_event("evt_qm_084_started")).unwrap();
    let after = from_records(
        vec![own_evidence("ev_qm_084_second", 10), own_evidence("ev_qm_084_first", 20)],
        activity.query(&request).unwrap().items,
    )
    .unwrap();
    assert_eq!(text, format!("{after:?}"));
}

#[test]
fn times_and_prose_reach_neither_the_input_nor_the_refusal() {
    let input = from_records(
        vec![own_evidence("ev_a", 20), own_evidence("ev_b", 10)],
        vec![own_event("evt_one"), own_event("evt_two")],
    )
    .unwrap();
    let retold = |id: &str| ActivityEvent {
        kind: EventKind::Created,
        actor: Actor::System { component: "another".to_string() },
        timestamp: "1999-12-31T23:59:59Z".to_string(),
        summary: "told otherwise".to_string(),
        ..own_event(id)
    };
    let again = from_records(
        vec![own_evidence("ev_b", 7), own_evidence("ev_a", 7_000)],
        vec![retold("evt_one"), retold("evt_two")],
    );
    assert!(again.is_ok());
    assert_eq!(format!("{input:?}"), format!("{:?}", again.unwrap()));

    let foreign = |created_at: u64| evidence("ev_z", "wi_foreign", "att_qm_084", created_at);
    let refused = |records: Vec<Evidence>| match from_records(records, vec![own_event("evt_one")]) {
        Err(error) => error.to_text(),
        Ok(_) => panic!("foreign evidence makes no input"),
    };
    assert_eq!(
        refused(vec![foreign(5), own_evidence("ev_a", 1)]),
        refused(vec![own_evidence("ev_a", 40), foreign(50)])
    );
}

#[test]
fn scope_and_correlation_fail_closed_without_normalization() {
    assert!(matches!(
        from_records(
            vec![own_evidence("ev_qm_084", 10)],
            vec![event("evt_foreign", "wi_foreign", "att_qm_084", Some("run_qm_084"))],
        ),
        Err(EvidenceReplayError::ActivityScopeMismatch { event_id }) if event_id == "evt_foreign"
    ));
    assert!(matches!(
        from_records(
            vec![evidence("ev_foreign", "wi_qm_084", "att_foreign", 10)],
            vec![own_event("evt_qm_084")],
        ),
        Err(EvidenceReplayError::EvidenceScopeMismatch { evidence_id })
            if evidence_id == "ev_foreign"
    ));
    assert!(matches!(
        from_records(
            vec![own_evidence("ev_qm_084", 10)],
            vec![event("evt_uncorrelated", "wi_qm_084", "att_qm_084", None)],
        ),
        Err(EvidenceReplayError::MissingCorrelation { event_id })
            if event_id == "evt_uncorrelated"
    ));
}

#[test]
fn duplicate_source_ids_are_rejected_deterministically() {
    assert!(matches!(
        from_records(
            vec![own_evidence("ev_qm_084", 10), own_evidence("ev_qm_084", 10)],
            vec![own_event("evt_qm_084")],
        ),
        Err(EvidenceReplayError::DuplicateEvidence { evidence_id }) if evidence_id == "ev_qm_084"
    ));
    assert!(matches!(
        from_records(
            vec![own_evidence("ev_qm_084", 10)],
            vec![own_event("evt_qm_084"), own_event("evt_qm_084")],
        ),
        Err(EvidenceReplayError::DuplicateActivity { event_id }) if event_id == "evt_qm_084"
    ));
}

#[test]
fn credential_like_references_are_not_comparison_inputs() {
    let mut unsafe_evidence = own_evidence("ev_unsafe", 10);
    unsafe_evidence.reference = "https://example.invalid/output?token=secret-value".to_string();
    assert!(matches!(
        from_records(vec![unsafe_evidence], vec![own_event("evt_qm_084")]),
        Err(EvidenceReplayError::UnsafeReference { evidence_id }) if evidence_id == "ev_unsafe"
    ));
}

#[test]
fn a_comparison_needs_evidence_and_activity() {
    assert_eq!(
        from_records(Vec::new(), vec![own_event("evt")]).unwrap_err().to_text(),
        "evidence replay requires at least one evidence record"
    );
    assert_eq!(
        from_records(vec![own_evidence("ev", 1)], Vec::new()).unwrap_err().to_text(),
        "evidence replay requires at least one activity record"
    );
    assert_eq!(
        EvidenceReplayError::MissingCorrelation { event_id: "evt".to_string() }.to_text(),
        "activity evt has no correlation id"
    );
    assert_eq!(
        EvidenceReplayError::UnsafeReference { evidence_id: "ev".to_string() }.to_text(),
        "evidence ev contains a credential-like reference"
    );
    assert_eq!(
        EvidenceReplayError::DuplicateActivity { event_id: "evt".to_string() }.to_text(),
        "evidence replay contains duplicate activity id evt"
    );
    assert_eq!(
        EvidenceReplayError::Serialization { reason: "why".to_string() }.to_text(),
        "evidence replay serialization failed: why"
    );
    assert!(credential_like_reference("x?API_KEY=1"));
    assert!(credential_like_reference("Authorization: y"));
    assert!(!credential_like_reference("tokens/1"));
}

fn readiness_evidence(reference: &str) -> Evidence {
    Evidence {
        id: EntityId::new("evidence_id", "ev_1"),
        organization_id: EntityId::new("organization_id", "org"),
        work_item_id: work("wi"),
        attempt_id: attempt("att"),
        kind: "test_result".to_string(),
        reference: reference.to_string(),
        created_at_unix_seconds: 1,
    }
}

fn permit() -> ScopePermit {
    ScopePermit::Permitted {
        organization_id: EntityId::new("organization_id", "org"),
        repository_url: "https://github.com/efecnc/altai-app-1".to_string(),
    }
}

fn build(
    permit: ScopePermit,
    requested: usize,
    admitted: usize,
    evidence: Vec<Evidence>,
) -> Result<RepositoryReadinessManifest, RepositoryReadinessError> {
    RepositoryReadinessManifest::build(
        permit,
        work("wi"),
        attempt("att"),
        requested,
        admitted,
        requested > admitted,
        &evidence,
    )
}

#[test]
fn manifest_is_read_only_scoped_and_measured() {
    let manifest =
        build(permit(), 100, 80, vec![readiness_evidence("artifact://test")]).unwrap();
    assert_eq!(manifest.evidence_ids, vec!["ev_1"]);
    assert_eq!(manifest.admitted_context_bytes, 80);
}

#[test]
fn denied_scope_and_unsafe_reference_fail_closed() {
    assert!(matches!(
        build(ScopePermit::Denied(DenialReason::WorkspaceNotBound), 1, 1, Vec::new()),
        Err(RepositoryReadinessError::RepositoryDenied)
    ));
    assert!(matches!(
        build(permit(), 1, 1, vec![readiness_evidence("/tmp/secret")]),
        Err(RepositoryReadinessError::UnsafeEvidenceReference { evidence_id })
            if evidence_id == "ev_1"
    ));
}

#[test]
fn a_manifest_measures_and_names_each_record_once() {
    assert!(matches!(
        build(permit(), 1, 2, Vec::new()),
        Err(RepositoryReadinessError::InvalidByteMeasurement)
    ));
    assert!(matches!(
        build(permit(), 1, 1, vec![readiness_evidence("a"), readiness_evidence("b")]),
        Err(RepositoryReadinessError::DuplicateEvidence { evidence_id }) if evidence_id == "ev_1"
    ));
    let mut foreign = readiness_evidence("a");
    foreign.attempt_id = attempt("other");
    assert!(matches!(
        build(permit(), 1, 1, vec![foreign]),
        Err(RepositoryReadinessError::EvidenceScopeMismatch { evidence_id })
            if evidence_id == "ev_1"
    ));
    assert!(unsafe_reference("artifact://x?Token=1"));
    assert!(!unsafe_reference("artifact://x"));
}

fn replay() -> EvidenceReplayInput {
    let artifact = |id: &str, kind: &str, reference: &str| EvidenceReplayArtifact {
        evidence_id: id.to_string(),
        kind: kind.to_string(),
        reference: reference.to_string(),
    };
    let activity = |id: &str, correlation: &str| EvidenceReplayActivity {
        event_id: id.to_string(),
        correlation_id: correlation.to_string(),
    };
    EvidenceReplayInput {
        schema_version: QM_084_EVIDENCE_REPLAY_SCHEMA_VERSION,
        organization_id: organization(),
        work_item_id: work("wi_qm_084"),
        attempt_id: attempt("att_qm_084"),
        evidence: vec![
            artifact("ev_second", "trace", "artifact://second"),
            artifact("ev_first", "test_result", "artifact://first"),
            artifact("ev_third", "test_result", "artifact://third"),
        ],
        activity: vec![
            activity("evt_first", "run_a"),
            activity("evt_second", "run_a"),
            activity("evt_third", "run_b"),
        ],
    }
}

#[test]
fn projection_is_deterministic_and_excludes_source_references() {
    let input = replay();
    let first = EvaluationReplayProjection::from_replay(&input).unwrap();
    let second = EvaluationReplayProjection::from_replay(&input).unwrap();
    assert_eq!(format!("{first:?}"), format!("{second:?}"));
    assert_eq!(first.evidence_count, 3);
    assert_eq!(first.activity_count, 3);
    assert_eq!(first.unique_correlation_count, 2);
    assert_eq!(first.evidence_kinds, vec!["test_result", "trace"]);
    let text = format!("{first:?}");
    assert!(!text.contains("artifact://"));
    assert!(!text.contains("run_a"));
    assert!(!text.contains("score"));
}

#[test]
fn references_and_identifiers_never_reach_the_projection() {
    let input = replay();
    let mut renamed = replay();
    for (i, artifact) in renamed.evidence.iter_mut().enumerate() {
        artifact.evidence_id = format!("other_{i}");
        artifact.reference = "artifact://elsewhere".to_string();
    }
    renamed.evidence.swap(0, 2);
    for (i, activity) in renamed.activity.iter_mut().enumerate() {
        activity.event_id = format!("another_{i}");
        activity.correlation_id = format!("renamed_{}", activity.correlation_id);
    }
    let first = EvaluationReplayProjection::from_replay(&input).unwrap();
    let second = EvaluationReplayProjection::from_replay(&renamed).unwrap();
    assert_eq!(format!("{first:?}"), format!("{second:?}"));
}

#[test]
fn projection_fails_closed_for_invalid_replay_shape() {
    let mut input = replay();
    input.schema_version = 99;
    assert!(matches!(
        EvaluationReplayProjection::from_replay(&input),
        Err(EvaluationProjectionError::UnsupportedSourceSchema { actual: 99 })
    ));

    let mut input = replay();
    input.evidence.clear();
    assert!(matches!(
        EvaluationReplayProjection::from_replay(&input),
        Err(EvaluationProjectionError::MissingEvidence)
    ));

    let mut input = replay();
    input.activity.clear();
    assert!(matches!(
        EvaluationReplayProjection::from_replay(&input),
        Err(EvaluationProjectionError::MissingActivity)
    ));
}

#[test]
fn projection_errors_read_as_sentences() {
    assert_eq!(
        EvaluationProjectionError::UnsupportedSourceSchema { actual: 99 }.to_text(),
        "evaluation projection requires evidence replay schema 1, got 99"
    );
    assert_eq!(
        EvaluationProjectionError::MissingEvidence.to_text(),
        "evaluation projection requires replay evidence"
    );
    assert_eq!(
        distinct(&vec!["b".to_string(), "a".to_string(), "b".to_string()]),
        vec!["a".to_string(), "b".to_string()]
    );
}

fn projection() -> EvaluationReplayProjection {
    EvaluationReplayProjection {
        schema_version: QM_084_EVALUATION_PROJECTION_SCHEMA_VERSION,
        source_schema_version: 1,
        organization_id: organization(),
        work_item_id: work("wi_qm_084"),
        attempt_id: attempt("att_qm_084"),
        evidence_count: 2,
        activity_count: 3,
        unique_correlation_count: 1,
        evidence_kinds: vec!["test_result".to_string()],
    }
}

fn usage(id: &str, meter: &str, amount: u64) -> UsageRecord {
    UsageRecord {
        id: EntityId::new("usage_record_id", id),
        scope: UsageScope {
            organization_id: organization(),
            project_id: None,
            agent_instance_id: None,
            work_item_id: Some(work("wi_qm_084")),
            attempt_id: Some(attempt("att_qm_084")),
        },
        meter: meter.to_string(),
        amount,
        recorded_at_unix_seconds: 10,
    }
}

fn summarize(usage: Vec<UsageRecord>) -> Result<EvaluationAttemptSummary, EvaluationSummaryError> {
    EvaluationAttemptSummary::from_projection_and_usage(projection(), &usage)
}

#[test]
fn exact_scope_usage_is_summed_deterministically_without_a_price() {
    let summary = summarize(vec![
        usage("usage_second", "input_tokens", 12),
        usage("usage_first", "compute_seconds", 4),
        usage("usage_third", "input_tokens", 8),
    ])
    .unwrap();
    let text = format!("{summary:?}");
    assert!(!text.contains("price"));
    assert!(!text.contains("score"));
    match summary.cost_evidence {
        CostEvidence::Available { meters } => {
            let totals: Vec<(&str, u64)> =
                meters.iter().map(|total| (total.meter.as_str(), total.total_amount)).collect();
            assert_eq!(totals, vec![("compute_seconds", 4), ("input_tokens", 20)]);
        }
        CostEvidence::Unavailable => panic!("usage was recorded"),
    }
}

#[test]
fn absent_usage_is_explicitly_unavailable_not_zero() {
    let summary = summarize(Vec::new()).unwrap();
    assert!(matches!(summary.cost_evidence, CostEvidence::Unavailable));
}

#[test]
fn foreign_partial_duplicate_and_overflow_usage_fail_closed() {
    let mut foreign = usage("usage_foreign", "input_tokens", 1);
    foreign.scope.organization_id = EntityId::new("organization_id", "org_foreign");
    assert!(matches!(
        summarize(vec![foreign]),
        Err(EvaluationSummaryError::UsageScopeMismatch { usage_record_id })
            if usage_record_id == "usage_foreign"
    ));

    let mut partial = usage("usage_partial", "input_tokens", 1);
    partial.scope.attempt_id = None;
    assert!(matches!(
        summarize(vec![partial]),
        Err(EvaluationSummaryError::MissingUsageAttribution { usage_record_id })
            if usage_record_id == "usage_partial"
    ));

    assert!(matches!(
        summarize(vec![
            usage("usage_duplicate", "input_tokens", 1),
            usage("usage_duplicate", "input_tokens", 1),
        ]),
        Err(EvaluationSummaryError::DuplicateUsage { usage_record_id })
            if usage_record_id == "usage_duplicate"
    ));

    assert!(matches!(
        summarize(vec![
            usage("usage_max", "input_tokens", u64::MAX),
            usage("usage_one", "input_tokens", 1),
        ]),
        Err(EvaluationSummaryError::MeterOverflow { meter }) if meter == "input_tokens"
    ));
}

#[test]
fn summary_errors_read_as_sentences() {
    let id = || "usage_1".to_string();
    let error = summarize(vec![usage("usage_1", "", 1)]).unwrap_err();
    assert_eq!(error.to_text(), "usage record usage_1 has an empty meter");
    let mut other = projection();
    other.schema_version = 2;
    let error =
        EvaluationAttemptSummary::from_projection_and_usage(other, &Vec::new()).unwrap_err();
    assert_eq!(
        error.to_text(),
        "evaluation attempt summary requires projection schema 1, got 2"
    );
    assert_eq!(
        EvaluationSummaryError::UsageScopeMismatch { usage_record_id: id() }.to_text(),
        "usage record usage_1 is outside the projected organization/work/attempt"
    );
    assert_eq!(
        EvaluationSummaryError::MeterOverflow { meter: "m".to_string() }.to_text(),
        "usage meter m overflows while forming an evaluation summary"
    );
}
