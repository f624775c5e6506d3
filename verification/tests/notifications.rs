use altai_control::model::EntityId;
use altai_control::notification_repository::{
    accept_stored, NotificationProposalRepository, NotificationProposalTable,
};
use altai_control::record::Record;
use altai_control::remote_worker_notification::{
    bounded_payload, record_of, validated_payload, NotificationAcknowledgement,
    NotificationDeliveryState, NotificationProposal, NotificationProposalLedger,
    NotificationScope, RemoteWorkerIdentity, RemoteWorkerNotificationError, WorkerDeliveryClaim,
    MAX_PROPOSAL_PAYLOAD_BYTES,
};
use altai_control::table::Table;

fn scope_of(workspace: &str) -> NotificationScope {
    NotificationScope {
        organization_id: EntityId::new("organization_id", "org_main"),
        workspace_id: EntityId::new("workspace_id", workspace),
    }
}

fn scope() -> NotificationScope {
    scope_of("ws_main")
}

fn other_scope() -> NotificationScope {
    scope_of("ws_other")
}

fn identity(plugin: &str, account: &str) -> RemoteWorkerIdentity {
    RemoteWorkerIdentity {
        plugin_id: EntityId::new("plugin_id", plugin),
        account_id: EntityId::new("external_account_id", account),
    }
}

fn worker() -> RemoteWorkerIdentity {
    identity("plg_remote", "exta_one")
}

fn other_worker() -> RemoteWorkerIdentity {
    identity("plg_remote_two", "exta_two")
}

fn proposal(delivery_id: &str) -> NotificationProposal {
    NotificationProposal {
        delivery_id: delivery_id.to_string(),
        worker: worker(),
        scope: scope(),
        event_kind: "heartbeat".to_string(),
        payload: "{\"note\":\"alive\"}".to_string(),
    }
}

fn blob() -> String {
    format!("{{\"blob\":\"{}\"}}", "x".repeat(MAX_PROPOSAL_PAYLOAD_BYTES + 1))
}

fn claim(delivery_id: &str, worker: RemoteWorkerIdentity) -> WorkerDeliveryClaim {
    WorkerDeliveryClaim { delivery_id: delivery_id.to_string(), worker }
}

fn ack(delivery_id: &str) -> NotificationAcknowledgement {
    NotificationAcknowledgement { delivery_id: delivery_id.to_string() }
}

#[test]
fn stores_proposal_pending_and_replays_identical_proposal_idempotently() {
    let mut ledger = NotificationProposalLedger::new(scope());
    let first = ledger.propose(proposal("dlv_1")).expect("store");
    assert_eq!(first.delivery_state, NotificationDeliveryState::Pending);
    let second = ledger.propose(proposal("dlv_1")).expect("replay");
    assert!(first.same(&second));
    assert_eq!(ledger.records().len(), 1);
}

#[test]
fn foreign_scope_fails_closed_without_storing() {
    let mut ledger = NotificationProposalLedger::new(scope());
    let mut foreign = proposal("dlv_foreign");
    foreign.scope.workspace_id = EntityId::new("workspace_id", "ws_other");
    assert!(matches!(
        ledger.propose(foreign),
        Err(RemoteWorkerNotificationError::ForeignScope { delivery_id })
            if delivery_id == "dlv_foreign"
    ));
    assert_eq!(ledger.records().len(), 0);
    let mut bloated_foreign = proposal("dlv_bloated_foreign");
    bloated_foreign.scope.workspace_id = EntityId::new("workspace_id", "ws_other");
    bloated_foreign.payload = blob();
    assert!(matches!(
        ledger.propose(bloated_foreign),
        Err(RemoteWorkerNotificationError::UnboundedPayload { .. })
    ));
    assert_eq!(ledger.records().len(), 0);
}

#[test]
fn unbounded_payload_is_rejected() {
    let mut ledger = NotificationProposalLedger::new(scope());
    let mut bloated = proposal("dlv_big");
    bloated.payload = blob();
    assert!(matches!(
        ledger.propose(bloated),
        Err(RemoteWorkerNotificationError::UnboundedPayload { delivery_id })
            if delivery_id == "dlv_big"
    ));
}

#[test]
fn unattributed_proposals_fail_closed() {
    let mut ledger = NotificationProposalLedger::new(scope());
    let mut blank_id = proposal("");
    blank_id.event_kind = "heartbeat".to_string();
    assert!(matches!(
        ledger.propose(blank_id),
        Err(RemoteWorkerNotificationError::InvalidProposal { .. })
    ));
    let mut blank_kind = proposal("dlv_kind");
    blank_kind.event_kind = "   ".to_string();
    assert!(matches!(
        ledger.propose(blank_kind),
        Err(RemoteWorkerNotificationError::InvalidProposal { .. })
    ));
}

#[test]
fn remote_worker_notification_divergent_reproposal_conflicts_and_keeps_stored_record() {
    let mut ledger = NotificationProposalLedger::new(scope());
    ledger.propose(proposal("dlv_1")).expect("store");
    let mut divergent = proposal("dlv_1");
    divergent.payload = "{\"note\":\"changed\"}".to_string();
    assert!(matches!(
        ledger.propose(divergent),
        Err(RemoteWorkerNotificationError::DuplicateConflict { delivery_id })
            if delivery_id == "dlv_1"
    ));
    assert_eq!(ledger.records()[0].payload, "{\"note\":\"alive\"}");
}

#[test]
fn remote_worker_notification_worker_self_report_never_moves_delivery_state() {
    let mut ledger = NotificationProposalLedger::new(scope());
    ledger.propose(proposal("dlv_1")).expect("store");
    let claim_count = ledger.observe_worker_claim(claim("dlv_1", worker())).expect("claim visible");
    assert_eq!(claim_count, 1);
    assert_eq!(ledger.records()[0].delivery_state, NotificationDeliveryState::Pending);
    assert_eq!(ledger.worker_claims("dlv_1").len(), 1);
}

#[test]
fn remote_worker_notification_canonical_acknowledgement_delivers_exactly_once() {
    let mut ledger = NotificationProposalLedger::new(scope());
    ledger.propose(proposal("dlv_1")).expect("store");
    assert_eq!(
        ledger.acknowledge(ack("dlv_1")).expect("deliver"),
        NotificationDeliveryState::Delivered
    );
    assert_eq!(
        ledger.acknowledge(ack("dlv_1")).expect("replay"),
        NotificationDeliveryState::Delivered
    );
    assert_eq!(ledger.records()[0].delivery_state, NotificationDeliveryState::Delivered);
}

#[test]
fn unknown_deliveries_are_typed_rejections() {
    let mut ledger = NotificationProposalLedger::new(scope());
    assert!(matches!(
        ledger.observe_worker_claim(claim("dlv_missing", worker())),
        Err(RemoteWorkerNotificationError::UnknownDelivery { delivery_id })
            if delivery_id == "dlv_missing"
    ));
    assert!(matches!(
        ledger.acknowledge(ack("dlv_missing")),
        Err(RemoteWorkerNotificationError::UnknownDelivery { delivery_id })
            if delivery_id == "dlv_missing"
    ));
}

#[test]
fn canonical_output_is_byte_stable_across_insertion_orders() {
    let mut first = NotificationProposalLedger::new(scope());
    first.propose(proposal("dlv_b")).expect("store b");
    first.propose(proposal("dlv_a")).expect("store a");
    let mut second = NotificationProposalLedger::new(scope());
    second.propose(proposal("dlv_a")).expect("store a");
    second.propose(proposal("dlv_b")).expect("store b");
    let left = first.records();
    let right = second.records();
    assert_eq!(left.len(), 2);
    assert_eq!(left[0].delivery_id, "dlv_a");
    assert!(left[0].same(&right[0]) && left[1].same(&right[1]));
    assert_eq!(format!("{left:?}"), format!("{right:?}"));
}

#[test]
fn payloads_are_compared_and_measured_as_json() {
    let mut ledger = NotificationProposalLedger::new(scope());
    let mut spaced = proposal("dlv_1");
    spaced.payload = "{ \"a\" : 1 ,\n \"b\" : [ true ] }".to_string();
    assert_eq!(validated_payload(&spaced).unwrap(), 18);
    ledger.propose(spaced).expect("store");
    let mut reordered = proposal("dlv_1");
    reordered.payload = "{\"b\":[true],\"a\":1}".to_string();
    ledger.propose(reordered).expect("the same value");
    let mut broken = proposal("dlv_2");
    broken.payload = "{".to_string();
    assert!(matches!(
        ledger.propose(broken),
        Err(RemoteWorkerNotificationError::Serialization { .. })
    ));
    let id = "dlv".to_string();
    assert_eq!(bounded_payload(&id, &"x".repeat(4096)).unwrap(), 4096);
    assert!(bounded_payload(&id, &"x".repeat(4097)).is_err());
}

#[test]
fn stores_proposal_pending_and_replays_identically() {
    let mut repository = NotificationProposalTable::new();
    let first = repository.propose(proposal("dlv_1")).expect("store");
    assert_eq!(first.delivery_state, NotificationDeliveryState::Pending);
    let second = repository.propose(proposal("dlv_1")).expect("replay");
    assert!(first.same(&second));
    assert_eq!(
        repository.records(&scope()).expect("records").len(),
        1,
        "an identical replay must not mint a second row"
    );
}

#[test]
fn foreign_scope_reproposal_fails_closed_keeping_attribution() {
    let mut repository = NotificationProposalTable::new();
    repository.propose(proposal("dlv_foreign")).expect("store");
    let mut foreign = proposal("dlv_foreign");
    foreign.scope = other_scope();
    assert!(matches!(
        repository.propose(foreign),
        Err(RemoteWorkerNotificationError::ForeignScope { delivery_id })
            if delivery_id == "dlv_foreign"
    ));
    let stored = &repository.records(&scope()).expect("records")[0];
    assert!(stored.scope.same(&scope()), "attribution is never rewritten");
    assert!(stored.worker.same(&worker()));
}

#[test]
fn notification_repository_divergent_reproposal_conflicts_and_keeps_stored_record() {
    let mut repository = NotificationProposalTable::new();
    repository.propose(proposal("dlv_1")).expect("store");
    let mut divergent = proposal("dlv_1");
    divergent.payload = "{\"note\":\"changed\"}".to_string();
    assert!(matches!(
        repository.propose(divergent),
        Err(RemoteWorkerNotificationError::DuplicateConflict { delivery_id })
            if delivery_id == "dlv_1"
    ));
    let mut divergent_kind = proposal("dlv_1");
    divergent_kind.event_kind = "alert".to_string();
    assert!(
        matches!(
            repository.propose(divergent_kind),
            Err(RemoteWorkerNotificationError::DuplicateConflict { delivery_id })
                if delivery_id == "dlv_1"
        ),
        "event_kind divergence conflicts too"
    );
    let mut divergent_worker = proposal("dlv_1");
    divergent_worker.worker = other_worker();
    assert!(
        matches!(
            repository.propose(divergent_worker),
            Err(RemoteWorkerNotificationError::DuplicateConflict { delivery_id })
                if delivery_id == "dlv_1"
        ),
        "worker divergence conflicts too"
    );
    let stored = &repository.records(&scope()).expect("records")[0];
    assert_eq!(stored.payload, "{\"note\":\"alive\"}");
    assert_eq!(stored.delivery_state, NotificationDeliveryState::Pending);
}

#[test]
fn invalid_and_unbounded_proposals_fail_closed_without_storing() {
    let mut repository = NotificationProposalTable::new();
    let mut blank_id = proposal("");
    blank_id.event_kind = "heartbeat".to_string();
    assert!(matches!(
        repository.propose(blank_id),
        Err(RemoteWorkerNotificationError::InvalidProposal { .. })
    ));
    let mut blank_kind = proposal("dlv_kind");
    blank_kind.event_kind = "   ".to_string();
    assert!(matches!(
        repository.propose(blank_kind),
        Err(RemoteWorkerNotificationError::InvalidProposal { .. })
    ));
    let mut incomplete = proposal("dlv_incomplete");
    incomplete.worker.plugin_id.value = String::new();
    assert!(matches!(
        repository.propose(incomplete),
        Err(RemoteWorkerNotificationError::InvalidProposal { .. })
    ));
    let mut bloated = proposal("dlv_big");
    bloated.payload = blob();
    assert!(matches!(
        repository.propose(bloated),
        Err(RemoteWorkerNotificationError::UnboundedPayload { delivery_id })
            if delivery_id == "dlv_big"
    ));
    assert_eq!(
        repository.records(&scope()).expect("records").len(),
        0,
        "a rejected proposal must never reach storage"
    );
}

#[test]
fn notification_repository_worker_self_report_never_moves_delivery_state() {
    let mut repository = NotificationProposalTable::new();
    repository.propose(proposal("dlv_1")).expect("store");
    let first =
        repository.observe_worker_claim(&scope(), claim("dlv_1", worker())).expect("claim visible");
    let second = repository
        .observe_worker_claim(&scope(), claim("dlv_1", other_worker()))
        .expect("second claim visible");
    assert_eq!(first, 1);
    assert_eq!(second, 2, "counts grow with each self-report");
    assert_eq!(
        repository.records(&scope()).expect("records")[0].delivery_state,
        NotificationDeliveryState::Pending
    );
    assert_eq!(repository.worker_claims(&scope(), "dlv_1").expect("claims").len(), 2);
    assert!(matches!(
        repository.observe_worker_claim(&other_scope(), claim("dlv_1", other_worker())),
        Err(RemoteWorkerNotificationError::UnknownDelivery { delivery_id })
            if delivery_id == "dlv_1"
    ));
    assert!(matches!(
        repository.observe_worker_claim(&scope(), claim("dlv_missing", worker())),
        Err(RemoteWorkerNotificationError::UnknownDelivery { delivery_id })
            if delivery_id == "dlv_missing"
    ));
    assert_eq!(
        repository.worker_claims(&scope(), "dlv_1").expect("claims").len(),
        2,
        "a foreign-scope claim must not attach to the delivery"
    );
}

#[test]
fn notification_repository_canonical_acknowledgement_delivers_exactly_once() {
    let mut repository = NotificationProposalTable::new();
    repository.propose(proposal("dlv_1")).expect("store");
    assert_eq!(
        repository.acknowledge(ack("dlv_1")).expect("deliver"),
        NotificationDeliveryState::Delivered
    );
    assert_eq!(
        repository.acknowledge(ack("dlv_1")).expect("replay"),
        NotificationDeliveryState::Delivered
    );
    assert_eq!(
        repository.records(&scope()).expect("records")[0].delivery_state,
        NotificationDeliveryState::Delivered
    );
    assert!(matches!(
        repository.acknowledge(ack("dlv_missing")),
        Err(RemoteWorkerNotificationError::UnknownDelivery { delivery_id })
            if delivery_id == "dlv_missing"
    ));
}

#[test]
fn records_are_scope_filtered_and_delivery_id_ordered() {
    let mut repository = NotificationProposalTable::new();
    repository.propose(proposal("dlv_b")).expect("store b");
    repository.propose(proposal("dlv_a")).expect("store a");
    let mut foreign = proposal("dlv_z");
    foreign.scope = other_scope();
    repository.propose(foreign).expect("store z");

    let main_records = repository.records(&scope()).expect("records");
    assert_eq!(
        main_records.iter().map(|record| record.delivery_id.as_str()).collect::<Vec<_>>(),
        vec!["dlv_a", "dlv_b"],
        "records read in delivery_id order regardless of insertion order"
    );
    let other_records = repository.records(&other_scope()).expect("records");
    assert_eq!(
        other_records.iter().map(|record| record.delivery_id.as_str()).collect::<Vec<_>>(),
        vec!["dlv_z"],
        "one scope never observes another scope's deliveries"
    );
}

#[test]
fn worker_claims_read_in_arrival_order_and_fail_scoped_closed() {
    let mut repository = NotificationProposalTable::new();
    repository.propose(proposal("dlv_1")).expect("store");
    repository.observe_worker_claim(&scope(), claim("dlv_1", worker())).expect("claim one");
    repository.observe_worker_claim(&scope(), claim("dlv_1", other_worker())).expect("claim two");

    let claims = repository.worker_claims(&scope(), "dlv_1").expect("claims");
    assert_eq!(claims.len(), 2);
    assert!(claims[0].same(&claim("dlv_1", worker())));
    assert!(claims[1].same(&claim("dlv_1", other_worker())), "claims keep their arrival order");
    assert!(
        repository.worker_claims(&other_scope(), "dlv_1").expect("scoped").is_empty(),
        "an in-scope delivery is invisible from a foreign scope"
    );
    assert!(
        repository.worker_claims(&scope(), "dlv_missing").expect("unknown").is_empty(),
        "an unknown delivery reads as empty, not an error"
    );
}

#[test]
fn records_and_delivery_state_survive_a_reopen() {
    let mut repository = NotificationProposalTable::new();
    repository.propose(proposal("dlv_acked")).expect("store");
    repository.propose(proposal("dlv_pending")).expect("store");
    repository
        .observe_worker_claim(&scope(), claim("dlv_acked", worker()))
        .expect("claim visible");
    repository.acknowledge(ack("dlv_acked")).expect("deliver");

    let mut proposals = Table::new();
    let mut claims = Table::new();
    for record in repository.records(&scope()).expect("rows") {
        let listed = repository.worker_claims(&scope(), &record.delivery_id).expect("claims");
        claims.put(record.delivery_id.clone(), listed);
        proposals.put(record.delivery_id.clone(), record);
    }
    let mut repository = NotificationProposalTable { proposals, claims };

    let records = repository.records(&scope()).expect("records");
    assert_eq!(
        records
            .iter()
            .map(|record| (record.delivery_id.as_str(), record.delivery_state))
            .collect::<Vec<_>>(),
        vec![
            ("dlv_acked", NotificationDeliveryState::Delivered),
            ("dlv_pending", NotificationDeliveryState::Pending),
        ]
    );
    assert_eq!(repository.worker_claims(&scope(), "dlv_acked").expect("claims").len(), 1);
    assert_eq!(
        repository.acknowledge(ack("dlv_acked")).expect("replay"),
        NotificationDeliveryState::Delivered
    );
}

#[test]
fn a_record_of_another_version_is_refused() {
    let mut record = record_of(proposal("dlv_1"));
    assert!(accept_stored(record.copy()).is_ok());
    record.schema_version = 7;
    assert_eq!(
        accept_stored(record).unwrap_err().to_text(),
        "remote-worker notification store failed: notification proposal dlv_1 has schema version 7, expected 1"
    );

    let mut outdated = record_of(proposal("dlv_2"));
    outdated.schema_version = 7;
    let mut proposals = Table::new();
    proposals.put("dlv_1".to_string(), record_of(proposal("dlv_1")));
    proposals.put("dlv_2".to_string(), outdated);
    let mut repository = NotificationProposalTable { proposals, claims: Table::new() };
    let words = "remote-worker notification store failed: notification proposal dlv_2 has schema version 7, expected 1";
    assert_eq!(repository.records(&scope()).unwrap_err().to_text(), words);
    assert_eq!(repository.acknowledge(ack("dlv_2")).unwrap_err().to_text(), words);
    assert_eq!(repository.propose(proposal("dlv_2")).unwrap_err().to_text(), words);
    let mut foreign = proposal("dlv_2");
    foreign.scope = other_scope();
    assert_eq!(repository.propose(foreign).unwrap_err().to_text(), words);
    assert!(repository.acknowledge(ack("dlv_1")).is_ok());
    assert_eq!(repository.records(&other_scope()).unwrap().len(), 0);
}

#[test]
fn notification_errors_read_as_sentences() {
    let id = || "dlv_1".to_string();
    assert_eq!(
        RemoteWorkerNotificationError::InvalidProposal { reason: "why".to_string() }.to_text(),
        "remote-worker proposal is invalid: why"
    );
    assert_eq!(
        RemoteWorkerNotificationError::ForeignScope { delivery_id: id() }.to_text(),
        "remote-worker proposal dlv_1 belongs to a foreign scope"
    );
    assert_eq!(
        RemoteWorkerNotificationError::UnboundedPayload { delivery_id: id() }.to_text(),
        "remote-worker proposal dlv_1 exceeds the bounded payload size"
    );
    assert_eq!(
        RemoteWorkerNotificationError::DuplicateConflict { delivery_id: id() }.to_text(),
        "remote-worker proposal dlv_1 conflicts with the stored record"
    );
    assert_eq!(
        RemoteWorkerNotificationError::UnknownDelivery { delivery_id: id() }.to_text(),
        "remote-worker delivery dlv_1 is not known to the ledger"
    );
    assert_eq!(
        RemoteWorkerNotificationError::Serialization { reason: "why".to_string() }.to_text(),
        "remote-worker notification serialization failed: why"
    );
}
