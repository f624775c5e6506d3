use altai_control::event_log::{ActivityLog, ControlLog};
use altai_control::model::{Actor, EntityId, Revision};
use altai_control::protocol_dispatch::{
    capabilities_from_wiring, embedded_capabilities, record_work_item_mutation, require_bounded,
    require_typed_id, status_name, unsupported, work_item_failure, ActivityEvent, ActivityEventRepository,
    ActivityQueryRequest, CapabilityNegotiationRequest, ControlErrorCode, ControlEvent,
    ControlEventRepository, CreateWorkItemCommand, DeploymentMode, EventKind, EventReplayRequest,
    MutationStamps, PageRequest, ProtocolCommand, ProtocolDispatcher, ProtocolError,
    ProtocolOutcome, ProtocolRequest, ProtocolVersion, TransitionWorkItemCommand, WorkItemLimits,
};
use altai_control::work_item_repository::{
    ExecutionPhase, WorkItem, WorkItemRepository, WorkItemRepositoryError, WorkItemTable,
    WorkStatus,
};

type Dispatcher = ProtocolDispatcher<WorkItemTable, ActivityLog, ControlLog>;

const LIMITS: WorkItemLimits = WorkItemLimits { title_bytes: 512, description_bytes: 4096 };

fn organization(value: &str) -> EntityId {
    EntityId::new("organization_id", value)
}

fn project(value: &str) -> EntityId {
    EntityId::new("project_id", value)
}

fn seeded_work_items() -> WorkItemTable {
    let mut work_items = WorkItemTable::new();
    work_items.put_project(&project("proj"), organization("org"));
    work_items
}

fn harness() -> Dispatcher {
    let capabilities =
        capabilities_from_wiring(true, true, true, true, true, true, true, true, true);
    ProtocolDispatcher::new(DeploymentMode::LocalDaemon, capabilities, LIMITS)
        .with_work_item_repository(seeded_work_items())
        .with_activity_repository(ActivityLog::new())
        .with_control_event_repository(ControlLog::new())
}

fn request(id: &str, version_major: u16, payload: ProtocolCommand) -> ProtocolRequest {
    ProtocolRequest {
        id: id.to_string(),
        version: ProtocolVersion { major: version_major, minor: 0 },
        actor: Actor::System { component: "conformance-test".to_string() },
        payload,
    }
}

fn negotiate_payload() -> ProtocolCommand {
    ProtocolCommand::NegotiateCapabilities(CapabilityNegotiationRequest {
        client_version: ProtocolVersion::current(),
        client_name: "altai-conformance".to_string(),
        required_capabilities: vec!["organizations".to_string()],
    })
}

fn replay_request(organization_id: &str) -> EventReplayRequest {
    EventReplayRequest {
        organization_id: organization(organization_id),
        after_sequence: 0,
        limit: None,
    }
}

fn activity_request(work_item: Option<EntityId>) -> ActivityQueryRequest {
    ActivityQueryRequest {
        organization_id: organization("org"),
        kind: None,
        work_item_id: work_item,
        page: PageRequest { offset: 0, limit: 50 },
    }
}

fn work_item_id(tag: &str) -> EntityId {
    EntityId::new("work_item_id", &format!("01923abc-def0-7abc-8def-01234567890{tag}"))
}

fn create_command(tag: &str) -> CreateWorkItemCommand {
    CreateWorkItemCommand {
        organization_id: organization("org"),
        project_id: project("proj"),
        work_item_id: work_item_id(tag),
        goal_id: None,
        parent_work_item_id: None,
        kind: "task".to_string(),
        title: "Harness work item".to_string(),
        description: "born through the protocol".to_string(),
    }
}

fn create_payload(tag: &str) -> ProtocolCommand {
    ProtocolCommand::CreateWorkItem(create_command(tag))
}

fn transition_payload(tag: &str, to_status: WorkStatus, expected: Revision) -> ProtocolCommand {
    ProtocolCommand::TransitionWorkItem(TransitionWorkItemCommand {
        organization_id: organization("org"),
        project_id: project("proj"),
        work_item_id: work_item_id(tag),
        to_status,
        expected_revision: expected,
    })
}

fn expect_created(result: Result<ProtocolOutcome, ProtocolError>) -> WorkItem {
    match result {
        Ok(ProtocolOutcome::WorkItemCreated(item)) => item,
        other => panic!("expected created outcome, got {other:?}"),
    }
}

fn expect_transitioned(result: Result<ProtocolOutcome, ProtocolError>) -> WorkItem {
    match result {
        Ok(ProtocolOutcome::WorkItemTransitioned(item)) => item,
        other => panic!("expected transitioned outcome, got {other:?}"),
    }
}

fn expect_error(result: Result<ProtocolOutcome, ProtocolError>) -> ProtocolError {
    match result {
        Err(error) => error,
        other => panic!("expected typed error, got {other:?}"),
    }
}

#[test]
fn capabilities_reflect_wired_repositories() {
    let wired = capabilities_from_wiring(true, true, true, true, true, true, true, true, true);
    assert!(wired.organizations && wired.agents && wired.work_graph && wired.attempts);
    assert!(wired.activity_audit && wired.event_replay);
    assert!(!wired.budgets && !wired.evidence && !wired.workspace_scopes);

    let no_work = capabilities_from_wiring(true, true, false, false, true, true, true, true, true);
    assert!(!no_work.work_graph);
    let work_items_only =
        capabilities_from_wiring(true, true, false, true, true, true, true, true, true);
    assert!(work_items_only.work_graph);
    let unattributed_mutations =
        capabilities_from_wiring(true, true, false, true, true, true, true, false, true);
    assert!(!unattributed_mutations.work_graph);

    let bare =
        capabilities_from_wiring(false, false, false, false, false, false, false, false, false);
    assert!(!bare.organizations && !bare.attempts && !bare.activity_audit);
    assert!(!bare.event_replay);
}

#[test]
fn an_embedded_host_serves_audited_work_items_only() {
    let embedded = embedded_capabilities();
    assert!(embedded.has("work_graph") && embedded.has("activity_audit"));
    assert!(embedded.has("event_replay"));
    assert!(!embedded.has("organizations") && !embedded.has("routines"));
    assert!(!embedded.has("anything else"));
}

#[test]
fn negotiation_names_what_is_missing() {
    let mut h = harness();
    match h.execute(&request("req-1", 1, negotiate_payload())).result {
        Ok(ProtocolOutcome::Negotiated(response)) => {
            assert!(response.compatible);
            assert_eq!(response.deployment_mode, DeploymentMode::LocalDaemon);
        }
        other => panic!("expected negotiated outcome, got {other:?}"),
    }
    let answer = h.negotiate(&CapabilityNegotiationRequest {
        client_version: ProtocolVersion::current(),
        client_name: "altai-conformance".to_string(),
        required_capabilities: vec![
            "budgets".to_string(),
            "organizations".to_string(),
            "unheard_of".to_string(),
        ],
    });
    assert!(!answer.compatible);
    assert_eq!(answer.missing_capabilities, vec!["budgets", "unheard_of"]);
    let older = h.negotiate(&CapabilityNegotiationRequest {
        client_version: ProtocolVersion { major: 2, minor: 0 },
        client_name: "altai-conformance".to_string(),
        required_capabilities: Vec::new(),
    });
    assert!(!older.compatible);
}

#[test]
fn a_request_of_another_major_version_is_denied() {
    let mut h = harness();
    let response = h.execute(&request("req-2", 2, negotiate_payload()));
    assert_eq!(response.id, "req-2");
    let error = expect_error(response.result);
    assert_eq!(error.code, ControlErrorCode::PolicyDenied);
    assert!(error.message.contains("major version 2"));
}

#[test]
fn replay_follows_the_order_of_the_log() {
    let mut h = harness();
    for (aggregate, id, sequence) in
        [("work_item", "wi_1", 1u64), ("attempt", "at_1", 1), ("work_item", "wi_1", 2)]
    {
        let item = expect_created(
            Ok(ProtocolOutcome::WorkItemCreated(WorkItem {
                id: EntityId::new("work_item_id", id),
                project_id: project("proj"),
                goal_id: None,
                parent_work_item_id: None,
                kind: "task".to_string(),
                title: String::new(),
                description: String::new(),
                status: WorkStatus::Backlog,
                execution_phase: ExecutionPhase::Unstarted,
                revision: Revision { value: sequence },
                created_at: "now".to_string(),
                updated_at: "now".to_string(),
            })),
        );
        h.control_events
            .as_mut()
            .unwrap()
            .append(
                &organization("org"),
                ControlEvent {
                    aggregate: aggregate.to_string(),
                    aggregate_id: EntityId::new("aggregate_id", id),
                    sequence,
                    kind: EventKind::Updated,
                    actor: Actor::System { component: "conformance-test".to_string() },
                    timestamp: "2026-08-15T00:00:00Z".to_string(),
                    revision: Revision { value: sequence },
                    payload: item,
                    correlation_id: None,
                    causation_id: None,
                },
            )
            .unwrap();
    }
    let body = request("req-3", 1, ProtocolCommand::ReplayEvents(replay_request("org")));
    match h.execute(&body).result {
        Ok(ProtocolOutcome::Replayed(replayed)) => {
            let order: Vec<(&str, u64)> = replayed
                .events
                .iter()
                .map(|event| (event.aggregate_id.value.as_str(), event.sequence))
                .collect();
            assert_eq!(order, vec![("wi_1", 1), ("at_1", 1), ("wi_1", 2)]);
            assert!(!replayed.has_more);
            assert!(replayed.next_sequence >= 3);
        }
        other => panic!("expected replayed outcome, got {other:?}"),
    }
    let page = h
        .control_events
        .as_ref()
        .unwrap()
        .replay(&EventReplayRequest {
            organization_id: organization("org"),
            after_sequence: 1,
            limit: Some(1),
        })
        .unwrap();
    assert_eq!(page.events[0].aggregate_id.value, "at_1");
    assert!(page.has_more);
    assert_eq!(page.next_sequence, 2);
}

#[test]
fn replay_without_a_store_is_typed_denied() {
    let mut bare: Dispatcher = ProtocolDispatcher::new(
        DeploymentMode::EmbeddedHost,
        capabilities_from_wiring(true, true, true, false, true, true, true, true, false),
        LIMITS,
    );
    let payload = ProtocolCommand::ReplayEvents(replay_request("org"));
    let error = expect_error(bare.execute(&request("req-3b", 1, payload)).result);
    assert_eq!(error.code, ControlErrorCode::PolicyDenied);
    assert!(error.message.contains("event_replay"));
}

#[test]
fn activity_is_paged_in_the_order_of_the_stream() {
    let mut h = harness();
    for index in 1..=3 {
        h.activity
            .as_mut()
            .unwrap()
            .append(ActivityEvent {
                event_id: format!("evt_{index}"),
                kind: EventKind::Created,
                actor: Actor::System { component: "conformance-test".to_string() },
                timestamp: "2026-08-15T00:00:00Z".to_string(),
                organization_id: organization("org"),
                project_id: None,
                work_item_id: None,
                attempt_id: None,
                summary: format!("event {index}"),
                correlation_id: None,
                causation_id: None,
            })
            .unwrap();
    }
    let body = request("req-4", 1, ProtocolCommand::QueryActivity(activity_request(None)));
    match h.execute(&body).result {
        Ok(ProtocolOutcome::Activity(page)) => {
            let ids: Vec<&str> = page.items.iter().map(|event| event.event_id.as_str()).collect();
            assert_eq!(ids, vec!["evt_1", "evt_2", "evt_3"]);
            assert!(!page.has_more);
        }
        other => panic!("expected activity page, got {other:?}"),
    }
    let mut second = activity_request(None);
    second.page = PageRequest { offset: 1, limit: 1 };
    let page = h.activity.as_ref().unwrap().query(&second).unwrap();
    assert_eq!(page.items.len(), 1);
    assert_eq!(page.items[0].event_id, "evt_2");
    assert!(page.has_more);
}

#[test]
fn activity_query_without_a_store_is_typed_denied() {
    let mut bare: Dispatcher = ProtocolDispatcher::new(
        DeploymentMode::EmbeddedHost,
        capabilities_from_wiring(true, true, true, false, true, true, false, true, false),
        LIMITS,
    );
    let payload = ProtocolCommand::QueryActivity(activity_request(None));
    let error = expect_error(bare.execute(&request("req-4b", 1, payload)).result);
    assert_eq!(error.code, ControlErrorCode::PolicyDenied);
    assert!(error.message.contains("activity_audit"));
}

#[test]
fn a_work_item_is_born_in_the_backlog_and_once() {
    let mut h = harness();
    let item = expect_created(h.execute(&request("req-w1", 1, create_payload("1"))).result);
    assert_eq!(item.status, WorkStatus::Backlog);
    assert_eq!(item.execution_phase, ExecutionPhase::Unstarted);
    assert_eq!(item.revision, Revision::initial());
    let error = expect_error(h.execute(&request("req-w1", 1, create_payload("1"))).result);
    assert_eq!(error.code, ControlErrorCode::Conflict);
}

#[test]
fn a_transition_advances_the_revision_and_leaves_the_phase() {
    let mut h = harness();
    h.execute(&request("req-w2", 1, create_payload("2"))).result.unwrap();
    let body = || {
        request(
            "req-w2b",
            1,
            transition_payload("2", WorkStatus::InProgress, Revision::initial()),
        )
    };
    let moved = expect_transitioned(h.execute(&body()).result);
    assert_eq!(moved.status, WorkStatus::InProgress);
    assert_eq!(moved.revision, Revision { value: 1 });
    assert_eq!(moved.execution_phase, ExecutionPhase::Unstarted);
    let stored = h.work_items.as_ref().unwrap().get(&work_item_id("2")).unwrap();
    assert_eq!(stored.status, WorkStatus::InProgress);
    let error = expect_error(h.execute(&body()).result);
    assert_eq!(error.code, ControlErrorCode::StaleRevision);
}

#[test]
fn work_item_mutations_append_attributed_audit_and_replay_events() {
    let mut h = harness();
    h.execute(&request("req-w3", 1, create_payload("3"))).result.unwrap();
    h.execute(&request(
        "req-w3b",
        1,
        transition_payload("3", WorkStatus::Todo, Revision::initial()),
    ))
    .result
    .unwrap();
    let activity =
        h.activity.as_ref().unwrap().query(&activity_request(Some(work_item_id("3")))).unwrap();
    assert_eq!(activity.items.len(), 2);
    assert_eq!(activity.items[0].kind, EventKind::Created);
    assert_eq!(activity.items[1].kind, EventKind::StatusChanged);
    let replayed = h.control_events.as_ref().unwrap().replay(&replay_request("org")).unwrap();
    assert_eq!(replayed.events.len(), 2);
    assert_eq!(replayed.events[0].sequence, 0);
    assert_eq!(replayed.events[1].sequence, 1);
    assert_eq!(replayed.events[1].aggregate, "work_item");
}

#[test]
fn a_mutation_that_is_recorded_again_adds_nothing() {
    let mut h = harness();
    let item = expect_created(h.execute(&request("req-w4", 1, create_payload("4"))).result);
    let actor = Actor::System { component: "conformance-test".to_string() };
    for _ in 0..2 {
        record_work_item_mutation(
            &mut h.activity,
            &mut h.control_events,
            &actor,
            &organization("org"),
            &item,
            EventKind::Created,
            "created again".to_string(),
            &"2026-01-01T00:00:00.000Z".to_string(),
        )
        .unwrap();
    }
    assert_eq!(h.activity.as_ref().unwrap().events.len(), 1);
    assert_eq!(h.control_events.as_ref().unwrap().changes.len(), 1);
    assert!(h.activity.as_ref().unwrap().events[0].summary != "created again");
}

#[test]
fn every_failure_of_a_work_item_command_is_typed() {
    let mut h = harness();
    h.execute(&request("req-w4", 1, create_payload("4"))).result.unwrap();

    let stale =
        request("req-w4b", 1, transition_payload("4", WorkStatus::Todo, Revision { value: 7 }));
    assert_eq!(expect_error(h.execute(&stale).result).code, ControlErrorCode::StaleRevision);

    let mut command = create_command("4");
    command.project_id = project("nope");
    let error = expect_error(
        h.execute(&request("req-w4c", 1, ProtocolCommand::CreateWorkItem(command))).result,
    );
    assert_eq!(error.code, ControlErrorCode::NotFound);
    assert!(error.message.contains("project not found"));

    let unknown =
        request("req-w4d", 1, transition_payload("404", WorkStatus::Todo, Revision::initial()));
    assert_eq!(expect_error(h.execute(&unknown).result).code, ControlErrorCode::NotFound);

    let mut command = create_command("5");
    command.title = "x".repeat(LIMITS.title_bytes + 1);
    let error = expect_error(
        h.execute(&request("req-w4e", 1, ProtocolCommand::CreateWorkItem(command))).result,
    );
    assert_eq!(error.code, ControlErrorCode::PayloadTooLarge);

    let mut command = create_command("6");
    command.work_item_id = EntityId::new("project_id", "not-a-work-item");
    let error = expect_error(
        h.execute(&request("req-w4f", 1, ProtocolCommand::CreateWorkItem(command))).result,
    );
    assert_eq!(error.code, ControlErrorCode::InvalidId);

    let mut command = create_command("6b");
    command.description = "x".repeat(LIMITS.description_bytes + 1);
    let error = expect_error(
        h.execute(&request("req-w4g", 1, ProtocolCommand::CreateWorkItem(command))).result,
    );
    assert_eq!(error.code, ControlErrorCode::PayloadTooLarge);

    let mut command = create_command("6c");
    command.goal_id = Some(EntityId::new("workspace_id", "not-a-goal"));
    let error = expect_error(
        h.execute(&request("req-w4h", 1, ProtocolCommand::CreateWorkItem(command))).result,
    );
    assert_eq!(error.code, ControlErrorCode::InvalidId);
    assert_eq!(h.work_items.as_ref().unwrap().count(), 1);
}

#[test]
fn work_item_commands_without_wiring_are_typed_denied() {
    let mut bare: Dispatcher = ProtocolDispatcher::new(
        DeploymentMode::EmbeddedHost,
        capabilities_from_wiring(true, true, true, false, true, true, true, true, true),
        LIMITS,
    );
    let error = expect_error(bare.execute(&request("req-w5", 1, create_payload("7"))).result);
    assert_eq!(error.code, ControlErrorCode::PolicyDenied);
    assert!(error.message.contains("work_graph"));
    let error = expect_error(
        bare.execute(&request(
            "req-w5b",
            1,
            transition_payload("7", WorkStatus::Todo, Revision::initial()),
        ))
        .result,
    );
    assert_eq!(error.code, ControlErrorCode::PolicyDenied);
    assert!(error.message.contains("work_graph"));
}

#[test]
fn work_item_mutations_without_wired_audit_stores_are_typed_denied() {
    let unwired: Dispatcher = ProtocolDispatcher::new(
        DeploymentMode::EmbeddedHost,
        capabilities_from_wiring(true, true, false, true, true, true, true, false, false),
        LIMITS,
    );
    let mut unattributed = unwired.with_work_item_repository(seeded_work_items());
    for (id, payload) in [
        ("req-w5c", create_payload("7c")),
        ("req-w5d", transition_payload("7c", WorkStatus::Todo, Revision::initial())),
    ] {
        let error = expect_error(unattributed.execute(&request(id, 1, payload)).result);
        assert_eq!(error.code, ControlErrorCode::PolicyDenied);
        assert!(error.message.contains("activity_audit"), "{error:?}");
    }
}

#[test]
fn the_organization_of_a_command_must_own_the_project() {
    let mut h = harness();
    let mut command = create_command("9");
    command.organization_id = organization("other");
    let error = expect_error(
        h.execute(&request("req-w7", 1, ProtocolCommand::CreateWorkItem(command))).result,
    );
    assert_eq!(error.code, ControlErrorCode::PolicyDenied);
    assert!(error.message.contains("does not contain project"));
    assert!(h.work_items.as_ref().unwrap().get(&work_item_id("9")).is_err());
    assert!(h
        .control_events
        .as_ref()
        .unwrap()
        .replay(&replay_request("other"))
        .unwrap()
        .events
        .is_empty());
}

#[test]
fn two_transitions_from_the_same_revision_admit_exactly_one() {
    let mut h = harness();
    h.execute(&request("req-w8", 1, create_payload("10"))).result.unwrap();
    let first = h.execute(&request(
        "req-w8a",
        1,
        transition_payload("10", WorkStatus::InProgress, Revision::initial()),
    ));
    let second = h.execute(&request(
        "req-w8b",
        1,
        transition_payload("10", WorkStatus::Blocked, Revision::initial()),
    ));
    expect_transitioned(first.result);
    assert_eq!(expect_error(second.result).code, ControlErrorCode::StaleRevision);
    let item = h.work_items.as_ref().unwrap().get(&work_item_id("10")).unwrap();
    assert_eq!(item.revision, Revision { value: 1 });
    assert_eq!(item.status, WorkStatus::InProgress);
}

#[test]
fn version_mismatch_wins_before_any_work_item_mutation() {
    let mut h = harness();
    let error = expect_error(h.execute(&request("req-w6", 2, create_payload("8"))).result);
    assert_eq!(error.code, ControlErrorCode::PolicyDenied);
    assert!(error.message.contains("major version 2"));
    assert!(h.work_items.as_ref().unwrap().get(&work_item_id("8")).is_err());
}

#[test]
fn the_stamps_of_a_mutation_are_those_given() {
    let mut h = harness();
    let stamps = MutationStamps {
        mutation: "2026-09-01T00:00:00.000Z".to_string(),
        audit: "2026-09-01T00:00:00.001Z".to_string(),
    };
    let response = h.execute_at(&request("req-s", 1, create_payload("s")), &stamps);
    let item = expect_created(response.result);
    assert_eq!(item.created_at, "2026-09-01T00:00:00.000Z");
    assert_eq!(item.updated_at, "2026-09-01T00:00:00.000Z");
    let facts = h.activity.as_ref().unwrap().query(&activity_request(None)).unwrap();
    assert_eq!(facts.items[0].timestamp, "2026-09-01T00:00:00.001Z");
    assert!(h.capabilities().work_graph);
}

#[test]
fn the_clock_stamps_what_is_executed_now() {
    let mut h = harness();
    let item = expect_created(h.execute(&request("req-c", 1, create_payload("c"))).result);
    assert_eq!(item.created_at.len(), "2026-09-01T00:00:00.000Z".len());
    assert!(item.created_at.starts_with("20") && item.created_at.ends_with('Z'));
    let shape: String = item
        .created_at
        .chars()
        .map(|c| if c.is_ascii_digit() { '0' } else { c })
        .collect();
    assert_eq!(shape, "0000-00-00T00:00:00.000Z");
}

#[test]
fn refusals_say_what_is_wrong() {
    assert_eq!(
        require_typed_id("project_id", "work_item_id", "work item").unwrap_err().message,
        "work item must be a work_item_id id"
    );
    assert!(require_typed_id("goal_id", "goal_id", "goal").is_ok());
    assert_eq!(
        require_bounded("title", "\u{e9}\u{e9}", 3).unwrap_err().message,
        "title exceeds the 3 byte limit"
    );
    assert!(require_bounded("title", "\u{e9}\u{e9}", 4).is_ok());
    assert_eq!(
        unsupported("budgets").message,
        "capability not served by this deployment: budgets"
    );
    assert_eq!(status_name(WorkStatus::InProgress), "in_progress");
    let error = work_item_failure(
        "work item create",
        &WorkItemRepositoryError::NotFound { work_item_id: "wi_1".to_string() },
    );
    assert_eq!(error.code, ControlErrorCode::NotFound);
    assert!(error.message.contains("work item not found: wi_1"));
}
