use altai_control::approval_repository::{
    Approval, ApprovalDecision, ApprovalError, ApprovalOutcome, ApprovalRepository, ApprovalScope,
    ApprovalTable,
};
use altai_control::model::{EntityId, Revision};
use altai_control::table::Table;

fn approval_id(value: &str) -> EntityId {
    EntityId::new("approval_id", value)
}

fn organization(value: &str) -> EntityId {
    EntityId::new("organization_id", value)
}

fn approval(id: &str) -> Approval {
    Approval {
        id: approval_id(id),
        organization_id: organization("org"),
        scope: ApprovalScope::Plan { attempt_id: EntityId::new("attempt_id", "att") },
        payload_revision: Revision { value: 1 },
        outcome: None,
        revision: Revision::initial(),
        created_at_unix_seconds: 10,
        resolved_at_unix_seconds: None,
    }
}

fn decision(id: &str, outcome: ApprovalOutcome) -> ApprovalDecision {
    ApprovalDecision {
        approval_id: approval_id(id),
        outcome,
        decided_by: "principal".to_string(),
        decided_at_unix_seconds: 20,
        reason: Some("ok".to_string()),
    }
}

#[test]
fn approval_is_durable_and_outcome_advances_on_decision() {
    let mut repo = ApprovalTable::new();
    let id = approval_id("apv");
    repo.create(approval("apv")).unwrap();

    let resolved = repo.record_decision(decision("apv", ApprovalOutcome::Approved)).unwrap();
    assert_eq!(resolved.outcome, Some(ApprovalOutcome::Approved));
    assert_eq!(resolved.resolved_at_unix_seconds, Some(20));
    assert_eq!(resolved.revision, Revision { value: 1 });

    let stored = repo.get(&id).unwrap().unwrap();
    assert_eq!(stored.outcome, Some(ApprovalOutcome::Approved));
    assert_eq!(stored.revision, Revision { value: 1 });
    let stored_decision = repo.get_decision(&id).unwrap().unwrap();
    assert_eq!(stored_decision.outcome, ApprovalOutcome::Approved);
}

#[test]
fn create_is_idempotent_and_rejects_a_divergent_approval() {
    let mut repo = ApprovalTable::new();
    repo.create(approval("apv")).unwrap();
    repo.create(approval("apv")).unwrap();
    let mut divergent = approval("apv");
    divergent.organization_id = organization("other");
    assert!(matches!(repo.create(divergent), Err(ApprovalError::Conflict { .. })));
}

#[test]
fn record_decision_is_idempotent() {
    let mut repo = ApprovalTable::new();
    repo.create(approval("apv")).unwrap();
    let first = repo.record_decision(decision("apv", ApprovalOutcome::Approved)).unwrap();
    let second = repo.record_decision(decision("apv", ApprovalOutcome::Approved)).unwrap();
    assert_eq!(first.revision, second.revision);
    assert_eq!(second.revision, Revision { value: 1 });
}

#[test]
fn record_decision_rejects_a_divergent_outcome() {
    let mut repo = ApprovalTable::new();
    let id = approval_id("apv");
    repo.create(approval("apv")).unwrap();
    repo.record_decision(decision("apv", ApprovalOutcome::Approved)).unwrap();
    let err = repo.record_decision(decision("apv", ApprovalOutcome::Denied)).unwrap_err();
    assert!(matches!(err, ApprovalError::Conflict { .. }));
    let stored = repo.get(&id).unwrap().unwrap();
    assert_eq!(stored.outcome, Some(ApprovalOutcome::Approved));
}

#[test]
fn record_decision_first_writer_wins_across_connections() {
    let mut repo = ApprovalTable::new();
    let id = approval_id("apv");
    repo.create(approval("apv")).unwrap();
    let resolved = repo.record_decision(decision("apv", ApprovalOutcome::Approved)).unwrap();
    let replay = repo.record_decision(decision("apv", ApprovalOutcome::Approved)).unwrap();
    assert_eq!(replay.revision, resolved.revision);
    assert!(matches!(
        repo.record_decision(decision("apv", ApprovalOutcome::Denied)),
        Err(ApprovalError::Conflict { .. })
    ));
    let stored = repo.get(&id).unwrap().unwrap();
    assert_eq!(stored.outcome, Some(ApprovalOutcome::Approved));
    assert_eq!(stored.revision, resolved.revision);
}

#[test]
fn record_decision_rejects_unknown_approval() {
    let mut repo = ApprovalTable::new();
    let err = repo.record_decision(decision("ghost", ApprovalOutcome::Approved)).unwrap_err();
    assert!(matches!(err, ApprovalError::NotFound { .. }));
}

#[test]
fn list_pending_excludes_resolved_approvals() {
    let mut repo = ApprovalTable::new();
    repo.create(approval("apv_pending")).unwrap();
    repo.create(approval("apv_resolved")).unwrap();
    repo.record_decision(decision("apv_resolved", ApprovalOutcome::Denied)).unwrap();
    let pending: Vec<String> =
        repo.list_pending().unwrap().into_iter().map(|a| a.id.value).collect();
    assert_eq!(pending, vec!["apv_pending".to_string()]);
}

#[test]
fn list_in_org_returns_only_that_orgs_approvals() {
    let mut repo = ApprovalTable::new();
    repo.create(approval("apv_mine-1")).unwrap();
    repo.create(approval("apv_mine-2")).unwrap();
    let mut foreign = approval("apv_foreign");
    foreign.organization_id = organization("other");
    repo.create(foreign).unwrap();

    let mut ids: Vec<String> = repo
        .list_in_org(&organization("org"))
        .unwrap()
        .into_iter()
        .map(|a| a.id.value)
        .collect();
    ids.sort();
    assert_eq!(ids, vec!["apv_mine-1".to_string(), "apv_mine-2".to_string()]);
    let other = repo.list_in_org(&organization("other")).unwrap();
    assert_eq!(other.len(), 1);
    assert_eq!(other[0].id.value, "apv_foreign");
}

#[test]
fn approvals_are_told_apart_by_their_identifiers() {
    let mut repo = ApprovalTable::new();
    repo.create(approval("apv_a")).unwrap();
    repo.create(approval("apv_b")).unwrap();
    repo.record_decision(decision("apv_a", ApprovalOutcome::Approved)).unwrap();
    assert_eq!(repo.get(&approval_id("apv_b")).unwrap().unwrap().outcome, None);
    assert!(repo.get_decision(&approval_id("apv_b")).unwrap().is_none());
    assert!(repo.get(&approval_id("apv_c")).unwrap().is_none());
}

#[test]
fn an_action_scope_is_part_of_the_approval() {
    let mut repo = ApprovalTable::new();
    let mut asked = approval("apv");
    asked.scope = ApprovalScope::Action {
        action: "publish".to_string(),
        subject: EntityId::new("work_item_id", "wi_1"),
    };
    repo.create(asked).unwrap();
    let err = repo.create(approval("apv")).unwrap_err();
    assert!(matches!(err, ApprovalError::Conflict { approval_id } if approval_id == "apv"));
}

#[test]
fn the_last_revision_has_none_after_it() {
    assert_eq!(Revision { value: u64::MAX }.next(), Revision { value: u64::MAX });
    assert_eq!(Revision::initial().next(), Revision { value: 1 });
}

#[test]
fn a_restored_store_continues_where_it_was_left() {
    let mut requests = Table::new();
    requests.put("apv".to_string(), approval("apv"));
    requests.put("apv_open".to_string(), approval("apv_open"));
    let mut decisions = Table::new();
    decisions.put("apv".to_string(), decision("apv", ApprovalOutcome::Denied));
    let mut repo = ApprovalTable { requests, decisions };
    assert!(matches!(
        repo.record_decision(decision("apv", ApprovalOutcome::Approved)),
        Err(ApprovalError::Conflict { .. })
    ));
    let replay = repo.record_decision(decision("apv", ApprovalOutcome::Denied)).unwrap();
    assert_eq!(replay.revision, Revision::initial());
    let opened = repo.record_decision(decision("apv_open", ApprovalOutcome::Approved)).unwrap();
    assert_eq!(opened.revision, Revision { value: 1 });
}
