use altai_control::model::{EntityId, Revision};
use altai_control::routine_repository::{
    Routine, RoutineError, RoutineRepository, RoutineRevision, RoutineStatus, RoutineTable,
    RoutineTrigger,
};
use altai_control::table::Table;

fn routine_id(value: &str) -> EntityId {
    EntityId::new("routine_id", value)
}

fn revision_id(value: &str) -> EntityId {
    EntityId::new("routine_revision_id", value)
}

fn routine(id: &str) -> Routine {
    Routine {
        id: routine_id(id),
        organization_id: EntityId::new("organization_id", "org"),
        current_revision_id: None,
        status: RoutineStatus::Active,
        revision: Revision::initial(),
        created_at_unix_seconds: 1,
        updated_at_unix_seconds: 1,
    }
}

fn revision(routine: &str, seq: u64, trigger: RoutineTrigger) -> RoutineRevision {
    RoutineRevision {
        id: revision_id(&format!("rev-{seq}")),
        routine_id: routine_id(routine),
        revision: Revision { value: seq },
        trigger,
        target_work_item_id: EntityId::new("work_item_id", "work"),
        created_at_unix_seconds: seq * 10,
    }
}

fn nine() -> RoutineTrigger {
    RoutineTrigger::Recurring { cron_expression: "0 9 * * *".to_string() }
}

fn current(routine: &Routine) -> Option<&str> {
    routine.current_revision_id.as_ref().map(|id| id.value.as_str())
}

#[test]
fn routine_is_durable_and_current_revision_advances() {
    let mut repo = RoutineTable::new();
    let id = routine_id("rt");
    repo.create(routine("rt")).unwrap();

    let after_one = repo.append_revision(&id, revision("rt", 1, nine())).unwrap();
    assert_eq!(current(&after_one), Some("rev-1"));
    assert_eq!(after_one.revision, Revision { value: 1 });

    let after_two = repo
        .append_revision(
            &id,
            revision("rt", 2, RoutineTrigger::Event { source: "pull_request".to_string() }),
        )
        .unwrap();
    assert_eq!(current(&after_two), Some("rev-2"));
    assert_eq!(after_two.revision, Revision { value: 2 });
    assert_eq!(after_two.updated_at_unix_seconds, 20);

    let stored = repo.get(&id).unwrap().unwrap();
    assert_eq!(current(&stored), Some("rev-2"));
    assert_eq!(stored.revision, Revision { value: 2 });

    assert_eq!(
        repo.get_revision(&revision_id("rev-1")).unwrap().unwrap().revision,
        Revision { value: 1 }
    );
    assert!(matches!(
        repo.get_revision(&revision_id("rev-2")).unwrap().unwrap().trigger,
        RoutineTrigger::Event { .. }
    ));
}

#[test]
fn append_revision_is_idempotent() {
    let mut repo = RoutineTable::new();
    let id = routine_id("rt");
    repo.create(routine("rt")).unwrap();
    let first = repo.append_revision(&id, revision("rt", 1, nine())).unwrap();
    let second = repo.append_revision(&id, revision("rt", 1, nine())).unwrap();
    assert_eq!(first.revision, second.revision);
    assert_eq!(second.revision, Revision { value: 1 });
}

#[test]
fn append_revision_rejects_unknown_routine() {
    let mut repo = RoutineTable::new();
    let err = repo
        .append_revision(&routine_id("ghost"), revision("ghost", 1, nine()))
        .unwrap_err();
    assert!(matches!(err, RoutineError::NotFound { .. }));
}

#[test]
fn list_all_keeps_paused_and_retired_routines_readable() {
    let mut repo = RoutineTable::new();
    let mut paused = routine("rt-paused");
    paused.status = RoutineStatus::Paused;
    let mut retired = routine("rt-retired");
    retired.status = RoutineStatus::Retired;
    repo.create(routine("rt-active")).unwrap();
    repo.create(paused).unwrap();
    repo.create(retired).unwrap();

    let all = repo.list_all().unwrap();
    assert_eq!(all.len(), 3, "every lifecycle state stays readable");
    assert_eq!(repo.list_active().unwrap().len(), 1);
}

#[test]
fn create_is_idempotent_and_rejects_a_divergent_routine() {
    let mut repo = RoutineTable::new();
    repo.create(routine("rt")).unwrap();
    repo.create(routine("rt")).unwrap();
    let mut divergent = routine("rt");
    divergent.organization_id = EntityId::new("organization_id", "other");
    assert!(matches!(repo.create(divergent), Err(RoutineError::Conflict { .. })));
}

#[test]
fn append_revision_rejects_a_non_monotonic_sequence() {
    let mut repo = RoutineTable::new();
    let id = routine_id("rt");
    repo.create(routine("rt")).unwrap();
    repo.append_revision(&id, revision("rt", 2, nine())).unwrap();
    let err = repo.append_revision(&id, revision("rt", 1, nine())).unwrap_err();
    assert!(matches!(err, RoutineError::Conflict { .. }));
    let stored = repo.get(&id).unwrap().unwrap();
    assert_eq!(current(&stored), Some("rev-2"));
    assert_eq!(stored.revision, Revision { value: 1 });
}

#[test]
fn routine_errors_name_the_identifier_in_quotes() {
    let error = RoutineError::NotFound { routine_id: "rt \"x\"".to_string() };
    assert_eq!(error.to_text(), "routine error: NotFound { routine_id: \"rt \\\"x\\\"\" }");
    let error = RoutineError::Conflict { routine_id: "rt".to_string() };
    assert_eq!(error.to_text(), "routine error: Conflict { routine_id: \"rt\" }");
    let error = RoutineError::RevisionNotFound { routine_revision_id: "rev\n".to_string() };
    assert_eq!(
        error.to_text(),
        "routine error: RevisionNotFound { routine_revision_id: \"rev\\n\" }"
    );
    let error = RoutineError::Internal { reason: "disk".to_string() };
    assert_eq!(error.to_text(), "routine error: Internal { reason: \"disk\" }");
}

#[test]
fn the_time_of_the_last_fire_is_kept() {
    let mut repo = RoutineTable::new();
    let id = routine_id("rt");
    repo.create(routine("rt")).unwrap();
    assert_eq!(repo.last_fired(&id).unwrap(), None);
    repo.record_fire(&id, 60).unwrap();
    repo.record_fire(&id, 120).unwrap();
    assert_eq!(repo.last_fired(&id).unwrap(), Some(120));
    repo.record_fire(&id, u64::MAX).unwrap();
    assert_eq!(repo.last_fired(&id).unwrap(), Some(0));
}

#[test]
fn a_routine_without_its_current_revision_takes_no_other() {
    let mut left = routine("rt");
    left.current_revision_id = Some(revision_id("rev-1"));
    let mut routines = Table::new();
    routines.put("rt".to_string(), left);
    let mut fires = Table::new();
    fires.put("rt".to_string(), 60);
    let mut repo = RoutineTable { routines, revisions: Table::new(), fires };
    assert_eq!(repo.last_fired(&routine_id("rt")).unwrap(), Some(60));
    assert!(matches!(
        repo.append_revision(&routine_id("rt"), revision("rt", 2, nine())),
        Err(RoutineError::Internal { .. })
    ));
    assert!(repo.get_revision(&revision_id("rev-2")).unwrap().is_none());
}
