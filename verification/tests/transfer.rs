use altai_control::cron_automation_transfer::{
    content_hash, map_automation, provenance_with, read_active_automations, whole_seconds,
    CronAutomationRecord, CronAutomationTransfer, CronJobRow, Disposition, LegacySchedule,
    MappingRepository, MappingTable, SnapshotReport, SnapshotStamp, TransferAttribution,
    TransferError,
};
use altai_control::feature_flag_repository::{
    FeatureFlagError, FeatureFlagRepository, FeatureFlagTable, CONTROL_PLANE_ENABLED_FLAG,
};
use altai_control::model::{Actor, EntityId};
use altai_control::routine_cron_bridge::{
    SCHEDULE_OWNER_DAEMON, SCHEDULE_OWNER_DESKTOP, SCHEDULE_OWNER_FLAG,
};
use altai_control::routine_repository::{
    RoutineRepository, RoutineStatus, RoutineTable, RoutineTrigger,
};
use altai_control::schedule::{
    advice_after, check_listener, check_owner, enable_schedule, enable_summary, record_flag,
    reverify_and_retire, snapshot_summary, status_line, stranded_advice, ActiveReader, EnableError,
};
use altai_control::work_item_repository::{WorkItemRepository, WorkItemTable, WorkStatus};
use std::cell::Cell;

struct Harness {
    transfer: CronAutomationTransfer<MappingTable>,
    work_items: WorkItemTable,
    routines: RoutineTable,
    ledger: FeatureFlagTable,
    attribution: TransferAttribution,
}

fn organization(value: &str) -> EntityId {
    EntityId::new("organization_id", value)
}

fn project(value: &str) -> EntityId {
    EntityId::new("project_id", value)
}

fn attribution(organization_id: &str) -> TransferAttribution {
    TransferAttribution {
        organization_id: organization(organization_id),
        project_id: project("proj"),
        actor: Actor::System { component: "transfer-test".to_string() },
    }
}

fn harness() -> Harness {
    let mut work_items = WorkItemTable::new();
    work_items.put_project(&project("proj"), organization("org"));
    Harness {
        transfer: CronAutomationTransfer::new(MappingTable::new()),
        work_items,
        routines: RoutineTable::new(),
        ledger: FeatureFlagTable::new(),
        attribution: attribution("org"),
    }
}

fn job(id: &str, schedule: LegacySchedule, message: &str) -> CronAutomationRecord {
    CronAutomationRecord {
        id: id.to_string(),
        schedule,
        message: message.to_string(),
        chat_id: "chat-1".to_string(),
        channel: "tauri".to_string(),
        enabled: true,
    }
}

fn cron(expression: &str) -> LegacySchedule {
    LegacySchedule::Cron { cron_expr: expression.to_string() }
}

fn weekly_job(id: &str) -> CronAutomationRecord {
    job(id, cron("0 9 * * MON"), "job")
}

fn snapshot(
    h: &mut Harness,
    jobs: &Vec<CronAutomationRecord>,
) -> Result<SnapshotReport, TransferError> {
    h.transfer.snapshot(jobs, &h.attribution, &mut h.work_items, &mut h.routines)
}

fn legacy_row(id: &str, schedule: Result<LegacySchedule, String>, enabled: i64) -> CronJobRow {
    CronJobRow {
        id: id.to_string(),
        schedule,
        message: "report".to_string(),
        chat_id: "chat-1".to_string(),
        channel: "tauri".to_string(),
        enabled,
        completed_at_ms: None,
    }
}

fn retired_at(h: &Harness, id: &str) -> Option<u64> {
    h.transfer.mappings.find(id).unwrap().unwrap().retired_at_unix_seconds
}

#[test]
fn cron_automations_map_to_canonical_work_and_routine() {
    let mut h = harness();
    let jobs = vec![job("job-1", cron("0 9 * * MON"), "Weekly report")];
    let report = snapshot(&mut h, &jobs).unwrap();
    assert_eq!(
        report,
        SnapshotReport { total_active: 1, newly_mapped: 1, already_mapped: 0, incompatible: 0 }
    );
    let work_item = h.work_items.get(&EntityId::new("work_item_id", "snap_job-1")).unwrap();
    assert_eq!(work_item.status, WorkStatus::Backlog);
    assert_eq!(work_item.description, "Weekly report");
    let routine = h
        .routines
        .get(&EntityId::new("routine_id", "snap_job-1"))
        .unwrap()
        .expect("routine must exist");
    assert_eq!(routine.status, RoutineStatus::Active);
    let revision = h
        .routines
        .get_revision(&EntityId::new("routine_revision_id", "snap_job-1_r0"))
        .unwrap()
        .expect("revision must exist");
    assert!(matches!(
        revision.trigger,
        RoutineTrigger::Recurring { cron_expression } if cron_expression == "0 9 * * MON"
    ));
    assert_eq!(revision.target_work_item_id.value, work_item.id.value);
    assert_eq!(revision.target_work_item_id.kind, work_item.id.kind);
    h.transfer.verify_enable_ready(&jobs).unwrap();
}

#[test]
fn snapshot_reruns_are_idempotent_and_enable_blocks_on_incompatible() {
    let mut h = harness();
    let jobs = vec![
        job("job-cron", cron("*/5 * * * *"), "Cron job"),
        job("job-every", LegacySchedule::Every { every_ms: 90000 }, "Interval job"),
    ];
    let first = snapshot(&mut h, &jobs).unwrap();
    assert_eq!((first.newly_mapped, first.incompatible, first.already_mapped), (1, 1, 0));
    let second = snapshot(&mut h, &jobs).unwrap();
    assert_eq!((second.newly_mapped, second.incompatible, second.already_mapped), (0, 1, 1));
    let blocked = h
        .transfer
        .verify_enable_ready(&jobs)
        .expect_err("enable must be blocked while an incompatible automation exists");
    match blocked {
        TransferError::EnableBlocked { blockers } => {
            assert_eq!(blockers.len(), 1);
            assert_eq!(blockers[0].0, "job-every");
        }
        other => panic!("expected EnableBlocked, got {other:?}"),
    }
}

#[test]
fn unmapped_automations_block_enable_and_changed_content_is_a_typed_error() {
    let mut h = harness();
    let jobs = vec![job("job-2", cron("0 0 * * *"), "Daily job")];
    let blocked = h
        .transfer
        .verify_enable_ready(&jobs)
        .expect_err("unmapped automation must block enable");
    assert!(
        matches!(blocked, TransferError::EnableBlocked { ref blockers } if blockers.len() == 1)
    );

    snapshot(&mut h, &jobs).unwrap();
    h.transfer.verify_enable_ready(&jobs).unwrap();

    let changed = vec![job("job-2", cron("0 0 * * *"), "Changed intent")];
    let error =
        snapshot(&mut h, &changed).expect_err("changed automation must be a typed error");
    assert!(matches!(
        error,
        TransferError::AutomationChanged { automation_id } if automation_id == "job-2"
    ));
}

#[test]
fn completed_automations_are_ignored_and_retirement_is_recorded() {
    let mut h = harness();
    let mut gone = legacy_row("job-gone", Ok(cron("0 0 * * *")), 1);
    gone.message = "Already completed".to_string();
    gone.completed_at_ms = Some(123);
    let mut rows = vec![gone];
    let none = read_active_automations(&rows).unwrap();
    let report = snapshot(&mut h, &none).unwrap();
    assert_eq!(report.total_active, 0);
    assert_eq!(report.newly_mapped, 0);
    h.transfer.verify_enable_ready(&none).unwrap();

    let mut live = legacy_row("job-live", Ok(cron("0 0 * * *")), 1);
    live.message = "Live".to_string();
    rows.push(live);
    let jobs = read_active_automations(&rows).unwrap();
    let report = snapshot(&mut h, &jobs).unwrap();
    assert_eq!((report.total_active, report.newly_mapped), (1, 1));
    h.transfer.mark_retired_at("job-live", 1_700_000_000).unwrap();
    h.transfer.mark_retired_at("job-live", 1_700_000_060).unwrap();
    assert_eq!(retired_at(&h, "job-live"), Some(1_700_000_000));
}

#[test]
fn foreign_attribution_is_refused_before_any_canonical_write() {
    let mut h = harness();
    let jobs = vec![job("job-3", cron("0 0 * * *"), "Daily job")];
    let foreign = attribution("elsewhere");
    let error = h
        .transfer
        .snapshot(&jobs, &foreign, &mut h.work_items, &mut h.routines)
        .expect_err("foreign organization must be refused");
    assert!(matches!(error, TransferError::ProjectResolution { .. }));
    assert_eq!(h.transfer.mappings.count(), 0);
    assert_eq!(h.work_items.count(), 0);
}

#[test]
fn enable_writes_both_flags_and_retires_mapped_rows_idempotently() {
    let mut h = harness();
    let jobs = vec![weekly_job("job-1")];
    snapshot(&mut h, &jobs).unwrap();
    let mut active = ActiveReader::new(|| Ok(vec![weekly_job("job-1")]));

    assert_eq!(
        enable_schedule(&mut h.transfer, &mut h.ledger, &mut active, SCHEDULE_OWNER_DAEMON, 5)
            .unwrap(),
        1
    );
    assert_eq!(
        h.ledger.get(SCHEDULE_OWNER_FLAG).unwrap().as_deref(),
        Some(SCHEDULE_OWNER_DAEMON)
    );
    assert_eq!(h.ledger.get(CONTROL_PLANE_ENABLED_FLAG).unwrap().as_deref(), Some("true"));
    assert!(retired_at(&h, "job-1").is_some());

    assert_eq!(
        enable_schedule(&mut h.transfer, &mut h.ledger, &mut active, SCHEDULE_OWNER_DAEMON, 9)
            .unwrap(),
        1
    );
    assert_eq!(retired_at(&h, "job-1"), Some(5));
}

#[test]
fn a_newcomer_after_the_flag_writes_fails_the_reverify_typed() {
    let mut h = harness();
    let jobs = vec![weekly_job("job-1")];
    snapshot(&mut h, &jobs).unwrap();
    record_flag(&mut h.ledger, SCHEDULE_OWNER_FLAG, SCHEDULE_OWNER_DAEMON).unwrap();
    record_flag(&mut h.ledger, CONTROL_PLANE_ENABLED_FLAG, "true").unwrap();
    let mut active =
        ActiveReader::new(|| Ok(vec![weekly_job("job-1"), weekly_job("job-newcomer")]));

    let error = reverify_and_retire(&mut h.transfer, &h.ledger, &mut active, 5)
        .expect_err("an unmapped newcomer must fail the post-flag re-verify");
    match error {
        EnableError::Stranded(TransferError::EnableBlocked { blockers }) => {
            assert_eq!(blockers.len(), 1);
            assert_eq!(blockers[0].0, "job-newcomer");
        }
        other => panic!("expected EnableBlocked naming the newcomer, got {other:?}"),
    }
    assert_eq!(
        h.ledger.get(SCHEDULE_OWNER_FLAG).unwrap().as_deref(),
        Some(SCHEDULE_OWNER_DAEMON)
    );
    assert_eq!(h.ledger.get(CONTROL_PLANE_ENABLED_FLAG).unwrap().as_deref(), Some("true"));
    assert!(retired_at(&h, "job-1").is_none());
}

#[test]
fn a_stranded_cutover_completes_after_another_snapshot() {
    let mut h = harness();
    snapshot(&mut h, &vec![weekly_job("job-1")]).unwrap();
    record_flag(&mut h.ledger, SCHEDULE_OWNER_FLAG, SCHEDULE_OWNER_DAEMON).unwrap();
    record_flag(&mut h.ledger, CONTROL_PLANE_ENABLED_FLAG, "true").unwrap();
    let jobs = vec![weekly_job("job-1"), weekly_job("job-newcomer")];
    let mut active =
        ActiveReader::new(|| Ok(vec![weekly_job("job-1"), weekly_job("job-newcomer")]));
    assert!(reverify_and_retire(&mut h.transfer, &h.ledger, &mut active, 5).is_err());

    assert_eq!(snapshot(&mut h, &jobs).unwrap().newly_mapped, 1);
    let retired =
        enable_schedule(&mut h.transfer, &mut h.ledger, &mut active, SCHEDULE_OWNER_DAEMON, 9);
    assert!(matches!(retired, Ok(2)));
    assert_eq!(retired_at(&h, "job-1"), Some(9));
    assert_eq!(retired_at(&h, "job-newcomer"), Some(9));
}

#[test]
fn the_automations_are_read_again_under_the_decision() {
    let mut h = harness();
    snapshot(&mut h, &vec![weekly_job("job-1"), weekly_job("job-2")]).unwrap();
    let reads = Cell::new(0);
    let mut active = ActiveReader::new(|| {
        reads.set(reads.get() + 1);
        match reads.get() {
            1 => Ok(vec![weekly_job("job-1")]),
            2 => Ok(vec![weekly_job("job-1"), weekly_job("job-newcomer")]),
            _ => Ok(vec![weekly_job("job-1"), weekly_job("job-2")]),
        }
    });
    let stranded =
        enable_schedule(&mut h.transfer, &mut h.ledger, &mut active, SCHEDULE_OWNER_DAEMON, 5);
    assert_eq!(reads.get(), 2);
    assert_eq!(
        advice_after(&stranded, SCHEDULE_OWNER_DAEMON),
        Some(stranded_advice(SCHEDULE_OWNER_DAEMON))
    );
    match stranded.unwrap_err() {
        EnableError::Stranded(error) => assert_eq!(
            EnableError::Stranded(error).to_text(),
            "canonical scheduling is blocked by 1 unmapped automation(s): job-newcomer: not snapshotted yet"
        ),
        other => panic!("expected the newcomer to strand the cutover, got {other:?}"),
    }
    assert_eq!(h.ledger.count(), 2);
    assert!(retired_at(&h, "job-1").is_none());

    reads.set(10);
    let done =
        enable_schedule(&mut h.transfer, &mut h.ledger, &mut active, SCHEDULE_OWNER_DAEMON, 9);
    assert_eq!(reads.get(), 13);
    assert!(matches!(done, Ok(2)));
    assert_eq!(advice_after(&done, SCHEDULE_OWNER_DAEMON), None);
    assert_eq!(retired_at(&h, "job-2"), Some(9));
}

#[test]
fn a_blocked_cutover_moves_no_flag() {
    let mut h = harness();
    let mut active = ActiveReader::new(|| Ok(vec![weekly_job("job-1")]));
    let error =
        enable_schedule(&mut h.transfer, &mut h.ledger, &mut active, SCHEDULE_OWNER_DAEMON, 5)
            .unwrap_err();
    assert!(matches!(error, EnableError::Transfer(TransferError::EnableBlocked { .. })));
    assert_eq!(advice_after(&Err(error), SCHEDULE_OWNER_DAEMON), None);
    assert_eq!(h.ledger.count(), 0);
}

#[test]
fn another_owner_is_refused_without_overwriting_the_first() {
    let mut ledger = FeatureFlagTable::new();
    record_flag(&mut ledger, SCHEDULE_OWNER_FLAG, SCHEDULE_OWNER_DAEMON).unwrap();
    let error =
        record_flag(&mut ledger, SCHEDULE_OWNER_FLAG, SCHEDULE_OWNER_DESKTOP).unwrap_err();
    match error {
        EnableError::FlagConflict { message } => assert_eq!(
            message,
            "feature flag schedule_owner is already \"daemon\"; refusing to overwrite it with \"desktop_host\""
        ),
        other => panic!("expected a conflict, got {other:?}"),
    }
    assert_eq!(ledger.get(SCHEDULE_OWNER_FLAG).unwrap().as_deref(), Some("daemon"));
    assert!(matches!(
        record_flag(&mut ledger, "", "true"),
        Err(EnableError::Flag(FeatureFlagError::InvalidFlagKey(_)))
    ));
}

#[test]
fn a_failed_read_stops_the_cutover_before_it_starts() {
    let mut h = harness();
    let mut failing =
        ActiveReader::new(|| Err(TransferError::Database { reason: "locked".to_string() }));
    let error =
        enable_schedule(&mut h.transfer, &mut h.ledger, &mut failing, SCHEDULE_OWNER_DAEMON, 5)
            .unwrap_err();
    assert!(matches!(error, EnableError::Transfer(TransferError::Database { .. })));
    assert_eq!(h.ledger.count(), 0);
}

#[test]
fn the_content_hash_covers_everything_but_the_identifier() {
    let a = content_hash(&weekly_job("a"));
    assert_eq!(a, content_hash(&weekly_job("b")));
    assert_eq!(a.len(), 64);
    assert!(a.chars().all(|c| matches!(c, '0'..='9' | 'a'..='f')));
    let mut paused = weekly_job("a");
    paused.enabled = false;
    assert_ne!(a, content_hash(&paused));
    let mut moved = weekly_job("a");
    moved.chat_id = "chat-2".to_string();
    assert_ne!(a, content_hash(&moved));
    assert_ne!(a, content_hash(&job("a", LegacySchedule::At { at_ms: -5 }, "job")));
}

#[test]
fn provenance_is_quoted_json_with_its_keys_in_order() {
    let automation = job("a", cron("* * * * *"), "say \"hi\"\n");
    assert_eq!(
        provenance_with(&automation, None),
        "{\"channel\":\"tauri\",\"chat_id\":\"chat-1\",\"enabled\":true,\"message\":\"say \\\"hi\\\"\\n\",\"source\":\"cron_actor\"}"
    );
    assert_eq!(
        provenance_with(&automation, Some("no trigger")),
        "{\"channel\":\"tauri\",\"chat_id\":\"chat-1\",\"enabled\":true,\"incompatible_reason\":\"no trigger\",\"message\":\"say \\\"hi\\\"\\n\",\"source\":\"cron_actor\"}"
    );
}

#[test]
fn a_long_message_gives_a_bounded_title() {
    let mut h = harness();
    let message = format!("{}\nsecond line", "\u{e9}".repeat(150));
    let jobs = vec![job("job-1", cron("* * * * *"), &message)];
    snapshot(&mut h, &jobs).unwrap();
    let item = h.work_items.get(&EntityId::new("work_item_id", "snap_job-1")).unwrap();
    assert_eq!(item.title, "\u{e9}".repeat(100));
    assert_eq!(item.description, message);
}

#[test]
fn transfer_errors_read_as_sentences() {
    let error = TransferError::AutomationChanged { automation_id: "job".to_string() };
    assert_eq!(
        error.to_text(),
        "automation job changed after it was mapped; re-mapping is an explicit operator decision"
    );
    let error = TransferError::EnableBlocked {
        blockers: vec![
            ("a".to_string(), "not snapshotted yet".to_string()),
            ("b".to_string(), "late".to_string()),
        ],
    };
    assert_eq!(
        error.to_text(),
        "canonical scheduling is blocked by 2 unmapped automation(s): a: not snapshotted yet, b: late"
    );
    let error = TransferError::Database { reason: "locked".to_string() };
    assert_eq!(error.to_text(), "cron automation transfer failed: locked");
    let error = TransferError::ProjectResolution { reason: "gone".to_string() };
    assert_eq!(error.to_text(), "gone");
}

#[test]
fn the_operator_surface_speaks_plainly() {
    assert!(check_listener(true).is_ok());
    assert_eq!(
        check_listener(false),
        Err("control-plane daemon only permits loopback bind in this milestone")
    );
    assert!(check_owner("daemon").is_ok());
    assert!(check_owner("desktop_host").is_ok());
    assert_eq!(
        check_owner("some\"one").unwrap_err(),
        "unknown schedule owner \"some\\\"one\": the ledger records `daemon` or `desktop_host`"
    );
    let report =
        SnapshotReport { total_active: 12, newly_mapped: 7, already_mapped: 4, incompatible: 1 };
    assert_eq!(
        snapshot_summary(&report),
        "active automations: 12 (newly mapped 7, already mapped 4, incompatible 1)"
    );
    assert_eq!(
        enable_summary("daemon", 3),
        "canonical scheduling enabled with owner \"daemon\"; 3 legacy row(s) retired"
    );
    assert!(stranded_advice("daemon").contains("owner=\"daemon\", control_plane_enabled=true"));
    assert_eq!(
        status_line("job-1", true, None, false),
        "automation job-1 enabled=true disposition=unmapped retired=false"
    );
    assert_eq!(
        status_line("job-1", false, Some("mapped"), true),
        "automation job-1 enabled=false disposition=mapped retired=true"
    );
}

#[test]
fn legacy_rows_are_read_until_a_schedule_is_unreadable() {
    let row = legacy_row;
    let rows = vec![row("a1", Ok(cron("0 9 * * MON")), 1), row("a2", Ok(cron("0 9 * * TUE")), 0)];
    let read = read_active_automations(&rows).unwrap();
    assert_eq!(read.len(), 2);
    assert_eq!((read[0].id.as_str(), read[0].enabled), ("a1", true));
    assert_eq!((read[1].id.as_str(), read[1].enabled), ("a2", false));
    assert!(matches!(
        &read[1].schedule,
        LegacySchedule::Cron { cron_expr } if cron_expr == "0 9 * * TUE"
    ));

    let rows = vec![
        row("a1", Ok(cron("0 9 * * MON")), 1),
        CronJobRow {
            completed_at_ms: Some(7),
            ..row("a0", Err("completed".to_string()), 1)
        },
        row("a2", Err("expected value at line 1 column 1".to_string()), 1),
        row("a3", Err("later".to_string()), 1),
    ];
    match read_active_automations(&rows) {
        Err(TransferError::Database { reason }) => assert_eq!(
            reason,
            "automation a2 has an unreadable schedule: expected value at line 1 column 1"
        ),
        _ => panic!("the second row cannot be read"),
    }
}

fn stamp(unix_seconds: u64) -> SnapshotStamp {
    SnapshotStamp {
        unix_seconds,
        created_at: "2026-01-01T00:00:00.000Z".to_string(),
        updated_at: "2026-01-01T00:00:00.001Z".to_string(),
    }
}

#[test]
fn an_interrupted_mapping_is_adopted_by_the_next_snapshot() {
    let mut h = harness();
    let jobs = vec![weekly_job("job-1")];
    let left = map_automation(
        &jobs[0],
        &h.attribution,
        &mut h.work_items,
        &mut h.routines,
        &stamp(7),
    );
    assert!(matches!(left, Ok(Disposition::Mapped { .. })));
    assert_eq!(h.transfer.mappings.count(), 0);

    let report = snapshot(&mut h, &jobs).unwrap();
    assert_eq!(report.newly_mapped, 1);
    assert_eq!(h.work_items.count(), 1);
    let id = EntityId::new("work_item_id", "snap_job-1");
    assert_eq!(h.work_items.get(&id).unwrap().updated_at, "2026-01-01T00:00:00.001Z");
    let routine = h.routines.get(&EntityId::new("routine_id", "snap_job-1")).unwrap().unwrap();
    assert_eq!(routine.created_at_unix_seconds, 7);
}

#[test]
fn a_snapshot_resumes_where_another_was_interrupted() {
    let mut h = harness();
    let jobs = vec![weekly_job("job-1"), weekly_job("job-2"), weekly_job("job-3")];
    let first = vec![weekly_job("job-1")];
    assert_eq!(snapshot(&mut h, &first).unwrap().newly_mapped, 1);
    map_automation(&jobs[1], &h.attribution, &mut h.work_items, &mut h.routines, &stamp(7))
        .unwrap();
    let report = snapshot(&mut h, &jobs).unwrap();
    assert_eq!(
        report,
        SnapshotReport { total_active: 3, newly_mapped: 2, already_mapped: 1, incompatible: 0 }
    );
    assert_eq!(h.work_items.count(), 3);
    assert_eq!(h.transfer.mappings.count(), 3);
    for id in ["job-1", "job-2", "job-3"] {
        let key = format!("snap_{id}");
        assert!(h.work_items.get(&EntityId::new("work_item_id", &key)).is_ok());
        assert!(h.routines.get(&EntityId::new("routine_id", &key)).unwrap().is_some());
        let row = h.transfer.mappings.find(id).unwrap().expect("each automation is mapped");
        assert_eq!(row.routine_id, Some(key));
    }
}

#[test]
fn the_counts_of_a_snapshot_add_up_and_a_rerun_keeps_them() {
    let mut h = harness();
    let jobs = vec![
        weekly_job("job-1"),
        job("job-2", LegacySchedule::Every { every_ms: 90000 }, "Interval job"),
        weekly_job("job-3"),
        job("job-4", LegacySchedule::At { at_ms: 1 }, "One shot"),
    ];
    assert_eq!(snapshot(&mut h, &vec![weekly_job("job-3")]).unwrap().newly_mapped, 1);
    let first = snapshot(&mut h, &jobs).unwrap();
    assert_eq!(
        first,
        SnapshotReport { total_active: 4, newly_mapped: 1, already_mapped: 1, incompatible: 2 }
    );
    let rows = (h.work_items.count(), h.transfer.mappings.count());
    let second = snapshot(&mut h, &jobs).unwrap();
    assert_eq!(
        second,
        SnapshotReport { total_active: 4, newly_mapped: 0, already_mapped: 2, incompatible: 2 }
    );
    assert_eq!((h.work_items.count(), h.transfer.mappings.count()), rows);
}

#[test]
fn a_work_item_with_another_intent_is_not_adopted() {
    let mut h = harness();
    let first = job("job-1", cron("0 9 * * MON"), "one");
    let second = job("job-1", cron("0 9 * * MON"), "another");
    map_automation(&first, &h.attribution, &mut h.work_items, &mut h.routines, &stamp(1)).unwrap();
    let refused =
        map_automation(&second, &h.attribution, &mut h.work_items, &mut h.routines, &stamp(2));
    match refused {
        Err(TransferError::Database { reason }) => assert_eq!(
            reason,
            "work item snapshot failed: work item already exists: snap_job-1"
        ),
        other => panic!("unexpected outcome: {other:?}"),
    }
}

#[test]
fn retirement_by_the_clock_is_recorded_once() {
    let mut h = harness();
    let jobs = vec![weekly_job("job-1")];
    snapshot(&mut h, &jobs).unwrap();
    h.transfer.mark_retired("job-1").unwrap();
    let first = retired_at(&h, "job-1").unwrap();
    assert!(first > 1_700_000_000);
    h.transfer.mark_retired_at("job-1", 3).unwrap();
    assert_eq!(retired_at(&h, "job-1"), Some(first));
    h.transfer.mark_retired("unknown").unwrap();
}

#[test]
fn times_are_taken_in_whole_seconds_since_the_epoch() {
    assert_eq!(whole_seconds(1_700_000_000_999), 1_700_000_000);
    assert_eq!(whole_seconds(999), 0);
    assert_eq!(whole_seconds(-1), 0);
    assert_eq!(whole_seconds(i64::MIN), 0);
}
