use altai_control::model::{EntityId, Revision};
use altai_control::routine_cron_bridge::{
    gate_next, schedule_authority, still_holds, GateAction, GateEvent, RoutineCronBridge,
    ScheduleAuthority,
    DEFAULT_CRON_TICK, SCHEDULE_OWNER_DAEMON, SCHEDULE_OWNER_DESKTOP,
};
use altai_control::routine_materializer::{RoutineMaterializer, WakeLog, WakeSource};
use altai_control::routine_repository::{
    Routine, RoutineRepository, RoutineRevision, RoutineStatus, RoutineTable, RoutineTrigger,
};

type Materializer = RoutineMaterializer<RoutineTable, WakeLog>;
type Bridge = RoutineCronBridge<RoutineTable, WakeLog>;

/// The next fire of the expressions that these tests use.
fn next_fire(expression: &String, anchor: u64) -> Option<u64> {
    match expression.as_str() {
        "* * * * *" => Some((anchor / 60 + 1) * 60),
        "0 9 * * *" => {
            let nine: u64 = anchor / 86_400 * 86_400 + 32_400;
            if nine > anchor {
                Some(nine)
            } else {
                Some(nine + 86_400)
            }
        }
        _ => None,
    }
}

fn routine_id(value: &str) -> EntityId {
    EntityId::new("routine_id", value)
}

fn materializer() -> Materializer {
    RoutineMaterializer::new(RoutineTable::new(), WakeLog::new())
}

fn bridge() -> Bridge {
    RoutineCronBridge::new(materializer(), DEFAULT_CRON_TICK)
}

fn add_routine(
    routines: &mut RoutineTable,
    id: &str,
    status: RoutineStatus,
    trigger: RoutineTrigger,
    created_at: u64,
    target: &str,
) {
    routines
        .create(Routine {
            id: routine_id(id),
            organization_id: EntityId::new("organization_id", "org"),
            current_revision_id: None,
            status,
            revision: Revision::initial(),
            created_at_unix_seconds: created_at,
            updated_at_unix_seconds: created_at,
        })
        .unwrap();
    routines
        .append_revision(
            &routine_id(id),
            RoutineRevision {
                id: EntityId::new("routine_revision_id", &format!("{id}-rev-1")),
                routine_id: routine_id(id),
                revision: Revision { value: 1 },
                trigger,
                target_work_item_id: EntityId::new("work_item_id", target),
                created_at_unix_seconds: created_at,
            },
        )
        .unwrap();
}

fn recurring_routine_to(
    routines: &mut RoutineTable,
    id: &str,
    expression: &str,
    created_at: u64,
    target: &str,
) {
    let trigger = RoutineTrigger::Recurring { cron_expression: expression.to_string() };
    add_routine(routines, id, RoutineStatus::Active, trigger, created_at, target);
}

fn recurring_routine(routines: &mut RoutineTable, id: &str, expression: &str, created_at: u64) {
    recurring_routine_to(routines, id, expression, created_at, "work-1");
}

/// What a snapshot leaves behind for one automation: an active mirror with a target of its own.
fn mapped_mirror(routines: &mut RoutineTable, id: &str, target: &str) -> String {
    let mirror = format!("snap_{id}");
    recurring_routine_to(routines, &mirror, "* * * * *", 0, target);
    mirror
}

fn woke(wakes: &WakeLog, work: &str) -> bool {
    wakes.entries.iter().any(|wake| wake.work_item_id.value == work)
}

fn undecided() -> Option<ScheduleAuthority> {
    Some(ScheduleAuthority { canonical_decided: false, owner: None })
}

/// The ledger names the daemon, but the rollback switch is pulled.
fn rolled_back() -> Option<ScheduleAuthority> {
    Some(ScheduleAuthority {
        canonical_decided: false,
        owner: Some(SCHEDULE_OWNER_DAEMON.to_string()),
    })
}

fn decided_for(owner: &str) -> Option<ScheduleAuthority> {
    Some(ScheduleAuthority { canonical_decided: true, owner: Some(owner.to_string()) })
}

/// One whole tick: the ledger is read, and what the first action asks for is answered.
fn gated_tick(
    bridge: &mut Bridge,
    now: u64,
    authority: Option<ScheduleAuthority>,
    mappings: Option<Vec<String>>,
    lock_is_free: bool,
    holding: &mut bool,
) {
    let first = gate_next(GateEvent::LedgerRead { authority }, *holding);
    let last = match first {
        GateAction::ReadMappings => {
            gate_next(GateEvent::MappingsRead { routine_ids: mappings }, *holding)
        }
        GateAction::OpenWorkspace => {
            gate_next(GateEvent::WorkspaceOpened { granted: lock_is_free }, *holding)
        }
        other => other,
    };
    if let Some(outcome) = bridge.gated_tick(&last, now, next_fire) {
        outcome.unwrap();
    }
    *holding = still_holds(&last, *holding);
}

#[test]
fn due_routine_enqueues_a_routine_wake_and_advances_its_anchor() {
    let mut m = materializer();
    recurring_routine(&mut m.routines, "rt", "* * * * *", 0);
    assert_eq!(m.materialize_due(60, next_fire).unwrap(), 1);
    assert_eq!(m.routines.last_fired(&routine_id("rt")).unwrap(), Some(60));
    assert!(m
        .wakes
        .entries
        .iter()
        .any(|wake| wake.work_item_id.value == "work-1" && wake.source == WakeSource::Routine));
    assert_eq!(m.materialize_due(60, next_fire).unwrap(), 0);
}

#[test]
fn materialization_advances_one_period_at_a_time() {
    let mut m = materializer();
    recurring_routine(&mut m.routines, "rt", "* * * * *", 0);
    assert_eq!(m.materialize_due(60, next_fire).unwrap(), 1);
    assert_eq!(m.materialize_due(120, next_fire).unwrap(), 1);
    assert_eq!(m.materialize_due(180, next_fire).unwrap(), 1);
    assert_eq!(m.materialize_due(600, next_fire).unwrap(), 1);
}

#[test]
fn a_late_tick_leaves_nothing_due_behind() {
    let mut m = materializer();
    recurring_routine(&mut m.routines, "rt", "* * * * *", 0);
    assert_eq!(m.materialize_due(600, next_fire).unwrap(), 1);
    assert_eq!(m.routines.last_fired(&routine_id("rt")).unwrap(), Some(600));
    assert_eq!(m.materialize_due(600, next_fire).unwrap(), 0);
    assert_eq!(m.wakes.entries.len(), 1);
    assert_eq!(m.materialize_due(659, next_fire).unwrap(), 0);
    assert_eq!(m.materialize_due(660, next_fire).unwrap(), 1);
}

#[test]
fn the_recorded_flags_decide_the_schedule_authority() {
    let owner = || Some(SCHEDULE_OWNER_DAEMON.to_string());
    let decided = |enabled: Option<&str>, rolled_back: Option<&str>| {
        schedule_authority(enabled, rolled_back, owner()).canonical_decided
    };
    assert!(decided(Some("true"), None));
    assert!(decided(Some("true"), Some("false")));
    assert!(!decided(Some("true"), Some("true")));
    assert!(!decided(Some("false"), None));
    assert!(!decided(None, None));
    assert!(!decided(None, Some("true")));
    assert_eq!(schedule_authority(Some("true"), None, owner()).owner, owner());
    assert_eq!(schedule_authority(Some("true"), None, None).owner, None);
}

#[test]
fn not_yet_due_routine_enqueues_nothing() {
    let mut m = materializer();
    recurring_routine(&mut m.routines, "rt", "0 9 * * *", 0);
    assert_eq!(m.materialize_due(60, next_fire).unwrap(), 0);
    assert_eq!(m.routines.last_fired(&routine_id("rt")).unwrap(), None);
    assert_eq!(m.materialize_due(32400, next_fire).unwrap(), 1);
}

#[test]
fn inactive_routine_is_skipped() {
    let mut m = materializer();
    let trigger = RoutineTrigger::Recurring { cron_expression: "* * * * *".to_string() };
    add_routine(&mut m.routines, "rt", RoutineStatus::Paused, trigger, 0, "work-1");
    assert_eq!(m.materialize_due(60, next_fire).unwrap(), 0);
}

#[test]
fn event_triggered_routine_is_skipped() {
    let mut m = materializer();
    let trigger = RoutineTrigger::Event { source: "pull_request".to_string() };
    add_routine(&mut m.routines, "rt", RoutineStatus::Active, trigger, 0, "work-1");
    assert_eq!(m.materialize_due(u64::MAX, next_fire).unwrap(), 0);
}

#[test]
fn malformed_cron_expression_is_skipped_without_aborting_others() {
    let mut m = materializer();
    recurring_routine(&mut m.routines, "bad", "not a cron", 0);
    recurring_routine(&mut m.routines, "good", "* * * * *", 0);
    assert_eq!(m.materialize_due(60, next_fire).unwrap(), 1);
}

#[test]
fn excluded_routine_ids_materialize_nothing() {
    let mut m = materializer();
    recurring_routine(&mut m.routines, "mirror", "* * * * *", 0);
    recurring_routine(&mut m.routines, "free", "* * * * *", 0);
    let enqueued =
        m.materialize_due_excluding(60, &vec!["mirror".to_string()], next_fire).unwrap();
    assert_eq!(enqueued, 1, "only the un-excluded routine materializes");
    assert!(woke(&m.wakes, "work-1"));
    assert_eq!(
        m.routines.last_fired(&routine_id("mirror")).unwrap(),
        None,
        "the excluded routine's anchor must not advance"
    );
    assert_eq!(m.routines.last_fired(&routine_id("free")).unwrap(), Some(60));
}

#[test]
fn a_wake_names_the_fire_that_asked_for_it() {
    let mut m = materializer();
    recurring_routine(&mut m.routines, "rt", "0 9 * * *", 0);
    assert_eq!(m.materialize_due(40_000, next_fire).unwrap(), 1);
    assert_eq!(m.wakes.entries.len(), 1);
    assert_eq!(m.wakes.entries[0].requested_at, "32400");
}

#[test]
fn tick_materializes_a_due_routine_once() {
    let mut b = bridge();
    recurring_routine(&mut b.materializer.routines, "rt", "* * * * *", 0);
    assert_eq!(b.tick(60, next_fire).unwrap(), 1);
    assert_eq!(b.tick(60, next_fire).unwrap(), 0);
    assert_eq!(b.materializer.routines.last_fired(&routine_id("rt")).unwrap(), Some(60));
}

#[test]
fn tick_skips_a_routine_that_is_not_yet_due() {
    let mut b = bridge();
    recurring_routine(&mut b.materializer.routines, "rt", "0 9 * * *", 0);
    assert_eq!(b.tick(60, next_fire).unwrap(), 0);
    assert_eq!(b.materializer.routines.last_fired(&routine_id("rt")).unwrap(), None);
}

#[test]
fn undecided_ledger_materializes_the_legacy_tick_without_the_workspace_lock() {
    let mut b = bridge();
    recurring_routine(&mut b.materializer.routines, "rt", "* * * * *", 0);
    recurring_routine_to(&mut b.materializer.routines, "rt-2", "* * * * *", 0, "work-2");
    let mut holding = false;
    gated_tick(&mut b, 60, undecided(), Some(Vec::new()), true, &mut holding);
    assert!(
        woke(&b.materializer.wakes, "work-1"),
        "an undecided ledger must leave legacy scheduling running"
    );
    assert!(
        woke(&b.materializer.wakes, "work-2"),
        "zero mapping rows must leave the legacy exclusion filter a no-op"
    );
    assert!(!holding, "the undecided path must not open the workspace writer lock");
}

#[test]
fn legacy_rollback_materializes_the_legacy_tick_without_the_workspace_lock() {
    let mut b = bridge();
    recurring_routine(&mut b.materializer.routines, "rt", "* * * * *", 0);
    let mut holding = false;
    gated_tick(&mut b, 60, rolled_back(), Some(Vec::new()), true, &mut holding);
    assert!(
        woke(&b.materializer.wakes, "work-1"),
        "a pulled rollback switch must leave legacy scheduling running"
    );
    assert!(!holding);
}

#[test]
fn undecided_legacy_tick_skips_mapped_mirrors_and_drives_unmapped_routines() {
    let mut b = bridge();
    recurring_routine(&mut b.materializer.routines, "rt", "* * * * *", 0);
    let mirror = mapped_mirror(&mut b.materializer.routines, "rt-mirror", "work-mapped");
    let mut holding = false;
    gated_tick(&mut b, 60, undecided(), Some(vec![mirror]), true, &mut holding);
    assert!(
        woke(&b.materializer.wakes, "work-1"),
        "an unmapped routine must still materialize on the undecided legacy tick"
    );
    assert!(
        !woke(&b.materializer.wakes, "work-mapped"),
        "a mapped mirror must stay dormant while legacy drives the automation"
    );
    assert!(!holding);
}

#[test]
fn legacy_rollback_tick_also_skips_mapped_mirrors() {
    let mut b = bridge();
    recurring_routine(&mut b.materializer.routines, "rt", "* * * * *", 0);
    let mirror = mapped_mirror(&mut b.materializer.routines, "rt-mirror", "work-mapped");
    let mut holding = false;
    gated_tick(&mut b, 60, rolled_back(), Some(vec![mirror]), true, &mut holding);
    assert!(
        woke(&b.materializer.wakes, "work-1"),
        "a pulled rollback switch must leave legacy scheduling running"
    );
    assert!(
        !woke(&b.materializer.wakes, "work-mapped"),
        "a mapped mirror must stay dormant after the rollback switch is pulled"
    );
}

#[test]
fn decided_daemon_tick_drives_mapped_mirrors_too() {
    let mut b = bridge();
    recurring_routine(&mut b.materializer.routines, "rt", "* * * * *", 0);
    let mirror = mapped_mirror(&mut b.materializer.routines, "rt-mirror", "work-mapped");
    let mut holding = false;
    gated_tick(
        &mut b,
        60,
        decided_for(SCHEDULE_OWNER_DAEMON),
        Some(vec![mirror]),
        true,
        &mut holding,
    );
    assert!(
        woke(&b.materializer.wakes, "work-1"),
        "the canonical owner drives unmapped routines"
    );
    assert!(
        woke(&b.materializer.wakes, "work-mapped"),
        "the canonical owner drives mapped mirrors too"
    );
    assert!(holding, "the daemon-owned tick must hold the workspace writer lock");
}

#[test]
fn desktop_ownership_idles_the_bridge_and_releases_the_workspace_lock() {
    let mut b = bridge();
    recurring_routine(&mut b.materializer.routines, "rt", "* * * * *", 0);
    let mut holding = false;
    gated_tick(
        &mut b,
        60,
        decided_for(SCHEDULE_OWNER_DESKTOP),
        Some(Vec::new()),
        true,
        &mut holding,
    );
    assert!(
        !woke(&b.materializer.wakes, "work-1"),
        "the desktop-owned schedule must keep the daemon bridge idle"
    );
    assert!(!holding);

    gated_tick(
        &mut b,
        60,
        decided_for(SCHEDULE_OWNER_DAEMON),
        Some(Vec::new()),
        true,
        &mut holding,
    );
    assert!(holding, "the daemon-owned tick must hold the workspace writer lock");

    gated_tick(
        &mut b,
        60,
        decided_for(SCHEDULE_OWNER_DESKTOP),
        Some(Vec::new()),
        true,
        &mut holding,
    );
    assert!(!holding, "the desktop-owner path must release the workspace lock");
}

#[test]
fn a_held_workspace_keeps_the_bridge_idle_until_the_lock_is_released() {
    let mut b = bridge();
    recurring_routine(&mut b.materializer.routines, "rt", "* * * * *", 0);
    let mut holding = false;
    gated_tick(
        &mut b,
        60,
        decided_for(SCHEDULE_OWNER_DAEMON),
        Some(Vec::new()),
        false,
        &mut holding,
    );
    assert!(
        !woke(&b.materializer.wakes, "work-1"),
        "a held workspace must keep the daemon bridge idle"
    );
    assert!(!holding, "a refused open must not leave a half-held lock behind");

    gated_tick(
        &mut b,
        60,
        decided_for(SCHEDULE_OWNER_DAEMON),
        Some(Vec::new()),
        true,
        &mut holding,
    );
    assert!(
        woke(&b.materializer.wakes, "work-1"),
        "after the holder releases, the bridge must materialize the due wake"
    );
    assert!(holding);
}

#[test]
fn an_unreadable_ledger_or_mapping_store_drives_nothing() {
    let mut b = bridge();
    recurring_routine(&mut b.materializer.routines, "rt", "* * * * *", 0);
    let mut holding = true;
    gated_tick(&mut b, 60, None, Some(Vec::new()), true, &mut holding);
    assert!(!holding);
    assert!(b.materializer.wakes.entries.is_empty());
    gated_tick(&mut b, 60, undecided(), None, true, &mut holding);
    assert!(b.materializer.wakes.entries.is_empty());
}
