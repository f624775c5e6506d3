//! The periodic driver of routine materialization: what one tick may do under the recorded
//! schedule authority.
use vstd::prelude::*;
use crate::routine_materializer::{
    Progress, RoutineMaterializationError, RoutineMaterializer, WakeRepository,
};
use crate::routine_repository::{RoutineRepository, Routines};
use crate::text;

verus! {

/// Seconds between ticks. A recurring routine's finest resolution is one minute.
pub const DEFAULT_CRON_TICK: u64 = 60;

/// The flag that names the schedule owner.
pub const SCHEDULE_OWNER_FLAG: &'static str = "schedule_owner";

/// The daemon as schedule owner.
pub const SCHEDULE_OWNER_DAEMON: &'static str = "daemon";

/// The desktop as schedule owner.
pub const SCHEDULE_OWNER_DESKTOP: &'static str = "desktop_host";

/// The switch that rolls scheduling back to the legacy authorities.
pub const LEGACY_CRON_COMPATIBILITY_FLAG: &'static str = "legacy_cron_compatibility";

/// Who may drive a workspace's schedule.
#[derive(Debug)]
pub struct ScheduleAuthority {
    /// The cutover is decided and not rolled back.
    pub canonical_decided: bool,
    pub owner: Option<String>,
}

impl ScheduleAuthority {
    /// The cutover is decided for the daemon.
    pub open spec fn names_daemon(&self) -> bool {
        &&& self.canonical_decided
        &&& self.owner matches Some(owner)
        &&& owner@ == SCHEDULE_OWNER_DAEMON@
    }
}

/// The flag is recorded as true.
pub open spec fn is_true(flag: Option<&str>) -> bool {
    flag is Some && flag->0@ == "true"@
}

/// Whether a recorded flag is true.
fn says_true(flag: Option<&str>) -> (r: bool)
    ensures
        r == is_true(flag),
{
    match flag {
        Some(value) => text::same(value, "true"),
        None => false,
    }
}

/// Who may drive the schedule, by the recorded flags: the cutover is decided where the control plane
/// is enabled and scheduling is not rolled back.
pub fn schedule_authority(
    enabled: Option<&str>,
    rolled_back: Option<&str>,
    owner: Option<String>,
) -> (r: ScheduleAuthority)
    ensures
        r.canonical_decided == (is_true(enabled) && !is_true(rolled_back)),
        r.owner == owner,
{
    ScheduleAuthority {
        canonical_decided: says_true(enabled) && !says_true(rolled_back),
        owner,
    }
}

/// What the outside reports during a tick.
#[derive(Debug)]
pub enum GateEvent {
    /// The ledger was read; nothing where it could not be.
    LedgerRead { authority: Option<ScheduleAuthority> },
    /// The routines with a mapping were looked up; nothing where the store is unavailable or the
    /// lookup failed.
    MappingsRead { routine_ids: Option<Vec<String>> },
    /// The workspace's writer lock was asked for.
    WorkspaceOpened { granted: bool },
}

/// What a tick does next.
#[derive(Debug)]
pub enum GateAction {
    /// Give up the writer lock and end the tick.
    Release,
    /// End the tick and leave the lock as it is.
    Skip,
    /// Look up the routines that have a mapping.
    ReadMappings,
    /// Ask for the workspace's writer lock.
    OpenWorkspace,
    /// Materialize every due routine that is not excluded, without the lock.
    TickLegacy { excluded: Vec<String> },
    /// Materialize every due routine as the owner.
    TickCanonical,
}

/// What a tick does after an event, given whether the writer lock is held.
pub open spec fn gate_action(event: GateEvent, holding: bool) -> GateAction {
    match event {
        GateEvent::LedgerRead { authority: None } => GateAction::Release,
        GateEvent::LedgerRead { authority: Some(authority) } => {
            if !authority.canonical_decided {
                GateAction::ReadMappings
            } else if !authority.names_daemon() {
                GateAction::Release
            } else if holding {
                GateAction::TickCanonical
            } else {
                GateAction::OpenWorkspace
            }
        },
        GateEvent::MappingsRead { routine_ids: None } => GateAction::Skip,
        GateEvent::MappingsRead { routine_ids: Some(routine_ids) } => GateAction::TickLegacy {
            excluded: routine_ids,
        },
        GateEvent::WorkspaceOpened { granted } => if granted {
            GateAction::TickCanonical
        } else {
            GateAction::Skip
        },
    }
}

/// What a tick does after an event.
pub fn gate_next(event: GateEvent, holding: bool) -> (r: GateAction)
    ensures
        r == gate_action(event, holding),
{
    match event {
        GateEvent::LedgerRead { authority: None } => GateAction::Release,
        GateEvent::LedgerRead { authority: Some(authority) } => {
            if !authority.canonical_decided {
                return GateAction::ReadMappings;
            }
            let named: bool = match &authority.owner {
                Some(owner) => text::same(owner, SCHEDULE_OWNER_DAEMON),
                None => false,
            };
            if !named {
                GateAction::Release
            } else if holding {
                GateAction::TickCanonical
            } else {
                GateAction::OpenWorkspace
            }
        },
        GateEvent::MappingsRead { routine_ids: None } => GateAction::Skip,
        GateEvent::MappingsRead { routine_ids: Some(routine_ids) } => GateAction::TickLegacy {
            excluded: routine_ids,
        },
        GateEvent::WorkspaceOpened { granted } => if granted {
            GateAction::TickCanonical
        } else {
            GateAction::Skip
        },
    }
}

/// Whether the writer lock is held after an action, where it was held before or was just granted.
pub open spec fn holds_after(action: GateAction, holding: bool) -> bool {
    match action {
        GateAction::Release => false,
        GateAction::TickCanonical => true,
        _ => holding,
    }
}

/// Whether the writer lock is held after an action.
pub fn still_holds(action: &GateAction, holding: bool) -> (r: bool)
    ensures
        r == holds_after(*action, holding),
{
    match action {
        GateAction::Release => false,
        GateAction::TickCanonical => true,
        _ => holding,
    }
}

/// What came of the materialization of an action; nothing where the action materializes nothing.
pub open spec fn performed<F: Fn(&String, u64) -> Option<u64>>(
    action: GateAction,
    start: Progress,
    now: u64,
    evaluator: F,
    r: Option<Result<usize, RoutineMaterializationError>>,
    routines: Routines,
    wakes: Seq<crate::routine_materializer::Wake>,
) -> bool {
    match action {
        GateAction::TickLegacy { excluded } => {
            &&& r is Some
            &&& crate::routine_materializer::materialized(
                start,
                text::views(excluded@),
                now,
                evaluator,
                r->0,
                routines,
                wakes,
            )
        },
        GateAction::TickCanonical => {
            &&& r is Some
            &&& crate::routine_materializer::materialized(
                start,
                Seq::empty(),
                now,
                evaluator,
                r->0,
                routines,
                wakes,
            )
        },
        _ => r is None && routines == start.routines && wakes == start.wakes,
    }
}

/// Drives a materializer tick by tick.
pub struct RoutineCronBridge<R: RoutineRepository, W: WakeRepository> {
    pub materializer: RoutineMaterializer<R, W>,
    /// Seconds between ticks.
    pub period: u64,
}

impl<R: RoutineRepository, W: WakeRepository> RoutineCronBridge<R, W> {
    /// A bridge over a materializer.
    pub fn new(materializer: RoutineMaterializer<R, W>, period: u64) -> (r: Self)
        ensures
            r.materializer == materializer,
            r.period == period,
    {
        RoutineCronBridge { materializer, period }
    }

    /// Materializes the routines that are due.
    pub fn tick<F: Fn(&String, u64) -> Option<u64>>(
        &mut self,
        now_unix_seconds: u64,
        next_fire_after: F,
    ) -> (r: Result<usize, RoutineMaterializationError>)
        requires
            old(self).materializer.routines.ready(),
            forall|expression: &String, anchor: u64|
                call_requires(next_fire_after, (expression, anchor)),
        ensures
            final(self).materializer.routines.ready(),
            final(self).period == old(self).period,
            crate::routine_materializer::materialized(
                old(self).materializer.start(),
                Seq::empty(),
                now_unix_seconds,
                next_fire_after,
                r,
                final(self).materializer.routines.holdings(),
                final(self).materializer.wakes.requests(),
            ),
            r is Err ==> old(self).materializer.fallible(),
            final(self).materializer.fallible() == old(self).materializer.fallible(),
    {
        self.materializer.materialize_due(now_unix_seconds, next_fire_after)
    }

    /// Materializes the routines that are due and not excluded.
    pub fn tick_excluding<F: Fn(&String, u64) -> Option<u64>>(
        &mut self,
        now_unix_seconds: u64,
        excluded_routine_ids: &Vec<String>,
        next_fire_after: F,
    ) -> (r: Result<usize, RoutineMaterializationError>)
        requires
            old(self).materializer.routines.ready(),
            forall|expression: &String, anchor: u64|
                call_requires(next_fire_after, (expression, anchor)),
        ensures
            final(self).materializer.routines.ready(),
            final(self).period == old(self).period,
            crate::routine_materializer::materialized(
                old(self).materializer.start(),
                text::views(excluded_routine_ids@),
                now_unix_seconds,
                next_fire_after,
                r,
                final(self).materializer.routines.holdings(),
                final(self).materializer.wakes.requests(),
            ),
            r is Err ==> old(self).materializer.fallible(),
            final(self).materializer.fallible() == old(self).materializer.fallible(),
    {
        self.materializer.materialize_due_excluding(
            now_unix_seconds,
            excluded_routine_ids,
            next_fire_after,
        )
    }

    /// Performs the materialization that an action asks for, if it asks for one.
    pub fn gated_tick<F: Fn(&String, u64) -> Option<u64>>(
        &mut self,
        action: &GateAction,
        now_unix_seconds: u64,
        next_fire_after: F,
    ) -> (r: Option<Result<usize, RoutineMaterializationError>>)
        requires
            old(self).materializer.routines.ready(),
            forall|expression: &String, anchor: u64|
                call_requires(next_fire_after, (expression, anchor)),
        ensures
            final(self).materializer.routines.ready(),
            final(self).period == old(self).period,
            performed(
                *action,
                old(self).materializer.start(),
                now_unix_seconds,
                next_fire_after,
                r,
                final(self).materializer.routines.holdings(),
                final(self).materializer.wakes.requests(),
            ),
            r matches Some(outcome) && outcome is Err ==> old(self).materializer.fallible(),
            final(self).materializer.fallible() == old(self).materializer.fallible(),
    {
        match action {
            GateAction::TickLegacy { excluded } => Some(
                self.tick_excluding(now_unix_seconds, excluded, next_fire_after),
            ),
            GateAction::TickCanonical => Some(self.tick(now_unix_seconds, next_fire_after)),
            _ => None,
        }
    }
}

/// The actions of one tick, in order: the first follows the ledger, the second, where the first
/// asks for something, its answer.
pub open spec fn tick_actions(
    authority: Option<ScheduleAuthority>,
    mappings: Option<Vec<String>>,
    granted: bool,
    holding: bool,
) -> Seq<GateAction> {
    let first = gate_action(GateEvent::LedgerRead { authority }, holding);
    match first {
        GateAction::ReadMappings => seq![
            first,
            gate_action(GateEvent::MappingsRead { routine_ids: mappings }, holding),
        ],
        GateAction::OpenWorkspace => seq![
            first,
            gate_action(GateEvent::WorkspaceOpened { granted }, holding),
        ],
        _ => seq![first],
    }
}

/// A tick never drives a schedule that another authority drives. The canonical materialization
/// happens only where the ledger names the daemon and the writer lock is held; the legacy one only
/// where the cutover is undecided, and then it excludes every mapped routine. A ledger that cannot
/// be read and mappings that cannot be read drive nothing.
pub proof fn law_a_tick_drives_only_what_it_owns(
    authority: Option<ScheduleAuthority>,
    mappings: Option<Vec<String>>,
    granted: bool,
    holding: bool,
)
    ensures
        ({
            let last = tick_actions(authority, mappings, granted, holding).last();
            &&& last is TickCanonical <==> authority is Some && authority->0.names_daemon() && (holding
                || granted)
            &&& last is TickLegacy <==> authority is Some && !authority->0.canonical_decided
                && mappings is Some
            &&& last matches GateAction::TickLegacy { excluded } ==> mappings == Some(excluded)
        }),
{
}

/// The writer lock is held after a tick only where the ledger names the daemon or the cutover is
/// undecided, and an undecided tick neither asks for the lock nor gives it up.
pub proof fn law_the_lock_follows_the_named_owner(
    authority: Option<ScheduleAuthority>,
    mappings: Option<Vec<String>>,
    granted: bool,
    holding: bool,
)
    ensures
        ({
            let actions = tick_actions(authority, mappings, granted, holding);
            let held = holds_after(actions.last(), holding);
            &&& authority is None ==> !held
            &&& authority matches Some(known) ==> {
                &&& known.names_daemon() ==> held == (holding || granted)
                &&& known.canonical_decided && !known.names_daemon() ==> !held
                &&& !known.canonical_decided ==> held == holding && forall|i: int|
                    0 <= i < actions.len() ==> !((#[trigger] actions[i]) is OpenWorkspace)
            }
        }),
{
}

} // verus!
