//! Routines and their append-only intent revisions. Each accepted revision becomes the current
//! one and advances the routine; the log of revisions stays monotonic.
use vstd::prelude::*;
use vstd::string::*;
use crate::model::{EntityId, Revision};
use crate::outside;
use crate::record::{rows_where, Record};
use crate::table::Table;
use crate::text;

verus! {

/// The life of a routine.
#[derive(Debug, Clone, Copy, PartialEq, Eq, Structural)]
pub enum RoutineStatus {
    Active,
    Paused,
    Retired,
}

/// A scheduled intent.
#[derive(Debug)]
pub struct Routine {
    pub id: EntityId,
    pub organization_id: EntityId,
    pub current_revision_id: Option<EntityId>,
    pub status: RoutineStatus,
    pub revision: Revision,
    pub created_at_unix_seconds: u64,
    pub updated_at_unix_seconds: u64,
}

impl Record for Routine {
    open spec fn alike(&self, other: &Self) -> bool {
        &&& self.id.alike(&other.id)
        &&& self.organization_id.alike(&other.organization_id)
        &&& self.current_revision_id.alike(&other.current_revision_id)
        &&& self.status == other.status
        &&& self.revision == other.revision
        &&& self.created_at_unix_seconds == other.created_at_unix_seconds
        &&& self.updated_at_unix_seconds == other.updated_at_unix_seconds
    }

    proof fn alike_reflexive(&self) {
        self.current_revision_id.alike_reflexive();
    }

    fn same(&self, other: &Self) -> (r: bool) {
        self.id.same(&other.id) && self.organization_id.same(&other.organization_id)
            && self.current_revision_id.same(&other.current_revision_id) && self.status
            == other.status && self.revision == other.revision && self.created_at_unix_seconds
            == other.created_at_unix_seconds && self.updated_at_unix_seconds
            == other.updated_at_unix_seconds
    }

    fn copy(&self) -> (r: Self) {
        Routine {
            id: self.id.copy(),
            organization_id: self.organization_id.copy(),
            current_revision_id: self.current_revision_id.copy(),
            status: self.status,
            revision: self.revision,
            created_at_unix_seconds: self.created_at_unix_seconds,
            updated_at_unix_seconds: self.updated_at_unix_seconds,
        }
    }
}

/// What makes a routine fire.
#[derive(Debug)]
pub enum RoutineTrigger {
    /// A cron expression.
    Recurring { cron_expression: String },
    /// An event of a source.
    Event { source: String },
}

impl Record for RoutineTrigger {
    open spec fn alike(&self, other: &Self) -> bool {
        match (*self, *other) {
            (
                RoutineTrigger::Recurring { cron_expression: a },
                RoutineTrigger::Recurring { cron_expression: b },
            ) => a@ == b@,
            (RoutineTrigger::Event { source: a }, RoutineTrigger::Event { source: b }) => a@ == b@,
            _ => false,
        }
    }

    proof fn alike_reflexive(&self) {
    }

    fn same(&self, other: &Self) -> (r: bool) {
        match (self, other) {
            (
                RoutineTrigger::Recurring { cron_expression: a },
                RoutineTrigger::Recurring { cron_expression: b },
            ) => a.same(b),
            (RoutineTrigger::Event { source: a }, RoutineTrigger::Event { source: b }) => a.same(b),
            _ => false,
        }
    }

    fn copy(&self) -> (r: Self) {
        match self {
            RoutineTrigger::Recurring { cron_expression } => RoutineTrigger::Recurring {
                cron_expression: cron_expression.copy(),
            },
            RoutineTrigger::Event { source } => RoutineTrigger::Event { source: source.copy() },
        }
    }
}

/// A revision of a routine's intent.
#[derive(Debug)]
pub struct RoutineRevision {
    pub id: EntityId,
    pub routine_id: EntityId,
    pub revision: Revision,
    pub trigger: RoutineTrigger,
    pub target_work_item_id: EntityId,
    pub created_at_unix_seconds: u64,
}

impl Record for RoutineRevision {
    open spec fn alike(&self, other: &Self) -> bool {
        &&& self.id.alike(&other.id)
        &&& self.routine_id.alike(&other.routine_id)
        &&& self.revision == other.revision
        &&& self.trigger.alike(&other.trigger)
        &&& self.target_work_item_id.alike(&other.target_work_item_id)
        &&& self.created_at_unix_seconds == other.created_at_unix_seconds
    }

    proof fn alike_reflexive(&self) {
        self.trigger.alike_reflexive();
    }

    fn same(&self, other: &Self) -> (r: bool) {
        self.id.same(&other.id) && self.routine_id.same(&other.routine_id) && self.revision
            == other.revision && self.trigger.same(&other.trigger)
            && self.target_work_item_id.same(&other.target_work_item_id)
            && self.created_at_unix_seconds == other.created_at_unix_seconds
    }

    fn copy(&self) -> (r: Self) {
        RoutineRevision {
            id: self.id.copy(),
            routine_id: self.routine_id.copy(),
            revision: self.revision,
            trigger: self.trigger.copy(),
            target_work_item_id: self.target_work_item_id.copy(),
            created_at_unix_seconds: self.created_at_unix_seconds,
        }
    }
}

/// Why a routine operation failed.
#[derive(Debug)]
pub enum RoutineError {
    NotFound { routine_id: String },
    RevisionNotFound { routine_revision_id: String },
    Conflict { routine_id: String },
    /// The store itself failed or is inconsistent; nothing was changed.
    Internal { reason: String },
}

impl RoutineError {
    /// The error in words.
    pub open spec fn words(&self) -> Seq<char> {
        match *self {
            RoutineError::NotFound { routine_id } => "routine error: NotFound { routine_id: "@
                + outside::debug_quoted(routine_id@) + " }"@,
            RoutineError::RevisionNotFound { routine_revision_id } => {
                "routine error: RevisionNotFound { routine_revision_id: "@ + outside::debug_quoted(
                    routine_revision_id@,
                ) + " }"@
            },
            RoutineError::Conflict { routine_id } => "routine error: Conflict { routine_id: "@
                + outside::debug_quoted(routine_id@) + " }"@,
            RoutineError::Internal { reason } => "routine error: Internal { reason: "@
                + outside::debug_quoted(reason@) + " }"@,
        }
    }

    /// The error in words.
    pub fn to_text(&self) -> (r: String)
        ensures
            r@ == self.words(),
    {
        let (head, value): (&str, &String) = match self {
            RoutineError::NotFound { routine_id } => (
                "routine error: NotFound { routine_id: ",
                routine_id,
            ),
            RoutineError::RevisionNotFound { routine_revision_id } => (
                "routine error: RevisionNotFound { routine_revision_id: ",
                routine_revision_id,
            ),
            RoutineError::Conflict { routine_id } => (
                "routine error: Conflict { routine_id: ",
                routine_id,
            ),
            RoutineError::Internal { reason } => ("routine error: Internal { reason: ", reason),
        };
        let quoted: String = outside::debug_quote(value);
        let mut out: String = text::joined(head, &quoted);
        out.append(" }");
        out
    }
}

/// The routines, their revisions and the last fire of each, by the values of the identifiers.
#[verifier::ext_equal]
pub ghost struct Routines {
    pub routines: Map<Seq<char>, Routine>,
    pub revisions: Map<Seq<char>, RoutineRevision>,
    pub fires: Map<Seq<char>, u64>,
}

/// The routine as an appended revision leaves it.
pub open spec fn advanced(routine: Routine, revision: RoutineRevision) -> Routine {
    Routine {
        current_revision_id: Some(revision.id),
        revision: routine.revision.following(),
        updated_at_unix_seconds: revision.created_at_unix_seconds,
        ..routine
    }
}

/// What comes of creating a routine: a new one is stored, the same one again is answered as it
/// stands, another one under the same identifier is refused.
pub open spec fn create_result(
    before: Routines,
    routine: Routine,
    r: Result<Routine, RoutineError>,
    after: Routines,
) -> bool {
    let key = routine.id.value@;
    match r {
        Ok(stored) => {
            if before.routines.contains_key(key) {
                &&& before.routines[key].alike(&routine)
                &&& stored == before.routines[key]
                &&& after == before
            } else {
                &&& stored == routine
                &&& after == (Routines { routines: before.routines.insert(key, routine), ..before })
            }
        },
        Err(RoutineError::Conflict { routine_id }) => {
            &&& before.routines.contains_key(key)
            &&& !before.routines[key].alike(&routine)
            &&& routine_id == routine.id.value
            &&& after == before
        },
        Err(RoutineError::Internal { .. }) => after == before,
        Err(_) => false,
    }
}

/// The revision under which a routine stands does not come before the one that is appended.
pub open spec fn is_behind(before: Routines, routine: Routine, revision: RoutineRevision) -> bool {
    &&& routine.current_revision_id matches Some(current)
    &&& before.revisions.contains_key(current.value@)
    &&& revision.revision.value <= before.revisions[current.value@].revision.value
}

/// The routine points at a revision that is not stored.
pub open spec fn is_dangling(before: Routines, routine: Routine) -> bool {
    routine.current_revision_id matches Some(current) && !before.revisions.contains_key(
        current.value@,
    )
}

/// A revision is appended to a routine that points at a revision that is not stored.
pub open spec fn is_inconsistent(
    before: Routines,
    routine_id: EntityId,
    revision: RoutineRevision,
) -> bool {
    &&& revision.routine_id.alike(&routine_id)
    &&& before.routines.contains_key(routine_id.value@)
    &&& !before.revisions.contains_key(revision.id.value@)
    &&& is_dangling(before, before.routines[routine_id.value@])
}

/// What comes of appending a revision: one that is stored already changes nothing, one that does
/// not come after the current revision is refused, any other becomes the current revision.
pub open spec fn append_result(
    before: Routines,
    routine_id: EntityId,
    revision: RoutineRevision,
    r: Result<Routine, RoutineError>,
    after: Routines,
) -> bool {
    let key = routine_id.value@;
    let known = before.routines.contains_key(key);
    let present = before.revisions.contains_key(revision.id.value@);
    match r {
        Ok(routine) => {
            &&& revision.routine_id.alike(&routine_id)
            &&& known
            &&& if present {
                &&& routine == before.routines[key]
                &&& after == before
            } else {
                &&& !is_behind(before, before.routines[key], revision)
                &&& !is_dangling(before, before.routines[key])
                &&& routine == advanced(before.routines[key], revision)
                &&& after == (Routines {
                    routines: before.routines.insert(routine.id.value@, routine),
                    revisions: before.revisions.insert(revision.id.value@, revision),
                    fires: before.fires,
                })
            }
        },
        Err(RoutineError::NotFound { routine_id: missing }) => {
            &&& revision.routine_id.alike(&routine_id)
            &&& !known
            &&& missing == routine_id.value
            &&& after == before
        },
        Err(RoutineError::Conflict { routine_id: refused }) => {
            &&& !revision.routine_id.alike(&routine_id) || (known && !present && is_behind(
                before,
                before.routines[key],
                revision,
            ))
            &&& refused == routine_id.value
            &&& after == before
        },
        Err(RoutineError::Internal { .. }) => after == before,
        Err(RoutineError::RevisionNotFound { .. }) => false,
    }
}

/// The anchor that a recorded fire leaves. Times beyond the signed range are kept as zero.
pub open spec fn anchor_of(fired_at: u64) -> u64 {
    if fired_at > i64::MAX {
        0
    } else {
        fired_at
    }
}

/// A store of routines.
pub trait RoutineRepository {
    /// The store is in order.
    spec fn ready(&self) -> bool;

    /// What the store holds.
    spec fn holdings(&self) -> Routines;

    /// The store itself can fail, whatever it is asked.
    spec fn fallible(&self) -> bool;

    /// Creates a routine. Creating the same routine again is harmless; a different one under its
    /// identifier is refused.
    fn create(&mut self, routine: Routine) -> (r: Result<Routine, RoutineError>)
        requires
            old(self).ready(),
        ensures
            final(self).ready(),
            create_result(old(self).holdings(), routine, r, final(self).holdings()),
            r matches Err(RoutineError::Internal { .. }) ==> old(self).fallible(),
            final(self).fallible() == old(self).fallible(),
    ;

    /// Appends an intent revision and advances the routine. Appending a stored revision again
    /// changes nothing.
    fn append_revision(&mut self, routine_id: &EntityId, revision: RoutineRevision) -> (r: Result<
        Routine,
        RoutineError,
    >)
        requires
            old(self).ready(),
        ensures
            final(self).ready(),
            append_result(old(self).holdings(), *routine_id, revision, r, final(self).holdings()),
            r matches Err(RoutineError::Internal { .. }) ==> old(self).fallible() || is_inconsistent(
                old(self).holdings(),
                *routine_id,
                revision,
            ),
            final(self).fallible() == old(self).fallible(),
    ;

    /// The routine of an identifier.
    fn get(&self, id: &EntityId) -> (r: Result<Option<Routine>, RoutineError>)
        requires
            self.ready(),
        ensures
            match r {
                Ok(Some(routine)) => self.holdings().routines.contains_key(id.value@) && routine
                    == self.holdings().routines[id.value@],
                Ok(None) => !self.holdings().routines.contains_key(id.value@),
                Err(error) => error is Internal,
            },
            r matches Err(RoutineError::Internal { .. }) ==> self.fallible(),
    ;

    /// The revision of an identifier.
    fn get_revision(&self, revision_id: &EntityId) -> (r: Result<
        Option<RoutineRevision>,
        RoutineError,
    >)
        requires
            self.ready(),
        ensures
            match r {
                Ok(Some(revision)) => self.holdings().revisions.contains_key(revision_id.value@)
                    && revision == self.holdings().revisions[revision_id.value@],
                Ok(None) => !self.holdings().revisions.contains_key(revision_id.value@),
                Err(error) => error is Internal,
            },
            r matches Err(RoutineError::Internal { .. }) ==> self.fallible(),
    ;

    /// The active routines.
    fn list_active(&self) -> (r: Result<Vec<Routine>, RoutineError>)
        requires
            self.ready(),
        ensures
            match r {
                Ok(list) => crate::table::lists(
                    list@,
                    self.holdings().routines,
                    |routine: Routine| routine.status == RoutineStatus::Active,
                ),
                Err(error) => error is Internal,
            },
            r matches Err(RoutineError::Internal { .. }) ==> self.fallible(),
    ;

    /// Every routine, whatever its state: a silenced routine does not stop existing.
    fn list_all(&self) -> (r: Result<Vec<Routine>, RoutineError>)
        requires
            self.ready(),
        ensures
            match r {
                Ok(list) => crate::table::lists(
                    list@,
                    self.holdings().routines,
                    |routine: Routine| true,
                ),
                Err(error) => error is Internal,
            },
            r matches Err(RoutineError::Internal { .. }) ==> self.fallible(),
    ;

    /// The last recorded fire of a routine.
    fn last_fired(&self, routine_id: &EntityId) -> (r: Result<Option<u64>, RoutineError>)
        requires
            self.ready(),
        ensures
            match r {
                Ok(Some(at)) => self.holdings().fires.contains_key(routine_id.value@) && at
                    == self.holdings().fires[routine_id.value@],
                Ok(None) => !self.holdings().fires.contains_key(routine_id.value@),
                Err(error) => error is Internal,
            },
            r matches Err(RoutineError::Internal { .. }) ==> self.fallible(),
    ;

    /// Records a fire of a routine, in place of an earlier one.
    fn record_fire(&mut self, routine_id: &EntityId, fired_at_unix_seconds: u64) -> (r: Result<
        (),
        RoutineError,
    >)
        requires
            old(self).ready(),
        ensures
            final(self).ready(),
            match r {
                Ok(_) => final(self).holdings() == (Routines {
                    fires: old(self).holdings().fires.insert(
                        routine_id.value@,
                        anchor_of(fired_at_unix_seconds),
                    ),
                    ..old(self).holdings()
                }),
                Err(error) => error is Internal && final(self).holdings() == old(self).holdings(),
            },
            r matches Err(RoutineError::Internal { .. }) ==> old(self).fallible(),
            final(self).fallible() == old(self).fallible(),
    ;
}

/// Routines in memory.
pub struct RoutineTable {
    pub routines: Table<Routine>,
    pub revisions: Table<RoutineRevision>,
    pub fires: Table<u64>,
}

impl RoutineTable {
    /// A store without routines.
    pub fn new() -> (r: Self)
        ensures
            r.ready(),
            r.holdings().routines == Map::<Seq<char>, Routine>::empty(),
            r.holdings().revisions == Map::<Seq<char>, RoutineRevision>::empty(),
            r.holdings().fires == Map::<Seq<char>, u64>::empty(),
    {
        RoutineTable { routines: Table::new(), revisions: Table::new(), fires: Table::new() }
    }
}

impl RoutineRepository for RoutineTable {
    open spec fn ready(&self) -> bool {
        self.routines.wf() && self.revisions.wf() && self.fires.wf()
    }

    open spec fn holdings(&self) -> Routines {
        Routines { routines: self.routines@, revisions: self.revisions@, fires: self.fires@ }
    }

    open spec fn fallible(&self) -> bool {
        false
    }

    fn create(&mut self, routine: Routine) -> (r: Result<Routine, RoutineError>)
        ensures
            !(r matches Err(RoutineError::Internal { .. })),
    {
        let existing: Option<Routine> = match self.routines.get(&routine.id.value) {
            Some(stored) => Some(stored.copy()),
            None => None,
        };
        match existing {
            Some(stored) => {
                if stored.same(&routine) {
                    Ok(stored)
                } else {
                    Err(RoutineError::Conflict { routine_id: routine.id.value })
                }
            },
            None => {
                let stored: Routine = routine.copy();
                self.routines.put(routine.id.value.clone(), routine);
                Ok(stored)
            },
        }
    }

    fn append_revision(&mut self, routine_id: &EntityId, revision: RoutineRevision) -> (r: Result<
        Routine,
        RoutineError,
    >)
    {
        if !revision.routine_id.same(routine_id) {
            return Err(RoutineError::Conflict { routine_id: routine_id.value.clone() });
        }
        let found: Option<Routine> = match self.routines.get(&routine_id.value) {
            Some(routine) => Some(routine.copy()),
            None => None,
        };
        let mut routine: Routine = match found {
            Some(routine) => routine,
            None => {
                return Err(RoutineError::NotFound { routine_id: routine_id.value.clone() });
            },
        };
        if self.revisions.has(&revision.id.value) {
            return Ok(routine);
        }
        match &routine.current_revision_id {
            Some(current_id) => match self.revisions.get(&current_id.value) {
                Some(current) => {
                    if revision.revision.value <= current.revision.value {
                        return Err(RoutineError::Conflict { routine_id: routine_id.value.clone() });
                    }
                },
                None => {
                    return Err(
                        RoutineError::Internal {
                            reason: "routine current revision missing".to_owned(),
                        },
                    );
                },
            },
            None => {},
        }
        routine.current_revision_id = Some(revision.id.copy());
        routine.revision = routine.revision.next();
        routine.updated_at_unix_seconds = revision.created_at_unix_seconds;
        self.revisions.put(revision.id.value.clone(), revision);
        self.routines.put(routine.id.value.clone(), routine.copy());
        Ok(routine)
    }

    fn get(&self, id: &EntityId) -> (r: Result<Option<Routine>, RoutineError>)
        ensures
            r is Ok,
    {
        match self.routines.get(&id.value) {
            Some(routine) => Ok(Some(routine.copy())),
            None => Ok(None),
        }
    }

    fn get_revision(&self, revision_id: &EntityId) -> (r: Result<
        Option<RoutineRevision>,
        RoutineError,
    >)
        ensures
            r is Ok,
    {
        match self.revisions.get(&revision_id.value) {
            Some(revision) => Ok(Some(revision.copy())),
            None => Ok(None),
        }
    }

    fn list_active(&self) -> (r: Result<Vec<Routine>, RoutineError>)
        ensures
            r is Ok,
    {
        let ghost wanted = |routine: Routine| routine.status == RoutineStatus::Active;
        let keep = |routine: &Routine| -> (b: bool)
            ensures
                b == (routine.status == RoutineStatus::Active),
        {
            routine.status == RoutineStatus::Active
        };
        let list: Vec<Routine> = rows_where(&self.routines, keep, Ghost(wanted));
        proof {
            self.routines.lemma_wf_ascending();
            crate::table::lemma_select_lists(self.routines.entries(), wanted);
        }
        Ok(list)
    }

    fn list_all(&self) -> (r: Result<Vec<Routine>, RoutineError>)
        ensures
            r is Ok,
    {
        let ghost wanted = |routine: Routine| true;
        let keep = |routine: &Routine| -> (b: bool)
            ensures
                b,
        {
            true
        };
        let list: Vec<Routine> = rows_where(&self.routines, keep, Ghost(wanted));
        proof {
            self.routines.lemma_wf_ascending();
            crate::table::lemma_select_lists(self.routines.entries(), wanted);
        }
        Ok(list)
    }

    fn last_fired(&self, routine_id: &EntityId) -> (r: Result<Option<u64>, RoutineError>)
        ensures
            r is Ok,
    {
        match self.fires.get(&routine_id.value) {
            Some(at) => Ok(Some(*at)),
            None => Ok(None),
        }
    }

    fn record_fire(&mut self, routine_id: &EntityId, fired_at_unix_seconds: u64) -> (r: Result<
        (),
        RoutineError,
    >)
        ensures
            r is Ok,
    {
        let anchor: u64 = if fired_at_unix_seconds > 9_223_372_036_854_775_807 {
            0
        } else {
            fired_at_unix_seconds
        };
        self.fires.put(routine_id.value.clone(), anchor);
        Ok(())
    }
}

/// Every routine and every revision is held under its own identifier.
pub open spec fn keyed(state: Routines) -> bool {
    &&& forall|key: Seq<char>| #[trigger]
        state.routines.contains_key(key) ==> state.routines[key].id.value@ == key
    &&& forall|key: Seq<char>| #[trigger]
        state.revisions.contains_key(key) ==> state.revisions[key].id.value@ == key
}

/// Appending a revision again answers the routine as it stands and changes nothing.
pub proof fn law_append_replay_is_harmless(
    before: Routines,
    routine_id: EntityId,
    revision: RoutineRevision,
    first: Result<Routine, RoutineError>,
    between: Routines,
    second: Result<Routine, RoutineError>,
    after: Routines,
)
    requires
        keyed(before),
        append_result(before, routine_id, revision, first, between),
        first is Ok,
        append_result(between, routine_id, revision, second, after),
        !(second matches Err(RoutineError::Internal { .. })),
    ensures
        second == first,
        after == between,
{
}

/// The log of revisions is append-only: no operation replaces or removes a stored revision.
pub proof fn law_revisions_are_immutable(
    before: Routines,
    routine_id: EntityId,
    revision: RoutineRevision,
    r: Result<Routine, RoutineError>,
    after: Routines,
    key: Seq<char>,
)
    requires
        append_result(before, routine_id, revision, r, after),
        before.revisions.contains_key(key),
    ensures
        after.revisions.contains_key(key),
        after.revisions[key] == before.revisions[key],
{
}

/// The intent of a routine is monotonic: an accepted new revision comes after the revision that was
/// current before it.
pub proof fn law_intent_is_monotonic(
    before: Routines,
    routine_id: EntityId,
    revision: RoutineRevision,
    r: Result<Routine, RoutineError>,
    after: Routines,
)
    requires
        append_result(before, routine_id, revision, r, after),
        r is Ok,
        !before.revisions.contains_key(revision.id.value@),
    ensures
        r->Ok_0.current_revision_id == Some(revision.id),
        before.routines[routine_id.value@].current_revision_id matches Some(current)
            ==> before.revisions[current.value@].revision.value < revision.revision.value,
{
}

/// Creating a routine again is harmless: the stored one is answered and nothing changes.
pub proof fn law_create_replay_is_harmless(
    before: Routines,
    routine: Routine,
    first: Result<Routine, RoutineError>,
    between: Routines,
    second: Result<Routine, RoutineError>,
    after: Routines,
)
    requires
        create_result(before, routine, first, between),
        first is Ok,
        create_result(between, routine, second, after),
        !(second matches Err(RoutineError::Internal { .. })),
    ensures
        second == first,
        after == between,
{
    routine.alike_reflexive();
}

} // verus!
