//! Turns due routines into wakes: each active recurring routine that has fired since its anchor
//! gets one wake, however many fires it missed, and its anchor advances to the latest of them.
use vstd::prelude::*;
use crate::model::EntityId;
use crate::record::Record;
use crate::routine_repository::{
    Routine, RoutineError, RoutineRepository, RoutineRevision, RoutineStatus, RoutineTrigger,
    Routines,
};
use crate::text;

verus! {

/// What asks for a wake.
#[derive(Debug, Clone, Copy, PartialEq, Eq, Structural)]
pub enum WakeSource {
    Routine,
    Manual,
    Comment,
}

/// A request to wake a work item.
#[derive(Debug)]
pub struct WakeRequest {
    pub work_item_id: EntityId,
    pub source: WakeSource,
    pub requested_at: String,
}

/// What a request to wake says.
#[verifier::ext_equal]
pub ghost struct Wake {
    pub work_item_id: EntityId,
    pub source: WakeSource,
    pub requested_at: Seq<char>,
}

impl View for WakeRequest {
    type V = Wake;

    open spec fn view(&self) -> Wake {
        Wake {
            work_item_id: self.work_item_id,
            source: self.source,
            requested_at: self.requested_at@,
        }
    }
}

/// Why a wake could not be requested.
#[derive(Debug)]
pub struct WakeError {
    pub reason: String,
}

/// Where wakes are requested.
pub trait WakeRepository {
    /// The requests that were accepted, in order.
    spec fn requests(&self) -> Seq<Wake>;

    /// The store itself can fail, whatever it is asked.
    spec fn fallible(&self) -> bool;

    /// Requests a wake for a work item.
    fn enqueue(&mut self, work_item_id: EntityId, source: WakeSource, requested_at: String) -> (r:
        Result<(), WakeError>)
        ensures
            match r {
                Ok(_) => final(self).requests() == old(self).requests().push(
                    (Wake { work_item_id, source, requested_at: requested_at@ }),
                ),
                Err(_) => final(self).requests() == old(self).requests(),
            },
            r is Err ==> old(self).fallible(),
            final(self).fallible() == old(self).fallible(),
    ;
}

/// The requested wakes in memory.
pub struct WakeLog {
    pub entries: Vec<WakeRequest>,
}

impl WakeLog {
    /// A log without requests.
    pub fn new() -> (r: Self)
        ensures
            r.requests() == Seq::<Wake>::empty(),
    {
        let r: WakeLog = WakeLog { entries: Vec::new() };
        assert(r.requests() =~= Seq::empty());
        r
    }
}

impl WakeRepository for WakeLog {
    open spec fn requests(&self) -> Seq<Wake> {
        self.entries@.map_values(|entry: WakeRequest| entry@)
    }

    open spec fn fallible(&self) -> bool {
        false
    }

    fn enqueue(&mut self, work_item_id: EntityId, source: WakeSource, requested_at: String) -> (r:
        Result<(), WakeError>)
        ensures
            r is Ok,
    {
        let ghost wake = Wake { work_item_id, source, requested_at: requested_at@ };
        self.entries.push(WakeRequest { work_item_id, source, requested_at });
        assert(self.requests() =~= old(self).requests().push(wake));
        Ok(())
    }
}

/// Why a materialization stopped.
#[derive(Debug)]
pub enum RoutineMaterializationError {
    Routine(RoutineError),
    Wake(WakeError),
}

/// What a materialization reads and changes: the routines and the requested wakes, with the number
/// of wakes that it requested itself.
#[verifier::ext_equal]
pub ghost struct Progress {
    pub routines: Routines,
    pub wakes: Seq<Wake>,
    pub enqueued: nat,
}

/// The revision and the anchor by which a routine's next fire is computed; none where the routine
/// is excluded, has no current revision, or is not driven by a cron expression.
pub open spec fn probe(state: Routines, excluded: Seq<Seq<char>>, routine: Routine) -> Option<
    (RoutineRevision, u64),
> {
    if excluded.contains(routine.id.value@) {
        None
    } else {
        match routine.current_revision_id {
            Some(current) => {
                if state.revisions.contains_key(current.value@)
                    && state.revisions[current.value@].trigger is Recurring {
                    let revision = state.revisions[current.value@];
                    Some(
                        (
                            revision,
                            if state.fires.contains_key(routine.id.value@) {
                                state.fires[routine.id.value@]
                            } else {
                                revision.created_at_unix_seconds
                            },
                        ),
                    )
                } else {
                    None
                }
            },
            None => None,
        }
    }
}

/// What is known of a routine's fires at its turn: the next one after its anchor, and the latest
/// one that is not in the future where that one is due.
pub ghost struct Fire {
    pub next: Option<u64>,
    pub latest: u64,
}

/// An evaluation after a fire leads on to a later one that is not in the future.
pub open spec fn goes_on(from: u64, after: Option<u64>, now: u64) -> bool {
    after matches Some(at) && from < at <= now
}

/// Each fire of the path but the first was answered by the evaluator for the one before it, and is
/// later than that one and not in the future.
pub open spec fn is_path<F: Fn(&String, u64) -> Option<u64>>(
    evaluator: F,
    expression: String,
    path: Seq<u64>,
    now: u64,
) -> bool {
    &&& path.len() > 0
    &&& forall|i: int|
        0 <= i < path.len() - 1 ==> call_ensures(
            evaluator,
            (&expression, #[trigger] path[i]),
            Some(path[i + 1]),
        ) && path[i] < path[i + 1] <= now
}

/// From the fire `first` the evaluator leads, fire by fire, to `latest` and not on from there.
pub open spec fn leads_to<F: Fn(&String, u64) -> Option<u64>>(
    evaluator: F,
    expression: String,
    first: u64,
    latest: u64,
    now: u64,
) -> bool {
    &&& exists|path: Seq<u64>| #[trigger]
        is_path(evaluator, expression, path, now) && path[0] == first && path.last() == latest
    &&& exists|after: Option<u64>| #[trigger]
        call_ensures(evaluator, (&expression, latest), after) && !goes_on(latest, after, now)
}

/// The wake of a fire.
pub open spec fn wake_of(revision: RoutineRevision, fire: u64) -> Wake {
    Wake {
        work_item_id: revision.target_work_item_id,
        source: WakeSource::Routine,
        requested_at: text::decimal(fire as nat),
    }
}

/// The routine fires now: its next fire is known and not in the future.
pub open spec fn is_due(
    state: Routines,
    excluded: Seq<Seq<char>>,
    routine: Routine,
    fire: Fire,
    now: u64,
) -> bool {
    &&& probe(state, excluded, routine) is Some
    &&& fire.next is Some
    &&& fire.next->0 <= now
}

/// What the turn of one routine leaves where it is due: one wake, and an anchor that advanced to its
/// latest fire.
pub open spec fn turn(
    before: Progress,
    excluded: Seq<Seq<char>>,
    routine: Routine,
    fire: Fire,
    now: u64,
) -> Progress {
    if is_due(before.routines, excluded, routine, fire, now) {
        let (revision, _) = probe(before.routines, excluded, routine)->0;
        Progress {
            routines: Routines {
                fires: before.routines.fires.insert(
                    routine.id.value@,
                    crate::routine_repository::anchor_of(fire.latest),
                ),
                ..before.routines
            },
            wakes: before.wakes.push(wake_of(revision, fire.next->0)),
            enqueued: before.enqueued + 1,
        }
    } else {
        before
    }
}

/// What the turns of the first `count` routines leave.
pub open spec fn turns(
    start: Progress,
    excluded: Seq<Seq<char>>,
    order: Seq<Routine>,
    fires: Seq<Fire>,
    now: u64,
    count: nat,
) -> Progress
    decreases count,
{
    if count == 0 {
        start
    } else {
        turn(
            turns(start, excluded, order, fires, now, (count - 1) as nat),
            excluded,
            order[count - 1],
            fires[count - 1],
            now,
        )
    }
}

/// The cron expression of a recurring revision.
pub open spec fn expression_of(revision: RoutineRevision) -> String {
    revision.trigger->cron_expression
}

/// Each next fire was answered by the evaluator for the routine's expression and its anchor at its
/// turn, and from one that is due the evaluator leads to the latest.
pub open spec fn answered<F: Fn(&String, u64) -> Option<u64>>(
    evaluator: F,
    start: Progress,
    excluded: Seq<Seq<char>>,
    order: Seq<Routine>,
    fires: Seq<Fire>,
    now: u64,
    count: nat,
) -> bool {
    forall|i: int|
        0 <= i < count ==> {
            let at = probe(
                turns(start, excluded, order, fires, now, i as nat).routines,
                excluded,
                #[trigger] order[i],
            );
            at matches Some((revision, anchor)) ==> foretold(
                evaluator,
                expression_of(revision),
                anchor,
                fires[i],
                now,
            )
        }
}

/// The evaluator answered what is known of a routine's fires after an anchor.
pub open spec fn foretold<F: Fn(&String, u64) -> Option<u64>>(
    evaluator: F,
    expression: String,
    anchor: u64,
    fire: Fire,
    now: u64,
) -> bool {
    &&& call_ensures(evaluator, (&expression, anchor), fire.next)
    &&& fire.next is Some && fire.next->0 <= now ==> leads_to(
        evaluator,
        expression,
        fire.next->0,
        fire.latest,
        now,
    )
}

/// The latest fire that is not in the future, going on from one that is due.
fn latest_fire<F: Fn(&String, u64) -> Option<u64>>(
    next_fire_after: &F,
    expression: &String,
    first: u64,
    now_unix_seconds: u64,
) -> (r: u64)
    requires
        first <= now_unix_seconds,
        forall|expression: &String, anchor: u64|
            call_requires(*next_fire_after, (expression, anchor)),
    ensures
        leads_to(*next_fire_after, *expression, first, r, now_unix_seconds),
{
    let ghost mut path: Seq<u64> = seq![first];
    let mut latest: u64 = first;
    let mut after: Option<u64> = next_fire_after(expression, latest);
    while after.is_some() && after.unwrap() > latest && after.unwrap() <= now_unix_seconds
        invariant
            forall|expression: &String, anchor: u64|
                call_requires(*next_fire_after, (expression, anchor)),
            latest <= now_unix_seconds,
            is_path(*next_fire_after, *expression, path, now_unix_seconds),
            path[0] == first,
            path.last() == latest,
            call_ensures(*next_fire_after, (expression, latest), after),
        decreases now_unix_seconds - latest,
    {
        let at: u64 = after.unwrap();
        let ghost longer = path.push(at);
        proof {
            assert forall|i: int| 0 <= i < longer.len() - 1 implies call_ensures(
                *next_fire_after,
                (expression, #[trigger] longer[i]),
                Some(longer[i + 1]),
            ) && longer[i] < longer[i + 1] <= now_unix_seconds by {
                if i < path.len() - 1 {
                    assert(longer[i] == path[i]);
                }
            }
            path = longer;
        }
        latest = at;
        after = next_fire_after(expression, latest);
    }
    latest
}

/// The active routines.
pub open spec fn is_active(routine: Routine) -> bool {
    routine.status == RoutineStatus::Active
}

/// Materializes due routines from a store of routines into wakes.
pub struct RoutineMaterializer<R: RoutineRepository, W: WakeRepository> {
    pub routines: R,
    pub wakes: W,
}

impl<R: RoutineRepository, W: WakeRepository> RoutineMaterializer<R, W> {
    /// A materializer over a store and a queue.
    pub fn new(routines: R, wakes: W) -> (r: Self)
        ensures
            r.routines == routines,
            r.wakes == wakes,
    {
        RoutineMaterializer { routines, wakes }
    }

    /// A store can fail.
    pub open spec fn fallible(&self) -> bool {
        self.routines.fallible() || self.wakes.fallible()
    }

    /// What the materializer starts from.
    pub open spec fn start(&self) -> Progress {
        Progress {
            routines: self.routines.holdings(),
            wakes: self.wakes.requests(),
            enqueued: 0,
        }
    }

    /// Materializes every active recurring routine that is due.
    pub fn materialize_due<F: Fn(&String, u64) -> Option<u64>>(
        &mut self,
        now_unix_seconds: u64,
        next_fire_after: F,
    ) -> (r: Result<usize, RoutineMaterializationError>)
        requires
            old(self).routines.ready(),
            forall|expression: &String, anchor: u64|
                call_requires(next_fire_after, (expression, anchor)),
        ensures
            final(self).routines.ready(),
            materialized(
                old(self).start(),
                Seq::empty(),
                now_unix_seconds,
                next_fire_after,
                r,
                final(self).routines.holdings(),
                final(self).wakes.requests(),
            ),
            r is Err ==> old(self).fallible(),
            final(self).fallible() == old(self).fallible(),
    {
        let none: Vec<String> = Vec::new();
        assert(text::views(none@) =~= Seq::empty());
        self.materialize_due_excluding(now_unix_seconds, &none, next_fire_after)
    }

    /// The same, skipping the routines whose identifiers are excluded: a mapped routine mirrors an
    /// automation that another authority still drives, and driving it too would fire it twice.
    pub fn materialize_due_excluding<F: Fn(&String, u64) -> Option<u64>>(
        &mut self,
        now_unix_seconds: u64,
        excluded_routine_ids: &Vec<String>,
        next_fire_after: F,
    ) -> (r: Result<usize, RoutineMaterializationError>)
        requires
            old(self).routines.ready(),
            forall|expression: &String, anchor: u64|
                call_requires(next_fire_after, (expression, anchor)),
        ensures
            final(self).routines.ready(),
            materialized(
                old(self).start(),
                text::views(excluded_routine_ids@),
                now_unix_seconds,
                next_fire_after,
                r,
                final(self).routines.holdings(),
                final(self).wakes.requests(),
            ),
            r is Err ==> old(self).fallible(),
            final(self).fallible() == old(self).fallible(),
    {
        let ghost start = self.start();
        let ghost excluded = text::views(excluded_routine_ids@);
        let order: Vec<Routine> = match self.routines.list_active() {
            Ok(list) => list,
            Err(error) => {
                proof {
                    assert(stopped(
                        start,
                        excluded,
                        Seq::empty(),
                        Seq::empty(),
                        now_unix_seconds,
                        0,
                        start.routines,
                        start.wakes,
                    ));
                }
                return Err(RoutineMaterializationError::Routine(error));
            },
        };
        let ghost mut fires: Seq<Fire> = Seq::empty();
        let mut enqueued: usize = 0;
        let mut i: usize = 0;
        while i < order.len()
            invariant
                i <= order@.len(),
                start == old(self).start(),
                excluded == text::views(excluded_routine_ids@),
                self.routines.ready(),
                self.routines.fallible() == old(self).routines.fallible(),
                self.wakes.fallible() == old(self).wakes.fallible(),
                forall|expression: &String, anchor: u64|
                    call_requires(next_fire_after, (expression, anchor)),
                crate::table::lists(
                    order@,
                    start.routines.routines,
                    |routine: Routine| is_active(routine),
                ),
                fires.len() == i,
                enqueued <= i,
                turns(start, excluded, order@, fires, now_unix_seconds, i as nat) == (Progress {
                    routines: self.routines.holdings(),
                    wakes: self.wakes.requests(),
                    enqueued: enqueued as nat,
                }),
                answered(next_fire_after, start, excluded, order@, fires, now_unix_seconds, i as nat),
            decreases order@.len() - i,
        {
            let routine: &Routine = &order[i];
            let ghost here = Progress {
                routines: self.routines.holdings(),
                wakes: self.wakes.requests(),
                enqueued: enqueued as nat,
            };
            let target: Option<(RoutineRevision, u64)> = match self.find_probe(
                routine,
                excluded_routine_ids,
            ) {
                Ok(target) => target,
                Err(error) => {
                    assert(stopped(
                        start,
                        excluded,
                        order@,
                        fires,
                        now_unix_seconds,
                        i as nat,
                        here.routines,
                        here.wakes,
                    ));
                    return Err(RoutineMaterializationError::Routine(error));
                },
            };
            match target {
                Some((revision, anchor)) => {
                    let expression: &String = match &revision.trigger {
                        RoutineTrigger::Recurring { cron_expression } => cron_expression,
                        RoutineTrigger::Event { source } => source,
                    };
                    let next: Option<u64> = next_fire_after(expression, anchor);
                    let latest: u64 = match next {
                        Some(at) => if at <= now_unix_seconds {
                            latest_fire(&next_fire_after, expression, at, now_unix_seconds)
                        } else {
                            at
                        },
                        None => anchor,
                    };
                    proof {
                        let fire = Fire { next, latest };
                        lemma_extend(
                            next_fire_after,
                            start,
                            excluded,
                            order@,
                            fires,
                            fire,
                            now_unix_seconds,
                        );
                        fires = fires.push(fire);
                    }
                    match next {
                        Some(at) => {
                            if at <= now_unix_seconds {
                                let requested_at: String = text::numeral(at);
                                match self.wakes.enqueue(
                                    revision.target_work_item_id.copy(),
                                    WakeSource::Routine,
                                    requested_at,
                                ) {
                                    Ok(_) => {},
                                    Err(error) => {
                                        assert(stopped(
                                            start,
                                            excluded,
                                            order@,
                                            fires,
                                            now_unix_seconds,
                                            i as nat,
                                            self.routines.holdings(),
                                            self.wakes.requests(),
                                        ));
                                        return Err(RoutineMaterializationError::Wake(error));
                                    },
                                }
                                match self.routines.record_fire(&routine.id, latest) {
                                    Ok(_) => {},
                                    Err(error) => {
                                        assert(stopped(
                                            start,
                                            excluded,
                                            order@,
                                            fires,
                                            now_unix_seconds,
                                            i as nat,
                                            self.routines.holdings(),
                                            self.wakes.requests(),
                                        ));
                                        return Err(RoutineMaterializationError::Routine(error));
                                    },
                                }
                                enqueued = enqueued + 1;
                            }
                        },
                        None => {},
                    }
                },
                None => {
                    proof {
                        let fire = Fire { next: None, latest: 0 };
                        lemma_extend(
                            next_fire_after,
                            start,
                            excluded,
                            order@,
                            fires,
                            fire,
                            now_unix_seconds,
                        );
                        fires = fires.push(fire);
                    }
                },
            }
            assert(turns(start, excluded, order@, fires, now_unix_seconds, (i + 1) as nat) == turn(
                here,
                excluded,
                order@[i as int],
                fires[i as int],
                now_unix_seconds,
            ));
            i = i + 1;
        }
        Ok(enqueued)
    }

    /// The revision and the anchor of a routine that is driven by a cron expression.
    fn find_probe(&self, routine: &Routine, excluded_routine_ids: &Vec<String>) -> (r: Result<
        Option<(RoutineRevision, u64)>,
        RoutineError,
    >)
        requires
            self.routines.ready(),
        ensures
            r matches Ok(found) ==> found == probe(
                self.routines.holdings(),
                text::views(excluded_routine_ids@),
                *routine,
            ),
            r is Err ==> self.routines.fallible(),
    {
        if text::listed(excluded_routine_ids, &routine.id.value) {
            return Ok(None);
        }
        let revision_id: &EntityId = match &routine.current_revision_id {
            Some(id) => id,
            None => {
                return Ok(None);
            },
        };
        let revision: RoutineRevision = match self.routines.get_revision(revision_id) {
            Ok(Some(revision)) => revision,
            Ok(None) => {
                return Ok(None);
            },
            Err(error) => {
                return Err(error);
            },
        };
        match &revision.trigger {
            RoutineTrigger::Recurring { .. } => {},
            RoutineTrigger::Event { .. } => {
                return Ok(None);
            },
        }
        let anchor: u64 = match self.routines.last_fired(&routine.id) {
            Ok(Some(at)) => at,
            Ok(None) => revision.created_at_unix_seconds,
            Err(error) => {
                return Err(error);
            },
        };
        Ok(Some((revision, anchor)))
    }
}

/// A materialization that failed at the turn of routine `count`: the turns before it stand, and of
/// its own turn at most the wake.
pub open spec fn stopped(
    start: Progress,
    excluded: Seq<Seq<char>>,
    order: Seq<Routine>,
    fires: Seq<Fire>,
    now: u64,
    count: nat,
    routines: Routines,
    wakes: Seq<Wake>,
) -> bool {
    let reached = turns(start, excluded, order, fires, now, count);
    &&& routines == reached.routines
    &&& wakes == reached.wakes || (count < order.len() && count < fires.len() && is_due(
        reached.routines,
        excluded,
        order[count as int],
        fires[count as int],
        now,
    ) && wakes == turn(reached, excluded, order[count as int], fires[count as int], now).wakes)
}

/// The fires of the first `count` routines were answered, and those of the next one where they are
/// known.
pub open spec fn foreseen<F: Fn(&String, u64) -> Option<u64>>(
    evaluator: F,
    start: Progress,
    excluded: Seq<Seq<char>>,
    order: Seq<Routine>,
    fires: Seq<Fire>,
    now: u64,
    count: nat,
) -> bool {
    &&& count <= fires.len() <= order.len()
    &&& answered(
        evaluator,
        start,
        excluded,
        order,
        fires,
        now,
        if fires.len() > count {
            count + 1
        } else {
            count
        },
    )
}

/// What comes of a materialization: every active routine has its turn once, in some order, and the
/// result counts the wakes; a failure leaves the turns before it as they are.
pub open spec fn materialized<F: Fn(&String, u64) -> Option<u64>>(
    start: Progress,
    excluded: Seq<Seq<char>>,
    now: u64,
    evaluator: F,
    r: Result<usize, RoutineMaterializationError>,
    routines: Routines,
    wakes: Seq<Wake>,
) -> bool {
    match r {
        Ok(count) => exists|order: Seq<Routine>, fires: Seq<Fire>|
            {
                &&& crate::table::lists(
                    order,
                    start.routines.routines,
                    |routine: Routine| is_active(routine),
                )
                &&& fires.len() == order.len()
                &&& answered(evaluator, start, excluded, order, fires, now, order.len())
                &&& #[trigger] turns(start, excluded, order, fires, now, order.len()) == (Progress {
                    routines,
                    wakes,
                    enqueued: count as nat,
                })
            },
        Err(_) => exists|order: Seq<Routine>, fires: Seq<Fire>, count: nat|
            {
                &&& count <= order.len()
                &&& order.len() > 0 ==> crate::table::lists(
                    order,
                    start.routines.routines,
                    |routine: Routine| is_active(routine),
                )
                &&& foreseen(evaluator, start, excluded, order, fires, now, count)
                &&& #[trigger] stopped(
                    start,
                    excluded,
                    order,
                    fires,
                    now,
                    count,
                    routines,
                    wakes,
                )
            },
    }
}

/// The turns of the routines before `count` do not depend on later fires.
proof fn lemma_turns_prefix(
    start: Progress,
    excluded: Seq<Seq<char>>,
    order: Seq<Routine>,
    fires: Seq<Fire>,
    longer: Seq<Fire>,
    now: u64,
    count: nat,
)
    requires
        count <= fires.len(),
        count <= longer.len(),
        forall|i: int| 0 <= i < count ==> fires[i] == longer[i],
    ensures
        turns(start, excluded, order, fires, now, count) == turns(
            start,
            excluded,
            order,
            longer,
            now,
            count,
        ),
    decreases count,
{
    if count > 0 {
        lemma_turns_prefix(start, excluded, order, fires, longer, now, (count - 1) as nat);
    }
}

/// An answered turn extends the answered turns before it.
proof fn lemma_extend<F: Fn(&String, u64) -> Option<u64>>(
    evaluator: F,
    start: Progress,
    excluded: Seq<Seq<char>>,
    order: Seq<Routine>,
    fires: Seq<Fire>,
    fire: Fire,
    now: u64,
)
    requires
        fires.len() < order.len(),
        answered(evaluator, start, excluded, order, fires, now, fires.len()),
        ({
            let at = probe(
                turns(start, excluded, order, fires, now, fires.len()).routines,
                excluded,
                order[fires.len() as int],
            );
            at matches Some((revision, anchor)) ==> foretold(
                evaluator,
                expression_of(revision),
                anchor,
                fire,
                now,
            )
        }),
    ensures
        answered(evaluator, start, excluded, order, fires.push(fire), now, fires.len() + 1),
        turns(start, excluded, order, fires.push(fire), now, fires.len()) == turns(
            start,
            excluded,
            order,
            fires,
            now,
            fires.len(),
        ),
{
    let longer = fires.push(fire);
    assert forall|i: int| 0 <= i <= fires.len() implies #[trigger] turns(
        start,
        excluded,
        order,
        fires,
        now,
        i as nat,
    ) == turns(start, excluded, order, longer, now, i as nat) by {
        lemma_turns_prefix(start, excluded, order, fires, longer, now, i as nat);
    }
    assert forall|i: int| 0 <= i < fires.len() + 1 implies ({
        let at = probe(
            turns(start, excluded, order, longer, now, i as nat).routines,
            excluded,
            #[trigger] order[i],
        );
        at matches Some((revision, anchor)) ==> foretold(
            evaluator,
            expression_of(revision),
            anchor,
            longer[i],
            now,
        )
    }) by {
        assert(turns(start, excluded, order, fires, now, i as nat) == turns(
            start,
            excluded,
            order,
            longer,
            now,
            i as nat,
        ));
    }
}

/// No two of the routines share an identifier.
pub open spec fn distinct(order: Seq<Routine>) -> bool {
    forall|i: int, j: int|
        0 <= i < j < order.len() ==> (#[trigger] order[i]).id.value@ != (#[trigger] order[j]).id.value@
}

/// The evaluator computes `next_fire`.
pub open spec fn computes<F: Fn(&String, u64) -> Option<u64>>(
    evaluator: F,
    next_fire: spec_fn(Seq<char>, u64) -> Option<u64>,
) -> bool {
    forall|expression: &String, anchor: u64, fire: Option<u64>| #[trigger]
        call_ensures(evaluator, (expression, anchor), fire) ==> fire == next_fire(
            expression@,
            anchor,
        )
}

/// `next_fire` gives fires after the anchor. None that is not in the future lies beyond the range in
/// which anchors are kept.
pub open spec fn fires_later(
    next_fire: spec_fn(Seq<char>, u64) -> Option<u64>,
    now: u64,
) -> bool {
    forall|expression: Seq<char>, anchor: u64|
        (#[trigger] next_fire(expression, anchor)) matches Some(at) ==> at > anchor && (at <= now
            ==> at <= i64::MAX)
}

/// What is known of the last fire under a key.
pub open spec fn fire_at(state: Routines, key: Seq<char>) -> Option<u64> {
    if state.fires.contains_key(key) {
        Some(state.fires[key])
    } else {
        None
    }
}

/// What the turns of distinct routines leave of the routines, the revisions and the anchors.
pub proof fn lemma_turns_effect(
    start: Progress,
    excluded: Seq<Seq<char>>,
    order: Seq<Routine>,
    fires: Seq<Fire>,
    now: u64,
    count: nat,
)
    requires
        distinct(order),
        count <= order.len(),
    ensures
        ({
            let end = turns(start, excluded, order, fires, now, count).routines;
            &&& end.routines == start.routines.routines
            &&& end.revisions == start.routines.revisions
            &&& forall|key: Seq<char>|
                (forall|i: int| 0 <= i < count ==> (#[trigger] order[i]).id.value@ != key)
                    ==> #[trigger] fire_at(end, key) == fire_at(start.routines, key)
            &&& forall|i: int|
                0 <= i < count ==> fire_at(end, (#[trigger] order[i]).id.value@) == if is_due(
                    start.routines,
                    excluded,
                    order[i],
                    fires[i],
                    now,
                ) {
                    Some(crate::routine_repository::anchor_of(fires[i].latest))
                } else {
                    fire_at(start.routines, order[i].id.value@)
                }
        }),
    decreases count,
{
    if count > 0 {
        let last = (count - 1) as nat;
        lemma_turns_effect(start, excluded, order, fires, now, last);
        let before = turns(start, excluded, order, fires, now, last);
        let end = turns(start, excluded, order, fires, now, count);
        let routine = order[last as int];
        let key = routine.id.value@;
        assert forall|i: int| 0 <= i < last implies (#[trigger] order[i]).id.value@ != key by {
            assert(order[i].id.value@ != order[last as int].id.value@);
        }
        assert(fire_at(before.routines, key) == fire_at(start.routines, key));
        assert(before.routines.fires.contains_key(key) == start.routines.fires.contains_key(key));
        assert(probe(before.routines, excluded, routine) == probe(
            start.routines,
            excluded,
            routine,
        ));
        assert(end == turn(before, excluded, routine, fires[last as int], now));
        assert forall|other: Seq<char>|
            (forall|i: int| 0 <= i < count ==> (#[trigger] order[i]).id.value@ != other) implies
            #[trigger] fire_at(end.routines, other) == fire_at(start.routines, other) by {
            assert(order[last as int].id.value@ != other);
            assert(fire_at(before.routines, other) == fire_at(start.routines, other));
        }
        assert forall|i: int| 0 <= i < count implies fire_at(
            end.routines,
            (#[trigger] order[i]).id.value@,
        ) == if is_due(start.routines, excluded, order[i], fires[i], now) {
            Some(crate::routine_repository::anchor_of(fires[i].latest))
        } else {
            fire_at(start.routines, order[i].id.value@)
        } by {
            if i < last {
                assert(order[i].id.value@ != key);
                assert(fire_at(end.routines, order[i].id.value@) == fire_at(
                    before.routines,
                    order[i].id.value@,
                ));
            }
        }
    }
}

/// Routines that are listed from a store in which each is held under its identifier are distinct.
pub proof fn lemma_listed_distinct(state: Routines, order: Seq<Routine>)
    requires
        crate::routine_repository::keyed(state),
        crate::table::lists(order, state.routines, |routine: Routine| is_active(routine)),
    ensures
        distinct(order),
        forall|i: int|
            0 <= i < order.len() ==> state.routines.contains_key((#[trigger] order[i]).id.value@)
                && state.routines[order[i].id.value@] == order[i] && is_active(order[i]),
        forall|key: Seq<char>| #[trigger]
            state.routines.contains_key(key) && is_active(state.routines[key]) ==> exists|i: int|
                0 <= i < order.len() && order[i] == state.routines[key],
{
    let keep = |routine: Routine| is_active(routine);
    let keys = choose|keys: Seq<Seq<char>>|
        {
            &&& keys.len() == order.len()
            &&& keys.no_duplicates()
            &&& forall|i: int|
                0 <= i < keys.len() ==> state.routines.contains_key(#[trigger] keys[i])
                    && state.routines[keys[i]] == order[i] && keep(order[i])
            &&& forall|key: Seq<char>| #[trigger]
                state.routines.contains_key(key) && keep(state.routines[key]) ==> keys.contains(key)
        };
    assert forall|i: int| 0 <= i < order.len() implies state.routines.contains_key(
        (#[trigger] order[i]).id.value@,
    ) && state.routines[order[i].id.value@] == order[i] && is_active(order[i]) by {
        assert(state.routines.contains_key(keys[i]));
        assert(order[i].id.value@ == keys[i]);
        assert(keep(order[i]));
    }
    assert forall|i: int, j: int| 0 <= i < j < order.len() implies (#[trigger] order[i]).id.value@
        != (#[trigger] order[j]).id.value@ by {
        assert(state.routines.contains_key(keys[i]) && order[i].id.value@ == keys[i]);
        assert(state.routines.contains_key(keys[j]) && order[j].id.value@ == keys[j]);
    }
    assert forall|key: Seq<char>| #[trigger] state.routines.contains_key(key) && is_active(
        state.routines[key],
    ) implies exists|i: int| 0 <= i < order.len() && order[i] == state.routines[key] by {
        assert(keep(state.routines[key]));
        assert(keys.contains(key));
        let i = choose|i: int| 0 <= i < keys.len() && keys[i] == key;
        assert(order[i] == state.routines[key]);
    }
}

/// The turns leave a distinct routine's probe alone until its own turn.
pub proof fn lemma_probe_at_turn(
    start: Progress,
    excluded: Seq<Seq<char>>,
    order: Seq<Routine>,
    fires: Seq<Fire>,
    now: u64,
    i: int,
)
    requires
        distinct(order),
        fires.len() >= i,
        0 <= i < order.len(),
    ensures
        probe(turns(start, excluded, order, fires, now, i as nat).routines, excluded, order[i])
            == probe(start.routines, excluded, order[i]),
{
    lemma_turns_effect(start, excluded, order, fires, now, i as nat);
    let here = turns(start, excluded, order, fires, now, i as nat).routines;
    let key = order[i].id.value@;
    assert forall|k: int| 0 <= k < i implies (#[trigger] order[k]).id.value@ != key by {
        assert(order[k].id.value@ != order[i].id.value@);
    }
    assert(fire_at(here, key) == fire_at(start.routines, key));
    assert(here.fires.contains_key(key) == start.routines.fires.contains_key(key));
}

/// After the latest fire nothing is due.
pub proof fn lemma_latest_is_last<F: Fn(&String, u64) -> Option<u64>>(
    evaluator: F,
    next_fire: spec_fn(Seq<char>, u64) -> Option<u64>,
    expression: String,
    anchor: u64,
    fire: Fire,
    now: u64,
)
    requires
        computes(evaluator, next_fire),
        fires_later(next_fire, now),
        foretold(evaluator, expression, anchor, fire, now),
        fire.next is Some,
        fire.next->0 <= now,
    ensures
        fire.latest <= i64::MAX,
        next_fire(expression@, fire.latest) matches Some(at) ==> at > now,
{
    let first = fire.next->0;
    let latest = fire.latest;
    assert(next_fire(expression@, anchor) == Some(first));
    let path = choose|path: Seq<u64>| #[trigger]
        is_path(evaluator, expression, path, now) && path[0] == first && path.last() == latest;
    let after = choose|after: Option<u64>| #[trigger]
        call_ensures(evaluator, (&expression, latest), after) && !goes_on(latest, after, now);
    assert(after == next_fire(expression@, latest));
    if path.len() > 1 {
        let end = path.len() - 2;
        assert(call_ensures(evaluator, (&expression, path[end]), Some(path[end + 1])));
        assert(next_fire(expression@, path[end]) == Some(latest));
    }
}

/// After a materialization no routine is due at the same time.
#[verifier::spinoff_prover]
proof fn lemma_nothing_is_due<F: Fn(&String, u64) -> Option<u64>>(
    evaluator: F,
    next_fire: spec_fn(Seq<char>, u64) -> Option<u64>,
    start: Progress,
    excluded: Seq<Seq<char>>,
    now: u64,
    order: Seq<Routine>,
    fires: Seq<Fire>,
    again: Progress,
    later_order: Seq<Routine>,
    later: Seq<Fire>,
    count: nat,
    k: int,
)
    requires
        crate::routine_repository::keyed(start.routines),
        computes(evaluator, next_fire),
        fires_later(next_fire, now),
        crate::table::lists(
            order,
            start.routines.routines,
            |routine: Routine| is_active(routine),
        ),
        fires.len() == order.len(),
        answered(evaluator, start, excluded, order, fires, now, order.len()),
        again.routines == turns(start, excluded, order, fires, now, order.len()).routines,
        crate::table::lists(
            later_order,
            again.routines.routines,
            |routine: Routine| is_active(routine),
        ),
        count <= later_order.len(),
        count <= later.len(),
        answered(evaluator, again, excluded, later_order, later, now, count),
        0 <= k < count,
    ensures
        !is_due(again.routines, excluded, later_order[k], later[k], now),
{
    lemma_listed_distinct(start.routines, order);
    lemma_turns_effect(start, excluded, order, fires, now, order.len());
    lemma_listed_distinct(again.routines, later_order);
    let routine = later_order[k];
    let key = routine.id.value@;
    assert(start.routines.routines.contains_key(key) && is_active(start.routines.routines[key]));
    let i = choose|i: int| 0 <= i < order.len() && order[i] == start.routines.routines[key];
    assert(order[i] == routine);
    lemma_probe_at_turn(start, excluded, order, fires, now, i);
    lemma_probe_at_turn(again, excluded, later_order, later, now, k);
    assert(fire_at(again.routines, order[i].id.value@) == if is_due(
        start.routines,
        excluded,
        order[i],
        fires[i],
        now,
    ) {
        Some(crate::routine_repository::anchor_of(fires[i].latest))
    } else {
        fire_at(start.routines, order[i].id.value@)
    });
    if let Some((revision, anchor)) = probe(again.routines, excluded, routine) {
        let (_, before) = probe(start.routines, excluded, routine)->0;
        let expression = expression_of(revision);
        assert(foretold(evaluator, expression, before, fires[i], now));
        assert(foretold(evaluator, expression, anchor, later[k], now));
        assert(later[k].next == next_fire(expression@, anchor));
        assert(fires[i].next == next_fire(expression@, before));
        if is_due(start.routines, excluded, routine, fires[i], now) {
            lemma_latest_is_last(evaluator, next_fire, expression, before, fires[i], now);
            assert(anchor == fires[i].latest);
        }
    }
}

/// A second materialization at the same time requests no wake and moves no anchor, whatever was
/// missed before the first: the anchors advanced to the latest fires.
pub proof fn law_materialization_is_idempotent<F: Fn(&String, u64) -> Option<u64>>(
    evaluator: F,
    next_fire: spec_fn(Seq<char>, u64) -> Option<u64>,
    start: Progress,
    excluded: Seq<Seq<char>>,
    now: u64,
    count: usize,
    routines: Routines,
    wakes: Seq<Wake>,
    again: Result<usize, RoutineMaterializationError>,
    routines_again: Routines,
    wakes_again: Seq<Wake>,
)
    requires
        crate::routine_repository::keyed(start.routines),
        computes(evaluator, next_fire),
        fires_later(next_fire, now),
        materialized(start, excluded, now, evaluator, Ok(count), routines, wakes),
        materialized(
            Progress { routines, wakes, enqueued: 0 },
            excluded,
            now,
            evaluator,
            again,
            routines_again,
            wakes_again,
        ),
    ensures
        routines_again == routines,
        wakes_again == wakes,
        again matches Ok(enqueued) ==> enqueued == 0,
{
    let between = Progress { routines, wakes, enqueued: 0 };
    let (order, fires) = choose|order: Seq<Routine>, fires: Seq<Fire>|
        {
            &&& crate::table::lists(
                order,
                start.routines.routines,
                |routine: Routine| is_active(routine),
            )
            &&& fires.len() == order.len()
            &&& answered(evaluator, start, excluded, order, fires, now, order.len())
            &&& #[trigger] turns(start, excluded, order, fires, now, order.len()) == (Progress {
                routines,
                wakes,
                enqueued: count as nat,
            })
        };
    match again {
        Ok(enqueued) => {
            let (later_order, later) = choose|later_order: Seq<Routine>, later: Seq<Fire>|
                {
                    &&& crate::table::lists(
                        later_order,
                        between.routines.routines,
                        |routine: Routine| is_active(routine),
                    )
                    &&& later.len() == later_order.len()
                    &&& answered(
                        evaluator,
                        between,
                        excluded,
                        later_order,
                        later,
                        now,
                        later_order.len(),
                    )
                    &&& #[trigger] turns(
                        between,
                        excluded,
                        later_order,
                        later,
                        now,
                        later_order.len(),
                    ) == (Progress {
                        routines: routines_again,
                        wakes: wakes_again,
                        enqueued: enqueued as nat,
                    })
                };
            lemma_quiet_turns(
                evaluator,
                next_fire,
                start,
                excluded,
                now,
                order,
                fires,
                between,
                later_order,
                later,
                later_order.len(),
            );
        },
        Err(_) => {
            let (later_order, later, reached) = choose|
                later_order: Seq<Routine>,
                later: Seq<Fire>,
                reached: nat,
            |
                {
                    &&& reached <= later_order.len()
                    &&& later_order.len() > 0 ==> crate::table::lists(
                        later_order,
                        between.routines.routines,
                        |routine: Routine| is_active(routine),
                    )
                    &&& foreseen(
                        evaluator,
                        between,
                        excluded,
                        later_order,
                        later,
                        now,
                        reached,
                    )
                    &&& #[trigger] stopped(
                        between,
                        excluded,
                        later_order,
                        later,
                        now,
                        reached,
                        routines_again,
                        wakes_again,
                    )
                };
            if later_order.len() > 0 {
                let told = if reached < later_order.len() && reached < later.len() {
                    reached + 1
                } else {
                    reached
                };
                lemma_quiet_turns(
                    evaluator,
                    next_fire,
                    start,
                    excluded,
                    now,
                    order,
                    fires,
                    between,
                    later_order,
                    later,
                    told,
                );
                lemma_quiet_turns(
                    evaluator,
                    next_fire,
                    start,
                    excluded,
                    now,
                    order,
                    fires,
                    between,
                    later_order,
                    later,
                    reached,
                );
            }
        },
    }
}

/// Turns at which nothing is due change nothing.
proof fn lemma_quiet_turns<F: Fn(&String, u64) -> Option<u64>>(
    evaluator: F,
    next_fire: spec_fn(Seq<char>, u64) -> Option<u64>,
    start: Progress,
    excluded: Seq<Seq<char>>,
    now: u64,
    order: Seq<Routine>,
    fires: Seq<Fire>,
    again: Progress,
    later_order: Seq<Routine>,
    later: Seq<Fire>,
    count: nat,
)
    requires
        crate::routine_repository::keyed(start.routines),
        computes(evaluator, next_fire),
        fires_later(next_fire, now),
        crate::table::lists(
            order,
            start.routines.routines,
            |routine: Routine| is_active(routine),
        ),
        fires.len() == order.len(),
        answered(evaluator, start, excluded, order, fires, now, order.len()),
        again.routines == turns(start, excluded, order, fires, now, order.len()).routines,
        crate::table::lists(
            later_order,
            again.routines.routines,
            |routine: Routine| is_active(routine),
        ),
        count <= later_order.len(),
        count <= later.len(),
        answered(evaluator, again, excluded, later_order, later, now, count),
    ensures
        turns(again, excluded, later_order, later, now, count) == again,
        forall|k: int|
            0 <= k < count ==> !is_due(
                again.routines,
                excluded,
                #[trigger] later_order[k],
                later[k],
                now,
            ),
{
    assert forall|k: int| 0 <= k < count implies !is_due(
        again.routines,
        excluded,
        #[trigger] later_order[k],
        later[k],
        now,
    ) by {
        lemma_nothing_is_due(
            evaluator,
            next_fire,
            start,
            excluded,
            now,
            order,
            fires,
            again,
            later_order,
            later,
            count,
            k,
        );
    }
    lemma_no_turns(again, excluded, later_order, later, now, count);
}

/// Where no routine is due, the turns change nothing.
proof fn lemma_no_turns(
    start: Progress,
    excluded: Seq<Seq<char>>,
    order: Seq<Routine>,
    fires: Seq<Fire>,
    now: u64,
    count: nat,
)
    requires
        forall|k: int|
            0 <= k < count ==> !is_due(
                start.routines,
                excluded,
                #[trigger] order[k],
                fires[k],
                now,
            ),
    ensures
        turns(start, excluded, order, fires, now, count) == start,
    decreases count,
{
    if count > 0 {
        lemma_no_turns(start, excluded, order, fires, now, (count - 1) as nat);
        assert(!is_due(start.routines, excluded, order[count - 1], fires[count - 1], now));
    }
}

/// An excluded routine's anchor never moves.
pub proof fn law_excluded_routines_keep_their_anchor(
    start: Progress,
    excluded: Seq<Seq<char>>,
    order: Seq<Routine>,
    fires: Seq<Fire>,
    now: u64,
    count: nat,
    key: Seq<char>,
)
    requires
        excluded.contains(key),
    ensures
        fire_at(turns(start, excluded, order, fires, now, count).routines, key) == fire_at(
            start.routines,
            key,
        ),
    decreases count,
{
    if count > 0 {
        law_excluded_routines_keep_their_anchor(
            start,
            excluded,
            order,
            fires,
            now,
            (count - 1) as nat,
            key,
        );
    }
}

/// A materialization requests as many wakes as it counts, and only adds to those that were
/// requested before.
pub proof fn law_wakes_are_counted(
    start: Progress,
    excluded: Seq<Seq<char>>,
    order: Seq<Routine>,
    fires: Seq<Fire>,
    now: u64,
    count: nat,
)
    ensures
        ({
            let end = turns(start, excluded, order, fires, now, count);
            &&& end.wakes.len() - start.wakes.len() == end.enqueued - start.enqueued
            &&& end.wakes.len() >= start.wakes.len()
            &&& end.wakes.take(start.wakes.len() as int) == start.wakes
            &&& end.enqueued <= start.enqueued + count
        }),
    decreases count,
{
    if count > 0 {
        law_wakes_are_counted(start, excluded, order, fires, now, (count - 1) as nat);
        let before = turns(start, excluded, order, fires, now, (count - 1) as nat);
        let end = turns(start, excluded, order, fires, now, count);
        assert(end.wakes.take(start.wakes.len() as int) =~= before.wakes.take(
            start.wakes.len() as int,
        ));
    } else {
        assert(start.wakes.take(start.wakes.len() as int) =~= start.wakes);
    }
}

} // verus!
