//! What a tick does to the stored routines, said of the routines, their revisions and their fires.
use vstd::prelude::*;
use vstd::string::*;
use crate::routine_materializer::{
    Fire, Progress, RoutineMaterializationError, Wake, WakeSource,
};
use crate::routine_repository::{
    Routine, RoutineRevision, RoutineStatus, RoutineTrigger, Routines,
};
use crate::text;

verus! {

/// The stored revision that a routine points at.
pub open spec fn current_revision(state: Routines, routine: Routine) -> RoutineRevision {
    state.revisions[routine.current_revision_id->0.value@]
}

/// From when the next fire of a routine counts: from its last one, or from the time at which its
/// current revision was created where it never fired.
pub open spec fn counts_from(state: Routines, routine: Routine) -> u64 {
    if state.fires.contains_key(routine.id.value@) {
        state.fires[routine.id.value@]
    } else {
        current_revision(state, routine).created_at_unix_seconds
    }
}

/// When a routine with a cron expression fires next, if ever.
pub open spec fn fires_next(
    state: Routines,
    next_fire: spec_fn(Seq<char>, u64) -> Option<u64>,
    routine: Routine,
) -> Option<u64> {
    next_fire(
        current_revision(state, routine).trigger->cron_expression@,
        counts_from(state, routine),
    )
}

/// A routine is due: it is active and not excluded, its current revision is stored and recurs by a
/// cron expression, and its next fire is not in the future. Whichever revision it is makes no
/// difference.
pub open spec fn falls_due(
    state: Routines,
    excluded: Seq<Seq<char>>,
    next_fire: spec_fn(Seq<char>, u64) -> Option<u64>,
    now: u64,
    routine: Routine,
) -> bool {
    &&& routine.status == RoutineStatus::Active
    &&& !excluded.contains(routine.id.value@)
    &&& routine.current_revision_id is Some
    &&& state.revisions.contains_key(routine.current_revision_id->0.value@)
    &&& current_revision(state, routine).trigger is Recurring
    &&& fires_next(state, next_fire, routine) is Some
    &&& fires_next(state, next_fire, routine)->0 <= now
}

/// The wake of a due routine: its current revision's target, on behalf of a routine, at the time of
/// the fire.
pub open spec fn is_wake_of(
    state: Routines,
    next_fire: spec_fn(Seq<char>, u64) -> Option<u64>,
    routine: Routine,
    wake: Wake,
) -> bool {
    &&& wake.work_item_id == current_revision(state, routine).target_work_item_id
    &&& wake.source == WakeSource::Routine
    &&& wake.requested_at == text::decimal(fires_next(state, next_fire, routine)->0 as nat)
}

/// The wakes after a tick are those before it and one for each of the due routines, in order.
pub open spec fn woken(
    state: Routines,
    next_fire: spec_fn(Seq<char>, u64) -> Option<u64>,
    due: Seq<Routine>,
    before: Seq<Wake>,
    after: Seq<Wake>,
) -> bool {
    &&& after.len() == before.len() + due.len()
    &&& after.take(before.len() as int) == before
    &&& forall|i: int|
        0 <= i < due.len() ==> is_wake_of(
            state,
            next_fire,
            #[trigger] due[i],
            after[before.len() + i],
        )
}

/// The list holds stored routines that are due, each once.
pub open spec fn due_once(
    state: Routines,
    excluded: Seq<Seq<char>>,
    next_fire: spec_fn(Seq<char>, u64) -> Option<u64>,
    now: u64,
    due: Seq<Routine>,
) -> bool {
    &&& forall|i: int, j: int|
        0 <= i < j < due.len() ==> (#[trigger] due[i]).id.value@ != (#[trigger] due[j]).id.value@
    &&& forall|i: int|
        0 <= i < due.len() ==> {
            &&& state.routines.contains_key((#[trigger] due[i]).id.value@)
            &&& state.routines[due[i].id.value@] == due[i]
            &&& falls_due(state, excluded, next_fire, now, due[i])
        }
}

/// The turns of the first routines wake those of them that are due.
proof fn lemma_turns_wake_the_due<F: Fn(&String, u64) -> Option<u64>>(
    evaluator: F,
    next_fire: spec_fn(Seq<char>, u64) -> Option<u64>,
    start: Progress,
    excluded: Seq<Seq<char>>,
    order: Seq<Routine>,
    fires: Seq<Fire>,
    now: u64,
    count: nat,
    told: nat,
) -> (due: Seq<Routine>)
    requires
        crate::routine_repository::keyed(start.routines),
        crate::routine_materializer::computes(evaluator, next_fire),
        crate::table::lists(
            order,
            start.routines.routines,
            |routine: Routine| crate::routine_materializer::is_active(routine),
        ),
        count <= told <= order.len(),
        told <= fires.len(),
        crate::routine_materializer::answered(
            evaluator,
            start,
            excluded,
            order,
            fires,
            now,
            told,
        ),
    ensures
        due_once(start.routines, excluded, next_fire, now, due),
        woken(
            start.routines,
            next_fire,
            due,
            start.wakes,
            crate::routine_materializer::turns(start, excluded, order, fires, now, count).wakes,
        ),
        crate::routine_materializer::turns(start, excluded, order, fires, now, count).enqueued
            == start.enqueued + due.len(),
        forall|i: int|
            0 <= i < count && falls_due(
                start.routines,
                excluded,
                next_fire,
                now,
                #[trigger] order[i],
            ) ==> due.contains(order[i]),
        forall|i: int|
            0 <= i < due.len() ==> exists|k: int|
                0 <= k < count && order[k] == #[trigger] due[i],
    decreases count,
{
    if count == 0 {
        assert(start.wakes.take(start.wakes.len() as int) =~= start.wakes);
        Seq::empty()
    } else {
        let last: int = count - 1;
        let earlier = lemma_turns_wake_the_due(
            evaluator,
            next_fire,
            start,
            excluded,
            order,
            fires,
            now,
            last as nat,
            told,
        );
        let before = crate::routine_materializer::turns(
            start,
            excluded,
            order,
            fires,
            now,
            last as nat,
        );
        let after = crate::routine_materializer::turns(start, excluded, order, fires, now, count);
        let routine = order[last];
        lemma_due_at_turn(evaluator, next_fire, start, excluded, order, fires, now, told, last);
        crate::routine_materializer::lemma_listed_distinct(start.routines, order);
        if falls_due(start.routines, excluded, next_fire, now, routine) {
            let due = earlier.push(routine);
            assert forall|i: int, j: int| 0 <= i < j < due.len() implies (
            #[trigger] due[i]).id.value@ != (#[trigger] due[j]).id.value@ by {
                if j == earlier.len() {
                    let k = choose|k: int| 0 <= k < last && order[k] == earlier[i];
                    assert(order[k].id.value@ != order[last].id.value@);
                }
            }
            assert(after.wakes.take(start.wakes.len() as int) =~= start.wakes) by {
                assert(before.wakes.take(start.wakes.len() as int) == start.wakes);
                assert(after.wakes.take(start.wakes.len() as int) =~= before.wakes.take(
                    start.wakes.len() as int,
                ));
            }
            assert forall|i: int| 0 <= i < due.len() implies is_wake_of(
                start.routines,
                next_fire,
                #[trigger] due[i],
                after.wakes[start.wakes.len() + i],
            ) by {
                if i < earlier.len() {
                    assert(due[i] == earlier[i]);
                    assert(after.wakes[start.wakes.len() + i] == before.wakes[start.wakes.len()
                        + i]);
                }
            }
            assert forall|i: int|
                0 <= i < count && falls_due(
                    start.routines,
                    excluded,
                    next_fire,
                    now,
                    #[trigger] order[i],
                ) implies due.contains(order[i]) by {
                if i < last {
                    let k = choose|k: int| 0 <= k < earlier.len() && earlier[k] == order[i];
                    assert(due[k] == order[i]);
                } else {
                    assert(due[earlier.len() as int] == order[i]);
                }
            }
            assert forall|i: int| 0 <= i < due.len() implies exists|k: int|
                0 <= k < count && order[k] == #[trigger] due[i] by {
                if i < earlier.len() {
                    let k = choose|k: int| 0 <= k < last && order[k] == earlier[i];
                    assert(order[k] == due[i]);
                } else {
                    assert(order[last] == due[i]);
                }
            }
            due
        } else {
            assert(after == before);
            assert forall|i: int| 0 <= i < earlier.len() implies exists|k: int|
                0 <= k < count && order[k] == #[trigger] earlier[i] by {
                let k = choose|k: int| 0 <= k < last && order[k] == earlier[i];
                assert(order[k] == earlier[i]);
            }
            earlier
        }
    }
}

/// At its turn a routine is woken exactly where it was due at the start.
proof fn lemma_due_at_turn<F: Fn(&String, u64) -> Option<u64>>(
    evaluator: F,
    next_fire: spec_fn(Seq<char>, u64) -> Option<u64>,
    start: Progress,
    excluded: Seq<Seq<char>>,
    order: Seq<Routine>,
    fires: Seq<Fire>,
    now: u64,
    told: nat,
    i: int,
)
    requires
        crate::routine_repository::keyed(start.routines),
        crate::routine_materializer::computes(evaluator, next_fire),
        crate::table::lists(
            order,
            start.routines.routines,
            |routine: Routine| crate::routine_materializer::is_active(routine),
        ),
        told <= order.len(),
        told <= fires.len(),
        crate::routine_materializer::answered(
            evaluator,
            start,
            excluded,
            order,
            fires,
            now,
            told,
        ),
        0 <= i < told,
    ensures
        ({
            let before = crate::routine_materializer::turns(
                start,
                excluded,
                order,
                fires,
                now,
                i as nat,
            );
            let due = falls_due(start.routines, excluded, next_fire, now, order[i]);
            &&& crate::routine_materializer::is_due(
                before.routines,
                excluded,
                order[i],
                fires[i],
                now,
            ) == due
            &&& crate::routine_materializer::is_due(
                start.routines,
                excluded,
                order[i],
                fires[i],
                now,
            ) == due
            &&& due ==> {
                &&& fires[i].next == fires_next(start.routines, next_fire, order[i])
                &&& crate::routine_materializer::turn(
                    before,
                    excluded,
                    order[i],
                    fires[i],
                    now,
                ).wakes == before.wakes.push(
                    crate::routine_materializer::turn(
                        before,
                        excluded,
                        order[i],
                        fires[i],
                        now,
                    ).wakes.last(),
                )
                &&& is_wake_of(
                    start.routines,
                    next_fire,
                    order[i],
                    crate::routine_materializer::turn(
                        before,
                        excluded,
                        order[i],
                        fires[i],
                        now,
                    ).wakes.last(),
                )
                &&& crate::routine_materializer::foretold(
                    evaluator,
                    current_revision(start.routines, order[i]).trigger->cron_expression,
                    counts_from(start.routines, order[i]),
                    fires[i],
                    now,
                )
            }
        }),
{
    let routine = order[i];
    crate::routine_materializer::lemma_listed_distinct(start.routines, order);
    crate::routine_materializer::lemma_probe_at_turn(start, excluded, order, fires, now, i);
    assert(routine.status == RoutineStatus::Active);
    let at = crate::routine_materializer::probe(
        crate::routine_materializer::turns(start, excluded, order, fires, now, i as nat).routines,
        excluded,
        order[i],
    );
    if let Some((revision, anchor)) = at {
        assert(crate::routine_materializer::foretold(
            evaluator,
            crate::routine_materializer::expression_of(revision),
            anchor,
            fires[i],
            now,
        ));
        assert(fires[i].next == next_fire(
            crate::routine_materializer::expression_of(revision)@,
            anchor,
        ));
    }
}

/// Every routine that is due is among those of the list.
pub open spec fn all_due(
    state: Routines,
    excluded: Seq<Seq<char>>,
    next_fire: spec_fn(Seq<char>, u64) -> Option<u64>,
    now: u64,
    due: Seq<Routine>,
) -> bool {
    forall|key: Seq<char>| #[trigger]
        state.routines.contains_key(key) && falls_due(
            state,
            excluded,
            next_fire,
            now,
            state.routines[key],
        ) ==> due.contains(state.routines[key])
}

/// A tick is complete: it adds exactly one wake for every active routine that is not excluded, whose
/// current revision is stored and recurs, and whose next fire is not in the future, and no other
/// wake. It counts the wakes that it added.
pub proof fn law_every_due_routine_is_woken_once<F: Fn(&String, u64) -> Option<u64>>(
    evaluator: F,
    next_fire: spec_fn(Seq<char>, u64) -> Option<u64>,
    start: Progress,
    excluded: Seq<Seq<char>>,
    now: u64,
    count: usize,
    routines: Routines,
    wakes: Seq<Wake>,
)
    requires
        start.enqueued == 0,
        crate::routine_repository::keyed(start.routines),
        crate::routine_materializer::computes(evaluator, next_fire),
        crate::routine_materializer::materialized(
            start,
            excluded,
            now,
            evaluator,
            Ok(count),
            routines,
            wakes,
        ),
    ensures
        exists|due: Seq<Routine>|
            {
                &&& #[trigger] due_once(start.routines, excluded, next_fire, now, due)
                &&& all_due(start.routines, excluded, next_fire, now, due)
                &&& woken(start.routines, next_fire, due, start.wakes, wakes)
                &&& due.len() == count
            },
{
    let (order, fires) = choose|order: Seq<Routine>, fires: Seq<Fire>|
        {
            &&& crate::table::lists(
                order,
                start.routines.routines,
                |routine: Routine| crate::routine_materializer::is_active(routine),
            )
            &&& fires.len() == order.len()
            &&& crate::routine_materializer::answered(
                evaluator,
                start,
                excluded,
                order,
                fires,
                now,
                order.len(),
            )
            &&& #[trigger] crate::routine_materializer::turns(
                start,
                excluded,
                order,
                fires,
                now,
                order.len(),
            ) == (Progress { routines, wakes, enqueued: count as nat })
        };
    let due = lemma_turns_wake_the_due(
        evaluator,
        next_fire,
        start,
        excluded,
        order,
        fires,
        now,
        order.len(),
        order.len(),
    );
    crate::routine_materializer::lemma_listed_distinct(start.routines, order);
    assert forall|key: Seq<char>| #[trigger]
        start.routines.routines.contains_key(key) && falls_due(
            start.routines,
            excluded,
            next_fire,
            now,
            start.routines.routines[key],
        ) implies due.contains(start.routines.routines[key]) by {
        assert(crate::routine_materializer::is_active(start.routines.routines[key]));
        let i = choose|i: int| 0 <= i < order.len() && order[i] == start.routines.routines[key];
        assert(due.contains(order[i]));
    }
}

/// A due routine whose target no other due routine has gets exactly one wake for that target: there
/// is one among those that the tick added, with the time of its fire, and there is no second.
pub proof fn law_due_routine_gets_one_wake<F: Fn(&String, u64) -> Option<u64>>(
    evaluator: F,
    next_fire: spec_fn(Seq<char>, u64) -> Option<u64>,
    start: Progress,
    excluded: Seq<Seq<char>>,
    now: u64,
    count: usize,
    routines: Routines,
    wakes: Seq<Wake>,
    key: Seq<char>,
) -> (p: int)
    requires
        start.enqueued == 0,
        crate::routine_repository::keyed(start.routines),
        crate::routine_materializer::computes(evaluator, next_fire),
        crate::routine_materializer::materialized(
            start,
            excluded,
            now,
            evaluator,
            Ok(count),
            routines,
            wakes,
        ),
        start.routines.routines.contains_key(key),
        falls_due(start.routines, excluded, next_fire, now, start.routines.routines[key]),
        forall|other: Seq<char>| #[trigger]
            start.routines.routines.contains_key(other) && other != key && falls_due(
                start.routines,
                excluded,
                next_fire,
                now,
                start.routines.routines[other],
            ) ==> current_revision(
                start.routines,
                start.routines.routines[other],
            ).target_work_item_id != current_revision(
                start.routines,
                start.routines.routines[key],
            ).target_work_item_id,
    ensures
        start.wakes.len() <= p < wakes.len(),
        is_wake_of(start.routines, next_fire, start.routines.routines[key], wakes[p]),
        forall|q: int|
            start.wakes.len() <= q < wakes.len() && q != p ==> (#[trigger] wakes[q]).work_item_id
                != wakes[p].work_item_id,
{
    law_every_due_routine_is_woken_once(
        evaluator,
        next_fire,
        start,
        excluded,
        now,
        count,
        routines,
        wakes,
    );
    let due = choose|due: Seq<Routine>|
        {
            &&& #[trigger] due_once(start.routines, excluded, next_fire, now, due)
            &&& all_due(start.routines, excluded, next_fire, now, due)
            &&& woken(start.routines, next_fire, due, start.wakes, wakes)
            &&& due.len() == count
        };
    let routine = start.routines.routines[key];
    assert(due.contains(routine));
    let i = choose|i: int| 0 <= i < due.len() && due[i] == routine;
    let p: int = start.wakes.len() + i;
    assert(is_wake_of(start.routines, next_fire, due[i], wakes[p]));
    assert forall|q: int| start.wakes.len() <= q < wakes.len() && q != p implies (
    #[trigger] wakes[q]).work_item_id != wakes[p].work_item_id by {
        let k: int = q - start.wakes.len();
        assert(is_wake_of(start.routines, next_fire, due[k], wakes[start.wakes.len() + k]));
        let other = due[k].id.value@;
        assert(start.routines.routines.contains_key(other));
        if k < i {
            assert(due[k].id.value@ != due[i].id.value@);
        } else {
            assert(due[i].id.value@ != due[k].id.value@);
        }
        assert(routine.id.value@ == key);
    }
    p
}

/// A tick that fails still wakes no one but due routines, each at most once, and counts on the
/// wakes that were there.
pub proof fn law_failed_tick_wakes_only_due_routines<F: Fn(&String, u64) -> Option<u64>>(
    evaluator: F,
    next_fire: spec_fn(Seq<char>, u64) -> Option<u64>,
    start: Progress,
    excluded: Seq<Seq<char>>,
    now: u64,
    error: RoutineMaterializationError,
    routines: Routines,
    wakes: Seq<Wake>,
)
    requires
        crate::routine_repository::keyed(start.routines),
        crate::routine_materializer::computes(evaluator, next_fire),
        crate::routine_materializer::materialized(
            start,
            excluded,
            now,
            evaluator,
            Err(error),
            routines,
            wakes,
        ),
    ensures
        exists|due: Seq<Routine>|
            #[trigger] due_once(start.routines, excluded, next_fire, now, due) && woken(
                start.routines,
                next_fire,
                due,
                start.wakes,
                wakes,
            ),
{
    let (order, fires, count) = choose|order: Seq<Routine>, fires: Seq<Fire>, count: nat|
        {
            &&& count <= order.len()
            &&& order.len() > 0 ==> crate::table::lists(
                order,
                start.routines.routines,
                |routine: Routine| crate::routine_materializer::is_active(routine),
            )
            &&& crate::routine_materializer::foreseen(
                evaluator,
                start,
                excluded,
                order,
                fires,
                now,
                count,
            )
            &&& #[trigger] crate::routine_materializer::stopped(
                start,
                excluded,
                order,
                fires,
                now,
                count,
                routines,
                wakes,
            )
        };
    let reached = crate::routine_materializer::turns(start, excluded, order, fires, now, count);
    if order.len() == 0 {
        let none = Seq::<Routine>::empty();
        assert(start.wakes.take(start.wakes.len() as int) =~= start.wakes);
        assert(due_once(start.routines, excluded, next_fire, now, none));
        assert(woken(start.routines, next_fire, none, start.wakes, wakes));
    } else {
        let told = if fires.len() > count {
            count + 1
        } else {
            count
        };
        if wakes == reached.wakes {
            let due = lemma_turns_wake_the_due(
                evaluator,
                next_fire,
                start,
                excluded,
                order,
                fires,
                now,
                count,
                told,
            );
            assert(due_once(start.routines, excluded, next_fire, now, due));
        } else {
            let due = lemma_turns_wake_the_due(
                evaluator,
                next_fire,
                start,
                excluded,
                order,
                fires,
                now,
                count + 1,
                told,
            );
            assert(due_once(start.routines, excluded, next_fire, now, due));
        }
    }
}

/// Along a path of fires none comes before the first.
proof fn lemma_path_rises<F: Fn(&String, u64) -> Option<u64>>(
    evaluator: F,
    expression: String,
    path: Seq<u64>,
    now: u64,
    i: int,
)
    requires
        crate::routine_materializer::is_path(evaluator, expression, path, now),
        0 <= i < path.len(),
    ensures
        path[0] <= path[i],
        i > 0 ==> path[i] <= now,
    decreases i,
{
    if i > 0 {
        lemma_path_rises(evaluator, expression, path, now, i - 1);
        let before: int = i - 1;
        assert(path[before] < path[before + 1] <= now);
    }
}

/// The latest fire lies after the anchor and not after now, and the one after it is in the future.
proof fn lemma_latest_lies_between<F: Fn(&String, u64) -> Option<u64>>(
    evaluator: F,
    next_fire: spec_fn(Seq<char>, u64) -> Option<u64>,
    expression: String,
    anchor: u64,
    fire: Fire,
    now: u64,
)
    requires
        crate::routine_materializer::computes(evaluator, next_fire),
        crate::routine_materializer::fires_later(next_fire, now),
        crate::routine_materializer::foretold(evaluator, expression, anchor, fire, now),
        fire.next is Some,
        fire.next->0 <= now,
    ensures
        anchor < fire.latest <= now,
        fire.latest <= i64::MAX,
        next_fire(expression@, fire.latest) is Some ==> next_fire(expression@, fire.latest)->0
            > now,
{
    crate::routine_materializer::lemma_latest_is_last(
        evaluator,
        next_fire,
        expression,
        anchor,
        fire,
        now,
    );
    let path = choose|path: Seq<u64>| #[trigger]
        crate::routine_materializer::is_path(evaluator, expression, path, now) && path[0]
            == fire.next->0 && path.last() == fire.latest;
    lemma_path_rises(evaluator, expression, path, now, path.len() - 1);
    assert(next_fire(expression@, anchor) == fire.next);
}

/// What the turns of all routines leave of the anchor of a listed one.
proof fn lemma_anchor_of_listed<F: Fn(&String, u64) -> Option<u64>>(
    evaluator: F,
    next_fire: spec_fn(Seq<char>, u64) -> Option<u64>,
    start: Progress,
    excluded: Seq<Seq<char>>,
    order: Seq<Routine>,
    fires: Seq<Fire>,
    now: u64,
    i: int,
)
    requires
        crate::routine_repository::keyed(start.routines),
        crate::routine_materializer::computes(evaluator, next_fire),
        crate::routine_materializer::fires_later(next_fire, now),
        crate::table::lists(
            order,
            start.routines.routines,
            |routine: Routine| crate::routine_materializer::is_active(routine),
        ),
        fires.len() == order.len(),
        crate::routine_materializer::answered(
            evaluator,
            start,
            excluded,
            order,
            fires,
            now,
            order.len(),
        ),
        0 <= i < order.len(),
    ensures
        ({
            let end = crate::routine_materializer::turns(
                start,
                excluded,
                order,
                fires,
                now,
                order.len(),
            ).routines;
            let routine = order[i];
            let here = crate::routine_materializer::fire_at(end, routine.id.value@);
            if falls_due(start.routines, excluded, next_fire, now, routine) {
                let expression = current_revision(
                    start.routines,
                    routine,
                ).trigger->cron_expression@;
                &&& here is Some
                &&& counts_from(start.routines, routine) < here->0 <= now
                &&& next_fire(expression, here->0) is Some ==> next_fire(expression, here->0)->0
                    > now
            } else {
                here == crate::routine_materializer::fire_at(start.routines, routine.id.value@)
            }
        }),
{
    crate::routine_materializer::lemma_listed_distinct(start.routines, order);
    crate::routine_materializer::lemma_turns_effect(
        start,
        excluded,
        order,
        fires,
        now,
        order.len(),
    );
    lemma_due_at_turn(
        evaluator,
        next_fire,
        start,
        excluded,
        order,
        fires,
        now,
        order.len(),
        i,
    );
    let routine = order[i];
    if falls_due(start.routines, excluded, next_fire, now, routine) {
        lemma_latest_lies_between(
            evaluator,
            next_fire,
            current_revision(start.routines, routine).trigger->cron_expression,
            counts_from(start.routines, routine),
            fires[i],
            now,
        );
    }
}

/// A tick moves the anchor of exactly the due routines, each to its latest fire that is not in the
/// future: the anchor lies after the old one, not after now, and the next fire after it is in the
/// future. It changes no routine and no revision.
pub proof fn law_tick_moves_the_anchors_of_the_due<F: Fn(&String, u64) -> Option<u64>>(
    evaluator: F,
    next_fire: spec_fn(Seq<char>, u64) -> Option<u64>,
    start: Progress,
    excluded: Seq<Seq<char>>,
    now: u64,
    count: usize,
    routines: Routines,
    wakes: Seq<Wake>,
    key: Seq<char>,
)
    requires
        crate::routine_repository::keyed(start.routines),
        crate::routine_materializer::computes(evaluator, next_fire),
        crate::routine_materializer::fires_later(next_fire, now),
        crate::routine_materializer::materialized(
            start,
            excluded,
            now,
            evaluator,
            Ok(count),
            routines,
            wakes,
        ),
        start.routines.routines.contains_key(key),
    ensures
        routines.routines == start.routines.routines,
        routines.revisions == start.routines.revisions,
        ({
            let routine = start.routines.routines[key];
            if falls_due(start.routines, excluded, next_fire, now, routine) {
                let expression = current_revision(
                    start.routines,
                    routine,
                ).trigger->cron_expression@;
                &&& routines.fires.contains_key(key)
                &&& counts_from(start.routines, routine) < routines.fires[key] <= now
                &&& next_fire(expression, routines.fires[key]) is Some ==> next_fire(
                    expression,
                    routines.fires[key],
                )->0 > now
            } else {
                &&& routines.fires.contains_key(key) == start.routines.fires.contains_key(key)
                &&& routines.fires.contains_key(key) ==> routines.fires[key]
                    == start.routines.fires[key]
            }
        }),
{
    let (order, fires) = choose|order: Seq<Routine>, fires: Seq<Fire>|
        {
            &&& crate::table::lists(
                order,
                start.routines.routines,
                |routine: Routine| crate::routine_materializer::is_active(routine),
            )
            &&& fires.len() == order.len()
            &&& crate::routine_materializer::answered(
                evaluator,
                start,
                excluded,
                order,
                fires,
                now,
                order.len(),
            )
            &&& #[trigger] crate::routine_materializer::turns(
                start,
                excluded,
                order,
                fires,
                now,
                order.len(),
            ) == (Progress { routines, wakes, enqueued: count as nat })
        };
    crate::routine_materializer::lemma_listed_distinct(start.routines, order);
    crate::routine_materializer::lemma_turns_effect(
        start,
        excluded,
        order,
        fires,
        now,
        order.len(),
    );
    let routine = start.routines.routines[key];
    assert(routine.id.value@ == key);
    if crate::routine_materializer::is_active(routine) {
        let i = choose|i: int| 0 <= i < order.len() && order[i] == routine;
        lemma_anchor_of_listed(
            evaluator,
            next_fire,
            start,
            excluded,
            order,
            fires,
            now,
            i,
        );
    } else {
        assert forall|i: int| 0 <= i < order.len() implies (#[trigger] order[i]).id.value@
            != key by {
            if order[i].id.value@ == key {
                assert(crate::routine_materializer::is_active(order[i]));
            }
        }
        assert(crate::routine_materializer::fire_at(routines, key)
            == crate::routine_materializer::fire_at(start.routines, key));
    }
}

} // verus!
