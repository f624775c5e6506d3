//! What holds of snapshots that are repeated or resumed.
use vstd::prelude::*;
use crate::cron_automation_transfer::{
    CronAutomationRecord, Faults, Mapping, SnapshotReport, SnapshotStamp, Standing,
    TransferAttribution, TransferError, INCOMPATIBLE, MAPPED,
};
use crate::routine_repository::Routines;
use crate::work_item_repository::WorkItems;

verus! {

/// How many of the first `count` automations have a mapping of this disposition.
pub open spec fn disposed(
    mappings: Map<Seq<char>, Mapping>,
    automations: Seq<CronAutomationRecord>,
    disposition: Seq<char>,
    count: nat,
) -> nat
    decreases count,
{
    if count == 0 {
        0
    } else {
        let key = automations[count - 1].id@;
        disposed(mappings, automations, disposition, (count - 1) as nat) + if mappings.contains_key(
            key,
        ) && mappings[key].disposition == disposition {
            1nat
        } else {
            0
        }
    }
}

/// The standing of a snapshot that begins.
pub open spec fn beginning(
    mappings: Map<Seq<char>, Mapping>,
    work: WorkItems,
    routines: Routines,
) -> Standing {
    Standing { mappings, work, routines, newly_mapped: 0, already_mapped: 0, incompatible: 0 }
}

/// The two dispositions differ.
proof fn lemma_dispositions_differ()
    ensures
        MAPPED@ != INCOMPATIBLE@,
{
    reveal_strlit("mapped");
    reveal_strlit("incompatible");
    assert("mapped"@.len() != "incompatible"@.len());
}

/// A run counts the dispositions that it leaves.
proof fn lemma_run_counts(
    trace: Seq<Standing>,
    automations: Seq<CronAutomationRecord>,
    attribution: TransferAttribution,
    stamps: Seq<SnapshotStamp>,
    count: nat,
    to: nat,
)
    requires
        crate::cron_automation_transfer::snapshot_run(
            trace,
            automations,
            attribution,
            stamps,
            count,
        ),
        to <= count,
        trace[0].newly_mapped == 0,
        trace[0].already_mapped == 0,
        trace[0].incompatible == 0,
    ensures
        trace[to as int].newly_mapped + trace[to as int].already_mapped == disposed(
            trace[count as int].mappings,
            automations,
            MAPPED@,
            to,
        ),
        trace[to as int].incompatible == disposed(
            trace[count as int].mappings,
            automations,
            INCOMPATIBLE@,
            to,
        ),
    decreases to,
{
    if to > 0 {
        let last = (to - 1) as nat;
        lemma_run_counts(trace, automations, attribution, stamps, count, last);
        assert(crate::cron_automation_transfer::leads_on(
            trace,
            automations,
            attribution,
            stamps,
            last as int,
        ));
        crate::cron_automation_transfer::law_snapshot_keeps_mappings(
            trace,
            automations,
            attribution,
            stamps,
            count,
            to as int,
            count as int,
            automations[last as int].id@,
        );
        lemma_dispositions_differ();
    }
}

/// The automation has a mapping that is neither mapped nor incompatible.
pub open spec fn is_undisposed(
    mappings: Map<Seq<char>, Mapping>,
    automation: CronAutomationRecord,
) -> bool {
    &&& mappings.contains_key(automation.id@)
    &&& mappings[automation.id@].disposition != MAPPED@
    &&& mappings[automation.id@].disposition != INCOMPATIBLE@
}

/// How many of the first `count` automations have a mapping that is neither mapped nor
/// incompatible.
pub open spec fn undisposed(
    mappings: Map<Seq<char>, Mapping>,
    automations: Seq<CronAutomationRecord>,
    count: nat,
) -> nat
    decreases count,
{
    if count == 0 {
        0
    } else {
        undisposed(mappings, automations, (count - 1) as nat) + if is_undisposed(
            mappings,
            automations[count - 1],
        ) {
            1nat
        } else {
            0
        }
    }
}

/// Where no row of an automation is neither mapped nor incompatible, none is counted as such.
proof fn lemma_nothing_undisposed(
    mappings: Map<Seq<char>, Mapping>,
    automations: Seq<CronAutomationRecord>,
    count: nat,
)
    requires
        count <= automations.len(),
        forall|i: int|
            0 <= i < automations.len() ==> !is_undisposed(mappings, #[trigger] automations[i]),
    ensures
        undisposed(mappings, automations, count) == 0,
    decreases count,
{
    if count > 0 {
        lemma_nothing_undisposed(mappings, automations, (count - 1) as nat);
        assert(!is_undisposed(mappings, automations[count - 1]));
    }
}

/// A run counts every automation that it came to, but for those with another disposition, and adds
/// mappings that are mapped or incompatible.
proof fn lemma_run_disposes(
    trace: Seq<Standing>,
    automations: Seq<CronAutomationRecord>,
    attribution: TransferAttribution,
    stamps: Seq<SnapshotStamp>,
    count: nat,
    to: nat,
)
    requires
        crate::cron_automation_transfer::snapshot_run(
            trace,
            automations,
            attribution,
            stamps,
            count,
        ),
        to <= count,
    ensures
        forall|automation: CronAutomationRecord|
            #![trigger is_undisposed(trace[to as int].mappings, automation)]
            is_undisposed(trace[to as int].mappings, automation) == is_undisposed(
                trace[0].mappings,
                automation,
            ),
        trace[to as int].newly_mapped + trace[to as int].already_mapped
            + trace[to as int].incompatible + undisposed(trace[0].mappings, automations, to)
            == trace[0].newly_mapped + trace[0].already_mapped + trace[0].incompatible + to,
    decreases to,
{
    if to > 0 {
        let last = (to - 1) as nat;
        lemma_run_disposes(trace, automations, attribution, stamps, count, last);
        assert(crate::cron_automation_transfer::leads_on(
            trace,
            automations,
            attribution,
            stamps,
            last as int,
        ));
        lemma_dispositions_differ();
        assert(is_undisposed(trace[last as int].mappings, automations[last as int])
            == is_undisposed(trace[0].mappings, automations[last as int]));
        assert forall|automation: CronAutomationRecord|
            #![trigger is_undisposed(trace[to as int].mappings, automation)]
            is_undisposed(trace[to as int].mappings, automation) == is_undisposed(
                trace[0].mappings,
                automation,
            ) by {
            assert(is_undisposed(trace[last as int].mappings, automation) == is_undisposed(
                trace[0].mappings,
                automation,
            ));
        }
    }
}

/// The run behind a snapshot that succeeded.
proof fn lemma_run_of(
    start: Standing,
    automations: Seq<CronAutomationRecord>,
    attribution: TransferAttribution,
    faults: Faults,
    report: SnapshotReport,
    mappings: Map<Seq<char>, Mapping>,
    work: WorkItems,
    routines: Routines,
) -> (r: (Seq<Standing>, Seq<SnapshotStamp>))
    requires
        crate::cron_automation_transfer::snapshot_result(
            start,
            automations,
            attribution,
            faults,
            Ok(report),
            mappings,
            work,
            routines,
        ),
    ensures
        crate::cron_automation_transfer::snapshot_run(
            r.0,
            automations,
            attribution,
            r.1,
            automations.len(),
        ),
        (r.0)[0] == start,
        (r.0).last() == (Standing {
            mappings,
            work,
            routines,
            newly_mapped: report.newly_mapped as nat,
            already_mapped: report.already_mapped as nat,
            incompatible: report.incompatible as nat,
        }),
        report.total_active == automations.len(),
{
    choose|trace: Seq<Standing>, stamps: Seq<SnapshotStamp>|
        {
            &&& #[trigger] crate::cron_automation_transfer::snapshot_run(
                trace,
                automations,
                attribution,
                stamps,
                automations.len(),
            )
            &&& trace[0] == start
            &&& trace.last() == (Standing {
                mappings,
                work,
                routines,
                newly_mapped: report.newly_mapped as nat,
                already_mapped: report.already_mapped as nat,
                incompatible: report.incompatible as nat,
            })
        }
}

/// The counts of a snapshot add up: each active automation is counted once, but for those whose
/// mapping is neither mapped nor incompatible. Where no active automation has such a mapping, the
/// three counts make up the total.
pub proof fn law_counts_add_up(
    mappings: Map<Seq<char>, Mapping>,
    work: WorkItems,
    routines: Routines,
    automations: Seq<CronAutomationRecord>,
    attribution: TransferAttribution,
    faults: Faults,
    report: SnapshotReport,
    mappings_after: Map<Seq<char>, Mapping>,
    work_after: WorkItems,
    routines_after: Routines,
)
    requires
        crate::cron_automation_transfer::snapshot_result(
            beginning(mappings, work, routines),
            automations,
            attribution,
            faults,
            Ok(report),
            mappings_after,
            work_after,
            routines_after,
        ),
    ensures
        report.total_active == report.newly_mapped + report.already_mapped + report.incompatible
            + undisposed(mappings, automations, automations.len()),
        (forall|i: int|
            0 <= i < automations.len() ==> !is_undisposed(mappings, #[trigger] automations[i]))
            ==> report.total_active == report.newly_mapped + report.already_mapped
            + report.incompatible,
{
    let n = automations.len();
    let (trace, stamps) = lemma_run_of(
        beginning(mappings, work, routines),
        automations,
        attribution,
        faults,
        report,
        mappings_after,
        work_after,
        routines_after,
    );
    lemma_run_disposes(trace, automations, attribution, stamps, n, n);
    if forall|i: int|
        0 <= i < automations.len() ==> !is_undisposed(mappings, #[trigger] automations[i]) {
        lemma_nothing_undisposed(mappings, automations, n);
    }
}

/// A run keeps the projects.
proof fn lemma_run_keeps_projects(
    trace: Seq<Standing>,
    automations: Seq<CronAutomationRecord>,
    attribution: TransferAttribution,
    stamps: Seq<SnapshotStamp>,
    count: nat,
    to: nat,
)
    requires
        crate::cron_automation_transfer::snapshot_run(
            trace,
            automations,
            attribution,
            stamps,
            count,
        ),
        to <= count,
    ensures
        trace[to as int].work.projects == trace[0].work.projects,
    decreases to,
{
    if to > 0 {
        let last = (to - 1) as nat;
        lemma_run_keeps_projects(trace, automations, attribution, stamps, count, last);
        assert(crate::cron_automation_transfer::leads_on(
            trace,
            automations,
            attribution,
            stamps,
            last as int,
        ));
    }
}

/// A snapshot that is repeated over the same automations writes nothing and counts the same: what
/// was newly mapped is mapped already, and what was incompatible still is. Unless a store fails, it
/// succeeds.
pub proof fn law_rerun_counts_the_same(
    start: (Map<Seq<char>, Mapping>, WorkItems, Routines),
    automations: Seq<CronAutomationRecord>,
    attribution: TransferAttribution,
    faults: Faults,
    first: SnapshotReport,
    mappings: Map<Seq<char>, Mapping>,
    work: WorkItems,
    routines: Routines,
    again: Result<SnapshotReport, TransferError>,
    mappings_again: Map<Seq<char>, Mapping>,
    work_again: WorkItems,
    routines_again: Routines,
)
    requires
        crate::cron_automation_transfer::snapshot_result(
            beginning(start.0, start.1, start.2),
            automations,
            attribution,
            faults,
            Ok(first),
            mappings,
            work,
            routines,
        ),
        crate::cron_automation_transfer::snapshot_result(
            beginning(mappings, work, routines),
            automations,
            attribution,
            faults,
            again,
            mappings_again,
            work_again,
            routines_again,
        ),
    ensures
        mappings_again == mappings,
        work_again == work,
        routines_again == routines,
        match again {
            Ok(second) => {
                &&& second.total_active == first.total_active
                &&& second.newly_mapped == 0
                &&& second.already_mapped == first.newly_mapped + first.already_mapped
                &&& second.incompatible == first.incompatible
            },
            Err(TransferError::Database { .. }) => faults.mappings,
            Err(error) => error is ProjectResolution && faults.rows,
        },
{
    let (trace, stamps) = lemma_run_of(
        beginning(start.0, start.1, start.2),
        automations,
        attribution,
        faults,
        first,
        mappings,
        work,
        routines,
    );
    let n = automations.len();
    let second_start = beginning(mappings, work, routines);
    lemma_run_counts(trace, automations, attribution, stamps, n, n);
    lemma_run_keeps_projects(trace, automations, attribution, stamps, n, n);
    assert forall|i: int| 0 <= i < n implies mappings.contains_key((#[trigger] automations[i]).id@)
        && mappings[automations[i].id@].content_hash
        == crate::cron_automation_transfer::content_digest(automations[i]) by {
        crate::cron_automation_transfer::law_snapshot_accounts_for_every_automation(
            trace,
            automations,
            attribution,
            stamps,
            i,
        );
    }
    match again {
        Ok(second) => {
            let (later, later_stamps) = lemma_run_of(
                second_start,
                automations,
                attribution,
                faults,
                second,
                mappings_again,
                work_again,
                routines_again,
            );
            crate::cron_automation_transfer::law_rerun_writes_nothing(
                later,
                automations,
                attribution,
                later_stamps,
                n,
            );
            lemma_run_counts(later, automations, attribution, later_stamps, n, n);
        },
        Err(TransferError::AutomationChanged { automation_id }) => {
            let (later, later_stamps, count) = choose|
                later: Seq<Standing>,
                later_stamps: Seq<SnapshotStamp>,
                count: nat,
            |
                {
                    &&& #[trigger] crate::cron_automation_transfer::snapshot_run(
                        later,
                        automations,
                        attribution,
                        later_stamps,
                        count,
                    )
                    &&& count < automations.len()
                    &&& later[0] == second_start
                    &&& crate::cron_automation_transfer::is_changed(
                        later.last().mappings,
                        automations[count as int],
                    )
                    &&& automation_id == automations[count as int].id
                    &&& mappings_again == later.last().mappings
                    &&& work_again == later.last().work
                    &&& routines_again == later.last().routines
                };
            crate::cron_automation_transfer::law_rerun_writes_nothing(
                later,
                automations,
                attribution,
                later_stamps,
                count,
            );
        },
        Err(TransferError::Database { reason }) => {
            let (later, later_stamps, count, stamp) = choose|
                later: Seq<Standing>,
                later_stamps: Seq<SnapshotStamp>,
                count: nat,
                stamp: SnapshotStamp,
            |
                {
                    &&& #[trigger] crate::cron_automation_transfer::snapshot_run(
                        later,
                        automations,
                        attribution,
                        later_stamps,
                        count,
                    )
                    &&& count < automations.len()
                    &&& crate::cron_automation_transfer::by_the_clock(stamp)
                    &&& later[0] == second_start
                    &&& #[trigger] crate::cron_automation_transfer::step_interrupted(
                        later.last(),
                        automations[count as int],
                        attribution,
                        stamp,
                        reason,
                        faults.mappings,
                        work_again,
                        routines_again,
                    )
                    &&& mappings_again == later.last().mappings
                };
            crate::cron_automation_transfer::law_rerun_writes_nothing(
                later,
                automations,
                attribution,
                later_stamps,
                count,
            );
        },
        _ => {},
    }
}

/// No two of the automations share an identifier.
pub open spec fn distinct_ids(automations: Seq<CronAutomationRecord>) -> bool {
    forall|i: int, j: int|
        0 <= i < automations.len() && 0 <= j < automations.len() && i != j ==> (
        #[trigger] automations[i]).id@ != (#[trigger] automations[j]).id@
}

/// Nothing stands in the way of an automation: its content did not change after it was mapped, and
/// where it has no mapping and can have one, its rows can be created or adopted.
pub open spec fn is_clear(
    mappings: Map<Seq<char>, Mapping>,
    work: WorkItems,
    routines: Routines,
    automation: CronAutomationRecord,
    attribution: TransferAttribution,
) -> bool {
    &&& !crate::cron_automation_transfer::is_changed(mappings, automation)
    &&& mappings.contains_key(automation.id@)
        || crate::cron_automation_transfer::incompatible_reason(automation.schedule) is Some
        || !crate::cron_automation_transfer::mapping_refused(work, routines, automation, attribution)
}

/// What the turn of an automation can have done to the work items and the routines.
pub open spec fn is_touched(
    work: WorkItems,
    routines: Routines,
    automation: CronAutomationRecord,
    attribution: TransferAttribution,
    stamp: SnapshotStamp,
    work_after: WorkItems,
    routines_after: Routines,
) -> bool {
    &&& work_after == work || crate::cron_automation_transfer::item_adopted(
        work,
        automation,
        attribution,
        stamp,
        work_after,
    )
    &&& routines_after == routines || crate::cron_automation_transfer::routine_adopted(
        routines,
        automation,
        attribution,
        stamp,
        routines_after,
    ) || crate::cron_automation_transfer::intent_adopted(
        routines,
        automation,
        attribution,
        stamp,
        routines_after,
    )
}

/// Every row that was there is there.
pub open spec fn keeps_rows(
    work: WorkItems,
    routines: Routines,
    work_after: WorkItems,
    routines_after: Routines,
) -> bool {
    &&& work_after.projects == work.projects
    &&& forall|key: Seq<char>| #[trigger]
        work.items.contains_key(key) ==> work_after.items.contains_key(key)
            && work_after.items[key] == work.items[key]
    &&& forall|key: Seq<char>| #[trigger]
        routines.routines.contains_key(key) ==> routines_after.routines.contains_key(key)
    &&& forall|key: Seq<char>| #[trigger]
        routines.revisions.contains_key(key) ==> routines_after.revisions.contains_key(key)
            && routines_after.revisions[key] == routines.revisions[key]
}

/// The key is that of one of the automations.
pub open spec fn is_snapshot_key(
    automations: Seq<CronAutomationRecord>,
    key: Seq<char>,
) -> bool {
    exists|i: int|
        0 <= i < automations.len() && #[trigger] crate::cron_automation_transfer::snapshot_id(
            automations[i],
        ) == key
}

/// No row was added but one for each automation: each has its own key and stands there once.
pub open spec fn adds_only(
    work: WorkItems,
    routines: Routines,
    automations: Seq<CronAutomationRecord>,
    work_after: WorkItems,
    routines_after: Routines,
) -> bool {
    &&& forall|key: Seq<char>| #[trigger]
        work_after.items.contains_key(key) ==> work.items.contains_key(key) || is_snapshot_key(
            automations,
            key,
        )
    &&& forall|key: Seq<char>| #[trigger]
        routines_after.routines.contains_key(key) ==> routines.routines.contains_key(key)
            || is_snapshot_key(automations, key)
}

/// Different automations are mapped to different rows.
pub proof fn lemma_rows_differ(a: CronAutomationRecord, b: CronAutomationRecord)
    requires
        a.id@ != b.id@,
    ensures
        crate::cron_automation_transfer::snapshot_id(a)
            != crate::cron_automation_transfer::snapshot_id(b),
{
    let head = "snap_"@;
    assert((head + a.id@).skip(head.len() as int) =~= a.id@);
    assert((head + b.id@).skip(head.len() as int) =~= b.id@);
}

/// A turn keeps every row, and touches no routine but its own.
pub proof fn lemma_turn_keeps_rows(
    work: WorkItems,
    routines: Routines,
    automation: CronAutomationRecord,
    attribution: TransferAttribution,
    stamp: SnapshotStamp,
    work_after: WorkItems,
    routines_after: Routines,
)
    requires
        crate::routine_repository::keyed(routines),
        is_touched(
            work,
            routines,
            automation,
            attribution,
            stamp,
            work_after,
            routines_after,
        ),
    ensures
        crate::routine_repository::keyed(routines_after),
        keeps_rows(work, routines, work_after, routines_after),
        forall|key: Seq<char>|
            key != crate::cron_automation_transfer::snapshot_id(automation) ==> (
            #[trigger] work_after.items.contains_key(key) <==> work.items.contains_key(key)),
        forall|key: Seq<char>|
            key != crate::cron_automation_transfer::snapshot_id(automation) ==> {
                &&& #[trigger] routines_after.routines.contains_key(key)
                    <==> routines.routines.contains_key(key)
                &&& routines.routines.contains_key(key) ==> routines_after.routines[key]
                    == routines.routines[key]
            },
{
    if crate::cron_automation_transfer::intent_adopted(
        routines,
        automation,
        attribution,
        stamp,
        routines_after,
    ) {
        let (between, revision, routine) = choose|
            between: Routines,
            revision: crate::routine_repository::RoutineRevision,
            routine: crate::routine_repository::Routine,
        |
            {
                &&& #[trigger] crate::cron_automation_transfer::routine_adopted(
                    routines,
                    automation,
                    attribution,
                    stamp,
                    between,
                )
                &&& crate::cron_automation_transfer::is_snapshot_revision(
                    revision,
                    automation,
                    stamp,
                )
                &&& #[trigger] crate::routine_repository::append_result(
                    between,
                    revision.routine_id,
                    revision,
                    Ok(routine),
                    routines_after,
                )
            };
        assert(crate::routine_repository::keyed(between));
    }
}

/// The turn of one automation clears the way of none that is another, and leaves its own clear.
proof fn lemma_turn_keeps_clear(
    mappings: Map<Seq<char>, Mapping>,
    work: WorkItems,
    routines: Routines,
    automation: CronAutomationRecord,
    attribution: TransferAttribution,
    stamp: SnapshotStamp,
    work_after: WorkItems,
    routines_after: Routines,
    other: CronAutomationRecord,
)
    requires
        crate::routine_repository::keyed(routines),
        is_touched(
            work,
            routines,
            automation,
            attribution,
            stamp,
            work_after,
            routines_after,
        ),
        other.id@ != automation.id@,
        is_clear(mappings, work, routines, other, attribution),
    ensures
        is_clear(mappings, work_after, routines_after, other, attribution),
{
    lemma_turn_keeps_rows(
        work,
        routines,
        automation,
        attribution,
        stamp,
        work_after,
        routines_after,
    );
    lemma_rows_differ(automation, other);
    let key = crate::cron_automation_transfer::snapshot_id(other);
    assert(work_after.items.contains_key(key) <==> work.items.contains_key(key));
    assert(routines_after.routines.contains_key(key) <==> routines.routines.contains_key(key));
    let revision = crate::cron_automation_transfer::snapshot_revision_id(other);
    assert(routines.revisions.contains_key(revision) ==> routines_after.revisions.contains_key(
        revision,
    ));
}

/// All automations are clear where a run stands.
pub open spec fn all_clear(
    standing: Standing,
    automations: Seq<CronAutomationRecord>,
    attribution: TransferAttribution,
) -> bool {
    forall|i: int|
        0 <= i < automations.len() ==> is_clear(
            standing.mappings,
            standing.work,
            standing.routines,
            #[trigger] automations[i],
            attribution,
        )
}

/// The turns of a run touch only what is theirs.
pub proof fn lemma_step_is_touch(
    before: Standing,
    automation: CronAutomationRecord,
    attribution: TransferAttribution,
    stamp: SnapshotStamp,
    after: Standing,
)
    requires
        crate::cron_automation_transfer::snapshot_step(
            before,
            automation,
            attribution,
            stamp,
            after,
        ),
    ensures
        is_touched(
            before.work,
            before.routines,
            automation,
            attribution,
            stamp,
            after.work,
            after.routines,
        ),
{
}

/// A run keeps every automation clear, and the rows that were there.
proof fn lemma_run_keeps_clear(
    trace: Seq<Standing>,
    automations: Seq<CronAutomationRecord>,
    attribution: TransferAttribution,
    stamps: Seq<SnapshotStamp>,
    count: nat,
    to: nat,
)
    requires
        crate::cron_automation_transfer::snapshot_run(
            trace,
            automations,
            attribution,
            stamps,
            count,
        ),
        to <= count,
        distinct_ids(automations),
        crate::routine_repository::keyed(trace[0].routines),
        all_clear(trace[0], automations, attribution),
    ensures
        crate::routine_repository::keyed(trace[to as int].routines),
        all_clear(trace[to as int], automations, attribution),
        keeps_rows(
            trace[0].work,
            trace[0].routines,
            trace[to as int].work,
            trace[to as int].routines,
        ),
        adds_only(
            trace[0].work,
            trace[0].routines,
            automations,
            trace[to as int].work,
            trace[to as int].routines,
        ),
    decreases to,
{
    if to > 0 {
        let last = to - 1;
        lemma_run_keeps_clear(trace, automations, attribution, stamps, count, last as nat);
        assert(crate::cron_automation_transfer::leads_on(
            trace,
            automations,
            attribution,
            stamps,
            last,
        ));
        let before = trace[last];
        let after = trace[to as int];
        let automation = automations[last];
        lemma_step_is_touch(before, automation, attribution, stamps[last], after);
        lemma_turn_keeps_rows(
            before.work,
            before.routines,
            automation,
            attribution,
            stamps[last],
            after.work,
            after.routines,
        );
        assert(is_snapshot_key(
            automations,
            crate::cron_automation_transfer::snapshot_id(automations[last]),
        ));
        assert forall|i: int| 0 <= i < automations.len() implies is_clear(
            after.mappings,
            after.work,
            after.routines,
            #[trigger] automations[i],
            attribution,
        ) by {
            if i != last {
                assert(automations[i].id@ != automations[last].id@);
                lemma_turn_keeps_clear(
                    before.mappings,
                    before.work,
                    before.routines,
                    automation,
                    attribution,
                    stamps[last],
                    after.work,
                    after.routines,
                    automations[i],
                );
            }
        }
    }
}

/// What an interruption leaves keeps every automation clear.
proof fn lemma_interruption_keeps_clear(
    before: Standing,
    automations: Seq<CronAutomationRecord>,
    at: int,
    attribution: TransferAttribution,
    stamp: SnapshotStamp,
    reason: String,
    fallible: bool,
    work: WorkItems,
    routines: Routines,
)
    requires
        distinct_ids(automations),
        0 <= at < automations.len(),
        crate::routine_repository::keyed(before.routines),
        all_clear(before, automations, attribution),
        crate::cron_automation_transfer::step_interrupted(
            before,
            automations[at],
            attribution,
            stamp,
            reason,
            fallible,
            work,
            routines,
        ),
    ensures
        crate::routine_repository::keyed(routines),
        all_clear(beginning(before.mappings, work, routines), automations, attribution),
        work.projects == before.work.projects,
{
    let automation = automations[at];
    assert(is_touched(
        before.work,
        before.routines,
        automation,
        attribution,
        stamp,
        work,
        routines,
    ));
    lemma_turn_keeps_rows(
        before.work,
        before.routines,
        automation,
        attribution,
        stamp,
        work,
        routines,
    );
    assert forall|i: int| 0 <= i < automations.len() implies is_clear(
        before.mappings,
        work,
        routines,
        #[trigger] automations[i],
        attribution,
    ) by {
        if i != at {
            assert(automations[i].id@ != automations[at].id@);
            lemma_turn_keeps_clear(
                before.mappings,
                before.work,
                before.routines,
                automation,
                attribution,
                stamp,
                work,
                routines,
                automations[i],
            );
        } else if !crate::cron_automation_transfer::mapping_refused(
            before.work,
            before.routines,
            automation,
            attribution,
        ) {
            crate::cron_automation_transfer::law_interrupted_mapping_resumes(
                before,
                automation,
                attribution,
                stamp,
                reason,
                fallible,
                work,
                routines,
            );
        }
    }
}

/// The automation has no mapping and can have one.
pub open spec fn is_owed(
    mappings: Map<Seq<char>, Mapping>,
    automation: CronAutomationRecord,
) -> bool {
    !mappings.contains_key(automation.id@) && crate::cron_automation_transfer::incompatible_reason(
        automation.schedule,
    ) is None
}

/// The automation is mapped, and its content did not change since.
pub open spec fn is_settled(
    mappings: Map<Seq<char>, Mapping>,
    automation: CronAutomationRecord,
) -> bool {
    mappings.contains_key(automation.id@) && !crate::cron_automation_transfer::is_changed(
        mappings,
        automation,
    )
}

/// The automation has its mapping, its work item and its routine.
pub open spec fn has_its_rows(
    mappings: Map<Seq<char>, Mapping>,
    work: WorkItems,
    routines: Routines,
    automation: CronAutomationRecord,
) -> bool {
    let key = crate::cron_automation_transfer::snapshot_id(automation);
    &&& mappings.contains_key(automation.id@)
    &&& mappings[automation.id@] == crate::cron_automation_transfer::fresh_mapping(automation)
    &&& work.items.contains_key(key)
    &&& routines.routines.contains_key(key)
}

/// How many of the first `count` automations have no mapping and can have one.
pub open spec fn owed(
    mappings: Map<Seq<char>, Mapping>,
    automations: Seq<CronAutomationRecord>,
    count: nat,
) -> nat
    decreases count,
{
    if count == 0 {
        0
    } else {
        owed(mappings, automations, (count - 1) as nat) + if is_owed(
            mappings,
            automations[count - 1],
        ) {
            1nat
        } else {
            0
        }
    }
}

/// A run over distinct automations gives a mapping to those that it came to, and counts those that
/// were owed one.
proof fn lemma_run_maps_what_is_owed(
    trace: Seq<Standing>,
    automations: Seq<CronAutomationRecord>,
    attribution: TransferAttribution,
    stamps: Seq<SnapshotStamp>,
    count: nat,
    to: nat,
)
    requires
        crate::cron_automation_transfer::snapshot_run(
            trace,
            automations,
            attribution,
            stamps,
            count,
        ),
        to <= count,
        distinct_ids(automations),
        trace[0].newly_mapped == 0,
    ensures
        trace[to as int].newly_mapped == owed(trace[0].mappings, automations, to),
        forall|i: int|
            to <= i < automations.len() ==> (trace[to as int].mappings.contains_key(
                (#[trigger] automations[i]).id@,
            ) <==> trace[0].mappings.contains_key(automations[i].id@)),
    decreases to,
{
    if to > 0 {
        let last = to - 1;
        lemma_run_maps_what_is_owed(
            trace,
            automations,
            attribution,
            stamps,
            count,
            last as nat,
        );
        assert(crate::cron_automation_transfer::leads_on(
            trace,
            automations,
            attribution,
            stamps,
            last,
        ));
        assert forall|i: int| to <= i < automations.len() implies (
        trace[to as int].mappings.contains_key((#[trigger] automations[i]).id@)
            <==> trace[0].mappings.contains_key(automations[i].id@)) by {
            assert(automations[i].id@ != automations[last].id@);
        }
    }
}

/// Where nothing stands in the way of any automation, a snapshot over stores that do not fail
/// succeeds: it counts as newly mapped exactly those that were owed a mapping, each of them has its
/// mapping, its work item and its routine, every row that was there stays, and no other is added.
pub proof fn law_clear_snapshot_succeeds(
    mappings: Map<Seq<char>, Mapping>,
    work: WorkItems,
    routines: Routines,
    automations: Seq<CronAutomationRecord>,
    attribution: TransferAttribution,
    r: Result<SnapshotReport, TransferError>,
    mappings_after: Map<Seq<char>, Mapping>,
    work_after: WorkItems,
    routines_after: Routines,
)
    requires
        distinct_ids(automations),
        crate::routine_repository::keyed(routines),
        all_clear(beginning(mappings, work, routines), automations, attribution),
        crate::cron_automation_transfer::project_resolves(work, attribution),
        crate::cron_automation_transfer::snapshot_result(
            beginning(mappings, work, routines),
            automations,
            attribution,
            crate::cron_automation_transfer::no_faults(),
            r,
            mappings_after,
            work_after,
            routines_after,
        ),
    ensures
        r matches Ok(report) && report.newly_mapped == owed(
            mappings,
            automations,
            automations.len(),
        ),
        keeps_rows(work, routines, work_after, routines_after),
        adds_only(work, routines, automations, work_after, routines_after),
        forall|i: int|
            0 <= i < automations.len() && is_owed(mappings, #[trigger] automations[i]) ==> has_its_rows(
                mappings_after,
                work_after,
                routines_after,
                automations[i],
            ),
{
    let start = beginning(mappings, work, routines);
    match r {
        Ok(report) => {
            let (trace, stamps) = lemma_run_of(
                start,
                automations,
                attribution,
                crate::cron_automation_transfer::no_faults(),
                report,
                mappings_after,
                work_after,
                routines_after,
            );
            let n = automations.len();
            lemma_run_maps_what_is_owed(trace, automations, attribution, stamps, n, n);
            lemma_run_keeps_clear(trace, automations, attribution, stamps, n, n);
            assert forall|i: int|
                0 <= i < automations.len() && is_owed(mappings, #[trigger] automations[i]) implies has_its_rows(
                mappings_after,
                work_after,
                routines_after,
                automations[i],
            ) by {
                lemma_owed_gets_its_rows(trace, automations, attribution, stamps, n, i);
            }
        },
        Err(TransferError::AutomationChanged { automation_id }) => {
            let (trace, stamps, count) = choose|
                trace: Seq<Standing>,
                stamps: Seq<SnapshotStamp>,
                count: nat,
            |
                {
                    &&& #[trigger] crate::cron_automation_transfer::snapshot_run(
                        trace,
                        automations,
                        attribution,
                        stamps,
                        count,
                    )
                    &&& count < automations.len()
                    &&& trace[0] == start
                    &&& crate::cron_automation_transfer::is_changed(
                        trace.last().mappings,
                        automations[count as int],
                    )
                    &&& automation_id == automations[count as int].id
                    &&& mappings_after == trace.last().mappings
                    &&& work_after == trace.last().work
                    &&& routines_after == trace.last().routines
                };
            lemma_run_keeps_clear(trace, automations, attribution, stamps, count, count);
            assert(is_clear(
                trace.last().mappings,
                trace.last().work,
                trace.last().routines,
                automations[count as int],
                attribution,
            ));
        },
        Err(TransferError::Database { reason }) => {
            let (trace, stamps, count, stamp) = choose|
                trace: Seq<Standing>,
                stamps: Seq<SnapshotStamp>,
                count: nat,
                stamp: SnapshotStamp,
            |
                {
                    &&& #[trigger] crate::cron_automation_transfer::snapshot_run(
                        trace,
                        automations,
                        attribution,
                        stamps,
                        count,
                    )
                    &&& count < automations.len()
                    &&& trace[0] == start
                    &&& #[trigger] crate::cron_automation_transfer::step_interrupted(
                        trace.last(),
                        automations[count as int],
                        attribution,
                        stamp,
                        reason,
                        false,
                        work_after,
                        routines_after,
                    )
                    &&& crate::cron_automation_transfer::turn_refused(
                        trace.last(),
                        automations[count as int],
                        attribution,
                    )
                };
            lemma_run_keeps_clear(trace, automations, attribution, stamps, count, count);
            assert(is_clear(
                trace.last().mappings,
                trace.last().work,
                trace.last().routines,
                automations[count as int],
                attribution,
            ));
        },
        _ => {},
    }
}

/// An automation that was owed a mapping has it once the run has passed it, with its rows.
proof fn lemma_owed_gets_its_rows(
    trace: Seq<Standing>,
    automations: Seq<CronAutomationRecord>,
    attribution: TransferAttribution,
    stamps: Seq<SnapshotStamp>,
    count: nat,
    i: int,
)
    requires
        crate::cron_automation_transfer::snapshot_run(
            trace,
            automations,
            attribution,
            stamps,
            count,
        ),
        distinct_ids(automations),
        crate::routine_repository::keyed(trace[0].routines),
        trace[0].newly_mapped == 0,
        0 <= i < count,
        is_owed(trace[0].mappings, automations[i]),
    ensures
        has_its_rows(
            trace.last().mappings,
            trace.last().work,
            trace.last().routines,
            automations[i],
        ),
        crate::routine_repository::keyed(trace.last().routines),
{
    lemma_run_maps_what_is_owed(trace, automations, attribution, stamps, count, i as nat);
    assert(crate::cron_automation_transfer::leads_on(trace, automations, attribution, stamps, i));
    crate::cron_automation_transfer::law_snapshot_keeps_mappings(
        trace,
        automations,
        attribution,
        stamps,
        count,
        i + 1,
        count as int,
        automations[i].id@,
    );
    let key = crate::cron_automation_transfer::snapshot_id(automations[i]);
    assert(trace[i + 1].work.items.contains_key(key));
    assert(trace[i + 1].routines.routines.contains_key(key));
    lemma_rows_stay(trace, automations, attribution, stamps, count, 0, i + 1);
    lemma_rows_stay(trace, automations, attribution, stamps, count, i + 1, count as int);
}

/// The rows at a place of a run are there at every later one.
pub proof fn lemma_rows_stay(
    trace: Seq<Standing>,
    automations: Seq<CronAutomationRecord>,
    attribution: TransferAttribution,
    stamps: Seq<SnapshotStamp>,
    count: nat,
    from: int,
    to: int,
)
    requires
        crate::cron_automation_transfer::snapshot_run(
            trace,
            automations,
            attribution,
            stamps,
            count,
        ),
        0 <= from <= to <= count,
        crate::routine_repository::keyed(trace[from].routines),
    ensures
        crate::routine_repository::keyed(trace[to].routines),
        keeps_rows(trace[from].work, trace[from].routines, trace[to].work, trace[to].routines),
    decreases to - from,
{
    if from < to {
        lemma_rows_stay(trace, automations, attribution, stamps, count, from, to - 1);
        assert(crate::cron_automation_transfer::leads_on(
            trace,
            automations,
            attribution,
            stamps,
            to - 1,
        ));
        lemma_step_is_touch(
            trace[to - 1],
            automations[to - 1],
            attribution,
            stamps[to - 1],
            trace[to],
        );
        lemma_turn_keeps_rows(
            trace[to - 1].work,
            trace[to - 1].routines,
            automations[to - 1],
            attribution,
            stamps[to - 1],
            trace[to].work,
            trace[to].routines,
        );
    }
}

/// A run keeps one automation clear, whatever stands in the way of the others.
proof fn lemma_run_keeps_one_clear(
    trace: Seq<Standing>,
    automations: Seq<CronAutomationRecord>,
    attribution: TransferAttribution,
    stamps: Seq<SnapshotStamp>,
    count: nat,
    to: nat,
    i: int,
)
    requires
        crate::cron_automation_transfer::snapshot_run(
            trace,
            automations,
            attribution,
            stamps,
            count,
        ),
        to <= count,
        distinct_ids(automations),
        crate::routine_repository::keyed(trace[0].routines),
        0 <= i < automations.len(),
        is_clear(
            trace[0].mappings,
            trace[0].work,
            trace[0].routines,
            automations[i],
            attribution,
        ),
    ensures
        crate::routine_repository::keyed(trace[to as int].routines),
        is_clear(
            trace[to as int].mappings,
            trace[to as int].work,
            trace[to as int].routines,
            automations[i],
            attribution,
        ),
    decreases to,
{
    if to > 0 {
        let last = to - 1;
        lemma_run_keeps_one_clear(
            trace,
            automations,
            attribution,
            stamps,
            count,
            last as nat,
            i,
        );
        assert(crate::cron_automation_transfer::leads_on(
            trace,
            automations,
            attribution,
            stamps,
            last,
        ));
        let before = trace[last];
        let after = trace[to as int];
        lemma_step_is_touch(before, automations[last], attribution, stamps[last], after);
        lemma_turn_keeps_rows(
            before.work,
            before.routines,
            automations[last],
            attribution,
            stamps[last],
            after.work,
            after.routines,
        );
        if i != last {
            assert(automations[i].id@ != automations[last].id@);
            lemma_turn_keeps_clear(
                before.mappings,
                before.work,
                before.routines,
                automations[last],
                attribution,
                stamps[last],
                after.work,
                after.routines,
                automations[i],
            );
        }
    }
}

/// Among automations of which one is owed a mapping, at least one is.
proof fn lemma_one_is_owed(
    mappings: Map<Seq<char>, Mapping>,
    automations: Seq<CronAutomationRecord>,
    count: nat,
    i: int,
)
    requires
        0 <= i < count <= automations.len(),
        is_owed(mappings, automations[i]),
    ensures
        owed(mappings, automations, count) >= 1,
    decreases count,
{
    if i < count - 1 {
        lemma_one_is_owed(mappings, automations, (count - 1) as nat, i);
    }
}

/// What a snapshot does for an automation that nothing stands in the way of: where every one before
/// it is mapped and unchanged, it has its mapping and its rows afterwards, whatever stands in the way
/// of those after it. A snapshot that succeeds counts it as newly mapped, and one that is refused is
/// not refused for it.
pub proof fn law_clear_automation_is_mapped(
    mappings: Map<Seq<char>, Mapping>,
    work: WorkItems,
    routines: Routines,
    automations: Seq<CronAutomationRecord>,
    attribution: TransferAttribution,
    r: Result<SnapshotReport, TransferError>,
    mappings_after: Map<Seq<char>, Mapping>,
    work_after: WorkItems,
    routines_after: Routines,
    at: int,
)
    requires
        distinct_ids(automations),
        crate::routine_repository::keyed(routines),
        crate::cron_automation_transfer::project_resolves(work, attribution),
        0 <= at < automations.len(),
        forall|j: int|
            0 <= j < at ==> is_settled(mappings, #[trigger] automations[j]),
        is_owed(mappings, automations[at]),
        is_clear(mappings, work, routines, automations[at], attribution),
        crate::cron_automation_transfer::snapshot_result(
            beginning(mappings, work, routines),
            automations,
            attribution,
            crate::cron_automation_transfer::no_faults(),
            r,
            mappings_after,
            work_after,
            routines_after,
        ),
    ensures
        has_its_rows(mappings_after, work_after, routines_after, automations[at]),
        r matches Ok(report) ==> report.newly_mapped >= 1,
        r matches Err(TransferError::AutomationChanged { automation_id }) ==> automation_id@
            != automations[at].id@,
{
    let start = beginning(mappings, work, routines);
    match r {
        Ok(report) => {
            let (trace, stamps) = lemma_run_of(
                start,
                automations,
                attribution,
                crate::cron_automation_transfer::no_faults(),
                report,
                mappings_after,
                work_after,
                routines_after,
            );
            let n = automations.len();
            lemma_owed_gets_its_rows(trace, automations, attribution, stamps, n, at);
            lemma_run_maps_what_is_owed(trace, automations, attribution, stamps, n, n);
            lemma_one_is_owed(mappings, automations, n, at);
        },
        Err(TransferError::AutomationChanged { automation_id }) => {
            let (trace, stamps, count) = choose|
                trace: Seq<Standing>,
                stamps: Seq<SnapshotStamp>,
                count: nat,
            |
                {
                    &&& #[trigger] crate::cron_automation_transfer::snapshot_run(
                        trace,
                        automations,
                        attribution,
                        stamps,
                        count,
                    )
                    &&& count < automations.len()
                    &&& trace[0] == start
                    &&& crate::cron_automation_transfer::is_changed(
                        trace.last().mappings,
                        automations[count as int],
                    )
                    &&& automation_id == automations[count as int].id
                    &&& mappings_after == trace.last().mappings
                    &&& work_after == trace.last().work
                    &&& routines_after == trace.last().routines
                };
            lemma_stops_after(trace, automations, attribution, stamps, count, at);
            lemma_owed_gets_its_rows(trace, automations, attribution, stamps, count, at);
            assert(automations[count as int].id@ != automations[at].id@);
        },
        Err(TransferError::Database { reason }) => {
            let (trace, stamps, count, stamp) = choose|
                trace: Seq<Standing>,
                stamps: Seq<SnapshotStamp>,
                count: nat,
                stamp: SnapshotStamp,
            |
                {
                    &&& #[trigger] crate::cron_automation_transfer::snapshot_run(
                        trace,
                        automations,
                        attribution,
                        stamps,
                        count,
                    )
                    &&& count < automations.len()
                    &&& trace[0] == start
                    &&& #[trigger] crate::cron_automation_transfer::step_interrupted(
                        trace.last(),
                        automations[count as int],
                        attribution,
                        stamp,
                        reason,
                        false,
                        work_after,
                        routines_after,
                    )
                    &&& mappings_after == trace.last().mappings
                    &&& crate::cron_automation_transfer::turn_refused(
                        trace.last(),
                        automations[count as int],
                        attribution,
                    )
                };
            lemma_stops_after(trace, automations, attribution, stamps, count, at);
            lemma_owed_gets_its_rows(trace, automations, attribution, stamps, count, at);
            let before = trace.last();
            assert(is_touched(
                before.work,
                before.routines,
                automations[count as int],
                attribution,
                stamp,
                work_after,
                routines_after,
            ));
            lemma_turn_keeps_rows(
                before.work,
                before.routines,
                automations[count as int],
                attribution,
                stamp,
                work_after,
                routines_after,
            );
        },
        _ => {},
    }
}

/// A run that stops at what the stores hold stops after an automation that is clear, where those
/// before it are settled.
proof fn lemma_stops_after(
    trace: Seq<Standing>,
    automations: Seq<CronAutomationRecord>,
    attribution: TransferAttribution,
    stamps: Seq<SnapshotStamp>,
    count: nat,
    at: int,
)
    requires
        crate::cron_automation_transfer::snapshot_run(
            trace,
            automations,
            attribution,
            stamps,
            count,
        ),
        count < automations.len(),
        distinct_ids(automations),
        crate::routine_repository::keyed(trace[0].routines),
        trace[0].newly_mapped == 0,
        0 <= at < automations.len(),
        forall|j: int|
            0 <= j < at ==> is_settled(trace[0].mappings, #[trigger] automations[j]),
        is_owed(trace[0].mappings, automations[at]),
        is_clear(
            trace[0].mappings,
            trace[0].work,
            trace[0].routines,
            automations[at],
            attribution,
        ),
        crate::cron_automation_transfer::is_changed(
            trace.last().mappings,
            automations[count as int],
        ) || crate::cron_automation_transfer::turn_refused(
            trace.last(),
            automations[count as int],
            attribution,
        ),
    ensures
        at < count,
{
    if count < at {
        assert(is_settled(trace[0].mappings, automations[count as int]));
        crate::cron_automation_transfer::law_snapshot_keeps_mappings(
            trace,
            automations,
            attribution,
            stamps,
            count,
            0,
            count as int,
            automations[count as int].id@,
        );
    } else if count == at {
        lemma_run_keeps_one_clear(trace, automations, attribution, stamps, count, count, at);
        lemma_run_maps_what_is_owed(trace, automations, attribution, stamps, count, count);
        assert(!trace.last().mappings.contains_key(automations[at].id@));
    }
}

/// The automation at which a snapshot was interrupted is resumed into the same rows, whatever stands
/// in the way of those after it: where the interruption left it as the first one without a mapping,
/// and nothing stood in its way before, the next snapshot over stores that do not fail leaves its
/// mapping, its work item and its routine, counts it as newly mapped where it succeeds, and is not
/// refused for it.
pub proof fn law_interrupted_automation_resumes(
    start: (Map<Seq<char>, Mapping>, WorkItems, Routines),
    automations: Seq<CronAutomationRecord>,
    attribution: TransferAttribution,
    faults: Faults,
    reason: String,
    mappings: Map<Seq<char>, Mapping>,
    work: WorkItems,
    routines: Routines,
    r: Result<SnapshotReport, TransferError>,
    mappings_after: Map<Seq<char>, Mapping>,
    work_after: WorkItems,
    routines_after: Routines,
    at: int,
)
    requires
        distinct_ids(automations),
        crate::routine_repository::keyed(start.2),
        crate::cron_automation_transfer::snapshot_result(
            beginning(start.0, start.1, start.2),
            automations,
            attribution,
            faults,
            Err(TransferError::Database { reason }),
            mappings,
            work,
            routines,
        ),
        0 <= at < automations.len(),
        forall|j: int|
            0 <= j < at ==> is_settled(mappings, #[trigger] automations[j]),
        is_owed(mappings, automations[at]),
        is_clear(start.0, start.1, start.2, automations[at], attribution),
        crate::cron_automation_transfer::snapshot_result(
            beginning(mappings, work, routines),
            automations,
            attribution,
            crate::cron_automation_transfer::no_faults(),
            r,
            mappings_after,
            work_after,
            routines_after,
        ),
    ensures
        has_its_rows(mappings_after, work_after, routines_after, automations[at]),
        r matches Ok(report) ==> report.newly_mapped >= 1,
        r matches Err(TransferError::AutomationChanged { automation_id }) ==> automation_id@
            != automations[at].id@,
{
    let began = beginning(start.0, start.1, start.2);
    let (trace, stamps, count, stamp) = choose|
        trace: Seq<Standing>,
        stamps: Seq<SnapshotStamp>,
        count: nat,
        stamp: SnapshotStamp,
    |
        {
            &&& #[trigger] crate::cron_automation_transfer::snapshot_run(
                trace,
                automations,
                attribution,
                stamps,
                count,
            )
            &&& count < automations.len()
            &&& trace[0] == began
            &&& #[trigger] crate::cron_automation_transfer::step_interrupted(
                trace.last(),
                automations[count as int],
                attribution,
                stamp,
                reason,
                faults.mappings,
                work,
                routines,
            )
            &&& mappings == trace.last().mappings
        };
    let before = trace.last();
    lemma_run_keeps_one_clear(trace, automations, attribution, stamps, count, count, at);
    lemma_run_keeps_projects(trace, automations, attribution, stamps, count, count);
    assert(is_touched(
        before.work,
        before.routines,
        automations[count as int],
        attribution,
        stamp,
        work,
        routines,
    ));
    lemma_turn_keeps_rows(
        before.work,
        before.routines,
        automations[count as int],
        attribution,
        stamp,
        work,
        routines,
    );
    if at == count {
        crate::cron_automation_transfer::law_interrupted_mapping_resumes(
            before,
            automations[at],
            attribution,
            stamp,
            reason,
            faults.mappings,
            work,
            routines,
        );
    } else {
        assert(automations[at].id@ != automations[count as int].id@);
        lemma_turn_keeps_clear(
            before.mappings,
            before.work,
            before.routines,
            automations[count as int],
            attribution,
            stamp,
            work,
            routines,
            automations[at],
        );
    }
    law_clear_automation_is_mapped(
        mappings,
        work,
        routines,
        automations,
        attribution,
        r,
        mappings_after,
        work_after,
        routines_after,
        at,
    );
}

/// A snapshot that a store interrupted resumes into the same rows: where nothing stood in the way of
/// any automation, the next snapshot over stores that do not fail succeeds. It counts as newly
/// mapped those that the interruption left without a mapping, each of which then has its mapping,
/// its work item and its routine, every row that the interruption left is kept, and no other row is
/// added.
pub proof fn law_interrupted_snapshot_resumes(
    start: (Map<Seq<char>, Mapping>, WorkItems, Routines),
    automations: Seq<CronAutomationRecord>,
    attribution: TransferAttribution,
    faults: Faults,
    reason: String,
    mappings: Map<Seq<char>, Mapping>,
    work: WorkItems,
    routines: Routines,
    r: Result<SnapshotReport, TransferError>,
    mappings_after: Map<Seq<char>, Mapping>,
    work_after: WorkItems,
    routines_after: Routines,
)
    requires
        distinct_ids(automations),
        crate::routine_repository::keyed(start.2),
        all_clear(beginning(start.0, start.1, start.2), automations, attribution),
        crate::cron_automation_transfer::snapshot_result(
            beginning(start.0, start.1, start.2),
            automations,
            attribution,
            faults,
            Err(TransferError::Database { reason }),
            mappings,
            work,
            routines,
        ),
        crate::cron_automation_transfer::snapshot_result(
            beginning(mappings, work, routines),
            automations,
            attribution,
            crate::cron_automation_transfer::no_faults(),
            r,
            mappings_after,
            work_after,
            routines_after,
        ),
    ensures
        r matches Ok(report) && report.newly_mapped == owed(
            mappings,
            automations,
            automations.len(),
        ),
        keeps_rows(work, routines, work_after, routines_after),
        adds_only(work, routines, automations, work_after, routines_after),
        forall|i: int|
            0 <= i < automations.len() && is_owed(mappings, #[trigger] automations[i]) ==> has_its_rows(
                mappings_after,
                work_after,
                routines_after,
                automations[i],
            ),
{
    let began = beginning(start.0, start.1, start.2);
    let (trace, stamps, count, stamp) = choose|
        trace: Seq<Standing>,
        stamps: Seq<SnapshotStamp>,
        count: nat,
        stamp: SnapshotStamp,
    |
        {
            &&& #[trigger] crate::cron_automation_transfer::snapshot_run(
                trace,
                automations,
                attribution,
                stamps,
                count,
            )
            &&& count < automations.len()
            &&& crate::cron_automation_transfer::by_the_clock(stamp)
            &&& trace[0] == began
            &&& #[trigger] crate::cron_automation_transfer::step_interrupted(
                trace.last(),
                automations[count as int],
                attribution,
                stamp,
                reason,
                faults.mappings,
                work,
                routines,
            )
            &&& mappings == trace.last().mappings
        };
    lemma_run_keeps_clear(trace, automations, attribution, stamps, count, count);
    lemma_interruption_keeps_clear(
        trace.last(),
        automations,
        count as int,
        attribution,
        stamp,
        reason,
        faults.mappings,
        work,
        routines,
    );
    law_clear_snapshot_succeeds(
        mappings,
        work,
        routines,
        automations,
        attribution,
        r,
        mappings_after,
        work_after,
        routines_after,
    );
}

} // verus!
