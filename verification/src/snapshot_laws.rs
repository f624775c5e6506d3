//! What a snapshot records of an automation, and when it finds one changed, said of the
//! automation's own fields.
use vstd::prelude::*;
use vstd::string::*;
use crate::cron_automation_transfer::{
    CronAutomationRecord, CronJobRow, Faults, LegacySchedule, Mapping, SnapshotReport,
    SnapshotStamp, Standing, TransferAttribution, TransferError,
};
use crate::outside;
use crate::routine_repository::{Routine, RoutineRevision, RoutineStatus, RoutineTrigger, Routines};
use crate::text;
use crate::work_item_repository::{ExecutionPhase, WorkItem, WorkItems, WorkStatus};

verus! {

/// Two schedules are of the same sort and have the same time, interval or expression.
pub open spec fn same_schedule(a: LegacySchedule, b: LegacySchedule) -> bool {
    match (a, b) {
        (LegacySchedule::At { at_ms: x }, LegacySchedule::At { at_ms: y }) => x == y,
        (LegacySchedule::Every { every_ms: x }, LegacySchedule::Every { every_ms: y }) => x == y,
        (LegacySchedule::Cron { cron_expr: x }, LegacySchedule::Cron { cron_expr: y }) => x@ == y@,
        _ => false,
    }
}

/// Where two automations send what: their messages, chats and channels, one per line.
pub open spec fn same_lines(a: CronAutomationRecord, b: CronAutomationRecord) -> bool {
    a.message@ + seq!['\n'] + a.chat_id@ + seq!['\n'] + a.channel@ == b.message@ + seq!['\n']
        + b.chat_id@ + seq!['\n'] + b.channel@
}

/// A schedule tells where its JSON text ends and which one it is, whatever follows.
proof fn lemma_schedule_reads_off(
    a: LegacySchedule,
    x: Seq<char>,
    b: LegacySchedule,
    y: Seq<char>,
)
    requires
        crate::cron_automation_transfer::schedule_json(a) + x
            == crate::cron_automation_transfer::schedule_json(b) + y,
    ensures
        same_schedule(a, b),
        x == y,
{
    let at = "{\"at\":{\"at_ms\":"@;
    let every = "{\"every\":{\"every_ms\":"@;
    let cron = "{\"cron\":{\"cron_expr\":"@;
    let close = "}}"@;
    reveal_strlit("{\"at\":{\"at_ms\":");
    reveal_strlit("{\"every\":{\"every_ms\":");
    reveal_strlit("{\"cron\":{\"cron_expr\":");
    reveal_strlit("}}");
    assert(at[2] == 'a' && every[2] == 'e' && cron[2] == 'c');
    let left = crate::cron_automation_transfer::schedule_json(a) + x;
    let right = crate::cron_automation_transfer::schedule_json(b) + y;
    assert(left[2] == match a {
        LegacySchedule::At { .. } => 'a',
        LegacySchedule::Every { .. } => 'e',
        LegacySchedule::Cron { .. } => 'c',
    });
    assert(right[2] == match b {
        LegacySchedule::At { .. } => 'a',
        LegacySchedule::Every { .. } => 'e',
        LegacySchedule::Cron { .. } => 'c',
    });
    assert((close + x)[0] == '}');
    assert((close + y)[0] == '}');
    match (a, b) {
        (LegacySchedule::At { at_ms: m }, LegacySchedule::At { at_ms: n }) => {
            assert(left.skip(at.len() as int) =~= text::signed_decimal(m as int) + (close + x));
            assert(right.skip(at.len() as int) =~= text::signed_decimal(n as int) + (close + y));
            crate::text_laws::law_signed_numerals_read_off(
                m as int,
                close + x,
                n as int,
                close + y,
            );
        },
        (LegacySchedule::Every { every_ms: m }, LegacySchedule::Every { every_ms: n }) => {
            assert(left.skip(every.len() as int) =~= text::signed_decimal(m as int) + (close + x));
            assert(right.skip(every.len() as int) =~= text::signed_decimal(n as int) + (close + y));
            crate::text_laws::law_signed_numerals_read_off(
                m as int,
                close + x,
                n as int,
                close + y,
            );
        },
        (LegacySchedule::Cron { cron_expr: m }, LegacySchedule::Cron { cron_expr: n }) => {
            assert(left.skip(cron.len() as int) =~= outside::json_string(m@) + (close + x));
            assert(right.skip(cron.len() as int) =~= outside::json_string(n@) + (close + y));
            outside::law_json_strings_are_unambiguous(m@, n@, close + x, close + y);
        },
        _ => {},
    }
    assert((close + x).skip(2) =~= x);
    assert((close + y).skip(2) =~= y);
}

/// Two automations have the same hashed text exactly where their schedules agree in sort and value,
/// their flags agree, and their messages, chats and channels agree line by line.
pub proof fn law_hashed_text_is_the_content(a: CronAutomationRecord, b: CronAutomationRecord)
    ensures
        crate::cron_automation_transfer::content_text(a)
            == crate::cron_automation_transfer::content_text(b) <==> same_schedule(
            a.schedule,
            b.schedule,
        ) && a.enabled == b.enabled && same_lines(a, b),
{
    reveal_strlit("\n");
    reveal_strlit("1");
    reveal_strlit("0");
    let feed = "\n"@;
    assert(feed =~= seq!['\n']);
    let flag_a = if a.enabled {
        "1"@
    } else {
        "0"@
    };
    let flag_b = if b.enabled {
        "1"@
    } else {
        "0"@
    };
    let lines_a = a.message@ + seq!['\n'] + a.chat_id@ + seq!['\n'] + a.channel@;
    let lines_b = b.message@ + seq!['\n'] + b.chat_id@ + seq!['\n'] + b.channel@;
    let after_a = feed + lines_a + feed + flag_a;
    let after_b = feed + lines_b + feed + flag_b;
    let head_a = crate::cron_automation_transfer::schedule_json(a.schedule);
    let head_b = crate::cron_automation_transfer::schedule_json(b.schedule);
    assert(crate::cron_automation_transfer::content_text(a) =~= head_a + after_a);
    assert(crate::cron_automation_transfer::content_text(b) =~= head_b + after_b);
    if head_a + after_a == head_b + after_b {
        lemma_schedule_reads_off(a.schedule, after_a, b.schedule, after_b);
        assert(after_a.last() == flag_a[0]);
        assert(after_b.last() == flag_b[0]);
        assert(after_a.subrange(1, after_a.len() - 2) =~= lines_a);
        assert(after_b.subrange(1, after_b.len() - 2) =~= lines_b);
    }
    if same_schedule(a.schedule, b.schedule) && a.enabled == b.enabled && same_lines(a, b) {
        assert(head_a == head_b);
        assert(after_a == after_b);
    }
}

/// Two automations that differ in their schedule's sort, time, interval or expression, or in the
/// flag, have different hashed texts, whatever else they hold.
pub proof fn law_schedule_and_flag_are_hashed(a: CronAutomationRecord, b: CronAutomationRecord)
    ensures
        crate::cron_automation_transfer::content_text(a)
            == crate::cron_automation_transfer::content_text(b) ==> {
            &&& a.schedule is At <==> b.schedule is At
            &&& a.schedule is Every <==> b.schedule is Every
            &&& a.schedule is Cron <==> b.schedule is Cron
            &&& a.schedule is At ==> a.schedule->at_ms == b.schedule->at_ms
            &&& a.schedule is Every ==> a.schedule->every_ms == b.schedule->every_ms
            &&& a.schedule is Cron ==> a.schedule->cron_expr@ == b.schedule->cron_expr@
            &&& a.enabled == b.enabled
        },
{
    law_hashed_text_is_the_content(a, b);
}

/// Two automations that differ in one of message, chat and channel, and agree in the other two, have
/// different hashed texts.
pub proof fn law_each_line_is_hashed(a: CronAutomationRecord, b: CronAutomationRecord)
    requires
        a.message@ != b.message@ && a.chat_id@ == b.chat_id@ && a.channel@ == b.channel@
            || a.message@ == b.message@ && a.chat_id@ != b.chat_id@ && a.channel@ == b.channel@
            || a.message@ == b.message@ && a.chat_id@ == b.chat_id@ && a.channel@ != b.channel@,
    ensures
        crate::cron_automation_transfer::content_text(a)
            != crate::cron_automation_transfer::content_text(b),
{
    law_hashed_text_is_the_content(a, b);
    if same_lines(a, b) {
        let x = a.message@ + seq!['\n'] + a.chat_id@ + seq!['\n'] + a.channel@;
        let y = b.message@ + seq!['\n'] + b.chat_id@ + seq!['\n'] + b.channel@;
        assert(x.len() == y.len());
        if a.message@ != b.message@ {
            let n = a.message@.len() as int;
            assert(x.take(n) =~= a.message@);
            assert(y.take(n) =~= b.message@);
        } else if a.chat_id@ != b.chat_id@ {
            let m = a.message@.len() as int;
            let n = a.chat_id@.len() as int;
            assert(x.subrange(m + 1, m + 1 + n) =~= a.chat_id@);
            assert(y.subrange(m + 1, m + 1 + n) =~= b.chat_id@);
        } else {
            let m = a.message@.len() + 1 + a.chat_id@.len() + 1;
            assert(x.skip(m as int) =~= a.channel@);
            assert(y.skip(m as int) =~= b.channel@);
        }
    }
}

/// The part of a text behind its last line feed tells where it begins.
proof fn lemma_last_line_reads_off(x: Seq<char>, a: Seq<char>, y: Seq<char>, b: Seq<char>)
    requires
        x + seq!['\n'] + a == y + seq!['\n'] + b,
        !a.contains('\n'),
        !b.contains('\n'),
    ensures
        x == y,
        a == b,
{
    let left = x + seq!['\n'] + a;
    let right = y + seq!['\n'] + b;
    assert(left.len() == x.len() + 1 + a.len());
    assert(right.len() == y.len() + 1 + b.len());
    assert(left[x.len() as int] == '\n');
    assert(right[y.len() as int] == '\n');
    if x.len() < y.len() {
        let k: int = y.len() - x.len() - 1;
        assert(left[x.len() + 1 + k] == a[k]);
        assert(a.contains(a[k]));
    }
    if y.len() < x.len() {
        let k: int = x.len() - y.len() - 1;
        assert(right[y.len() + 1 + k] == b[k]);
        assert(b.contains(b[k]));
    }
    assert(left.take(x.len() as int) =~= x);
    assert(right.take(y.len() as int) =~= y);
    assert(left.skip(1 + x.len() as int) =~= a);
    assert(right.skip(1 + y.len() as int) =~= b);
}

/// Automations whose chats and channels hold no line feed have the same hashed text exactly where
/// they agree in every field but the identifier.
pub proof fn law_hashed_text_has_every_field(a: CronAutomationRecord, b: CronAutomationRecord)
    requires
        !a.chat_id@.contains('\n'),
        !b.chat_id@.contains('\n'),
        !a.channel@.contains('\n'),
        !b.channel@.contains('\n'),
    ensures
        crate::cron_automation_transfer::content_text(a)
            == crate::cron_automation_transfer::content_text(b) <==> same_schedule(
            a.schedule,
            b.schedule,
        ) && a.message@ == b.message@ && a.chat_id@ == b.chat_id@ && a.channel@ == b.channel@
            && a.enabled == b.enabled,
{
    law_hashed_text_is_the_content(a, b);
    if same_lines(a, b) {
        lemma_last_line_reads_off(
            a.message@ + seq!['\n'] + a.chat_id@,
            a.channel@,
            b.message@ + seq!['\n'] + b.chat_id@,
            b.channel@,
        );
        lemma_last_line_reads_off(a.message@, a.chat_id@, b.message@, b.chat_id@);
    }
}

/// The digests of two hashed texts do not collide.
pub open spec fn no_collision(a: CronAutomationRecord, b: CronAutomationRecord) -> bool {
    let x = vstd::utf8::encode_utf8(crate::cron_automation_transfer::content_text(a));
    let y = vstd::utf8::encode_utf8(crate::cron_automation_transfer::content_text(b));
    outside::sha256(x) == outside::sha256(y) ==> x == y
}

/// A snapshot that meets an automation whose mapping an earlier snapshot took from another content
/// fails: where the schedules differ in sort or value, or the flags differ, or the messages, chats
/// and channels differ line by line, the later snapshot does not succeed, and the mapping stays as
/// it was.
pub proof fn law_changed_content_is_refused(
    start: Standing,
    earlier: Seq<CronAutomationRecord>,
    attribution: TransferAttribution,
    faults: Faults,
    report: SnapshotReport,
    mappings: Map<Seq<char>, Mapping>,
    work: WorkItems,
    routines: Routines,
    later: Seq<CronAutomationRecord>,
    later_attribution: TransferAttribution,
    later_faults: Faults,
    r: Result<SnapshotReport, TransferError>,
    mappings_after: Map<Seq<char>, Mapping>,
    work_after: WorkItems,
    routines_after: Routines,
    i: int,
    j: int,
)
    requires
        crate::cron_automation_transfer::snapshot_result(
            start,
            earlier,
            attribution,
            faults,
            Ok(report),
            mappings,
            work,
            routines,
        ),
        crate::cron_automation_transfer::snapshot_result(
            crate::transfer_laws::beginning(mappings, work, routines),
            later,
            later_attribution,
            later_faults,
            r,
            mappings_after,
            work_after,
            routines_after,
        ),
        0 <= i < earlier.len(),
        0 <= j < later.len(),
        earlier[i].id@ == later[j].id@,
        !same_schedule(earlier[i].schedule, later[j].schedule) || earlier[i].enabled
            != later[j].enabled || !same_lines(earlier[i], later[j]),
        no_collision(earlier[i], later[j]),
    ensures
        r is Err,
        mappings_after.contains_key(later[j].id@),
        mappings_after[later[j].id@] == mappings[later[j].id@],
{
    lemma_mapping_has_the_digest(
        start,
        earlier,
        attribution,
        faults,
        report,
        mappings,
        work,
        routines,
        i,
    );
    law_hashed_text_is_the_content(earlier[i], later[j]);
    crate::text_laws::law_digests_differ(
        crate::cron_automation_transfer::content_text(earlier[i]),
        crate::cron_automation_transfer::content_text(later[j]),
    );
    crate::cron_automation_transfer::law_changed_automation_is_never_rewritten(
        crate::transfer_laws::beginning(mappings, work, routines),
        later,
        later_attribution,
        later_faults,
        r,
        mappings_after,
        work_after,
        routines_after,
        j,
    );
}

/// After a snapshot the mapping of an automation has the digest of its content.
proof fn lemma_mapping_has_the_digest(
    start: Standing,
    automations: Seq<CronAutomationRecord>,
    attribution: TransferAttribution,
    faults: Faults,
    report: SnapshotReport,
    mappings: Map<Seq<char>, Mapping>,
    work: WorkItems,
    routines: Routines,
    i: int,
)
    requires
        crate::cron_automation_transfer::snapshot_result(
            start,
            automations,
            attribution,
            faults,
            Ok(report),
            mappings,
            work,
            routines,
        ),
        0 <= i < automations.len(),
    ensures
        mappings.contains_key(automations[i].id@),
        mappings[automations[i].id@].content_hash
            == crate::cron_automation_transfer::content_digest(automations[i]),
{
    let (trace, stamps) = choose|trace: Seq<Standing>, stamps: Seq<SnapshotStamp>|
        {
            &&& #[trigger] crate::cron_automation_transfer::snapshot_run(
                trace,
                automations,
                attribution,
                stamps,
                automations.len(),
            )
            &&& trace[0] == start
            &&& trace.last() == (Standing {
                mappings,
                work,
                routines,
                newly_mapped: report.newly_mapped as nat,
                already_mapped: report.already_mapped as nat,
                incompatible: report.incompatible as nat,
            })
        };
    crate::cron_automation_transfer::law_snapshot_accounts_for_every_automation(
        trace,
        automations,
        attribution,
        stamps,
        i,
    );
}

/// Two automations agree in everything that is read of them.
pub open spec fn same_content(a: CronAutomationRecord, b: CronAutomationRecord) -> bool {
    &&& a.id@ == b.id@
    &&& same_schedule(a.schedule, b.schedule)
    &&& a.enabled == b.enabled
    &&& same_lines(a, b)
}

/// One of the automations has the content of another.
pub open spec fn has_content(automations: Seq<CronAutomationRecord>, b: CronAutomationRecord) -> bool {
    exists|i: int| 0 <= i < automations.len() && same_content(#[trigger] automations[i], b)
}

/// A later snapshot whose first automations are as an earlier one took them and whose next one
/// changed says so: it fails with that automation's identifier, where no store fails, and leaves all
/// three stores as they were.
pub proof fn law_changed_content_is_named(
    start: Standing,
    earlier: Seq<CronAutomationRecord>,
    attribution: TransferAttribution,
    faults: Faults,
    report: SnapshotReport,
    mappings: Map<Seq<char>, Mapping>,
    work: WorkItems,
    routines: Routines,
    later: Seq<CronAutomationRecord>,
    r: Result<SnapshotReport, TransferError>,
    mappings_after: Map<Seq<char>, Mapping>,
    work_after: WorkItems,
    routines_after: Routines,
    i: int,
    j: int,
)
    requires
        crate::cron_automation_transfer::snapshot_result(
            start,
            earlier,
            attribution,
            faults,
            Ok(report),
            mappings,
            work,
            routines,
        ),
        work.projects.contains_key(attribution.project_id.value@),
        work.projects[attribution.project_id.value@].kind@ == attribution.organization_id.kind@,
        work.projects[attribution.project_id.value@].value@ == attribution.organization_id.value@,
        crate::cron_automation_transfer::snapshot_result(
            crate::transfer_laws::beginning(mappings, work, routines),
            later,
            attribution,
            crate::cron_automation_transfer::no_faults(),
            r,
            mappings_after,
            work_after,
            routines_after,
        ),
        0 <= i < earlier.len(),
        0 <= j < later.len(),
        forall|k: int| 0 <= k < j ==> has_content(earlier, #[trigger] later[k]),
        earlier[i].id@ == later[j].id@,
        !same_schedule(earlier[i].schedule, later[j].schedule) || earlier[i].enabled
            != later[j].enabled || !same_lines(earlier[i], later[j]),
        no_collision(earlier[i], later[j]),
    ensures
        r matches Err(TransferError::AutomationChanged { automation_id }) && automation_id@
            == later[j].id@,
        mappings_after == mappings,
        work_after == work,
        routines_after == routines,
{
    law_changed_content_is_refused(
        start,
        earlier,
        attribution,
        faults,
        report,
        mappings,
        work,
        routines,
        later,
        attribution,
        crate::cron_automation_transfer::no_faults(),
        r,
        mappings_after,
        work_after,
        routines_after,
        i,
        j,
    );
    lemma_mapping_has_the_digest(
        start,
        earlier,
        attribution,
        faults,
        report,
        mappings,
        work,
        routines,
        i,
    );
    law_hashed_text_is_the_content(earlier[i], later[j]);
    crate::text_laws::law_digests_differ(
        crate::cron_automation_transfer::content_text(earlier[i]),
        crate::cron_automation_transfer::content_text(later[j]),
    );
    assert forall|k: int| 0 <= k < j implies crate::transfer_laws::is_settled(
        mappings,
        #[trigger] later[k],
    ) by {
        let m = choose|m: int| 0 <= m < earlier.len() && same_content(#[trigger] earlier[m], later[k]);
        lemma_mapping_has_the_digest(
            start,
            earlier,
            attribution,
            faults,
            report,
            mappings,
            work,
            routines,
            m,
        );
        law_hashed_text_is_the_content(earlier[m], later[k]);
    }
    let from = crate::transfer_laws::beginning(mappings, work, routines);
    match r {
        Err(TransferError::AutomationChanged { automation_id }) => {
            let (trace, stamps, count) = choose|
                trace: Seq<Standing>,
                stamps: Seq<SnapshotStamp>,
                count: nat,
            |
                {
                    &&& #[trigger] crate::cron_automation_transfer::snapshot_run(
                        trace,
                        later,
                        attribution,
                        stamps,
                        count,
                    )
                    &&& count < later.len()
                    &&& trace[0] == from
                    &&& crate::cron_automation_transfer::is_changed(
                        trace.last().mappings,
                        later[count as int],
                    )
                    &&& automation_id == later[count as int].id
                    &&& mappings_after == trace.last().mappings
                    &&& work_after == trace.last().work
                    &&& routines_after == trace.last().routines
                };
            lemma_settled_turns_write_nothing(
                trace,
                later,
                attribution,
                stamps,
                count,
                j,
                mappings,
                count as int,
            );
        },
        Err(TransferError::Database { reason }) => {
            let (trace, stamps, count, stamp) = choose|
                trace: Seq<Standing>,
                stamps: Seq<SnapshotStamp>,
                count: nat,
                stamp: SnapshotStamp,
            |
                {
                    &&& #[trigger] crate::cron_automation_transfer::snapshot_run(
                        trace,
                        later,
                        attribution,
                        stamps,
                        count,
                    )
                    &&& count < later.len()
                    &&& trace[0] == from
                    &&& #[trigger] crate::cron_automation_transfer::step_interrupted(
                        trace.last(),
                        later[count as int],
                        attribution,
                        stamp,
                        reason,
                        false,
                        work_after,
                        routines_after,
                    )
                    &&& mappings_after == trace.last().mappings
                    &&& crate::cron_automation_transfer::turn_refused(
                        trace.last(),
                        later[count as int],
                        attribution,
                    )
                };
            lemma_settled_turns_write_nothing(
                trace,
                later,
                attribution,
                stamps,
                count,
                j,
                mappings,
                count as int,
            );
        },
        _ => {},
    }
}

/// A run over settled automations writes nothing, and does not pass one that changed.
proof fn lemma_settled_turns_write_nothing(
    trace: Seq<Standing>,
    automations: Seq<CronAutomationRecord>,
    attribution: TransferAttribution,
    stamps: Seq<SnapshotStamp>,
    count: nat,
    j: int,
    mappings: Map<Seq<char>, Mapping>,
    to: int,
)
    requires
        crate::cron_automation_transfer::snapshot_run(
            trace,
            automations,
            attribution,
            stamps,
            count,
        ),
        trace[0].mappings == mappings,
        0 <= j < automations.len(),
        forall|k: int|
            0 <= k < j ==> crate::transfer_laws::is_settled(mappings, #[trigger] automations[k]),
        crate::cron_automation_transfer::is_changed(mappings, automations[j]),
        0 <= to <= count,
    ensures
        to <= j,
        trace[to].mappings == mappings,
        trace[to].work == trace[0].work,
        trace[to].routines == trace[0].routines,
    decreases to,
{
    if to > 0 {
        lemma_settled_turns_write_nothing(
            trace,
            automations,
            attribution,
            stamps,
            count,
            j,
            mappings,
            to - 1,
        );
        assert(crate::cron_automation_transfer::leads_on(
            trace,
            automations,
            attribution,
            stamps,
            to - 1,
        ));
        if to - 1 < j {
            assert(crate::transfer_laws::is_settled(mappings, automations[to - 1]));
        }
    }
}

/// The title of a transferred work item: the first line of the message without white space around
/// it, or the automation's name where nothing is left of that line, cut to 200 bytes.
pub open spec fn is_title_of(title: Seq<char>, automation: CronAutomationRecord) -> bool {
    let line = text::trimmed(text::first_line(automation.message@));
    if line.len() > 0 {
        title == text::truncated(line, 200)
    } else {
        title == text::truncated("automation "@ + automation.id@, 200)
    }
}

/// A work item holds what an automation says: its message whole, its title, in the project of the
/// attribution, in the backlog and unstarted.
pub open spec fn holds_automation(
    item: WorkItem,
    automation: CronAutomationRecord,
    attribution: TransferAttribution,
) -> bool {
    &&& item.id.kind@ == "work_item_id"@
    &&& item.id.value@ == "snap_"@ + automation.id@
    &&& item.project_id == attribution.project_id
    &&& item.goal_id is None
    &&& item.parent_work_item_id is None
    &&& item.kind@ == "task"@
    &&& is_title_of(item.title@, automation)
    &&& item.description@ == automation.message@
    &&& item.status == WorkStatus::Backlog
    &&& item.execution_phase == ExecutionPhase::Unstarted
    &&& item.revision.value == 0
}

/// A revision recurs by the automation's own expression and aims at its work item.
pub open spec fn recurs_as(revision: RoutineRevision, automation: CronAutomationRecord) -> bool {
    &&& revision.id.kind@ == "routine_revision_id"@
    &&& revision.id.value@ == "snap_"@ + automation.id@ + "_r0"@
    &&& revision.routine_id.kind@ == "routine_id"@
    &&& revision.routine_id.value@ == "snap_"@ + automation.id@
    &&& revision.revision.value == 0
    &&& revision.trigger is Recurring
    &&& automation.schedule is Cron
    &&& revision.trigger->cron_expression@ == automation.schedule->cron_expr@
    &&& revision.target_work_item_id.kind@ == "work_item_id"@
    &&& revision.target_work_item_id.value@ == "snap_"@ + automation.id@
}

/// A routine is active, belongs to the organization of the attribution and points at the revision
/// of the automation.
pub open spec fn runs_for(
    routine: Routine,
    automation: CronAutomationRecord,
    attribution: TransferAttribution,
) -> bool {
    &&& routine.id.kind@ == "routine_id"@
    &&& routine.id.value@ == "snap_"@ + automation.id@
    &&& routine.organization_id == attribution.organization_id
    &&& routine.status == RoutineStatus::Active
    &&& routine.current_revision_id is Some
    &&& routine.current_revision_id->0.kind@ == "routine_revision_id"@
    &&& routine.current_revision_id->0.value@ == "snap_"@ + automation.id@ + "_r0"@
    &&& routine.revision.value == 1
}

/// The rows of an automation are not there yet.
pub open spec fn has_no_rows(
    work: WorkItems,
    routines: Routines,
    automation: CronAutomationRecord,
) -> bool {
    &&& !work.items.contains_key("snap_"@ + automation.id@)
    &&& !routines.routines.contains_key("snap_"@ + automation.id@)
    &&& !routines.revisions.contains_key("snap_"@ + automation.id@ + "_r0"@)
}

/// The turn of a cron automation without a mapping and without rows writes all four: a work item
/// with its message, an active routine, a revision with its expression, and a mapping to both with
/// the digest of its content.
pub proof fn law_cron_automation_is_stored(
    before: Standing,
    automation: CronAutomationRecord,
    attribution: TransferAttribution,
    stamp: SnapshotStamp,
    after: Standing,
)
    requires
        crate::cron_automation_transfer::snapshot_step(
            before,
            automation,
            attribution,
            stamp,
            after,
        ),
        crate::routine_repository::keyed(before.routines),
        !before.mappings.contains_key(automation.id@),
        automation.schedule is Cron,
        has_no_rows(before.work, before.routines, automation),
    ensures
        ({
            let key = "snap_"@ + automation.id@;
            let item = after.work.items[key];
            let routine = after.routines.routines[key];
            let revision = after.routines.revisions[key + "_r0"@];
            let mapping = after.mappings[automation.id@];
            &&& after.work.items.contains_key(key)
            &&& holds_automation(item, automation, attribution)
            &&& item.created_at == stamp.created_at
            &&& item.updated_at == stamp.updated_at
            &&& after.routines.routines.contains_key(key)
            &&& runs_for(routine, automation, attribution)
            &&& routine.created_at_unix_seconds == stamp.unix_seconds
            &&& routine.updated_at_unix_seconds == stamp.unix_seconds
            &&& after.routines.revisions.contains_key(key + "_r0"@)
            &&& recurs_as(revision, automation)
            &&& revision.created_at_unix_seconds == stamp.unix_seconds
            &&& after.mappings.contains_key(automation.id@)
            &&& mapping.disposition == "mapped"@
            &&& mapping.routine_id == Some(key)
            &&& mapping.work_item_id == Some(key)
            &&& mapping.content_hash == outside::text_digest(
                crate::cron_automation_transfer::content_text(automation),
            )
            &&& mapping.retired_at is None
            &&& after.newly_mapped == before.newly_mapped + 1
            &&& after.already_mapped == before.already_mapped
            &&& after.incompatible == before.incompatible
            &&& after.routines.fires == before.routines.fires
        }),
{
    let key = "snap_"@ + automation.id@;
    let (between, revision, routine) = choose|
        between: Routines,
        revision: RoutineRevision,
        routine: Routine,
    |
        {
            &&& #[trigger] crate::cron_automation_transfer::routine_adopted(
                before.routines,
                automation,
                attribution,
                stamp,
                between,
            )
            &&& crate::cron_automation_transfer::is_snapshot_revision(
                revision,
                automation,
                stamp,
            )
            &&& #[trigger] crate::routine_repository::append_result(
                between,
                revision.routine_id,
                revision,
                Ok(routine),
                after.routines,
            )
        };
    assert(between.routines[key].id.value@ == key);
    assert(!between.revisions.contains_key(key + "_r0"@));
    assert(routine.id.value@ == key);
    assert(after.routines.routines[key] == routine);
}

/// The turn of an automation that is to run once or at intervals maps it as incompatible, says why,
/// and writes no row.
pub proof fn law_other_schedules_are_incompatible(
    before: Standing,
    automation: CronAutomationRecord,
    attribution: TransferAttribution,
    stamp: SnapshotStamp,
    after: Standing,
)
    requires
        crate::cron_automation_transfer::snapshot_step(
            before,
            automation,
            attribution,
            stamp,
            after,
        ),
        !before.mappings.contains_key(automation.id@),
        automation.schedule is At || automation.schedule is Every,
    ensures
        ({
            let mapping = after.mappings[automation.id@];
            let reason = if automation.schedule is At {
                "one-shot (At) schedule has no canonical trigger"@
            } else {
                "interval (Every) schedule has no canonical trigger"@
            };
            &&& after.mappings.contains_key(automation.id@)
            &&& mapping.disposition == "incompatible"@
            &&& mapping.routine_id is None
            &&& mapping.work_item_id is None
            &&& mapping.content_hash == outside::text_digest(
                crate::cron_automation_transfer::content_text(automation),
            )
            &&& mapping.provenance_json == crate::cron_automation_transfer::provenance(
                automation,
                Some(reason),
            )
            &&& mapping.retired_at is None
            &&& after.work == before.work
            &&& after.routines == before.routines
            &&& after.incompatible == before.incompatible + 1
            &&& after.newly_mapped == before.newly_mapped
            &&& after.already_mapped == before.already_mapped
        }),
{
}

/// The turn of a mapped automation writes nothing. It passes only where the content is the mapped
/// one, and counts by the disposition that is recorded.
pub proof fn law_mapped_automation_is_passed(
    before: Standing,
    automation: CronAutomationRecord,
    attribution: TransferAttribution,
    stamp: SnapshotStamp,
    after: Standing,
)
    requires
        crate::cron_automation_transfer::snapshot_step(
            before,
            automation,
            attribution,
            stamp,
            after,
        ),
        before.mappings.contains_key(automation.id@),
    ensures
        before.mappings[automation.id@].content_hash == outside::text_digest(
            crate::cron_automation_transfer::content_text(automation),
        ),
        after.mappings == before.mappings,
        after.work == before.work,
        after.routines == before.routines,
        after.newly_mapped == before.newly_mapped,
        before.mappings[automation.id@].disposition == "mapped"@ ==> after.already_mapped
            == before.already_mapped + 1,
        before.mappings[automation.id@].disposition != "mapped"@ ==> after.already_mapped
            == before.already_mapped,
        before.mappings[automation.id@].disposition == "incompatible"@ ==> after.incompatible
            == before.incompatible + 1,
        before.mappings[automation.id@].disposition != "incompatible"@ ==> after.incompatible
            == before.incompatible,
{
}

/// The routine of an automation is touched by no turn of another one.
proof fn lemma_routine_stays(
    trace: Seq<Standing>,
    automations: Seq<CronAutomationRecord>,
    attribution: TransferAttribution,
    stamps: Seq<SnapshotStamp>,
    count: nat,
    from: int,
    to: int,
    automation: CronAutomationRecord,
)
    requires
        crate::cron_automation_transfer::snapshot_run(
            trace,
            automations,
            attribution,
            stamps,
            count,
        ),
        0 <= from <= to <= count,
        crate::routine_repository::keyed(trace[from].routines),
        forall|k: int| from <= k < to ==> (#[trigger] automations[k]).id@ != automation.id@,
    ensures
        crate::routine_repository::keyed(trace[to].routines),
        ({
            let key = "snap_"@ + automation.id@;
            &&& trace[to].work.items.contains_key(key) == trace[from].work.items.contains_key(key)
            &&& trace[to].routines.routines.contains_key(key)
                == trace[from].routines.routines.contains_key(key)
            &&& trace[from].routines.routines.contains_key(key)
                ==> trace[to].routines.routines[key] == trace[from].routines.routines[key]
            &&& trace[to].mappings.contains_key(automation.id@)
                == trace[from].mappings.contains_key(automation.id@)
        }),
    decreases to - from,
{
    if from < to {
        lemma_routine_stays(
            trace,
            automations,
            attribution,
            stamps,
            count,
            from,
            to - 1,
            automation,
        );
        let other = automations[to - 1];
        assert(crate::cron_automation_transfer::leads_on(
            trace,
            automations,
            attribution,
            stamps,
            to - 1,
        ));
        crate::transfer_laws::lemma_step_is_touch(
            trace[to - 1],
            other,
            attribution,
            stamps[to - 1],
            trace[to],
        );
        crate::transfer_laws::lemma_turn_keeps_rows(
            trace[to - 1].work,
            trace[to - 1].routines,
            other,
            attribution,
            stamps[to - 1],
            trace[to].work,
            trace[to].routines,
        );
        crate::transfer_laws::lemma_rows_differ(other, automation);
        let key = "snap_"@ + automation.id@;
        assert(key == crate::cron_automation_transfer::snapshot_id(automation));
        assert(trace[to].work.items.contains_key(key) == trace[to - 1].work.items.contains_key(
            key,
        ));
        assert(trace[to].routines.routines.contains_key(key)
            == trace[to - 1].routines.routines.contains_key(key));
    }
}

/// After a snapshot that succeeds every cron automation that had neither mapping nor work item nor
/// routine has all of them, with its own message and its own expression.
pub proof fn law_snapshot_stores_what_it_maps(
    start: Standing,
    automations: Seq<CronAutomationRecord>,
    attribution: TransferAttribution,
    faults: Faults,
    report: SnapshotReport,
    mappings: Map<Seq<char>, Mapping>,
    work: WorkItems,
    routines: Routines,
    i: int,
)
    requires
        crate::cron_automation_transfer::snapshot_result(
            start,
            automations,
            attribution,
            faults,
            Ok(report),
            mappings,
            work,
            routines,
        ),
        crate::routine_repository::keyed(start.routines),
        crate::transfer_laws::distinct_ids(automations),
        0 <= i < automations.len(),
        automations[i].schedule is Cron,
        !start.mappings.contains_key(automations[i].id@),
        has_no_rows(start.work, start.routines, automations[i]),
    ensures
        ({
            let automation = automations[i];
            let key = "snap_"@ + automation.id@;
            &&& work.items.contains_key(key)
            &&& holds_automation(work.items[key], automation, attribution)
            &&& routines.routines.contains_key(key)
            &&& runs_for(routines.routines[key], automation, attribution)
            &&& routines.revisions.contains_key(key + "_r0"@)
            &&& recurs_as(routines.revisions[key + "_r0"@], automation)
            &&& mappings.contains_key(automation.id@)
            &&& mappings[automation.id@].disposition == "mapped"@
            &&& mappings[automation.id@].routine_id == Some(key)
            &&& mappings[automation.id@].work_item_id == Some(key)
            &&& mappings[automation.id@].retired_at is None
        }),
{
    let (trace, stamps) = choose|trace: Seq<Standing>, stamps: Seq<SnapshotStamp>|
        {
            &&& #[trigger] crate::cron_automation_transfer::snapshot_run(
                trace,
                automations,
                attribution,
                stamps,
                automations.len(),
            )
            &&& trace[0] == start
            &&& trace.last() == (Standing {
                mappings,
                work,
                routines,
                newly_mapped: report.newly_mapped as nat,
                already_mapped: report.already_mapped as nat,
                incompatible: report.incompatible as nat,
            })
        };
    let n = automations.len();
    let automation = automations[i];
    let key = "snap_"@ + automation.id@;
    assert forall|k: int| 0 <= k < i implies "snap_"@ + (#[trigger] automations[k]).id@ + "_r0"@
        != key + "_r0"@ by {
        let other = "snap_"@ + automations[k].id@;
        assert((other + "_r0"@).take(other.len() as int) =~= other);
        assert((key + "_r0"@).take(key.len() as int) =~= key);
        crate::transfer_laws::lemma_rows_differ(automations[k], automation);
        assert((other + "_r0"@).len() == other.len() + "_r0"@.len());
        assert((key + "_r0"@).len() == key.len() + "_r0"@.len());
    }
    lemma_routine_stays(trace, automations, attribution, stamps, n, 0, i, automation);
    lemma_no_revision_yet(trace, automations, attribution, stamps, n, i, key + "_r0"@);
    assert(crate::cron_automation_transfer::leads_on(trace, automations, attribution, stamps, i));
    law_cron_automation_is_stored(trace[i], automation, attribution, stamps[i], trace[i + 1]);
    crate::transfer_laws::lemma_rows_stay(
        trace,
        automations,
        attribution,
        stamps,
        n,
        0,
        i + 1,
    );
    lemma_routine_stays(
        trace,
        automations,
        attribution,
        stamps,
        n,
        i + 1,
        n as int,
        automation,
    );
    crate::transfer_laws::lemma_rows_stay(
        trace,
        automations,
        attribution,
        stamps,
        n,
        i + 1,
        n as int,
    );
    crate::cron_automation_transfer::law_snapshot_keeps_mappings(
        trace,
        automations,
        attribution,
        stamps,
        n,
        i + 1,
        n as int,
        automation.id@,
    );
}

/// No turn adds a revision but its own.
proof fn lemma_no_revision_yet(
    trace: Seq<Standing>,
    automations: Seq<CronAutomationRecord>,
    attribution: TransferAttribution,
    stamps: Seq<SnapshotStamp>,
    count: nat,
    to: int,
    key: Seq<char>,
)
    requires
        crate::cron_automation_transfer::snapshot_run(
            trace,
            automations,
            attribution,
            stamps,
            count,
        ),
        0 <= to <= count,
        !trace[0].routines.revisions.contains_key(key),
        forall|k: int| 0 <= k < to ==> "snap_"@ + (#[trigger] automations[k]).id@ + "_r0"@ != key,
    ensures
        !trace[to].routines.revisions.contains_key(key),
    decreases to,
{
    if to > 0 {
        lemma_no_revision_yet(trace, automations, attribution, stamps, count, to - 1, key);
        let automation = automations[to - 1];
        let before = trace[to - 1];
        let after = trace[to];
        assert(crate::cron_automation_transfer::leads_on(
            trace,
            automations,
            attribution,
            stamps,
            to - 1,
        ));
        if after.routines != before.routines {
            let (between, revision, routine) = choose|
                between: Routines,
                revision: RoutineRevision,
                routine: Routine,
            |
                {
                    &&& #[trigger] crate::cron_automation_transfer::routine_adopted(
                        before.routines,
                        automation,
                        attribution,
                        stamps[to - 1],
                        between,
                    )
                    &&& crate::cron_automation_transfer::is_snapshot_revision(
                        revision,
                        automation,
                        stamps[to - 1],
                    )
                    &&& #[trigger] crate::routine_repository::append_result(
                        between,
                        revision.routine_id,
                        revision,
                        Ok(routine),
                        after.routines,
                    )
                };
            assert(revision.id.value@ == "snap_"@ + automation.id@ + "_r0"@);
        }
    }
}

/// A sound snapshot needs its project: it goes on exactly where the project is stored under the
/// organization of the attribution, and is refused before anything is written otherwise.
pub proof fn law_snapshot_needs_its_project(
    start: Standing,
    automations: Seq<CronAutomationRecord>,
    attribution: TransferAttribution,
    r: Result<SnapshotReport, TransferError>,
    mappings: Map<Seq<char>, Mapping>,
    work: WorkItems,
    routines: Routines,
)
    requires
        crate::cron_automation_transfer::snapshot_result(
            start,
            automations,
            attribution,
            crate::cron_automation_transfer::no_faults(),
            r,
            mappings,
            work,
            routines,
        ),
    ensures
        ({
            let owner = start.work.projects[attribution.project_id.value@];
            let resolves = start.work.projects.contains_key(attribution.project_id.value@)
                && owner.kind@ == attribution.organization_id.kind@ && owner.value@
                == attribution.organization_id.value@;
            &&& !resolves <==> r is Err && r->Err_0 is ProjectResolution
            &&& !resolves ==> mappings == start.mappings && work == start.work && routines
                == start.routines
            &&& r matches Ok(report) ==> report.total_active == automations.len()
        }),
{
}

/// A row of an automation that is not completed.
pub open spec fn is_live() -> spec_fn(CronJobRow) -> bool {
    |row: CronJobRow| row.completed_at_ms is None
}

/// The active rows are those without a time of completion, in their order.
pub proof fn law_active_rows_are_the_live_ones(rows: Seq<CronJobRow>)
    ensures
        crate::cron_automation_transfer::active_rows(rows) == rows.filter(is_live()),
    decreases rows.len(),
{
    reveal(Seq::filter);
    if rows.len() > 0 {
        law_active_rows_are_the_live_ones(rows.drop_last());
    }
}

/// An automation is what its row says, field by field; its flag is set exactly where the row's is
/// not zero.
pub proof fn law_automation_is_read_as_it_stands(automation: CronAutomationRecord, row: CronJobRow)
    requires
        crate::cron_automation_transfer::is_read_from(automation, row),
    ensures
        automation.id@ == row.id@,
        row.schedule == Ok::<LegacySchedule, String>(automation.schedule),
        automation.message@ == row.message@,
        automation.chat_id@ == row.chat_id@,
        automation.channel@ == row.channel@,
        row.enabled == 0 ==> !automation.enabled,
        row.enabled != 0 ==> automation.enabled,
{
}

/// An automation stands in the way of the cutover: it has no mapping, or an incompatible one.
pub open spec fn stands_in_the_way(
    mappings: Map<Seq<char>, Mapping>,
) -> spec_fn(CronAutomationRecord) -> bool {
    |automation: CronAutomationRecord|
        !mappings.contains_key(automation.id@) || mappings[automation.id@].disposition
            == "incompatible"@
}

/// The blockers are the automations that stand in the way, in their order, each with its reason: one
/// for each, and none where every automation is mapped and compatible.
pub proof fn law_blockers_are_what_stands_in_the_way(
    mappings: Map<Seq<char>, Mapping>,
    automations: Seq<CronAutomationRecord>,
)
    ensures
        ({
            let blockers = crate::cron_automation_transfer::blockers_of(mappings, automations);
            let blocked = automations.filter(stands_in_the_way(mappings));
            &&& blockers.len() == blocked.len()
            &&& forall|i: int|
                0 <= i < blockers.len() ==> {
                    let (id, reason) = #[trigger] blockers[i];
                    &&& id == blocked[i].id@
                    &&& !mappings.contains_key(id) ==> reason == "not snapshotted yet"@
                    &&& mappings.contains_key(id) ==> reason
                        == "schedule has no canonical trigger vocabulary (At/Every); remove the automation or extend the vocabulary"@
                }
        }),
        crate::cron_automation_transfer::blockers_of(mappings, automations).len() == 0
            <==> forall|i: int|
            0 <= i < automations.len() ==> mappings.contains_key((#[trigger] automations[i]).id@)
                && mappings[automations[i].id@].disposition != "incompatible"@,
    decreases automations.len(),
{
    reveal(Seq::filter);
    let blockers = crate::cron_automation_transfer::blockers_of(mappings, automations);
    let blocked = automations.filter(stands_in_the_way(mappings));
    if automations.len() > 0 {
        let shorter = automations.drop_last();
        law_blockers_are_what_stands_in_the_way(mappings, shorter);
        let last = automations.last();
        let earlier = crate::cron_automation_transfer::blockers_of(mappings, shorter);
        let fewer = shorter.filter(stands_in_the_way(mappings));
        assert forall|i: int| 0 <= i < blockers.len() implies {
            let (id, reason) = #[trigger] blockers[i];
            &&& id == blocked[i].id@
            &&& !mappings.contains_key(id) ==> reason == "not snapshotted yet"@
            &&& mappings.contains_key(id) ==> reason
                == "schedule has no canonical trigger vocabulary (At/Every); remove the automation or extend the vocabulary"@
        } by {
            if i < earlier.len() {
                assert(blockers[i] == earlier[i]);
                assert(blocked[i] == fewer[i]);
            }
        }
        if blockers.len() == 0 {
            assert forall|i: int| 0 <= i < automations.len() implies mappings.contains_key(
                (#[trigger] automations[i]).id@,
            ) && mappings[automations[i].id@].disposition != "incompatible"@ by {
                if i < shorter.len() {
                    assert(shorter[i] == automations[i]);
                }
            }
        } else if earlier.len() > 0 {
            let k = choose|k: int|
                0 <= k < shorter.len() && !(mappings.contains_key((#[trigger] shorter[k]).id@)
                    && mappings[shorter[k].id@].disposition != "incompatible"@);
            assert(automations[k] == shorter[k]);
        } else {
            assert(automations[automations.len() - 1] == last);
        }
    }
}

/// A retirement stamps a known automation that was not retired, and nothing else: an earlier
/// retirement stands, an unknown automation stays unknown, and no other field or automation is
/// touched.
pub proof fn law_retirement_stamps_once(
    before: Map<Seq<char>, Mapping>,
    id: Seq<char>,
    at: u64,
    other: Seq<char>,
)
    ensures
        ({
            let after = crate::cron_automation_transfer::retired(before, id, at);
            &&& after.contains_key(other) == before.contains_key(other)
            &&& other != id && before.contains_key(other) ==> after[other] == before[other]
            &&& before.contains_key(id) ==> {
                &&& before[id].retired_at is None ==> after[id].retired_at == Some(at)
                &&& before[id].retired_at is Some ==> after[id].retired_at == before[id].retired_at
                &&& after[id].disposition == before[id].disposition
                &&& after[id].routine_id == before[id].routine_id
                &&& after[id].work_item_id == before[id].work_item_id
                &&& after[id].content_hash == before[id].content_hash
                &&& after[id].provenance_json == before[id].provenance_json
            }
        }),
{
}

/// A time in milliseconds lies within its second; a time before the epoch counts as its first one.
pub proof fn law_seconds_are_whole(millis: int)
    ensures
        millis >= 0 ==> 1000 * crate::cron_automation_transfer::seconds_at(millis) <= millis < 1000
            * (crate::cron_automation_transfer::seconds_at(millis) + 1),
        millis < 0 ==> crate::cron_automation_transfer::seconds_at(millis) == 0,
{
}

/// What follows the same beginning is the same.
proof fn lemma_behind(c: Seq<char>, u: Seq<char>, v: Seq<char>)
    requires
        c + u == c + v,
    ensures
        u == v,
{
    assert((c + u).skip(c.len() as int) =~= u);
    assert((c + v).skip(c.len() as int) =~= v);
}

/// A JSON string behind the same beginning tells which it is and where it ends.
proof fn lemma_string_behind(
    c: Seq<char>,
    a: Seq<char>,
    u: Seq<char>,
    b: Seq<char>,
    v: Seq<char>,
)
    requires
        c + (outside::json_string(a) + u) == c + (outside::json_string(b) + v),
    ensures
        a == b,
        u == v,
{
    lemma_behind(c, outside::json_string(a) + u, outside::json_string(b) + v);
    outside::law_json_strings_are_unambiguous(a, b, u, v);
}

/// The end of a provenance: its reason, where it has one, and its message.
pub open spec fn ends_with(message: Seq<char>, reason: Option<Seq<char>>) -> Seq<char> {
    let close = ",\"message\":"@ + (outside::json_string(message)
        + ",\"source\":\"cron_actor\"}"@);
    match reason {
        Some(reason) => ",\"incompatible_reason\":"@ + (outside::json_string(reason) + close),
        None => close,
    }
}

/// Texts can be joined from either end.
proof fn lemma_joined_alike(a: Seq<char>, b: Seq<char>, c: Seq<char>)
    ensures
        a + b + c == a + (b + c),
{
    assert(a + b + c =~= a + (b + c));
}

/// Seven texts joined from the front are the seven joined from the back.
proof fn lemma_seven_joined(
    a: Seq<char>,
    b: Seq<char>,
    c: Seq<char>,
    d: Seq<char>,
    e: Seq<char>,
    f: Seq<char>,
    g: Seq<char>,
)
    ensures
        a + b + c + d + e + f + g == a + (b + (c + (d + (e + (f + g))))),
{
    lemma_joined_alike(a + b + c + d + e, f, g);
    lemma_joined_alike(a + b + c + d, e, f + g);
    lemma_joined_alike(a + b + c, d, e + (f + g));
    lemma_joined_alike(a + b, c, d + (e + (f + g)));
    lemma_joined_alike(a, b, c + (d + (e + (f + g))));
}

/// A provenance from its first member to its last.
proof fn lemma_provenance(a: CronAutomationRecord, reason: Option<Seq<char>>)
    ensures
        crate::cron_automation_transfer::provenance(a, reason) == "{\"channel\":"@ + (
        outside::json_string(a.channel@) + (",\"chat_id\":"@ + (outside::json_string(a.chat_id@)
            + (",\"enabled\":"@ + ((if a.enabled {
            "true"@
        } else {
            "false"@
        }) + ends_with(a.message@, reason)))))),
{
    let flag = if a.enabled {
        "true"@
    } else {
        "false"@
    };
    let head = "{\"channel\":"@ + outside::json_string(a.channel@) + ",\"chat_id\":"@
        + outside::json_string(a.chat_id@) + ",\"enabled\":"@ + flag;
    let message = ",\"message\":"@;
    let text = outside::json_string(a.message@);
    let source = ",\"source\":\"cron_actor\"}"@;
    let close = message + (text + source);
    match reason {
        Some(reason) => {
            let why = ",\"incompatible_reason\":"@;
            let because = outside::json_string(reason);
            let middle = head + (why + because);
            lemma_joined_alike(middle + message, text, source);
            lemma_joined_alike(middle, message, text + source);
            lemma_joined_alike(head, why + because, close);
            lemma_joined_alike(why, because, close);
        },
        None => {
            assert(head + Seq::<char>::empty() =~= head);
            lemma_joined_alike(head + message, text, source);
            lemma_joined_alike(head, message, text + source);
        },
    }
    assert(crate::cron_automation_transfer::provenance(a, reason) == head + ends_with(
        a.message@,
        reason,
    ));
    lemma_seven_joined(
        "{\"channel\":"@,
        outside::json_string(a.channel@),
        ",\"chat_id\":"@,
        outside::json_string(a.chat_id@),
        ",\"enabled\":"@,
        flag,
        ends_with(a.message@, reason),
    );
}

/// The end of a provenance tells its reason and its message.
proof fn lemma_ends(
    a: Seq<char>,
    why_a: Option<Seq<char>>,
    b: Seq<char>,
    why_b: Option<Seq<char>>,
)
    requires
        ends_with(a, why_a) == ends_with(b, why_b),
    ensures
        a == b,
        why_a == why_b,
{
    let reason = ",\"incompatible_reason\":"@;
    let message = ",\"message\":"@;
    let source = ",\"source\":\"cron_actor\"}"@;
    assert(reason[2] == 'i') by {
        reveal_strlit(",\"incompatible_reason\":");
    }
    assert(message[2] == 'm') by {
        reveal_strlit(",\"message\":");
    }
    assert(reason.len() > 2) by {
        reveal_strlit(",\"incompatible_reason\":");
    }
    assert(message.len() > 2) by {
        reveal_strlit(",\"message\":");
    }
    assert(ends_with(a, why_a)[2] == if why_a is Some {
        'i'
    } else {
        'm'
    });
    assert(ends_with(b, why_b)[2] == if why_b is Some {
        'i'
    } else {
        'm'
    });
    if let Some(m) = why_a {
        let n = why_b->0;
        lemma_string_behind(
            reason,
            m,
            message + (outside::json_string(a) + source),
            n,
            message + (outside::json_string(b) + source),
        );
    }
    lemma_string_behind(message, a, source, b, source);
}

/// What a provenance says can be read off it: two that are the same are of the same channel, chat,
/// flag, reason and message.
pub proof fn law_provenance_reads_off(
    a: CronAutomationRecord,
    why_a: Option<Seq<char>>,
    b: CronAutomationRecord,
    why_b: Option<Seq<char>>,
)
    requires
        crate::cron_automation_transfer::provenance(a, why_a)
            == crate::cron_automation_transfer::provenance(b, why_b),
    ensures
        a.channel@ == b.channel@,
        a.chat_id@ == b.chat_id@,
        a.enabled == b.enabled,
        a.message@ == b.message@,
        why_a == why_b,
{
    lemma_provenance(a, why_a);
    lemma_provenance(b, why_b);
    let flag_a = if a.enabled {
        "true"@
    } else {
        "false"@
    };
    let flag_b = if b.enabled {
        "true"@
    } else {
        "false"@
    };
    let end_a = ends_with(a.message@, why_a);
    let end_b = ends_with(b.message@, why_b);
    let on_a = ",\"enabled\":"@ + (flag_a + end_a);
    let on_b = ",\"enabled\":"@ + (flag_b + end_b);
    lemma_string_behind(
        "{\"channel\":"@,
        a.channel@,
        ",\"chat_id\":"@ + (outside::json_string(a.chat_id@) + on_a),
        b.channel@,
        ",\"chat_id\":"@ + (outside::json_string(b.chat_id@) + on_b),
    );
    lemma_string_behind(",\"chat_id\":"@, a.chat_id@, on_a, b.chat_id@, on_b);
    lemma_behind(",\"enabled\":"@, flag_a + end_a, flag_b + end_b);
    reveal_strlit("true");
    reveal_strlit("false");
    assert((flag_a + end_a)[0] == flag_a[0]);
    assert((flag_b + end_b)[0] == flag_b[0]);
    lemma_behind(flag_a, end_a, end_b);
    lemma_ends(a.message@, why_a, b.message@, why_b);
}

} // verus!
