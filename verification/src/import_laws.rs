//! What an import leaves in the stores, said of the legacy records themselves.
use vstd::prelude::*;
use vstd::string::*;
use crate::legacy_import::{
    ImportOp, ImportStanding, ImportedAssignment, ImportedTodo, LegacyAssignmentStatus,
    LegacyImportAttribution, LegacyImportError, LegacyImportReport, LegacyTodoOrigin,
    LegacyTodoStatus, Ledger, Projection, RecordOutcome,
};
use crate::outside;
use crate::text;
use crate::work_item_repository::{ExecutionPhase, WorkItem, WorkStatus};

verus! {

/// The key of an assignment: its identifier behind its length in bytes.
pub open spec fn assignment_key(id: Seq<char>) -> Seq<char> {
    "legacy:v1:assignment:"@ + text::decimal(vstd::utf8::encode_utf8(id).len()) + ":"@ + id
}

/// The key of a todo: the identifiers of its session and its own, each behind its length in bytes.
pub open spec fn todo_key(session: Seq<char>, id: Seq<char>) -> Seq<char> {
    "legacy:v1:todo:"@ + text::decimal(vstd::utf8::encode_utf8(session).len()) + ":"@ + session
        + ":"@ + text::decimal(vstd::utf8::encode_utf8(id).len()) + ":"@ + id
}

/// A work item is the one that an assignment is stored as: its title, the status that its own
/// status comes down to, the phase of that status, its own times, and its record in the
/// description.
pub open spec fn holds_assignment(
    item: WorkItem,
    entry: ImportedAssignment,
    attribution: LegacyImportAttribution,
) -> bool {
    &&& item.id.kind@ == "work_item_id"@
    &&& item.id.value@ == assignment_key(entry.record.id@)
    &&& item.project_id == attribution.project_id
    &&& item.goal_id is None
    &&& item.parent_work_item_id is None
    &&& item.kind@ == "task"@
    &&& item.title@ == entry.record.title@
    &&& item.updated_at@ == "legacy-ms:"@ + text::decimal(entry.record.updated_at as nat)
    &&& item.description@ == "{\"legacy_surface\":\"assignment\",\"legacy_key\":"@
        + outside::json_string(assignment_key(entry.record.id@))
        + ",\"legacy_created_at_unix_ms\":"@ + text::decimal(entry.record.created_at as nat)
        + ",\"legacy_updated_at_unix_ms\":"@ + text::decimal(entry.record.updated_at as nat)
        + ",\"legacy_record\":"@ + entry.record_json@ + "}"@
}

/// A work item is the one that a todo is stored as.
pub open spec fn holds_todo(
    item: WorkItem,
    entry: ImportedTodo,
    attribution: LegacyImportAttribution,
) -> bool {
    &&& item.id.kind@ == "work_item_id"@
    &&& item.id.value@ == todo_key(entry.session_id@, entry.record.id@)
    &&& item.project_id == attribution.project_id
    &&& item.goal_id is None
    &&& item.parent_work_item_id is None
    &&& item.kind@ == "task"@
    &&& item.title@ == entry.record.title@
    &&& item.description@ == "{\"legacy_surface\":\"manual_todo\",\"legacy_key\":"@
        + outside::json_string(todo_key(entry.session_id@, entry.record.id@))
        + ",\"legacy_record\":"@ + entry.record_json@ + "}"@
}

/// The keys are what their components spell.
proof fn lemma_keys(session: Seq<char>, id: Seq<char>)
    ensures
        crate::legacy_import::framed_key("assignment"@, seq![id]) == assignment_key(id),
        crate::legacy_import::framed_key("todo"@, seq![session, id]) == todo_key(session, id),
{
    reveal_strlit("legacy:v1:assignment:");
    reveal_strlit("legacy:v1:todo:");
    reveal_strlit("legacy:v1:");
    reveal_strlit("assignment");
    reveal_strlit("todo");
    reveal_strlit(":");
    reveal_with_fuel(crate::legacy_import::frames, 3);
    assert(seq![id].drop_last() =~= Seq::<Seq<char>>::empty());
    assert(seq![id].last() == id);
    assert(seq![session, id].drop_last() =~= seq![session]);
    assert(seq![session].drop_last() =~= Seq::<Seq<char>>::empty());
    assert(seq![session].last() == session);
    assert("legacy:v1:"@ + "assignment"@ + ":"@ =~= "legacy:v1:assignment:"@);
    assert("legacy:v1:"@ + "todo"@ + ":"@ =~= "legacy:v1:todo:"@);
    assert(crate::legacy_import::framed_key("assignment"@, seq![id]) =~= ("legacy:v1:"@
        + "assignment"@ + ":"@) + text::decimal(vstd::utf8::encode_utf8(id).len()) + ":"@ + id);
    assert(crate::legacy_import::framed_key("todo"@, seq![session, id]) =~= ("legacy:v1:"@
        + "todo"@ + ":"@) + text::decimal(vstd::utf8::encode_utf8(session).len()) + ":"@ + session
        + ":"@ + text::decimal(vstd::utf8::encode_utf8(id).len()) + ":"@ + id);
}

/// The description of an assignment is what its parts spell.
proof fn lemma_assignment_description(entry: ImportedAssignment)
    ensures
        crate::legacy_import::projected_assignment(entry).description
            == "{\"legacy_surface\":\"assignment\",\"legacy_key\":"@ + outside::json_string(
            assignment_key(entry.record.id@),
        ) + ",\"legacy_created_at_unix_ms\":"@ + text::decimal(entry.record.created_at as nat)
            + ",\"legacy_updated_at_unix_ms\":"@ + text::decimal(entry.record.updated_at as nat)
            + ",\"legacy_record\":"@ + entry.record_json@ + "}"@,
{
    lemma_keys(entry.record.id@, entry.record.id@);
    reveal_strlit("{\"legacy_surface\":\"assignment\",\"legacy_key\":");
    reveal_strlit("{\"legacy_surface\":\"");
    reveal_strlit("assignment");
    reveal_strlit("\",\"legacy_key\":");
    reveal_strlit(",\"legacy_created_at_unix_ms\":");
    reveal_strlit("legacy_created_at_unix_ms");
    reveal_strlit(",\"legacy_updated_at_unix_ms\":");
    reveal_strlit("legacy_updated_at_unix_ms");
    reveal_strlit(",\"");
    reveal_strlit("\":");
    assert("{\"legacy_surface\":\""@ + "assignment"@ + "\",\"legacy_key\":"@
        =~= "{\"legacy_surface\":\"assignment\",\"legacy_key\":"@);
    assert(",\""@ + "legacy_created_at_unix_ms"@ + "\":"@ =~= ",\"legacy_created_at_unix_ms\":"@);
    assert(",\""@ + "legacy_updated_at_unix_ms"@ + "\":"@ =~= ",\"legacy_updated_at_unix_ms\":"@);
    let head = "{\"legacy_surface\":\"assignment\",\"legacy_key\":"@ + outside::json_string(
        assignment_key(entry.record.id@),
    );
    let a = ",\"legacy_created_at_unix_ms\":"@;
    let b = text::decimal(entry.record.created_at as nat);
    let c = ",\"legacy_updated_at_unix_ms\":"@;
    let d = text::decimal(entry.record.updated_at as nat);
    assert(head + (a + b) + (c + d) =~= head + a + b + c + d);
}

/// The description of a todo is what its parts spell.
proof fn lemma_todo_description(entry: ImportedTodo)
    ensures
        crate::legacy_import::projected_todo(entry).description
            == "{\"legacy_surface\":\"manual_todo\",\"legacy_key\":"@ + outside::json_string(
            todo_key(entry.session_id@, entry.record.id@),
        ) + ",\"legacy_record\":"@ + entry.record_json@ + "}"@,
{
    lemma_keys(entry.session_id@, entry.record.id@);
    reveal_strlit("{\"legacy_surface\":\"manual_todo\",\"legacy_key\":");
    reveal_strlit("{\"legacy_surface\":\"");
    reveal_strlit("manual_todo");
    reveal_strlit("\",\"legacy_key\":");
    assert("{\"legacy_surface\":\""@ + "manual_todo"@ + "\",\"legacy_key\":"@
        =~= "{\"legacy_surface\":\"manual_todo\",\"legacy_key\":"@);
    let head = "{\"legacy_surface\":\"manual_todo\",\"legacy_key\":"@ + outside::json_string(
        todo_key(entry.session_id@, entry.record.id@),
    );
    assert(head + Seq::<char>::empty() + Seq::<char>::empty() =~= head);
}

/// A projected assignment that is new, or whose content changed, is stored as it stood: done and
/// terminal exactly where it was done, failed or cancelled, and in the backlog and unstarted exactly
/// where it was dispatching, running or awaiting approval. A new one keeps its time of creation and
/// starts at revision zero; a changed one keeps its first stamp and moves one revision on.
pub proof fn law_projected_assignment_is_stored(
    before: Ledger,
    attribution: LegacyImportAttribution,
    entry: ImportedAssignment,
    now: Seq<char>,
    outcome: RecordOutcome,
    after: Ledger,
)
    requires
        crate::legacy_import::project_result(
            before,
            attribution,
            crate::legacy_import::projected_assignment(entry),
            now,
            Ok(outcome),
            after,
        ),
        outcome == RecordOutcome::Updated || outcome == RecordOutcome::Imported
            && !before.work.items.contains_key(assignment_key(entry.record.id@)),
    ensures
        after.work.items.contains_key(assignment_key(entry.record.id@)),
        ({
            let key = assignment_key(entry.record.id@);
            let item = after.work.items[key];
            let ended = entry.record.status == LegacyAssignmentStatus::Done || entry.record.status
                == LegacyAssignmentStatus::Failed || entry.record.status
                == LegacyAssignmentStatus::Cancelled;
            let waits = entry.record.status == LegacyAssignmentStatus::Dispatching
                || entry.record.status == LegacyAssignmentStatus::Running || entry.record.status
                == LegacyAssignmentStatus::AwaitingApproval;
            &&& (item.status == WorkStatus::Done && item.execution_phase
                == ExecutionPhase::Terminal) <==> ended
            &&& (item.status == WorkStatus::Backlog && item.execution_phase
                == ExecutionPhase::Unstarted) <==> waits
            &&& holds_assignment(item, entry, attribution)
            &&& outcome == RecordOutcome::Imported ==> item.revision.value == 0
                && item.created_at@ == "legacy-ms:"@ + text::decimal(
                entry.record.created_at as nat,
            )
            &&& outcome == RecordOutcome::Updated ==> before.work.items.contains_key(key)
                && item.created_at@ == before.work.items[key].created_at@ && (
            before.work.items[key].revision.value < u64::MAX ==> item.revision.value
                == before.work.items[key].revision.value + 1)
            &&& after.mappings.contains_key(key)
            &&& after.mappings[key].canonical == key
            &&& after.mappings[key].hash == outside::text_digest(item.description@)
        }),
{
    lemma_keys(entry.record.id@, entry.record.id@);
    lemma_assignment_description(entry);
}

/// A projected todo that is new, or whose content changed, is stored as it stood: done and terminal
/// exactly where it was completed, in the backlog and unstarted exactly where it was pending or in
/// progress. It has no times of its own, so that the import stamps it.
pub proof fn law_projected_todo_is_stored(
    before: Ledger,
    attribution: LegacyImportAttribution,
    entry: ImportedTodo,
    now: Seq<char>,
    outcome: RecordOutcome,
    after: Ledger,
)
    requires
        crate::legacy_import::project_result(
            before,
            attribution,
            crate::legacy_import::projected_todo(entry),
            now,
            Ok(outcome),
            after,
        ),
        outcome == RecordOutcome::Updated || outcome == RecordOutcome::Imported
            && !before.work.items.contains_key(todo_key(entry.session_id@, entry.record.id@)),
    ensures
        after.work.items.contains_key(todo_key(entry.session_id@, entry.record.id@)),
        ({
            let key = todo_key(entry.session_id@, entry.record.id@);
            let item = after.work.items[key];
            &&& (item.status == WorkStatus::Done && item.execution_phase
                == ExecutionPhase::Terminal) <==> entry.record.status
                == LegacyTodoStatus::Completed
            &&& (item.status == WorkStatus::Backlog && item.execution_phase
                == ExecutionPhase::Unstarted) <==> (entry.record.status
                == LegacyTodoStatus::Pending || entry.record.status
                == LegacyTodoStatus::InProgress)
            &&& holds_todo(item, entry, attribution)
            &&& item.updated_at@ == now
            &&& outcome == RecordOutcome::Imported ==> item.revision.value == 0
                && item.created_at@ == now
            &&& outcome == RecordOutcome::Updated ==> before.work.items.contains_key(key)
                && item.created_at@ == before.work.items[key].created_at@ && (
            before.work.items[key].revision.value < u64::MAX ==> item.revision.value
                == before.work.items[key].revision.value + 1)
            &&& after.mappings.contains_key(key)
            &&& after.mappings[key].canonical == key
            &&& after.mappings[key].hash == outside::text_digest(item.description@)
        }),
{
    lemma_keys(entry.session_id@, entry.record.id@);
    lemma_todo_description(entry);
}

/// What a record stores is stored under its key.
pub open spec fn writes(op: ImportOp, key: Seq<char>) -> bool {
    match op {
        ImportOp::Assignment(Some(entry)) => key == assignment_key(entry.record.id@),
        ImportOp::Todo(Some(entry)) => entry.record.origin == Some(LegacyTodoOrigin::Manual) && key
            == todo_key(entry.session_id@, entry.record.id@),
        _ => false,
    }
}

/// A record that writes a key is the one whose projection has it.
proof fn lemma_writes(op: ImportOp, key: Seq<char>)
    ensures
        writes(op, key) <==> crate::legacy_import::projection_of(op) is Some
            && crate::legacy_import::projection_of(op)->0.key == key,
{
    match op {
        ImportOp::Assignment(Some(entry)) => {
            lemma_keys(entry.record.id@, entry.record.id@);
        },
        ImportOp::Todo(Some(entry)) => {
            lemma_keys(entry.session_id@, entry.record.id@);
        },
        _ => {},
    }
}

/// Records that do not write a key leave what stands under it.
proof fn lemma_untouched(
    trace: Seq<ImportStanding>,
    ops: Seq<ImportOp>,
    attribution: LegacyImportAttribution,
    stamps: Seq<Seq<char>>,
    outcomes: Seq<Option<RecordOutcome>>,
    count: nat,
    from: int,
    to: int,
    key: Seq<char>,
)
    requires
        crate::legacy_import::import_run(trace, ops, attribution, stamps, outcomes, count),
        0 <= from <= to <= count,
        forall|j: int| from <= j < to ==> !writes(#[trigger] ops[j], key),
    ensures
        trace[to].ledger.mappings.contains_key(key) == trace[from].ledger.mappings.contains_key(
            key,
        ),
        trace[to].ledger.mappings.contains_key(key) ==> trace[to].ledger.mappings[key]
            == trace[from].ledger.mappings[key],
        trace[to].ledger.work.items.contains_key(key)
            == trace[from].ledger.work.items.contains_key(key),
        trace[to].ledger.work.items.contains_key(key) ==> trace[to].ledger.work.items[key]
            == trace[from].ledger.work.items[key],
        trace[to].ledger.work.projects == trace[from].ledger.work.projects,
    decreases to - from,
{
    if from < to {
        lemma_untouched(trace, ops, attribution, stamps, outcomes, count, from, to - 1, key);
        let op = ops[to - 1];
        assert(crate::legacy_import::leads_on(trace, ops, attribution, stamps, outcomes, to - 1));
        lemma_writes(op, key);
        if crate::legacy_import::projection_of(op) is Some {
            crate::legacy_import::law_other_records_stay(
                trace[to - 1].ledger,
                attribution,
                crate::legacy_import::projection_of(op)->0,
                stamps[to - 1],
                Ok(outcomes[to - 1]->0),
                trace[to].ledger,
                key,
            );
        }
    }
}

/// The records of an import are its assignments in order, then its todos in order, each once.
pub proof fn law_every_record_is_taken_in_order(
    assignments: Seq<Option<ImportedAssignment>>,
    todos: Seq<Option<ImportedTodo>>,
)
    ensures
        crate::legacy_import::import_ops(assignments, todos).len() == assignments.len()
            + todos.len(),
        forall|i: int|
            0 <= i < assignments.len() ==> (#[trigger] crate::legacy_import::import_ops(
                assignments,
                todos,
            )[i]) == ImportOp::Assignment(assignments[i]),
        forall|i: int|
            assignments.len() <= i < assignments.len() + todos.len() ==> (
            #[trigger] crate::legacy_import::import_ops(assignments, todos)[i])
                == ImportOp::Todo(todos[i - assignments.len()]),
{
}

/// The run behind a completed import.
proof fn lemma_run_of(
    start: Ledger,
    ops: Seq<ImportOp>,
    attribution: LegacyImportAttribution,
    report: LegacyImportReport,
    end: Ledger,
) -> (run: (Seq<ImportStanding>, Seq<Seq<char>>, Seq<Option<RecordOutcome>>))
    requires
        crate::legacy_import::import_completed(start, ops, attribution, report, end),
    ensures
        crate::legacy_import::import_run(run.0, ops, attribution, run.1, run.2, ops.len()),
        run.0[0].ledger == start,
        run.0[0].tally == crate::legacy_import::no_tally(),
        run.0[ops.len() as int].ledger == end,
        run.0[ops.len() as int].tally == crate::legacy_import::tally_of(report),
{
    choose|
        trace: Seq<ImportStanding>,
        stamps: Seq<Seq<char>>,
        outcomes: Seq<Option<RecordOutcome>>,
    |
        {
            &&& #[trigger] crate::legacy_import::import_run(
                trace,
                ops,
                attribution,
                stamps,
                outcomes,
                ops.len(),
            )
            &&& trace[0] == (ImportStanding {
                ledger: start,
                tally: crate::legacy_import::no_tally(),
            })
            &&& trace.last() == (ImportStanding {
                ledger: end,
                tally: crate::legacy_import::tally_of(report),
            })
        }
}

/// Different assignments have different keys, and no todo has one of theirs.
proof fn lemma_assignment_key_is_its_own(id: Seq<char>, op: ImportOp)
    requires
        op matches ImportOp::Assignment(Some(entry)) ==> entry.record.id@ != id,
    ensures
        !writes(op, assignment_key(id)),
{
    lemma_keys(id, id);
    match op {
        ImportOp::Assignment(Some(entry)) => {
            lemma_keys(entry.record.id@, entry.record.id@);
            assert(seq![id][0] != seq![entry.record.id@][0]);
            crate::legacy_import::law_framed_keys_never_collide(
                "assignment"@,
                seq![id],
                seq![entry.record.id@],
            );
        },
        ImportOp::Todo(Some(entry)) => {
            lemma_keys(entry.session_id@, entry.record.id@);
            crate::legacy_import::law_surfaces_never_share_a_key(
                seq![id],
                seq![entry.session_id@, entry.record.id@],
            );
        },
        _ => {},
    }
}

/// Different todos have different keys, and no assignment has one of theirs.
proof fn lemma_todo_key_is_its_own(session: Seq<char>, id: Seq<char>, op: ImportOp)
    requires
        op matches ImportOp::Todo(Some(entry)) ==> entry.session_id@ != session || entry.record.id@
            != id || entry.record.origin != Some(LegacyTodoOrigin::Manual),
    ensures
        !writes(op, todo_key(session, id)),
{
    lemma_keys(session, id);
    match op {
        ImportOp::Assignment(Some(entry)) => {
            lemma_keys(entry.record.id@, entry.record.id@);
            crate::legacy_import::law_surfaces_never_share_a_key(
                seq![entry.record.id@],
                seq![session, id],
            );
        },
        ImportOp::Todo(Some(entry)) => {
            lemma_keys(entry.session_id@, entry.record.id@);
            let other = seq![entry.session_id@, entry.record.id@];
            if entry.session_id@ != session || entry.record.id@ != id {
                assert(seq![session, id][0] == session && seq![session, id][1] == id);
                assert(other[0] == entry.session_id@ && other[1] == entry.record.id@);
                crate::legacy_import::law_framed_keys_never_collide(
                    "todo"@,
                    seq![session, id],
                    other,
                );
            }
        },
        _ => {},
    }
}

/// After a completed import the work item of an assignment that was not stored before, and whose
/// identifier no other assignment has, is done and terminal exactly where the assignment was done,
/// failed or cancelled, and in the backlog and unstarted exactly where it was dispatching, running or
/// awaiting approval. It has the assignment's title and times, and its mapping has the digest of
/// what is stored.
pub proof fn law_imported_assignment_is_stored(
    start: Ledger,
    assignments: Seq<Option<ImportedAssignment>>,
    todos: Seq<Option<ImportedTodo>>,
    attribution: LegacyImportAttribution,
    report: LegacyImportReport,
    end: Ledger,
    i: int,
)
    requires
        crate::legacy_import::import_result(
            start,
            crate::legacy_import::import_ops(assignments, todos),
            Some(attribution),
            Ok(report),
            end,
        ),
        0 <= i < assignments.len(),
        assignments[i] is Some,
        forall|j: int|
            0 <= j < assignments.len() && j != i && (#[trigger] assignments[j]) is Some
                ==> assignments[j]->0.record.id@ != assignments[i]->0.record.id@,
        !start.work.items.contains_key(assignment_key(assignments[i]->0.record.id@)),
    ensures
        end.work.items.contains_key(assignment_key(assignments[i]->0.record.id@)),
        ({
            let entry = assignments[i]->0;
            let key = assignment_key(entry.record.id@);
            let item = end.work.items[key];
            let ended = entry.record.status == LegacyAssignmentStatus::Done || entry.record.status
                == LegacyAssignmentStatus::Failed || entry.record.status
                == LegacyAssignmentStatus::Cancelled;
            let waits = entry.record.status == LegacyAssignmentStatus::Dispatching
                || entry.record.status == LegacyAssignmentStatus::Running || entry.record.status
                == LegacyAssignmentStatus::AwaitingApproval;
            &&& (item.status == WorkStatus::Done && item.execution_phase
                == ExecutionPhase::Terminal) <==> ended
            &&& (item.status == WorkStatus::Backlog && item.execution_phase
                == ExecutionPhase::Unstarted) <==> waits
            &&& holds_assignment(item, entry, attribution)
            &&& item.revision.value == 0
            &&& item.created_at@ == "legacy-ms:"@ + text::decimal(entry.record.created_at as nat)
            &&& end.mappings.contains_key(key)
            &&& end.mappings[key].canonical == key
            &&& end.mappings[key].hash == outside::text_digest(item.description@)
        }),
{
    let ops = crate::legacy_import::import_ops(assignments, todos);
    let entry = assignments[i]->0;
    let key = assignment_key(entry.record.id@);
    let (trace, stamps, outcomes) = lemma_run_of(start, ops, attribution, report, end);
    law_every_record_is_taken_in_order(assignments, todos);
    assert(ops[i] == ImportOp::Assignment(assignments[i]));
    assert forall|j: int| 0 <= j < ops.len() && j != i implies !writes(
        #[trigger] ops[j],
        key,
    ) by {
        if j < assignments.len() {
            assert(ops[j] == ImportOp::Assignment(assignments[j]));
        } else {
            assert(ops[j] == ImportOp::Todo(todos[j - assignments.len()]));
        }
        lemma_assignment_key_is_its_own(entry.record.id@, ops[j]);
    }
    lemma_untouched(trace, ops, attribution, stamps, outcomes, ops.len(), 0, i, key);
    assert(crate::legacy_import::leads_on(trace, ops, attribution, stamps, outcomes, i));
    lemma_keys(entry.record.id@, entry.record.id@);
    let projection = crate::legacy_import::projected_assignment(entry);
    assert(crate::legacy_import::project_result(
        trace[i].ledger,
        attribution,
        projection,
        stamps[i],
        Ok(outcomes[i]->0),
        trace[i + 1].ledger,
    ));
    law_projected_assignment_is_stored(
        trace[i].ledger,
        attribution,
        entry,
        stamps[i],
        outcomes[i]->0,
        trace[i + 1].ledger,
    );
    lemma_untouched(
        trace,
        ops,
        attribution,
        stamps,
        outcomes,
        ops.len(),
        i + 1,
        ops.len() as int,
        key,
    );
}

/// After a completed import the work item of a manual todo that was not stored before, and that no
/// other todo shares its session and identifier with, is done and terminal exactly where the todo
/// was completed, and in the backlog and unstarted exactly where it was pending or in progress. Both
/// its stamps are the one time of the import.
pub proof fn law_imported_todo_is_stored(
    start: Ledger,
    assignments: Seq<Option<ImportedAssignment>>,
    todos: Seq<Option<ImportedTodo>>,
    attribution: LegacyImportAttribution,
    report: LegacyImportReport,
    end: Ledger,
    i: int,
)
    requires
        crate::legacy_import::import_result(
            start,
            crate::legacy_import::import_ops(assignments, todos),
            Some(attribution),
            Ok(report),
            end,
        ),
        0 <= i < todos.len(),
        todos[i] is Some,
        todos[i]->0.record.origin == Some(LegacyTodoOrigin::Manual),
        forall|j: int|
            0 <= j < todos.len() && j != i && (#[trigger] todos[j]) is Some ==> todos[j]->0.session_id@
                != todos[i]->0.session_id@ || todos[j]->0.record.id@ != todos[i]->0.record.id@,
        !start.work.items.contains_key(todo_key(todos[i]->0.session_id@, todos[i]->0.record.id@)),
    ensures
        end.work.items.contains_key(todo_key(todos[i]->0.session_id@, todos[i]->0.record.id@)),
        ({
            let entry = todos[i]->0;
            let key = todo_key(entry.session_id@, entry.record.id@);
            let item = end.work.items[key];
            &&& (item.status == WorkStatus::Done && item.execution_phase
                == ExecutionPhase::Terminal) <==> entry.record.status
                == LegacyTodoStatus::Completed
            &&& (item.status == WorkStatus::Backlog && item.execution_phase
                == ExecutionPhase::Unstarted) <==> (entry.record.status
                == LegacyTodoStatus::Pending || entry.record.status
                == LegacyTodoStatus::InProgress)
            &&& holds_todo(item, entry, attribution)
            &&& item.revision.value == 0
            &&& item.created_at@ == item.updated_at@
            &&& outside::is_clock_text(item.created_at@)
            &&& end.mappings.contains_key(key)
            &&& end.mappings[key].canonical == key
            &&& end.mappings[key].hash == outside::text_digest(item.description@)
        }),
{
    let ops = crate::legacy_import::import_ops(assignments, todos);
    let entry = todos[i]->0;
    let key = todo_key(entry.session_id@, entry.record.id@);
    let (trace, stamps, outcomes) = lemma_run_of(start, ops, attribution, report, end);
    law_every_record_is_taken_in_order(assignments, todos);
    let at: int = assignments.len() + i;
    assert(ops[at] == ImportOp::Todo(todos[i]));
    assert forall|j: int| 0 <= j < ops.len() && j != at implies !writes(
        #[trigger] ops[j],
        key,
    ) by {
        if j < assignments.len() {
            assert(ops[j] == ImportOp::Assignment(assignments[j]));
        } else {
            assert(ops[j] == ImportOp::Todo(todos[j - assignments.len()]));
        }
        lemma_todo_key_is_its_own(entry.session_id@, entry.record.id@, ops[j]);
    }
    lemma_untouched(trace, ops, attribution, stamps, outcomes, ops.len(), 0, at, key);
    assert(crate::legacy_import::leads_on(trace, ops, attribution, stamps, outcomes, at));
    lemma_keys(entry.session_id@, entry.record.id@);
    assert(outside::is_clock_text(stamps[at]));
    law_projected_todo_is_stored(
        trace[at].ledger,
        attribution,
        entry,
        stamps[at],
        outcomes[at]->0,
        trace[at + 1].ledger,
    );
    lemma_untouched(
        trace,
        ops,
        attribution,
        stamps,
        outcomes,
        ops.len(),
        at + 1,
        ops.len() as int,
        key,
    );
}

/// A completed import writes under no key but those of its assignments and its manual todos: what
/// stands under any other key is as it was. So a todo of an agent's own plan is never stored.
pub proof fn law_nothing_else_is_written(
    start: Ledger,
    assignments: Seq<Option<ImportedAssignment>>,
    todos: Seq<Option<ImportedTodo>>,
    attribution: LegacyImportAttribution,
    report: LegacyImportReport,
    end: Ledger,
    key: Seq<char>,
)
    requires
        crate::legacy_import::import_result(
            start,
            crate::legacy_import::import_ops(assignments, todos),
            Some(attribution),
            Ok(report),
            end,
        ),
        forall|j: int|
            0 <= j < assignments.len() && (#[trigger] assignments[j]) is Some ==> key
                != assignment_key(assignments[j]->0.record.id@),
        forall|j: int|
            0 <= j < todos.len() && (#[trigger] todos[j]) is Some && todos[j]->0.record.origin
                == Some(LegacyTodoOrigin::Manual) ==> key != todo_key(
                todos[j]->0.session_id@,
                todos[j]->0.record.id@,
            ),
    ensures
        end.mappings.contains_key(key) == start.mappings.contains_key(key),
        end.mappings.contains_key(key) ==> end.mappings[key] == start.mappings[key],
        end.work.items.contains_key(key) == start.work.items.contains_key(key),
        end.work.items.contains_key(key) ==> end.work.items[key] == start.work.items[key],
        end.work.projects == start.work.projects,
{
    let ops = crate::legacy_import::import_ops(assignments, todos);
    let (trace, stamps, outcomes) = lemma_run_of(start, ops, attribution, report, end);
    law_every_record_is_taken_in_order(assignments, todos);
    assert forall|j: int| 0 <= j < ops.len() implies !writes(#[trigger] ops[j], key) by {
        if j < assignments.len() {
            assert(ops[j] == ImportOp::Assignment(assignments[j]));
            assert(assignments[j] is Some ==> key != assignment_key(assignments[j]->0.record.id@));
        } else {
            assert(ops[j] == ImportOp::Todo(todos[j - assignments.len()]));
            let todo = todos[j - assignments.len()];
            assert(todo is Some && todo->0.record.origin == Some(LegacyTodoOrigin::Manual) ==> key
                != todo_key(todo->0.session_id@, todo->0.record.id@));
        }
    }
    lemma_untouched(
        trace,
        ops,
        attribution,
        stamps,
        outcomes,
        ops.len(),
        0,
        ops.len() as int,
        key,
    );
}

/// An import without an attribution is refused and writes nothing.
pub proof fn law_import_needs_an_attribution(
    start: Ledger,
    ops: Seq<ImportOp>,
    r: Result<LegacyImportReport, LegacyImportError>,
    end: Ledger,
)
    requires
        crate::legacy_import::import_result(start, ops, None, r, end),
    ensures
        r matches Err(LegacyImportError::AttributionRequired),
        end == start,
{
}

/// What a record comes to is decided by what stands under its key. Nothing there: it is imported
/// where the project is known. An equal mapping and an item of the project: it is unchanged. Another
/// hash and an item of the project: it is updated. A mapping to another item, or an item in another
/// project: it is in conflict. Only a failing store answers otherwise.
pub proof fn law_projection_is_decided_by_what_is_stored(
    before: Ledger,
    attribution: LegacyImportAttribution,
    projection: Projection,
    now: Seq<char>,
    r: Result<RecordOutcome, LegacyImportError>,
    after: Ledger,
)
    requires
        crate::legacy_import::project_result(before, attribution, projection, now, r, after),
        !(r matches Err(LegacyImportError::Database { .. })),
    ensures
        ({
            let key = projection.key;
            let mapped = before.mappings.contains_key(key);
            let mapping = before.mappings[key];
            let held = before.work.items.contains_key(key);
            let item = before.work.items[key];
            let here = item.project_id.kind@ == attribution.project_id.kind@
                && item.project_id.value@ == attribution.project_id.value@;
            &&& !mapped && !held ==> r == Ok::<RecordOutcome, LegacyImportError>(
                RecordOutcome::Imported,
            )
            &&& !mapped && held && here && item.description@ == projection.description ==> r == Ok::<
                RecordOutcome,
                LegacyImportError,
            >(RecordOutcome::Imported) && after.work == before.work
            &&& !mapped && held && !(here && item.description@ == projection.description)
                ==> r is Err && r->Err_0 is RevisionConflict && after == before
            &&& mapped && mapping.canonical == key && mapping.hash == projection.content_hash
                && held && here ==> r == Ok::<RecordOutcome, LegacyImportError>(
                RecordOutcome::Unchanged,
            ) && after == before
            &&& mapped && mapping.canonical == key && mapping.hash != projection.content_hash
                && held && here ==> r == Ok::<RecordOutcome, LegacyImportError>(
                RecordOutcome::Updated,
            )
            &&& mapped && (mapping.canonical != key || held && !here) ==> r is Err
                && r->Err_0 is RevisionConflict && after == before
        }),
{
}

/// A fresh import of records with identifiers of their own, into a known project, is owed: nothing
/// is in conflict and nothing is unstorable, so that only a failing store can stop it.
pub proof fn law_fresh_import_is_owed(
    start: Ledger,
    ops: Seq<ImportOp>,
    attribution: LegacyImportAttribution,
    r: Result<LegacyImportReport, LegacyImportError>,
    end: Ledger,
    reason: Seq<char>,
)
    requires
        crate::legacy_import::import_result(start, ops, Some(attribution), r, end),
        start.work.projects.contains_key(attribution.project_id.value@),
        forall|i: int, key: Seq<char>|
            0 <= i < ops.len() && #[trigger] writes(ops[i], key) ==> !start.mappings.contains_key(
                key,
            ) && !start.work.items.contains_key(key),
        forall|i: int, j: int, key: Seq<char>|
            0 <= i < j < ops.len() && #[trigger] writes(ops[i], key) ==> !#[trigger] writes(
                ops[j],
                key,
            ),
    ensures
        r is Ok || r->Err_0 is Database,
        !crate::legacy_import::import_blocked(start, ops, attribution, reason),
{
    if let Err(error) = r {
        let (trace, stamps, outcomes, count, now) = choose|
            trace: Seq<ImportStanding>,
            stamps: Seq<Seq<char>>,
            outcomes: Seq<Option<RecordOutcome>>,
            count: nat,
            now: Seq<char>,
        |
            {
                &&& #[trigger] crate::legacy_import::import_run(
                    trace,
                    ops,
                    attribution,
                    stamps,
                    outcomes,
                    count,
                )
                &&& count < ops.len()
                &&& outside::is_clock_text(now)
                &&& trace[0] == (ImportStanding {
                    ledger: start,
                    tally: crate::legacy_import::no_tally(),
                })
                &&& #[trigger] crate::legacy_import::record_failed(
                    trace.last().ledger,
                    ops[count as int],
                    attribution,
                    now,
                    error,
                    end,
                )
            };
        let key = crate::legacy_import::projection_of(ops[count as int])->0.key;
        lemma_writes(ops[count as int], key);
        assert(writes(ops[count as int], key));
        lemma_untouched(
            trace,
            ops,
            attribution,
            stamps,
            outcomes,
            count,
            0,
            count as int,
            key,
        );
    }
    if crate::legacy_import::import_blocked(start, ops, attribution, reason) {
        let (trace, stamps, outcomes, count) = choose|
            trace: Seq<ImportStanding>,
            stamps: Seq<Seq<char>>,
            outcomes: Seq<Option<RecordOutcome>>,
            count: nat,
        |
            {
                &&& #[trigger] crate::legacy_import::import_run(
                    trace,
                    ops,
                    attribution,
                    stamps,
                    outcomes,
                    count,
                )
                &&& count < ops.len()
                &&& trace[0] == (ImportStanding {
                    ledger: start,
                    tally: crate::legacy_import::no_tally(),
                })
                &&& crate::legacy_import::cannot_store(
                    trace.last().ledger,
                    ops[count as int],
                    attribution,
                    reason,
                )
            };
        let key = crate::legacy_import::projection_of(ops[count as int])->0.key;
        lemma_writes(ops[count as int], key);
        assert(writes(ops[count as int], key));
        lemma_untouched(
            trace,
            ops,
            attribution,
            stamps,
            outcomes,
            count,
            0,
            count as int,
            key,
        );
    }
}

/// How many of the first records are of a sort.
pub open spec fn counted(ops: Seq<ImportOp>, sort: spec_fn(ImportOp) -> bool) -> nat {
    ops.filter(sort).len()
}

/// A corrupt assignment.
pub open spec fn corrupt_assignment() -> spec_fn(ImportOp) -> bool {
    |op: ImportOp| op matches ImportOp::Assignment(entry) && entry is None
}

/// A corrupt todo.
pub open spec fn corrupt_todo() -> spec_fn(ImportOp) -> bool {
    |op: ImportOp| op matches ImportOp::Todo(entry) && entry is None
}

/// A todo that no one wrote by hand.
pub open spec fn planned_todo() -> spec_fn(ImportOp) -> bool {
    |op: ImportOp|
        op matches ImportOp::Todo(Some(entry)) && entry.record.origin != Some(
            LegacyTodoOrigin::Manual,
        )
}

/// An assignment made from an issue or a pull request.
pub open spec fn external_assignment() -> spec_fn(ImportOp) -> bool {
    |op: ImportOp|
        op matches ImportOp::Assignment(Some(entry)) && (entry.record.source is Issue
            || entry.record.source is Pr)
}

/// An assignment.
pub open spec fn any_assignment() -> spec_fn(ImportOp) -> bool {
    |op: ImportOp| op is Assignment
}

/// A todo.
pub open spec fn any_todo() -> spec_fn(ImportOp) -> bool {
    |op: ImportOp| op is Todo
}

/// One more record adds one where it is of the sort.
proof fn lemma_one_more(ops: Seq<ImportOp>, i: int, sort: spec_fn(ImportOp) -> bool)
    requires
        0 <= i < ops.len(),
    ensures
        counted(ops.take(i + 1), sort) == counted(ops.take(i), sort) + if sort(ops[i]) {
            1nat
        } else {
            0nat
        },
{
    reveal(Seq::filter);
    assert(ops.take(i + 1).drop_last() =~= ops.take(i));
}

/// The counts after some records.
proof fn lemma_counts(
    trace: Seq<ImportStanding>,
    ops: Seq<ImportOp>,
    attribution: LegacyImportAttribution,
    stamps: Seq<Seq<char>>,
    outcomes: Seq<Option<RecordOutcome>>,
    to: int,
)
    requires
        crate::legacy_import::import_run(trace, ops, attribution, stamps, outcomes, ops.len()),
        trace[0].tally == crate::legacy_import::no_tally(),
        0 <= to <= ops.len(),
    ensures
        ({
            let tally = trace[to].tally;
            let taken = ops.take(to);
            &&& tally.assignments_total == counted(taken, any_assignment())
            &&& tally.todos_total == counted(taken, any_todo())
            &&& tally.assignments_skipped_corrupt == counted(taken, corrupt_assignment())
            &&& tally.todos_skipped_corrupt == counted(taken, corrupt_todo())
            &&& tally.todos_skipped_agent_plan == counted(taken, planned_todo())
            &&& tally.external_objects_skipped == counted(taken, external_assignment())
            &&& tally.assignments_imported + tally.assignments_unchanged + tally.assignments_updated
                + tally.assignments_skipped_corrupt == tally.assignments_total
            &&& tally.todos_imported_manual_only + tally.todos_skipped_agent_plan
                + tally.todos_skipped_corrupt <= tally.todos_total
        }),
    decreases to,
{
    if to > 0 {
        lemma_counts(trace, ops, attribution, stamps, outcomes, to - 1);
        assert(crate::legacy_import::leads_on(trace, ops, attribution, stamps, outcomes, to - 1));
        lemma_one_more(ops, to - 1, any_assignment());
        lemma_one_more(ops, to - 1, any_todo());
        lemma_one_more(ops, to - 1, corrupt_assignment());
        lemma_one_more(ops, to - 1, corrupt_todo());
        lemma_one_more(ops, to - 1, planned_todo());
        lemma_one_more(ops, to - 1, external_assignment());
    } else {
        reveal(Seq::filter);
        assert(ops.take(0) =~= Seq::empty());
    }
}

/// The report of a completed import counts every record: all assignments and all todos, the corrupt
/// ones of each, the todos of an agent's own plan, and the assignments made from an issue or a pull
/// request. Every assignment that is not corrupt was imported, unchanged or updated.
pub proof fn law_report_counts_every_record(
    start: Ledger,
    ops: Seq<ImportOp>,
    attribution: LegacyImportAttribution,
    report: LegacyImportReport,
    end: Ledger,
)
    requires
        crate::legacy_import::import_result(start, ops, Some(attribution), Ok(report), end),
    ensures
        report.assignments_total == counted(ops, any_assignment()),
        report.todos_total == counted(ops, any_todo()),
        report.assignments_skipped_corrupt == counted(ops, corrupt_assignment()),
        report.todos_skipped_corrupt == counted(ops, corrupt_todo()),
        report.todos_skipped_agent_plan == counted(ops, planned_todo()),
        report.external_objects_skipped == counted(ops, external_assignment()),
        report.assignments_imported + report.assignments_unchanged + report.assignments_updated
            + report.assignments_skipped_corrupt == report.assignments_total,
        report.todos_imported_manual_only + report.todos_skipped_agent_plan
            + report.todos_skipped_corrupt <= report.todos_total,
{
    let (trace, stamps, outcomes) = lemma_run_of(start, ops, attribution, report, end);
    lemma_counts(trace, ops, attribution, stamps, outcomes, ops.len() as int);
    assert(ops.take(ops.len() as int) =~= ops);
}

/// Each record adds one to the count of what came of it and nothing to the others. Something comes
/// of a record exactly where it asks for work.
pub proof fn law_outcomes_are_counted(
    before: ImportStanding,
    op: ImportOp,
    attribution: LegacyImportAttribution,
    now: Seq<char>,
    outcome: Option<RecordOutcome>,
    after: ImportStanding,
)
    requires
        crate::legacy_import::import_step(before, op, attribution, now, outcome, after),
    ensures
        after.tally.assignments_imported == before.tally.assignments_imported + if op is Assignment
            && outcome == Some(RecordOutcome::Imported) {
            1nat
        } else {
            0nat
        },
        after.tally.assignments_unchanged == before.tally.assignments_unchanged
            + if op is Assignment && outcome == Some(RecordOutcome::Unchanged) {
            1nat
        } else {
            0nat
        },
        after.tally.assignments_updated == before.tally.assignments_updated + if op is Assignment
            && outcome == Some(RecordOutcome::Updated) {
            1nat
        } else {
            0nat
        },
        after.tally.todos_imported_manual_only == before.tally.todos_imported_manual_only
            + if op is Todo && (outcome == Some(RecordOutcome::Imported) || outcome == Some(
            RecordOutcome::Updated,
        )) {
            1nat
        } else {
            0nat
        },
        outcome is Some <==> exists|key: Seq<char>| #[trigger] writes(op, key),
{
    if outcome is Some {
        let key = crate::legacy_import::projection_of(op)->0.key;
        lemma_writes(op, key);
    } else {
        assert forall|key: Seq<char>| !#[trigger] writes(op, key) by {
            lemma_writes(op, key);
        }
    }
}

} // verus!
