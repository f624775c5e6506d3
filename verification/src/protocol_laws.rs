//! What the mutations of the protocol leave behind, and when they are refused, said field by field.
use vstd::prelude::*;
use vstd::string::*;
use crate::model::Actor;
use crate::protocol_dispatch::{
    CapabilityNegotiationRequest, CapabilityNegotiationResponse, ControlErrorCode,
    ControlPlaneCapabilities, CreateWorkItemCommand, EventKind, MutationStamps, Plane,
    ProtocolDispatcher, ProtocolError, ProtocolOutcome, TransitionWorkItemCommand, WorkItemLimits,
};
use crate::protocol_dispatch::{ActivityEventRepository, ControlEventRepository};
use crate::text;
use crate::work_item_repository::{ExecutionPhase, WorkItemRepository, WorkStatus};

verus! {

/// A committed transition leaves the item, in the answer and in the store, with the status that was
/// asked for, one revision above the expected one, the stamp of the mutation, and every other field
/// as it was before. Nothing else in the store changes.
pub proof fn law_committed_transition(
    before: Plane,
    command: TransitionWorkItemCommand,
    actor: Actor,
    stamps: MutationStamps,
    r: Result<ProtocolOutcome, ProtocolError>,
    after: Plane,
)
    requires
        before.work is Some,
        crate::work_item_repository::keyed(before.work->0),
        crate::protocol_dispatch::transition_outcome(before, command, actor, stamps, r, after),
        r is Ok,
        command.expected_revision.value < u64::MAX,
    ensures
        before.work->0.items.contains_key(command.work_item_id.value@),
        r matches Ok(ProtocolOutcome::WorkItemTransitioned(item)) && {
            let prior = before.work->0.items[command.work_item_id.value@];
            &&& prior.revision.value == command.expected_revision.value
            &&& item.status == command.to_status
            &&& item.revision.value == command.expected_revision.value + 1
            &&& item.updated_at == stamps.mutation
            &&& item.id == prior.id
            &&& item.project_id == prior.project_id
            &&& item.goal_id == prior.goal_id
            &&& item.parent_work_item_id == prior.parent_work_item_id
            &&& item.kind == prior.kind
            &&& item.title == prior.title
            &&& item.description == prior.description
            &&& item.execution_phase == prior.execution_phase
            &&& item.created_at == prior.created_at
        },
        after.work is Some,
        after.work->0.items.contains_key(command.work_item_id.value@),
        ({
            let prior = before.work->0.items[command.work_item_id.value@];
            let stored = after.work->0.items[command.work_item_id.value@];
            &&& stored.status == command.to_status
            &&& stored.revision.value == command.expected_revision.value + 1
            &&& stored.updated_at == stamps.mutation
            &&& stored.id == prior.id
            &&& stored.project_id == prior.project_id
            &&& stored.goal_id == prior.goal_id
            &&& stored.parent_work_item_id == prior.parent_work_item_id
            &&& stored.kind == prior.kind
            &&& stored.title == prior.title
            &&& stored.description == prior.description
            &&& stored.execution_phase == prior.execution_phase
            &&& stored.created_at == prior.created_at
        }),
        after.work->0.projects == before.work->0.projects,
        forall|key: Seq<char>|
            key != command.work_item_id.value@ ==> {
                &&& (#[trigger] after.work->0.items.contains_key(key))
                    == before.work->0.items.contains_key(key)
                &&& after.work->0.items.contains_key(key) ==> after.work->0.items[key]
                    == before.work->0.items[key]
            },
{
    let key = command.work_item_id.value@;
    assert(before.work->0.items[key].id.value@ == key);
}

/// Whatever a transition comes to, the store either is as it was or holds the item under the status
/// that was asked for: no other status is ever written.
pub proof fn law_transition_writes_the_asked_status(
    before: Plane,
    command: TransitionWorkItemCommand,
    actor: Actor,
    stamps: MutationStamps,
    r: Result<ProtocolOutcome, ProtocolError>,
    after: Plane,
)
    requires
        before.work is Some,
        crate::work_item_repository::keyed(before.work->0),
        crate::protocol_dispatch::transition_outcome(before, command, actor, stamps, r, after),
        after.work != before.work,
    ensures
        after.work is Some,
        after.work->0.items.contains_key(command.work_item_id.value@),
        after.work->0.items[command.work_item_id.value@].status == command.to_status,
        before.work->0.items[command.work_item_id.value@].revision == command.expected_revision,
        r matches Err(error) ==> error.code == ControlErrorCode::InternalError,
{
    let key = command.work_item_id.value@;
    assert(before.work->0.items[key].id.value@ == key);
}

/// The name that a status has in the summary of a transition.
pub open spec fn is_named(status: WorkStatus, name: Seq<char>) -> bool {
    &&& status == WorkStatus::Backlog <==> name == "backlog"@
    &&& status == WorkStatus::Todo <==> name == "todo"@
    &&& status == WorkStatus::InProgress <==> name == "in_progress"@
    &&& status == WorkStatus::InReview <==> name == "in_review"@
    &&& status == WorkStatus::Done <==> name == "done"@
    &&& status == WorkStatus::Blocked <==> name == "blocked"@
    &&& status == WorkStatus::Cancelled <==> name == "cancelled"@
}

/// The seven names of the statuses differ.
proof fn lemma_status_names_differ(status: WorkStatus)
    ensures
        is_named(status, crate::protocol_dispatch::status_text(status)),
{
    reveal_strlit("backlog");
    reveal_strlit("todo");
    reveal_strlit("in_progress");
    reveal_strlit("in_review");
    reveal_strlit("done");
    reveal_strlit("blocked");
    reveal_strlit("cancelled");
    assert("backlog"@.len() == 7);
    assert("todo"@.len() == 4);
    assert("todo"@[0] == 't');
    assert("in_progress"@.len() == 11);
    assert("in_review"@.len() == 9);
    assert("in_review"@[0] == 'i');
    assert("done"@.len() == 4);
    assert("done"@[0] == 'd');
    assert("blocked"@.len() == 7);
    assert("blocked"@[1] == 'l');
    assert("backlog"@[1] == 'a');
    assert("cancelled"@.len() == 9);
    assert("cancelled"@[0] == 'c');
}

/// A committed transition that no earlier attempt recorded adds one fact to the stream and one
/// change to the log. Both name the actor of the request, the item, and the new revision; the fact
/// names the status that was asked for, and the change carries the item as it is stored.
pub proof fn law_transition_is_recorded_as_it_was_made(
    before: Plane,
    command: TransitionWorkItemCommand,
    actor: Actor,
    stamps: MutationStamps,
    item: crate::work_item_repository::WorkItem,
    after: Plane,
)
    requires
        before.work is Some,
        crate::work_item_repository::keyed(before.work->0),
        crate::protocol_dispatch::transition_outcome(
            before,
            command,
            actor,
            stamps,
            Ok(ProtocolOutcome::WorkItemTransitioned(item)),
            after,
        ),
        forall|i: int|
            0 <= i < before.activity->0.len() ==> (#[trigger] before.activity->0[i]).event_id@
                != "work_item_"@ + item.id.value@ + "_"@ + text::decimal(
                item.revision.value as nat,
            ),
        forall|i: int|
            0 <= i < before.control->0.len() ==> !((#[trigger] before.control->0[i]).1.aggregate_id.value@
                == item.id.value@ && before.control->0[i].1.sequence == item.revision.value),
    ensures
        item.id.value@ == command.work_item_id.value@,
        before.activity is Some,
        after.activity is Some,
        after.activity->0.len() == before.activity->0.len() + 1,
        after.activity->0.drop_last() == before.activity->0,
        ({
            let fact = after.activity->0.last();
            &&& fact.event_id@ == "work_item_"@ + item.id.value@ + "_"@ + text::decimal(
                item.revision.value as nat,
            )
            &&& fact.kind == EventKind::StatusChanged
            &&& fact.actor == actor
            &&& fact.timestamp@ == stamps.audit@
            &&& fact.organization_id == command.organization_id
            &&& fact.project_id == Some(item.project_id)
            &&& fact.work_item_id == Some(item.id)
            &&& fact.attempt_id is None
            &&& exists|name: Seq<char>|
                #[trigger] is_named(command.to_status, name) && fact.summary@
                    == "transitioned work item to "@ + name
        }),
        before.control is Some,
        after.control is Some,
        after.control->0.len() == before.control->0.len() + 1,
        after.control->0.drop_last() == before.control->0,
        after.control->0.last().0 == command.organization_id,
        ({
            let change = after.control->0.last().1;
            &&& change.aggregate@ == "work_item"@
            &&& change.aggregate_id == item.id
            &&& change.sequence == item.revision.value
            &&& change.revision == item.revision
            &&& change.kind == EventKind::StatusChanged
            &&& change.actor == actor
            &&& change.timestamp@ == stamps.audit@
            &&& change.payload == item
            &&& change.payload == after.work->0.items[command.work_item_id.value@]
        }),
{
    let key = command.work_item_id.value@;
    assert(before.work->0.items[key].id.value@ == key);
    lemma_status_names_differ(command.to_status);
    assert(after.activity->0.drop_last() =~= before.activity->0);
    assert(after.control->0.drop_last() =~= before.control->0);
}

/// A transition of a sound command is owed: where the identifiers are of their types, both audit
/// stores are wired, the project is known under the claimed organization, and the item stands in
/// that project under the expected revision, only a failing store can refuse it.
pub proof fn law_sound_transition_is_made(
    before: Plane,
    command: TransitionWorkItemCommand,
    actor: Actor,
    stamps: MutationStamps,
    r: Result<ProtocolOutcome, ProtocolError>,
    after: Plane,
)
    requires
        before.work is Some,
        crate::work_item_repository::keyed(before.work->0),
        crate::protocol_dispatch::transition_outcome(before, command, actor, stamps, r, after),
        before.activity is Some,
        before.control is Some,
        command.organization_id.kind@ == "organization_id"@,
        command.project_id.kind@ == "project_id"@,
        command.work_item_id.kind@ == "work_item_id"@,
        before.work->0.projects.contains_key(command.project_id.value@),
        before.work->0.projects[command.project_id.value@].kind@ == command.organization_id.kind@,
        before.work->0.projects[command.project_id.value@].value@ == command.organization_id.value@,
        before.work->0.items.contains_key(command.work_item_id.value@),
        before.work->0.items[command.work_item_id.value@].project_id.kind@
            == command.project_id.kind@,
        before.work->0.items[command.work_item_id.value@].project_id.value@
            == command.project_id.value@,
        before.work->0.items[command.work_item_id.value@].revision.value
            == command.expected_revision.value,
        r matches Err(error) ==> error.code != ControlErrorCode::InternalError,
    ensures
        r is Ok,
{
    let key = command.work_item_id.value@;
    assert(before.work->0.items[key].id.value@ == key);
    if let Err(error) = r {
        assert(error@.code == error.code);
    }
}

/// What is wrong with a transition decides its refusal, in this order: an identifier of another
/// type, an audit store that is not wired, a project that is not known, a project of another
/// organization, an item that is not found in the project, another revision than the expected one.
/// A refused transition leaves no trace.
pub proof fn law_unsound_transition_is_refused(
    before: Plane,
    command: TransitionWorkItemCommand,
    actor: Actor,
    stamps: MutationStamps,
    r: Result<ProtocolOutcome, ProtocolError>,
    after: Plane,
)
    requires
        before.work is Some,
        crate::work_item_repository::keyed(before.work->0),
        crate::protocol_dispatch::transition_outcome(before, command, actor, stamps, r, after),
        r matches Err(error) ==> error.code != ControlErrorCode::InternalError,
    ensures
        r is Err ==> after == before,
        ({
            let work = before.work->0;
            let typed = command.organization_id.kind@ == "organization_id"@
                && command.project_id.kind@ == "project_id"@ && command.work_item_id.kind@
                == "work_item_id"@;
            let audited = before.activity is Some && before.control is Some;
            let known = work.projects.contains_key(command.project_id.value@);
            let owner = work.projects[command.project_id.value@];
            let owned = owner.kind@ == command.organization_id.kind@ && owner.value@
                == command.organization_id.value@;
            let item = work.items[command.work_item_id.value@];
            let found = work.items.contains_key(command.work_item_id.value@)
                && item.project_id.kind@ == command.project_id.kind@ && item.project_id.value@
                == command.project_id.value@;
            let code = r->Err_0.code;
            &&& !typed ==> r is Err && code == ControlErrorCode::InvalidId
            &&& typed && !audited ==> r is Err && code == ControlErrorCode::PolicyDenied
            &&& typed && audited && !known ==> r is Err && code == ControlErrorCode::NotFound
            &&& typed && audited && known && !owned ==> r is Err && code
                == ControlErrorCode::PolicyDenied
            &&& typed && audited && known && owned && !found ==> r is Err && code
                == ControlErrorCode::NotFound
            &&& typed && audited && known && owned && found && item.revision.value
                != command.expected_revision.value ==> r is Err && code
                == ControlErrorCode::StaleRevision
        }),
{
    let key = command.work_item_id.value@;
    let work = before.work->0;
    if work.items.contains_key(key) {
        assert(work.items[key].id.value@ == key);
    }
    if let Err(error) = r {
        assert(error@.code == error.code);
    }
}

/// A refused transition says what stood in its way: the field and the type it wants, the missing
/// stores, or the revision that was found.
pub proof fn law_transition_refusals_name_their_cause(
    before: Plane,
    command: TransitionWorkItemCommand,
    actor: Actor,
    stamps: MutationStamps,
    error: ProtocolError,
    after: Plane,
)
    requires
        before.work is Some,
        crate::work_item_repository::keyed(before.work->0),
        crate::protocol_dispatch::transition_outcome(
            before,
            command,
            actor,
            stamps,
            Err(error),
            after,
        ),
    ensures
        command.organization_id.kind@ != "organization_id"@ ==> error.message@
            == "organization_id must be a organization_id id"@,
        command.organization_id.kind@ == "organization_id"@ && command.project_id.kind@
            != "project_id"@ ==> error.message@ == "project_id must be a project_id id"@,
        command.organization_id.kind@ == "organization_id"@ && command.project_id.kind@
            == "project_id"@ && command.work_item_id.kind@ != "work_item_id"@ ==> error.message@
            == "work_item_id must be a work_item_id id"@,
        error.code == ControlErrorCode::StaleRevision ==> {
            ||| error.message@ == "transition work item: expected revision "@ + text::decimal(
                command.expected_revision.value as nat,
            ) + " but found "@ + text::decimal(
                before.work->0.items[command.work_item_id.value@].revision.value as nat,
            ) + " for "@ + command.work_item_id.value@
            ||| error.message@ == "transition work item: stale revision for work item: "@
                + command.work_item_id.value@
        },
{
    assert(error@.code == error.code && error@.message == error.message@);
    reveal_strlit("organization_id must be a organization_id id");
    reveal_strlit("organization_id");
    reveal_strlit("project_id must be a project_id id");
    reveal_strlit("project_id");
    reveal_strlit("work_item_id must be a work_item_id id");
    reveal_strlit("work_item_id");
    reveal_strlit(" must be a ");
    reveal_strlit(" id");
    reveal_strlit("transition work item: stale revision for work item: ");
    reveal_strlit("transition work item");
    reveal_strlit(": stale revision for work item: ");
    assert("organization_id"@ + " must be a "@ + "organization_id"@ + " id"@
        =~= "organization_id must be a organization_id id"@);
    assert("project_id"@ + " must be a "@ + "project_id"@ + " id"@
        =~= "project_id must be a project_id id"@);
    assert("work_item_id"@ + " must be a "@ + "work_item_id"@ + " id"@
        =~= "work_item_id must be a work_item_id id"@);
    assert("transition work item"@ + ": stale revision for work item: "@
        =~= "transition work item: stale revision for work item: "@);
    let key = command.work_item_id.value@;
    if before.work->0.items.contains_key(key) {
        assert(before.work->0.items[key].id.value@ == key);
    }
}

/// A committed creation answers with the item that it stores: the command's own texts and
/// identifiers, in the backlog, unstarted, at revision zero, stamped twice with the time of the
/// mutation. The identifier was free before, and nothing else in the store changes.
pub proof fn law_committed_creation(
    before: Plane,
    limits: WorkItemLimits,
    command: CreateWorkItemCommand,
    actor: Actor,
    stamps: MutationStamps,
    r: Result<ProtocolOutcome, ProtocolError>,
    after: Plane,
)
    requires
        before.work is Some,
        crate::protocol_dispatch::create_outcome(
            before,
            limits,
            command,
            actor,
            stamps,
            r,
            after,
        ),
        r is Ok,
    ensures
        !before.work->0.items.contains_key(command.work_item_id.value@),
        r matches Ok(ProtocolOutcome::WorkItemCreated(item)) && {
            &&& item.id == command.work_item_id
            &&& item.project_id == command.project_id
            &&& item.goal_id == command.goal_id
            &&& item.parent_work_item_id == command.parent_work_item_id
            &&& item.kind == command.kind
            &&& item.title == command.title
            &&& item.description == command.description
            &&& item.status == WorkStatus::Backlog
            &&& item.execution_phase == ExecutionPhase::Unstarted
            &&& item.revision.value == 0
            &&& item.created_at == stamps.mutation
            &&& item.updated_at == stamps.mutation
            &&& after.work is Some
            &&& after.work->0.items.contains_key(command.work_item_id.value@)
            &&& after.work->0.items[command.work_item_id.value@] == item
        },
        after.work->0.projects == before.work->0.projects,
        forall|key: Seq<char>|
            key != command.work_item_id.value@ ==> {
                &&& (#[trigger] after.work->0.items.contains_key(key))
                    == before.work->0.items.contains_key(key)
                &&& after.work->0.items.contains_key(key) ==> after.work->0.items[key]
                    == before.work->0.items[key]
            },
{
}

/// A committed creation that no earlier attempt recorded adds one fact to the stream and one change
/// to the log, at revision zero, under the actor of the request.
pub proof fn law_creation_is_recorded_as_it_was_made(
    before: Plane,
    limits: WorkItemLimits,
    command: CreateWorkItemCommand,
    actor: Actor,
    stamps: MutationStamps,
    r: Result<ProtocolOutcome, ProtocolError>,
    after: Plane,
)
    requires
        before.work is Some,
        crate::protocol_dispatch::create_outcome(
            before,
            limits,
            command,
            actor,
            stamps,
            r,
            after,
        ),
        r is Ok,
        forall|i: int|
            0 <= i < before.activity->0.len() ==> (#[trigger] before.activity->0[i]).event_id@
                != "work_item_"@ + command.work_item_id.value@ + "_"@ + text::decimal(0),
        forall|i: int|
            0 <= i < before.control->0.len() ==> !((#[trigger] before.control->0[i]).1.aggregate_id.value@
                == command.work_item_id.value@ && before.control->0[i].1.sequence == 0),
    ensures
        before.activity is Some,
        after.activity is Some,
        after.activity->0.len() == before.activity->0.len() + 1,
        after.activity->0.drop_last() == before.activity->0,
        ({
            let fact = after.activity->0.last();
            &&& fact.event_id@ == "work_item_"@ + command.work_item_id.value@ + "_"@
                + text::decimal(0)
            &&& fact.kind == EventKind::Created
            &&& fact.actor == actor
            &&& fact.timestamp@ == stamps.audit@
            &&& fact.organization_id == command.organization_id
            &&& fact.project_id == Some(command.project_id)
            &&& fact.work_item_id == Some(command.work_item_id)
            &&& fact.attempt_id is None
            &&& fact.summary@ == "created work item: "@ + command.title@
        }),
        before.control is Some,
        after.control is Some,
        after.control->0.len() == before.control->0.len() + 1,
        after.control->0.drop_last() == before.control->0,
        after.control->0.last().0 == command.organization_id,
        ({
            let change = after.control->0.last().1;
            &&& change.aggregate@ == "work_item"@
            &&& change.aggregate_id == command.work_item_id
            &&& change.sequence == 0
            &&& change.revision.value == 0
            &&& change.kind == EventKind::Created
            &&& change.actor == actor
            &&& change.timestamp@ == stamps.audit@
            &&& change.payload == after.work->0.items[command.work_item_id.value@]
        }),
{
    assert(after.activity->0.drop_last() =~= before.activity->0);
    assert(after.control->0.drop_last() =~= before.control->0);
}

/// The creation of a sound command is owed: where the identifiers are of their types, the texts
/// are within their limits in bytes, both audit stores are wired, the project is known under the
/// claimed organization, and the identifier is free, only a failing store can refuse it. What is
/// wrong with a command decides its refusal, in that order, and a refused command leaves no trace.
pub proof fn law_creation_is_made_or_refused(
    before: Plane,
    limits: WorkItemLimits,
    command: CreateWorkItemCommand,
    actor: Actor,
    stamps: MutationStamps,
    r: Result<ProtocolOutcome, ProtocolError>,
    after: Plane,
)
    requires
        before.work is Some,
        crate::protocol_dispatch::create_outcome(
            before,
            limits,
            command,
            actor,
            stamps,
            r,
            after,
        ),
        r matches Err(error) ==> error.code != ControlErrorCode::InternalError,
    ensures
        r is Err ==> after == before,
        ({
            let work = before.work->0;
            let typed = {
                &&& command.organization_id.kind@ == "organization_id"@
                &&& command.project_id.kind@ == "project_id"@
                &&& command.work_item_id.kind@ == "work_item_id"@
                &&& command.goal_id is Some ==> command.goal_id->0.kind@ == "goal_id"@
                &&& command.parent_work_item_id is Some
                    ==> command.parent_work_item_id->0.kind@ == "work_item_id"@
            };
            let short = vstd::utf8::encode_utf8(command.title@).len() <= limits.title_bytes
                && vstd::utf8::encode_utf8(command.description@).len()
                <= limits.description_bytes;
            let audited = before.activity is Some && before.control is Some;
            let known = work.projects.contains_key(command.project_id.value@);
            let owner = work.projects[command.project_id.value@];
            let owned = owner.kind@ == command.organization_id.kind@ && owner.value@
                == command.organization_id.value@;
            let free = !work.items.contains_key(command.work_item_id.value@);
            let code = r->Err_0.code;
            &&& !typed ==> r is Err && code == ControlErrorCode::InvalidId
            &&& typed && !short ==> r is Err && code == ControlErrorCode::PayloadTooLarge
            &&& typed && short && !audited ==> r is Err && code == ControlErrorCode::PolicyDenied
            &&& typed && short && audited && !known ==> r is Err && code
                == ControlErrorCode::NotFound
            &&& typed && short && audited && known && !owned ==> r is Err && code
                == ControlErrorCode::PolicyDenied
            &&& typed && short && audited && known && owned && !free ==> r is Err && code
                == ControlErrorCode::Conflict
            &&& typed && short && audited && known && owned && free ==> r is Ok
        }),
{
    if let Err(error) = r {
        assert(error@.code == error.code);
    }
}

/// Each domain is advertised under its own name and by its own flag, and no other name is ever
/// served.
pub proof fn law_capabilities_are_served_by_name(
    capabilities: ControlPlaneCapabilities,
    name: Seq<char>,
)
    ensures
        capabilities.serves("organizations"@) == capabilities.organizations,
        capabilities.serves("goals"@) == capabilities.goals,
        capabilities.serves("projects"@) == capabilities.projects,
        capabilities.serves("workspaces"@) == capabilities.workspaces,
        capabilities.serves("agents"@) == capabilities.agents,
        capabilities.serves("work_graph"@) == capabilities.work_graph,
        capabilities.serves("attempts"@) == capabilities.attempts,
        capabilities.serves("routines"@) == capabilities.routines,
        capabilities.serves("approvals"@) == capabilities.approvals,
        capabilities.serves("budgets"@) == capabilities.budgets,
        capabilities.serves("evidence"@) == capabilities.evidence,
        capabilities.serves("activity_audit"@) == capabilities.activity_audit,
        capabilities.serves("event_replay"@) == capabilities.event_replay,
        capabilities.serves("workspace_scopes"@) == capabilities.workspace_scopes,
        capabilities.serves(name) ==> name == "organizations"@ || name == "goals"@ || name
            == "projects"@ || name == "workspaces"@ || name == "agents"@ || name == "work_graph"@
            || name == "attempts"@ || name == "routines"@ || name == "approvals"@ || name
            == "budgets"@ || name == "evidence"@ || name == "activity_audit"@ || name
            == "event_replay"@ || name == "workspace_scopes"@,
{
    reveal_strlit("organizations");
    reveal_strlit("goals");
    reveal_strlit("projects");
    reveal_strlit("workspaces");
    reveal_strlit("agents");
    reveal_strlit("work_graph");
    reveal_strlit("attempts");
    reveal_strlit("routines");
    reveal_strlit("approvals");
    reveal_strlit("budgets");
    reveal_strlit("evidence");
    reveal_strlit("activity_audit");
    reveal_strlit("event_replay");
    reveal_strlit("workspace_scopes");
    assert("organizations"@.len() == 13);
    assert("goals"@.len() == 5);
    assert("projects"@.len() == 8);
    assert("workspaces"@.len() == 10);
    assert("agents"@.len() == 6);
    assert("work_graph"@.len() == 10);
    assert("attempts"@.len() == 8);
    assert("routines"@.len() == 8);
    assert("approvals"@.len() == 9);
    assert("budgets"@.len() == 7);
    assert("evidence"@.len() == 8);
    assert("activity_audit"@.len() == 14);
    assert("event_replay"@.len() == 12);
    assert("workspace_scopes"@.len() == 16);
    assert("workspaces"@[4] == 's');
    assert("work_graph"@[4] == '_');
    assert("projects"@[0] == 'p');
    assert("attempts"@[0] == 'a');
    assert("routines"@[0] == 'r');
    assert("evidence"@[0] == 'e');
}

/// A negotiation answers with what the deployment serves. The missing capabilities are exactly the
/// required ones that are not served, and the client is compatible exactly where the major versions
/// agree and none is missing.
pub proof fn law_negotiation_names_what_is_missing<
    W: WorkItemRepository,
    A: ActivityEventRepository,
    C: ControlEventRepository,
>(
    dispatcher: ProtocolDispatcher<W, A, C>,
    request: CapabilityNegotiationRequest,
    response: CapabilityNegotiationResponse,
)
    requires
        dispatcher.offers(request, response),
    ensures
        response.server_version.major == 1,
        response.server_version.minor == 0,
        response.deployment_mode == dispatcher.deployment_mode,
        response.capabilities == dispatcher.capabilities,
        forall|name: String| #[trigger]
            response.missing_capabilities@.contains(name)
                == (request.required_capabilities@.contains(name)
                && !dispatcher.capabilities.serves(name@)),
        response.compatible == (request.client_version.major == 1 && forall|i: int|
            0 <= i < request.required_capabilities@.len() ==> dispatcher.capabilities.serves(
                (#[trigger] request.required_capabilities@[i])@,
            )),
{
    let required = request.required_capabilities@;
    lemma_missing_are_the_unserved(dispatcher.capabilities, required);
    let absent = response.missing_capabilities@;
    if absent.len() == 0 {
        assert forall|i: int| 0 <= i < required.len() implies dispatcher.capabilities.serves(
            (#[trigger] required[i])@,
        ) by {
            if !dispatcher.capabilities.serves(required[i]@) {
                assert(required.contains(required[i]));
                assert(absent.contains(required[i]));
            }
        }
    } else {
        let name = absent[0];
        assert(absent.contains(name));
        let i = choose|i: int| 0 <= i < required.len() && required[i] == name;
        assert(!dispatcher.capabilities.serves(required[i]@));
    }
}

/// The missing capabilities are the required ones that are not served.
proof fn lemma_missing_are_the_unserved(
    capabilities: ControlPlaneCapabilities,
    required: Seq<String>,
)
    ensures
        forall|name: String| #[trigger]
            crate::protocol_dispatch::missing(capabilities, required).contains(name)
                == (required.contains(name) && !capabilities.serves(name@)),
    decreases required.len(),
{
    let absent = crate::protocol_dispatch::missing(capabilities, required);
    if required.len() > 0 {
        let shorter = required.drop_last();
        let earlier = crate::protocol_dispatch::missing(capabilities, shorter);
        lemma_missing_are_the_unserved(capabilities, shorter);
        assert(required =~= shorter.push(required.last()));
        assert forall|name: String| #[trigger]
            absent.contains(name) == (required.contains(name) && !capabilities.serves(
                name@,
            )) by {
            if required.contains(name) {
                let i = choose|i: int| 0 <= i < required.len() && required[i] == name;
                if i < shorter.len() {
                    assert(shorter[i] == name);
                    assert(shorter.contains(name));
                }
            }
            if shorter.contains(name) {
                let i = choose|i: int| 0 <= i < shorter.len() && shorter[i] == name;
                assert(required[i] == name);
            }
            if absent.contains(name) {
                let i = choose|i: int| 0 <= i < absent.len() && absent[i] == name;
                if i < earlier.len() {
                    assert(earlier[i] == name);
                    assert(earlier.contains(name));
                } else {
                    assert(required[required.len() - 1] == name);
                }
            }
            if earlier.contains(name) {
                let i = choose|i: int| 0 <= i < earlier.len() && earlier[i] == name;
                assert(absent[i] == name);
            }
            if !capabilities.serves(required.last()@) {
                assert(absent[absent.len() - 1] == required.last());
            }
        }
    }
}

} // verus!
