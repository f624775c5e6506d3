//! What the stores of routines, approvals, notifications and flags do with what they are handed,
//! said field by field.
use vstd::prelude::*;
use vstd::string::*;
use crate::approval_repository::{
    Approval, ApprovalDecision, ApprovalError, ApprovalScope, Approvals,
};
use crate::feature_flag_repository::FeatureFlagError;
use crate::model::{EntityId, Revision};
use crate::outside;
use crate::record::Record;
use crate::remote_worker_notification::{
    NotificationAcknowledgement, NotificationDeliveryState, NotificationProposal,
    NotificationProposalRecord, NotificationScope, Notifications, RemoteWorkerIdentity,
    RemoteWorkerNotificationError, WorkerDeliveryClaim,
};
use crate::routine_repository::{
    Routine, RoutineError, RoutineRevision, RoutineTrigger, Routines,
};
use crate::text;
use crate::work_item_repository::{WorkItem, WorkItemRepositoryError, WorkItems};

verus! {

/// Two identifiers have the same type and the same value.
pub open spec fn same_id(a: EntityId, b: EntityId) -> bool {
    a.kind@ == b.kind@ && a.value@ == b.value@
}

/// Both are missing, or both are there and the same.
pub open spec fn same_optional_id(a: Option<EntityId>, b: Option<EntityId>) -> bool {
    match (a, b) {
        (Some(x), Some(y)) => same_id(x, y),
        (None, None) => true,
        _ => false,
    }
}

/// Two routines are alike exactly where every field is the same.
pub proof fn law_routines_are_compared_by_every_field(a: Routine, b: Routine)
    ensures
        a.alike(&b) <==> {
            &&& same_id(a.id, b.id)
            &&& same_id(a.organization_id, b.organization_id)
            &&& same_optional_id(a.current_revision_id, b.current_revision_id)
            &&& a.status == b.status
            &&& a.revision.value == b.revision.value
            &&& a.created_at_unix_seconds == b.created_at_unix_seconds
            &&& a.updated_at_unix_seconds == b.updated_at_unix_seconds
        },
{
}

/// Two revisions are alike exactly where every field is the same, the trigger's included.
pub proof fn law_revisions_are_compared_by_every_field(a: RoutineRevision, b: RoutineRevision)
    ensures
        a.alike(&b) <==> {
            &&& same_id(a.id, b.id)
            &&& same_id(a.routine_id, b.routine_id)
            &&& a.revision.value == b.revision.value
            &&& (match (a.trigger, b.trigger) {
                (
                    RoutineTrigger::Recurring { cron_expression: x },
                    RoutineTrigger::Recurring { cron_expression: y },
                ) => x@ == y@,
                (RoutineTrigger::Event { source: x }, RoutineTrigger::Event { source: y }) => x@
                    == y@,
                _ => false,
            })
            &&& same_id(a.target_work_item_id, b.target_work_item_id)
            &&& a.created_at_unix_seconds == b.created_at_unix_seconds
        },
{
}

/// Two approvals are alike exactly where every field is the same, the scope's included.
pub proof fn law_approvals_are_compared_by_every_field(a: Approval, b: Approval)
    ensures
        a.alike(&b) <==> {
            &&& same_id(a.id, b.id)
            &&& same_id(a.organization_id, b.organization_id)
            &&& (match (a.scope, b.scope) {
                (ApprovalScope::Plan { attempt_id: x }, ApprovalScope::Plan { attempt_id: y }) => {
                    same_id(x, y)
                },
                (
                    ApprovalScope::Action { action: m, subject: x },
                    ApprovalScope::Action { action: n, subject: y },
                ) => m@ == n@ && same_id(x, y),
                _ => false,
            })
            &&& a.payload_revision.value == b.payload_revision.value
            &&& a.outcome == b.outcome
            &&& a.revision.value == b.revision.value
            &&& a.created_at_unix_seconds == b.created_at_unix_seconds
            &&& a.resolved_at_unix_seconds == b.resolved_at_unix_seconds
        },
{
}

/// Two decisions are alike exactly where every field is the same.
pub proof fn law_decisions_are_compared_by_every_field(a: ApprovalDecision, b: ApprovalDecision)
    ensures
        a.alike(&b) <==> {
            &&& same_id(a.approval_id, b.approval_id)
            &&& a.outcome == b.outcome
            &&& a.decided_by@ == b.decided_by@
            &&& a.decided_at_unix_seconds == b.decided_at_unix_seconds
            &&& (match (a.reason, b.reason) {
                (Some(x), Some(y)) => x@ == y@,
                (None, None) => true,
                _ => false,
            })
        },
{
}

/// Two work items are alike exactly where every field is the same.
pub proof fn law_work_items_are_compared_by_every_field(a: WorkItem, b: WorkItem)
    ensures
        a.alike(&b) <==> {
            &&& same_id(a.id, b.id)
            &&& same_id(a.project_id, b.project_id)
            &&& same_optional_id(a.goal_id, b.goal_id)
            &&& same_optional_id(a.parent_work_item_id, b.parent_work_item_id)
            &&& a.kind@ == b.kind@
            &&& a.title@ == b.title@
            &&& a.description@ == b.description@
            &&& a.status == b.status
            &&& a.execution_phase == b.execution_phase
            &&& a.revision.value == b.revision.value
            &&& a.created_at@ == b.created_at@
            &&& a.updated_at@ == b.updated_at@
        },
{
}

/// A created routine is stored as it was handed over where its identifier is free; under a taken one
/// it is answered from the store where nothing differs, and refused otherwise. Nothing else in the
/// store changes.
pub proof fn law_routine_is_created_once(
    before: Routines,
    routine: Routine,
    r: Result<Routine, RoutineError>,
    after: Routines,
)
    requires
        crate::routine_repository::create_result(before, routine, r, after),
        !(r matches Err(RoutineError::Internal { .. })),
    ensures
        ({
            let key = routine.id.value@;
            let taken = before.routines.contains_key(key);
            &&& !taken ==> r is Ok && r->Ok_0 == routine && after.routines.contains_key(key)
                && after.routines[key] == routine
            &&& taken && before.routines[key].alike(&routine) ==> r is Ok && r->Ok_0
                == before.routines[key] && after == before
            &&& taken && !before.routines[key].alike(&routine) ==> r is Err
                && r->Err_0 is Conflict && r->Err_0->Conflict_routine_id@ == key && after
                == before
            &&& after.revisions == before.revisions
            &&& after.fires == before.fires
            &&& forall|other: Seq<char>|
                other != key ==> (#[trigger] after.routines.contains_key(other))
                    == before.routines.contains_key(other) && (before.routines.contains_key(other)
                    ==> after.routines[other] == before.routines[other])
        }),
{
}

/// An appended revision is stored as it was handed over, the routine points at it, stands one
/// revision higher and is stamped with the revision's time; its other fields stay. It is refused
/// where it names another routine or does not come after the current revision, and where the routine
/// is not known.
pub proof fn law_revision_is_appended_in_order(
    before: Routines,
    routine_id: EntityId,
    revision: RoutineRevision,
    r: Result<Routine, RoutineError>,
    after: Routines,
)
    requires
        crate::routine_repository::keyed(before),
        crate::routine_repository::append_result(before, routine_id, revision, r, after),
        !(r matches Err(RoutineError::Internal { .. })),
    ensures
        ({
            let key = routine_id.value@;
            let named = same_id(revision.routine_id, routine_id);
            let known = before.routines.contains_key(key);
            let routine = before.routines[key];
            let stored = before.revisions.contains_key(revision.id.value@);
            let first = routine.current_revision_id is None;
            let current = before.revisions[routine.current_revision_id->0.value@];
            let later = revision.revision.value > current.revision.value;
            &&& r is Err ==> after == before
            &&& named && !known ==> r is Err && r->Err_0 is NotFound
            &&& !named ==> r is Err && r->Err_0 is Conflict
            &&& named && known && stored ==> r is Ok && r->Ok_0 == routine && after == before
            &&& named && known && !stored && !first && !later && before.revisions.contains_key(
                routine.current_revision_id->0.value@,
            ) ==> r is Err && r->Err_0 is Conflict
            &&& named && known && !stored && (first || later && before.revisions.contains_key(
                routine.current_revision_id->0.value@,
            )) ==> {
                &&& r is Ok
                &&& after.revisions.contains_key(revision.id.value@)
                &&& after.revisions[revision.id.value@] == revision
                &&& after.routines.contains_key(key)
                &&& after.routines[key] == r->Ok_0
                &&& r->Ok_0.current_revision_id == Some(revision.id)
                &&& routine.revision.value < u64::MAX ==> r->Ok_0.revision.value
                    == routine.revision.value + 1
                &&& r->Ok_0.updated_at_unix_seconds == revision.created_at_unix_seconds
                &&& r->Ok_0.id == routine.id
                &&& r->Ok_0.organization_id == routine.organization_id
                &&& r->Ok_0.status == routine.status
                &&& r->Ok_0.created_at_unix_seconds == routine.created_at_unix_seconds
            }
            &&& after.fires == before.fires
            &&& forall|other: Seq<char>|
                other != key ==> (#[trigger] after.routines.contains_key(other))
                    == before.routines.contains_key(other) && (before.routines.contains_key(other)
                    ==> after.routines[other] == before.routines[other])
        }),
{
    if before.routines.contains_key(routine_id.value@) {
        assert(before.routines[routine_id.value@].id.value@ == routine_id.value@);
    }
}

/// A recorded fire is kept as it is within the signed range, and as zero beyond it.
pub proof fn law_anchor_is_the_fire(fired_at: u64)
    ensures
        fired_at <= 9_223_372_036_854_775_807 ==> crate::routine_repository::anchor_of(fired_at)
            == fired_at,
        fired_at > 9_223_372_036_854_775_807 ==> crate::routine_repository::anchor_of(fired_at)
            == 0,
{
}

/// A created approval is stored as it was handed over where its identifier is free; under a taken
/// one it is answered from the store where nothing differs, and refused otherwise.
pub proof fn law_approval_is_created_once(
    before: Approvals,
    approval: Approval,
    r: Result<Approval, ApprovalError>,
    after: Approvals,
)
    requires
        crate::approval_repository::create_result(before, approval, r, after),
        !(r matches Err(ApprovalError::Internal { .. })),
    ensures
        ({
            let key = approval.id.value@;
            let taken = before.requests.contains_key(key);
            &&& !taken ==> r is Ok && r->Ok_0 == approval && after.requests.contains_key(key)
                && after.requests[key] == approval
            &&& taken && before.requests[key].alike(&approval) ==> r is Ok && r->Ok_0
                == before.requests[key] && after == before
            &&& taken && !before.requests[key].alike(&approval) ==> r is Err
                && r->Err_0 is Conflict && r->Err_0->Conflict_approval_id@ == key && after
                == before
            &&& after.decisions == before.decisions
            &&& forall|other: Seq<char>|
                other != key ==> (#[trigger] after.requests.contains_key(other))
                    == before.requests.contains_key(other) && (before.requests.contains_key(other)
                    ==> after.requests[other] == before.requests[other])
        }),
{
}

/// The first decision on a known approval resolves it: the approval has the decision's outcome and
/// time, stands one revision higher, and is otherwise as it was; the decision is stored as it was
/// handed over. The same decision again is answered as the approval stands, a divergent one and one
/// on an unknown approval are refused and leave no trace.
pub proof fn law_first_decision_resolves_the_approval(
    before: Approvals,
    decision: ApprovalDecision,
    r: Result<Approval, ApprovalError>,
    after: Approvals,
)
    requires
        crate::approval_repository::keyed(before),
        crate::approval_repository::decision_result(before, decision, r, after),
        !(r matches Err(ApprovalError::Internal { .. })),
    ensures
        ({
            let key = decision.approval_id.value@;
            let known = before.requests.contains_key(key);
            let decided = before.decisions.contains_key(key);
            let prior = before.requests[key];
            &&& !known ==> r is Err && r->Err_0 is NotFound && after == before
            &&& known && decided && before.decisions[key].alike(&decision) ==> r is Ok && r->Ok_0
                == prior && after == before
            &&& known && decided && !before.decisions[key].alike(&decision) ==> r is Err
                && r->Err_0 is Conflict && after == before
            &&& known && !decided ==> {
                &&& r is Ok
                &&& r->Ok_0.outcome == Some(decision.outcome)
                &&& r->Ok_0.resolved_at_unix_seconds == Some(decision.decided_at_unix_seconds)
                &&& prior.revision.value < u64::MAX ==> r->Ok_0.revision.value
                    == prior.revision.value + 1
                &&& r->Ok_0.id == prior.id
                &&& r->Ok_0.organization_id == prior.organization_id
                &&& r->Ok_0.scope == prior.scope
                &&& r->Ok_0.payload_revision == prior.payload_revision
                &&& r->Ok_0.created_at_unix_seconds == prior.created_at_unix_seconds
                &&& after.requests.contains_key(key)
                &&& after.requests[key] == r->Ok_0
                &&& after.decisions.contains_key(key)
                &&& after.decisions[key] == decision
            }
            &&& forall|other: Seq<char>|
                other != key ==> {
                    &&& (#[trigger] after.requests.contains_key(other))
                        == before.requests.contains_key(other)
                    &&& before.requests.contains_key(other) ==> after.requests[other]
                        == before.requests[other]
                    &&& after.decisions.contains_key(other) == before.decisions.contains_key(other)
                    &&& before.decisions.contains_key(other) ==> after.decisions[other]
                        == before.decisions[other]
                }
        }),
{
    if before.requests.contains_key(decision.approval_id.value@) {
        assert(before.requests[decision.approval_id.value@].id.value@
            == decision.approval_id.value@);
    }
}

/// An approval waits exactly where it has no outcome.
pub proof fn law_approval_waits_for_an_outcome(approval: Approval)
    ensures
        crate::approval_repository::is_pending(approval) <==> approval.outcome is None,
{
}

/// A proposal is sound on its own: its delivery is named, its kind of event is not blank, both parts
/// of the worker's identity are there, and its payload is JSON of at most 4096 bytes without white
/// space.
pub open spec fn is_sound(proposal: NotificationProposal) -> bool {
    &&& proposal.delivery_id@.len() > 0
    &&& exists|i: int|
        0 <= i < proposal.event_kind@.len() && !text::is_white_space(
            #[trigger] proposal.event_kind@[i],
        )
    &&& proposal.worker.plugin_id.value@.len() > 0
    &&& proposal.worker.account_id.value@.len() > 0
    &&& outside::json_compact(proposal.payload@) is Ok
    &&& vstd::utf8::encode_utf8(outside::json_compact(proposal.payload@)->Ok_0).len() <= 4096
}

/// Exactly the sound proposals have no fault. Of the faulty ones, those with a missing or blank part
/// are invalid, those whose payload is not JSON fail to be read, and the rest are too large.
pub proof fn law_sound_proposals_have_no_fault(proposal: NotificationProposal)
    ensures
        is_sound(proposal) <==> crate::remote_worker_notification::proposal_fault(proposal) is None,
        crate::remote_worker_notification::proposal_fault(proposal) is Some ==> {
            let complete = proposal.delivery_id@.len() > 0 && !(forall|i: int|
                0 <= i < proposal.event_kind@.len() ==> text::is_white_space(
                    #[trigger] proposal.event_kind@[i],
                )) && proposal.worker.plugin_id.value@.len() > 0
                && proposal.worker.account_id.value@.len() > 0;
            let fault = crate::remote_worker_notification::proposal_fault(proposal)->0;
            &&& fault is Invalid <==> !complete
            &&& fault is NotJson <==> complete && outside::json_compact(proposal.payload@) is Err
            &&& fault is TooLarge <==> complete && outside::json_compact(proposal.payload@) is Ok
        },
{
}

/// Two scopes are the same organization and the same workspace.
pub open spec fn same_scope(a: NotificationScope, b: NotificationScope) -> bool {
    same_id(a.organization_id, b.organization_id) && same_id(a.workspace_id, b.workspace_id)
}

/// Two workers are the same plugin and the same account.
pub open spec fn same_worker(a: RemoteWorkerIdentity, b: RemoteWorkerIdentity) -> bool {
    same_id(a.plugin_id, b.plugin_id) && same_id(a.account_id, b.account_id)
}

/// A sound proposal of the ledger's own scope under a free delivery is stored with every part of
/// its own, pending, in the first version. Under a taken delivery it is answered from the store where
/// worker, scope, kind and payload agree, and refused otherwise. One of another scope is refused.
/// What is not sound is refused before anything else, and a refusal leaves no trace.
pub proof fn law_proposal_is_stored_once(
    before: Notifications,
    scope: NotificationScope,
    proposal: NotificationProposal,
    r: Result<NotificationProposalRecord, RemoteWorkerNotificationError>,
    after: Notifications,
)
    requires
        crate::remote_worker_notification::propose_result(before, scope, proposal, r, after),
    ensures
        ({
            let key = proposal.delivery_id@;
            let known = before.proposals.contains_key(key);
            let stored = before.proposals[key];
            let own = same_scope(proposal.scope, scope);
            let agrees = same_worker(stored.worker, proposal.worker) && same_scope(
                stored.scope,
                proposal.scope,
            ) && stored.event_kind@ == proposal.event_kind@ && outside::json_equal(
                stored.payload@,
                proposal.payload@,
            );
            let sound = is_sound(proposal);
            &&& r is Err ==> after == before
            &&& !sound ==> r is Err && (r->Err_0 is InvalidProposal || r->Err_0 is Serialization
                || r->Err_0 is UnboundedPayload)
            &&& sound && !own ==> r is Err && r->Err_0 is ForeignScope
            &&& sound && own && known && agrees ==> r is Ok && r->Ok_0 == stored && after == before
            &&& sound && own && known && !agrees ==> r is Err && r->Err_0 is DuplicateConflict
            &&& sound && own && !known ==> {
                &&& r is Ok
                &&& r->Ok_0.schema_version == 1
                &&& r->Ok_0.delivery_id == proposal.delivery_id
                &&& r->Ok_0.worker == proposal.worker
                &&& r->Ok_0.scope == proposal.scope
                &&& r->Ok_0.event_kind == proposal.event_kind
                &&& r->Ok_0.payload == proposal.payload
                &&& r->Ok_0.delivery_state == NotificationDeliveryState::Pending
                &&& after.proposals.contains_key(key)
                &&& after.proposals[key] == r->Ok_0
            }
            &&& after.claims == before.claims
            &&& forall|other: Seq<char>|
                other != key ==> (#[trigger] after.proposals.contains_key(other))
                    == before.proposals.contains_key(other) && (before.proposals.contains_key(
                    other,
                ) ==> after.proposals[other] == before.proposals[other])
        }),
{
    law_sound_proposals_have_no_fault(proposal);
}

/// The same of the durable store, where the scope of a delivery is that of its first proposal.
pub proof fn law_durable_proposal_is_stored_once(
    before: Notifications,
    proposal: NotificationProposal,
    r: Result<NotificationProposalRecord, RemoteWorkerNotificationError>,
    after: Notifications,
)
    requires
        crate::notification_repository::store_result(before, proposal, r, after),
        !(r matches Err(RemoteWorkerNotificationError::Database { .. })),
    ensures
        ({
            let key = proposal.delivery_id@;
            let known = before.proposals.contains_key(key);
            let stored = before.proposals[key];
            let own = same_scope(stored.scope, proposal.scope);
            let agrees = same_worker(stored.worker, proposal.worker) && stored.event_kind@
                == proposal.event_kind@ && outside::json_equal(stored.payload@, proposal.payload@);
            let sound = is_sound(proposal);
            &&& r is Err ==> after == before
            &&& !sound ==> r is Err && (r->Err_0 is InvalidProposal || r->Err_0 is Serialization
                || r->Err_0 is UnboundedPayload)
            &&& sound && known && !own ==> r is Err && r->Err_0 is ForeignScope
            &&& sound && known && own && agrees ==> r is Ok && r->Ok_0 == stored && after == before
            &&& sound && known && own && !agrees ==> r is Err && r->Err_0 is DuplicateConflict
            &&& sound && !known ==> {
                &&& r is Ok
                &&& r->Ok_0.schema_version == 1
                &&& r->Ok_0.delivery_id == proposal.delivery_id
                &&& r->Ok_0.worker == proposal.worker
                &&& r->Ok_0.scope == proposal.scope
                &&& r->Ok_0.event_kind == proposal.event_kind
                &&& r->Ok_0.payload == proposal.payload
                &&& r->Ok_0.delivery_state == NotificationDeliveryState::Pending
                &&& after.proposals.contains_key(key)
                &&& after.proposals[key] == r->Ok_0
            }
            &&& after.claims == before.claims
            &&& forall|other: Seq<char>|
                other != key ==> (#[trigger] after.proposals.contains_key(other))
                    == before.proposals.contains_key(other) && (before.proposals.contains_key(
                    other,
                ) ==> after.proposals[other] == before.proposals[other])
        }),
{
    law_sound_proposals_have_no_fault(proposal);
}

/// The claims of a delivery as they stand.
pub open spec fn claims_under(state: Notifications, key: Seq<char>) -> Seq<WorkerDeliveryClaim> {
    if state.claims.contains_key(key) {
        state.claims[key]
    } else {
        Seq::empty()
    }
}

/// A claim on a known delivery is added behind the earlier ones, and the answer counts them all. One
/// on an unknown delivery is refused. Neither touches a proposal or the claims of another delivery.
pub proof fn law_claim_is_added_behind_the_others(
    before: Notifications,
    claim: WorkerDeliveryClaim,
    known: bool,
    r: Result<usize, RemoteWorkerNotificationError>,
    after: Notifications,
)
    requires
        crate::remote_worker_notification::claim_result(before, claim, known, r, after),
        !(r matches Err(RemoteWorkerNotificationError::Database { .. })),
    ensures
        known ==> {
            &&& r is Ok
            &&& claims_under(after, claim.delivery_id@) == claims_under(
                before,
                claim.delivery_id@,
            ).push(claim)
            &&& r->Ok_0 == claims_under(after, claim.delivery_id@).len()
        },
        !known ==> r is Err && r->Err_0 is UnknownDelivery && after == before,
        after.proposals == before.proposals,
        forall|other: Seq<char>|
            other != claim.delivery_id@ ==> #[trigger] claims_under(after, other) == claims_under(
                before,
                other,
            ),
{
}

/// An acknowledged delivery is delivered and otherwise as it was, whatever state it was in; an
/// unknown one is refused. Nothing else changes.
pub proof fn law_acknowledgement_delivers(
    before: Notifications,
    acknowledgement: NotificationAcknowledgement,
    r: Result<NotificationDeliveryState, RemoteWorkerNotificationError>,
    after: Notifications,
)
    requires
        crate::remote_worker_notification::acknowledge_result(before, acknowledgement, r, after),
        !(r matches Err(RemoteWorkerNotificationError::Database { .. })),
    ensures
        ({
            let key = acknowledgement.delivery_id@;
            let known = before.proposals.contains_key(key);
            let prior = before.proposals[key];
            let now = after.proposals[key];
            &&& !known ==> r is Err && r->Err_0 is UnknownDelivery && after == before
            &&& known ==> {
                &&& r is Ok
                &&& r->Ok_0 == NotificationDeliveryState::Delivered
                &&& after.proposals.contains_key(key)
                &&& now.delivery_state == NotificationDeliveryState::Delivered
                &&& now.schema_version == prior.schema_version
                &&& now.delivery_id == prior.delivery_id
                &&& now.worker == prior.worker
                &&& now.scope == prior.scope
                &&& now.event_kind == prior.event_kind
                &&& now.payload == prior.payload
            }
            &&& after.claims == before.claims
            &&& forall|other: Seq<char>|
                other != key ==> (#[trigger] after.proposals.contains_key(other))
                    == before.proposals.contains_key(other) && (before.proposals.contains_key(
                    other,
                ) ==> after.proposals[other] == before.proposals[other])
        }),
{
}

/// A worker reaches a delivery exactly where it is stored under the worker's own organization and
/// workspace.
pub proof fn law_scope_decides_what_is_reached(
    state: Notifications,
    scope: NotificationScope,
    key: Seq<char>,
)
    ensures
        crate::notification_repository::knows(state, scope, key) <==> {
            &&& state.proposals.contains_key(key)
            &&& state.proposals[key].scope.organization_id.value@ == scope.organization_id.value@
            &&& state.proposals[key].scope.workspace_id.value@ == scope.workspace_id.value@
        },
        crate::notification_repository::is_outdated(state, key) <==> state.proposals.contains_key(
            key,
        ) && state.proposals[key].schema_version != 1,
{
}

/// A flag is written exactly where its key has something but white space in it and its value is not
/// empty. The value is kept as it was handed over, and no other flag changes.
pub proof fn law_flag_is_written_as_it_is(
    before: Map<Seq<char>, Seq<char>>,
    key: Seq<char>,
    value: Seq<char>,
    r: Result<(), FeatureFlagError>,
    after: Map<Seq<char>, Seq<char>>,
)
    requires
        crate::feature_flag_repository::written(before, key, value, r, after),
        !(r matches Err(FeatureFlagError::Internal { .. })),
    ensures
        ({
            let blank = forall|i: int|
                0 <= i < key.len() ==> text::is_white_space(#[trigger] key[i]);
            &&& r is Ok <==> !blank && value.len() > 0
            &&& r is Ok ==> after.contains_key(key) && after[key] == value
            &&& r is Err ==> after == before
            &&& blank ==> (r->Err_0 matches FeatureFlagError::InvalidFlagKey(reason) && reason@
                == "flag key is required"@)
            &&& !blank && value.len() == 0 ==> (r->Err_0 matches FeatureFlagError::InvalidFlagKey(
                reason,
            ) && reason@ == "flag value is required"@)
            &&& forall|other: Seq<char>|
                other != key ==> (#[trigger] after.contains_key(other)) == before.contains_key(
                    other,
                ) && (before.contains_key(other) ==> after[other] == before[other])
        }),
{
}

/// An insert-only write of a sound flag records its value where none is recorded, leaves a recorded
/// one alone, and tells which it was.
pub proof fn law_flag_is_recorded_once(
    before: Map<Seq<char>, Seq<char>>,
    key: Seq<char>,
    value: Seq<char>,
    r: Result<bool, FeatureFlagError>,
    after: Map<Seq<char>, Seq<char>>,
)
    requires
        crate::feature_flag_repository::insert_only(before, key, value, r, after),
        !(r matches Err(FeatureFlagError::Internal { .. })),
    ensures
        ({
            let blank = forall|i: int|
                0 <= i < key.len() ==> text::is_white_space(#[trigger] key[i]);
            let sound = !blank && value.len() > 0;
            &&& r is Ok <==> sound
            &&& sound && before.contains_key(key) ==> r->Ok_0 == false && after == before
            &&& sound && !before.contains_key(key) ==> r->Ok_0 == true && after.contains_key(key)
                && after[key] == value
            &&& !sound ==> after == before
            &&& forall|other: Seq<char>|
                other != key ==> (#[trigger] after.contains_key(other)) == before.contains_key(
                    other,
                ) && (before.contains_key(other) ==> after[other] == before[other])
        }),
{
}

/// A flag reads as its recorded value, and as undecided where none is recorded.
pub proof fn law_flag_reads_as_recorded(flags: Map<Seq<char>, Seq<char>>, key: Seq<char>)
    ensures
        flags.contains_key(key) ==> crate::feature_flag_repository::flag_of(flags, key) == Some(
            flags[key],
        ),
        !flags.contains_key(key) ==> crate::feature_flag_repository::flag_of(flags, key) is None,
{
}

/// A created work item is stored as it was handed over where its project is known and its identifier
/// is free; it is refused as taken or as without a project otherwise, and nothing else changes.
pub proof fn law_work_item_is_created_once(
    before: WorkItems,
    item: WorkItem,
    r: Result<(), WorkItemRepositoryError>,
    after: WorkItems,
)
    requires
        crate::work_item_repository::create_result(before, item, r, after),
        !(r matches Err(WorkItemRepositoryError::Internal { .. })),
    ensures
        ({
            let key = item.id.value@;
            let taken = before.items.contains_key(key);
            let known = before.projects.contains_key(item.project_id.value@);
            &&& r is Ok <==> known && !taken
            &&& r is Ok ==> after.items.contains_key(key) && after.items[key] == item
            &&& r is Err ==> after == before
            &&& known && taken ==> r->Err_0 is AlreadyExists
            &&& !known && !taken ==> r->Err_0 is ProjectNotFound
            &&& after.projects == before.projects
            &&& forall|other: Seq<char>|
                other != key ==> (#[trigger] after.items.contains_key(other))
                    == before.items.contains_key(other) && (before.items.contains_key(other)
                    ==> after.items[other] == before.items[other])
        }),
{
}

/// A work item is found by its identifier exactly where it is stored, and inside a project exactly
/// where it is stored there. What is found is what is stored.
pub proof fn law_work_item_is_found_where_it_stands(
    state: WorkItems,
    project_id: EntityId,
    id: EntityId,
    found: Result<WorkItem, WorkItemRepositoryError>,
    found_inside: Result<WorkItem, WorkItemRepositoryError>,
)
    requires
        crate::work_item_repository::get_result(state, id, found),
        crate::work_item_repository::get_in_project_result(state, project_id, id, found_inside),
        !(found matches Err(WorkItemRepositoryError::Internal { .. })),
        !(found_inside matches Err(WorkItemRepositoryError::Internal { .. })),
    ensures
        ({
            let key = id.value@;
            let stored = state.items.contains_key(key);
            let here = same_id(state.items[key].project_id, project_id);
            &&& found is Ok <==> stored
            &&& stored ==> found->Ok_0 == state.items[key]
            &&& !stored ==> found->Err_0 is NotFound && found_inside is Err
                && found_inside->Err_0 is NotFound
            &&& found_inside is Ok <==> stored && here
            &&& stored && here ==> found_inside->Ok_0 == state.items[key]
            &&& stored && !here ==> found_inside->Err_0 is ProjectMismatch
        }),
{
}

/// A work item is replaced exactly where it is stored in the same project under the expected
/// revision; what is stored and answered is the new item, and nothing else changes.
pub proof fn law_work_item_is_replaced_under_its_revision(
    before: WorkItems,
    item: WorkItem,
    expected: Revision,
    r: Result<WorkItem, WorkItemRepositoryError>,
    after: WorkItems,
)
    requires
        crate::work_item_repository::replace_result(before, item, expected, r, after),
        !(r matches Err(WorkItemRepositoryError::Internal { .. })),
    ensures
        ({
            let key = item.id.value@;
            let stored = before.items.contains_key(key);
            let here = same_id(before.items[key].project_id, item.project_id);
            let current = before.items[key].revision.value == expected.value;
            &&& r is Ok <==> stored && here && current
            &&& r is Ok ==> r->Ok_0 == item && after.items.contains_key(key) && after.items[key]
                == item
            &&& r is Err ==> after == before
            &&& !stored ==> r->Err_0 is NotFound
            &&& stored && here && !current ==> r->Err_0 is StaleRevision
            &&& stored && !here && current ==> r->Err_0 is ProjectMismatch
            &&& after.projects == before.projects
            &&& forall|other: Seq<char>|
                other != key ==> (#[trigger] after.items.contains_key(other))
                    == before.items.contains_key(other) && (before.items.contains_key(other)
                    ==> after.items[other] == before.items[other])
        }),
{
}

/// The organization of a project is the one that it is stored under.
pub proof fn law_organization_is_that_of_the_project(
    state: WorkItems,
    project_id: EntityId,
    r: Result<EntityId, WorkItemRepositoryError>,
)
    requires
        crate::work_item_repository::organization_result(state, project_id, r),
        !(r matches Err(WorkItemRepositoryError::Internal { .. })),
    ensures
        r is Ok <==> state.projects.contains_key(project_id.value@),
        r is Ok ==> r->Ok_0 == state.projects[project_id.value@],
        r is Err ==> r->Err_0 is ProjectNotFound,
{
}

} // verus!
