//! Approvals and the decisions that resolve them. An approval is decided once: the first decision
//! stands, its replay is harmless and a divergent one is refused.
use vstd::prelude::*;
use crate::model::{EntityId, Revision};
use crate::record::{rows_where, Record};
use crate::table::Table;

verus! {

/// How an approval was decided.
#[derive(Debug, Clone, Copy, PartialEq, Eq, Structural)]
pub enum ApprovalOutcome {
    Approved,
    Denied,
}

/// What an approval is asked for.
#[derive(Debug)]
pub enum ApprovalScope {
    /// The plan of an attempt.
    Plan { attempt_id: EntityId },
    /// An action of another kind on a subject.
    Action { action: String, subject: EntityId },
}

impl Record for ApprovalScope {
    open spec fn alike(&self, other: &Self) -> bool {
        match (*self, *other) {
            (ApprovalScope::Plan { attempt_id: a }, ApprovalScope::Plan { attempt_id: b }) =>
                a.alike(&b),
            (
                ApprovalScope::Action { action: a, subject: x },
                ApprovalScope::Action { action: b, subject: y },
            ) => a@ == b@ && x.alike(&y),
            _ => false,
        }
    }

    proof fn alike_reflexive(&self) {
    }

    fn same(&self, other: &Self) -> (r: bool) {
        match (self, other) {
            (ApprovalScope::Plan { attempt_id: a }, ApprovalScope::Plan { attempt_id: b }) =>
                a.same(b),
            (
                ApprovalScope::Action { action: a, subject: x },
                ApprovalScope::Action { action: b, subject: y },
            ) => a.same(b) && x.same(y),
            _ => false,
        }
    }

    fn copy(&self) -> (r: Self) {
        match self {
            ApprovalScope::Plan { attempt_id } => ApprovalScope::Plan {
                attempt_id: attempt_id.copy(),
            },
            ApprovalScope::Action { action, subject } => ApprovalScope::Action {
                action: action.copy(),
                subject: subject.copy(),
            },
        }
    }
}

/// A governance decision request.
#[derive(Debug)]
pub struct Approval {
    pub id: EntityId,
    pub organization_id: EntityId,
    pub scope: ApprovalScope,
    pub payload_revision: Revision,
    pub outcome: Option<ApprovalOutcome>,
    pub revision: Revision,
    pub created_at_unix_seconds: u64,
    pub resolved_at_unix_seconds: Option<u64>,
}

impl Record for Approval {
    open spec fn alike(&self, other: &Self) -> bool {
        &&& self.id.alike(&other.id)
        &&& self.organization_id.alike(&other.organization_id)
        &&& self.scope.alike(&other.scope)
        &&& self.payload_revision == other.payload_revision
        &&& self.outcome == other.outcome
        &&& self.revision == other.revision
        &&& self.created_at_unix_seconds == other.created_at_unix_seconds
        &&& self.resolved_at_unix_seconds == other.resolved_at_unix_seconds
    }

    proof fn alike_reflexive(&self) {
        self.scope.alike_reflexive();
    }

    fn same(&self, other: &Self) -> (r: bool) {
        self.id.same(&other.id) && self.organization_id.same(&other.organization_id)
            && self.scope.same(&other.scope) && self.payload_revision == other.payload_revision
            && same_outcome(self.outcome, other.outcome) && self.revision == other.revision
            && self.created_at_unix_seconds == other.created_at_unix_seconds
            && self.resolved_at_unix_seconds.same(&other.resolved_at_unix_seconds)
    }

    fn copy(&self) -> (r: Self) {
        Approval {
            id: self.id.copy(),
            organization_id: self.organization_id.copy(),
            scope: self.scope.copy(),
            payload_revision: self.payload_revision,
            outcome: self.outcome,
            revision: self.revision,
            created_at_unix_seconds: self.created_at_unix_seconds,
            resolved_at_unix_seconds: self.resolved_at_unix_seconds,
        }
    }
}

/// Whether two outcomes are the same.
fn same_outcome(a: Option<ApprovalOutcome>, b: Option<ApprovalOutcome>) -> (r: bool)
    ensures
        r == (a == b),
{
    match (a, b) {
        (Some(x), Some(y)) => x == y,
        (None, None) => true,
        _ => false,
    }
}

/// The decision that resolves an approval.
#[derive(Debug)]
pub struct ApprovalDecision {
    pub approval_id: EntityId,
    pub outcome: ApprovalOutcome,
    pub decided_by: String,
    pub decided_at_unix_seconds: u64,
    pub reason: Option<String>,
}

impl Record for ApprovalDecision {
    open spec fn alike(&self, other: &Self) -> bool {
        &&& self.approval_id.alike(&other.approval_id)
        &&& self.outcome == other.outcome
        &&& self.decided_by@ == other.decided_by@
        &&& self.decided_at_unix_seconds == other.decided_at_unix_seconds
        &&& self.reason.alike(&other.reason)
    }

    proof fn alike_reflexive(&self) {
        self.reason.alike_reflexive();
    }

    fn same(&self, other: &Self) -> (r: bool) {
        self.approval_id.same(&other.approval_id) && self.outcome == other.outcome
            && self.decided_by.same(&other.decided_by) && self.decided_at_unix_seconds
            == other.decided_at_unix_seconds && self.reason.same(&other.reason)
    }

    fn copy(&self) -> (r: Self) {
        ApprovalDecision {
            approval_id: self.approval_id.copy(),
            outcome: self.outcome,
            decided_by: self.decided_by.copy(),
            decided_at_unix_seconds: self.decided_at_unix_seconds,
            reason: self.reason.copy(),
        }
    }
}

/// Why an approval operation failed.
#[derive(Debug)]
pub enum ApprovalError {
    NotFound { approval_id: String },
    Conflict { approval_id: String },
    /// The store itself failed; nothing was changed.
    Internal { reason: String },
}

/// The approvals and the decisions on them, by the value of the approval's identifier.
#[verifier::ext_equal]
pub ghost struct Approvals {
    pub requests: Map<Seq<char>, Approval>,
    pub decisions: Map<Seq<char>, ApprovalDecision>,
}

/// The approval as a decision leaves it.
pub open spec fn resolved(approval: Approval, decision: ApprovalDecision) -> Approval {
    Approval {
        outcome: Some(decision.outcome),
        resolved_at_unix_seconds: Some(decision.decided_at_unix_seconds),
        revision: approval.revision.following(),
        ..approval
    }
}

/// What comes of creating an approval: a new one is stored, the same one again is answered as it
/// stands, another one under the same identifier is refused.
pub open spec fn create_result(
    before: Approvals,
    approval: Approval,
    r: Result<Approval, ApprovalError>,
    after: Approvals,
) -> bool {
    let key = approval.id.value@;
    match r {
        Ok(stored) => {
            if before.requests.contains_key(key) {
                &&& before.requests[key].alike(&approval)
                &&& stored == before.requests[key]
                &&& after == before
            } else {
                &&& stored == approval
                &&& after.requests == before.requests.insert(key, approval)
                &&& after.decisions == before.decisions
            }
        },
        Err(ApprovalError::Conflict { approval_id }) => {
            &&& before.requests.contains_key(key)
            &&& !before.requests[key].alike(&approval)
            &&& approval_id == approval.id.value
            &&& after == before
        },
        Err(ApprovalError::NotFound { .. }) => false,
        Err(ApprovalError::Internal { .. }) => after == before,
    }
}

/// What comes of recording a decision: the first one resolves the approval, its replay is answered
/// with the approval as it stands, a divergent one is refused.
pub open spec fn decision_result(
    before: Approvals,
    decision: ApprovalDecision,
    r: Result<Approval, ApprovalError>,
    after: Approvals,
) -> bool {
    let key = decision.approval_id.value@;
    match r {
        Ok(approval) => {
            &&& before.requests.contains_key(key)
            &&& if before.decisions.contains_key(key) {
                &&& before.decisions[key].alike(&decision)
                &&& approval == before.requests[key]
                &&& after == before
            } else {
                &&& approval == resolved(before.requests[key], decision)
                &&& after.requests == before.requests.insert(approval.id.value@, approval)
                &&& after.decisions == before.decisions.insert(key, decision)
            }
        },
        Err(ApprovalError::NotFound { approval_id }) => {
            &&& !before.requests.contains_key(key)
            &&& approval_id == decision.approval_id.value
            &&& after == before
        },
        Err(ApprovalError::Conflict { approval_id }) => {
            &&& before.requests.contains_key(key)
            &&& before.decisions.contains_key(key)
            &&& !before.decisions[key].alike(&decision)
            &&& approval_id == decision.approval_id.value
            &&& after == before
        },
        Err(ApprovalError::Internal { .. }) => after == before,
    }
}

/// The approval has no decision yet.
pub open spec fn is_pending(approval: Approval) -> bool {
    approval.outcome is None
}

/// A store of approvals.
pub trait ApprovalRepository {
    /// The store is in order.
    spec fn ready(&self) -> bool;

    /// What the store holds.
    spec fn holdings(&self) -> Approvals;

    /// The store itself can fail, whatever it is asked.
    spec fn fallible(&self) -> bool;

    /// Creates an approval. Creating the same approval again is harmless; a different one under
    /// its identifier is refused.
    fn create(&mut self, approval: Approval) -> (r: Result<Approval, ApprovalError>)
        requires
            old(self).ready(),
        ensures
            final(self).ready(),
            create_result(old(self).holdings(), approval, r, final(self).holdings()),
            r matches Err(ApprovalError::Internal { .. }) ==> old(self).fallible(),
            final(self).fallible() == old(self).fallible(),
    ;

    /// Records the decision that resolves an approval. The first decision stands.
    fn record_decision(&mut self, decision: ApprovalDecision) -> (r: Result<Approval, ApprovalError>)
        requires
            old(self).ready(),
        ensures
            final(self).ready(),
            decision_result(old(self).holdings(), decision, r, final(self).holdings()),
            r matches Err(ApprovalError::Internal { .. }) ==> old(self).fallible(),
            final(self).fallible() == old(self).fallible(),
    ;

    /// The approval of an identifier.
    fn get(&self, id: &EntityId) -> (r: Result<Option<Approval>, ApprovalError>)
        requires
            self.ready(),
        ensures
            match r {
                Ok(Some(approval)) => self.holdings().requests.contains_key(id.value@) && approval
                    == self.holdings().requests[id.value@],
                Ok(None) => !self.holdings().requests.contains_key(id.value@),
                Err(error) => error is Internal,
            },
            r matches Err(ApprovalError::Internal { .. }) ==> self.fallible(),
    ;

    /// The decision on an approval.
    fn get_decision(&self, approval_id: &EntityId) -> (r: Result<
        Option<ApprovalDecision>,
        ApprovalError,
    >)
        requires
            self.ready(),
        ensures
            match r {
                Ok(Some(decision)) => self.holdings().decisions.contains_key(approval_id.value@)
                    && decision == self.holdings().decisions[approval_id.value@],
                Ok(None) => !self.holdings().decisions.contains_key(approval_id.value@),
                Err(error) => error is Internal,
            },
            r matches Err(ApprovalError::Internal { .. }) ==> self.fallible(),
    ;

    /// The approvals without an outcome.
    fn list_pending(&self) -> (r: Result<Vec<Approval>, ApprovalError>)
        requires
            self.ready(),
        ensures
            match r {
                Ok(list) => crate::table::lists(
                    list@,
                    self.holdings().requests,
                    |approval: Approval| is_pending(approval),
                ),
                Err(error) => error is Internal,
            },
            r matches Err(ApprovalError::Internal { .. }) ==> self.fallible(),
    ;

    /// The approvals of an organization, resolved or not.
    fn list_in_org(&self, organization_id: &EntityId) -> (r: Result<Vec<Approval>, ApprovalError>)
        requires
            self.ready(),
        ensures
            match r {
                Ok(list) => crate::table::lists(
                    list@,
                    self.holdings().requests,
                    |approval: Approval| approval.organization_id.alike(organization_id),
                ),
                Err(error) => error is Internal,
            },
            r matches Err(ApprovalError::Internal { .. }) ==> self.fallible(),
    ;
}

/// Approvals and decisions in memory.
pub struct ApprovalTable {
    pub requests: Table<Approval>,
    pub decisions: Table<ApprovalDecision>,
}

impl ApprovalTable {
    /// A store without approvals.
    pub fn new() -> (r: Self)
        ensures
            r.ready(),
            r.holdings().requests == Map::<Seq<char>, Approval>::empty(),
            r.holdings().decisions == Map::<Seq<char>, ApprovalDecision>::empty(),
    {
        ApprovalTable { requests: Table::new(), decisions: Table::new() }
    }
}

impl ApprovalRepository for ApprovalTable {
    open spec fn ready(&self) -> bool {
        self.requests.wf() && self.decisions.wf()
    }

    open spec fn holdings(&self) -> Approvals {
        Approvals { requests: self.requests@, decisions: self.decisions@ }
    }

    open spec fn fallible(&self) -> bool {
        false
    }

    fn create(&mut self, approval: Approval) -> (r: Result<Approval, ApprovalError>)
        ensures
            !(r matches Err(ApprovalError::Internal { .. })),
    {
        let existing: Option<Approval> = match self.requests.get(&approval.id.value) {
            Some(stored) => Some(stored.copy()),
            None => None,
        };
        match existing {
            Some(stored) => {
                if stored.same(&approval) {
                    Ok(stored)
                } else {
                    Err(ApprovalError::Conflict { approval_id: approval.id.value })
                }
            },
            None => {
                let stored: Approval = approval.copy();
                self.requests.put(approval.id.value.clone(), approval);
                Ok(stored)
            },
        }
    }

    fn record_decision(&mut self, decision: ApprovalDecision) -> (r: Result<Approval, ApprovalError>)
        ensures
            !(r matches Err(ApprovalError::Internal { .. })),
    {
        let found: Option<Approval> = match self.requests.get(&decision.approval_id.value) {
            Some(approval) => Some(approval.copy()),
            None => None,
        };
        let mut approval: Approval = match found {
            Some(approval) => approval,
            None => {
                return Err(ApprovalError::NotFound { approval_id: decision.approval_id.value });
            },
        };
        let recorded: Option<ApprovalDecision> = match self.decisions.get(
            &decision.approval_id.value,
        ) {
            Some(earlier) => Some(earlier.copy()),
            None => None,
        };
        match recorded {
            Some(earlier) => {
                if earlier.same(&decision) {
                    Ok(approval)
                } else {
                    Err(ApprovalError::Conflict { approval_id: decision.approval_id.value })
                }
            },
            None => {
                approval.outcome = Some(decision.outcome);
                approval.resolved_at_unix_seconds = Some(decision.decided_at_unix_seconds);
                approval.revision = approval.revision.next();
                self.requests.put(approval.id.value.clone(), approval.copy());
                self.decisions.put(decision.approval_id.value.clone(), decision);
                Ok(approval)
            },
        }
    }

    fn get(&self, id: &EntityId) -> (r: Result<Option<Approval>, ApprovalError>)
        ensures
            r is Ok,
    {
        match self.requests.get(&id.value) {
            Some(approval) => Ok(Some(approval.copy())),
            None => Ok(None),
        }
    }

    fn get_decision(&self, approval_id: &EntityId) -> (r: Result<
        Option<ApprovalDecision>,
        ApprovalError,
    >)
        ensures
            r is Ok,
    {
        match self.decisions.get(&approval_id.value) {
            Some(decision) => Ok(Some(decision.copy())),
            None => Ok(None),
        }
    }

    fn list_pending(&self) -> (r: Result<Vec<Approval>, ApprovalError>)
        ensures
            r is Ok,
    {
        let ghost wanted = |approval: Approval| is_pending(approval);
        let keep = |approval: &Approval| -> (b: bool)
            ensures
                b == is_pending(*approval),
        {
            approval.outcome.is_none()
        };
        let list: Vec<Approval> = rows_where(&self.requests, keep, Ghost(wanted));
        proof {
            self.requests.lemma_wf_ascending();
            crate::table::lemma_select_lists(self.requests.entries(), wanted);
        }
        Ok(list)
    }

    fn list_in_org(&self, organization_id: &EntityId) -> (r: Result<Vec<Approval>, ApprovalError>)
        ensures
            r is Ok,
    {
        let ghost wanted = |approval: Approval| approval.organization_id.alike(organization_id);
        let keep = |approval: &Approval| -> (b: bool)
            ensures
                b == approval.organization_id.alike(organization_id),
        {
            approval.organization_id.same(organization_id)
        };
        let list: Vec<Approval> = rows_where(&self.requests, keep, Ghost(wanted));
        proof {
            self.requests.lemma_wf_ascending();
            crate::table::lemma_select_lists(self.requests.entries(), wanted);
        }
        Ok(list)
    }
}

/// Every approval is held under its own identifier.
pub open spec fn keyed(state: Approvals) -> bool {
    forall|key: Seq<char>| #[trigger]
        state.requests.contains_key(key) ==> state.requests[key].id.value@ == key
}

/// Every approval stays under its own identifier.
pub proof fn law_approvals_stay_under_their_identifiers(
    before: Approvals,
    approval: Approval,
    created: Result<Approval, ApprovalError>,
    between: Approvals,
    decision: ApprovalDecision,
    decided: Result<Approval, ApprovalError>,
    after: Approvals,
)
    requires
        keyed(before),
        create_result(before, approval, created, between),
        decision_result(between, decision, decided, after),
    ensures
        keyed(between),
        keyed(after),
{
}

/// An approval is decided once: after a decision was recorded, recording it again answers the
/// approval as it stands and changes nothing.
pub proof fn law_decision_replay_is_harmless(
    before: Approvals,
    decision: ApprovalDecision,
    first: Result<Approval, ApprovalError>,
    between: Approvals,
    second: Result<Approval, ApprovalError>,
    after: Approvals,
)
    requires
        decision_result(before, decision, first, between),
        first is Ok,
        keyed(before),
        decision_result(between, decision, second, after),
        !(second matches Err(ApprovalError::Internal { .. })),
    ensures
        second == first,
        after == between,
{
    decision.alike_reflexive();
}

/// The audit never contradicts itself: once an approval is decided, a divergent decision is refused
/// and leaves both the approval and its decision as they are.
pub proof fn law_divergent_decision_is_refused(
    before: Approvals,
    decision: ApprovalDecision,
    r: Result<Approval, ApprovalError>,
    after: Approvals,
)
    requires
        before.requests.contains_key(decision.approval_id.value@),
        before.decisions.contains_key(decision.approval_id.value@),
        !before.decisions[decision.approval_id.value@].alike(&decision),
        decision_result(before, decision, r, after),
    ensures
        r is Err,
        after == before,
{
}

/// No operation ever replaces or removes a recorded decision.
pub proof fn law_decisions_are_immutable(
    before: Approvals,
    decision: ApprovalDecision,
    r: Result<Approval, ApprovalError>,
    after: Approvals,
    key: Seq<char>,
)
    requires
        decision_result(before, decision, r, after),
        before.decisions.contains_key(key),
    ensures
        after.decisions.contains_key(key),
        after.decisions[key] == before.decisions[key],
{
}

/// Creating an approval again is harmless: the stored one is answered and nothing changes.
pub proof fn law_create_replay_is_harmless(
    before: Approvals,
    approval: Approval,
    first: Result<Approval, ApprovalError>,
    between: Approvals,
    second: Result<Approval, ApprovalError>,
    after: Approvals,
)
    requires
        create_result(before, approval, first, between),
        first is Ok,
        create_result(between, approval, second, after),
        !(second matches Err(ApprovalError::Internal { .. })),
    ensures
        second == first,
        after == between,
{
    approval.alike_reflexive();
}

} // verus!
