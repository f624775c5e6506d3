//! Proposals of untrusted remote workers. A proposal is stored once; only the acknowledgement of
//! the control plane ever makes it delivered.
use vstd::prelude::*;
use vstd::string::*;
use crate::model::EntityId;
use crate::outside;
use crate::record::{copy_all, rows_where, Record};
use crate::table::Table;
use crate::text;

verus! {

/// The version of a stored proposal.
pub const REMOTE_WORKER_NOTIFICATION_SCHEMA_VERSION: u16 = 1;

/// The largest payload, in bytes.
pub const MAX_PROPOSAL_PAYLOAD_BYTES: usize = 4096;

/// Who proposes.
#[derive(Debug)]
pub struct RemoteWorkerIdentity {
    pub plugin_id: EntityId,
    pub account_id: EntityId,
}

impl Record for RemoteWorkerIdentity {
    open spec fn alike(&self, other: &Self) -> bool {
        self.plugin_id.alike(&other.plugin_id) && self.account_id.alike(&other.account_id)
    }

    proof fn alike_reflexive(&self) {
    }

    fn same(&self, other: &Self) -> (r: bool) {
        self.plugin_id.same(&other.plugin_id) && self.account_id.same(&other.account_id)
    }

    fn copy(&self) -> (r: Self) {
        RemoteWorkerIdentity { plugin_id: self.plugin_id.copy(), account_id: self.account_id.copy() }
    }
}

/// Where a proposal belongs.
#[derive(Debug)]
pub struct NotificationScope {
    pub organization_id: EntityId,
    pub workspace_id: EntityId,
}

impl Record for NotificationScope {
    open spec fn alike(&self, other: &Self) -> bool {
        self.organization_id.alike(&other.organization_id) && self.workspace_id.alike(
            &other.workspace_id,
        )
    }

    proof fn alike_reflexive(&self) {
    }

    fn same(&self, other: &Self) -> (r: bool) {
        self.organization_id.same(&other.organization_id) && self.workspace_id.same(
            &other.workspace_id,
        )
    }

    fn copy(&self) -> (r: Self) {
        NotificationScope {
            organization_id: self.organization_id.copy(),
            workspace_id: self.workspace_id.copy(),
        }
    }
}

/// A proposed notification. The payload is JSON.
#[derive(Debug)]
pub struct NotificationProposal {
    pub delivery_id: String,
    pub worker: RemoteWorkerIdentity,
    pub scope: NotificationScope,
    pub event_kind: String,
    pub payload: String,
}

/// Whether a notification was delivered.
#[derive(Debug, Clone, Copy, PartialEq, Eq, Structural)]
pub enum NotificationDeliveryState {
    Pending,
    Delivered,
}

/// A stored proposal.
#[derive(Debug)]
pub struct NotificationProposalRecord {
    pub schema_version: u16,
    pub delivery_id: String,
    pub worker: RemoteWorkerIdentity,
    pub scope: NotificationScope,
    pub event_kind: String,
    pub payload: String,
    pub delivery_state: NotificationDeliveryState,
}

impl Record for NotificationProposalRecord {
    open spec fn alike(&self, other: &Self) -> bool {
        &&& self.schema_version == other.schema_version
        &&& self.delivery_id@ == other.delivery_id@
        &&& self.worker.alike(&other.worker)
        &&& self.scope.alike(&other.scope)
        &&& self.event_kind@ == other.event_kind@
        &&& self.payload@ == other.payload@
        &&& self.delivery_state == other.delivery_state
    }

    proof fn alike_reflexive(&self) {
    }

    fn same(&self, other: &Self) -> (r: bool) {
        self.schema_version == other.schema_version && self.delivery_id.same(&other.delivery_id)
            && self.worker.same(&other.worker) && self.scope.same(&other.scope)
            && self.event_kind.same(&other.event_kind) && self.payload.same(&other.payload)
            && self.delivery_state == other.delivery_state
    }

    fn copy(&self) -> (r: Self) {
        NotificationProposalRecord {
            schema_version: self.schema_version,
            delivery_id: self.delivery_id.copy(),
            worker: self.worker.copy(),
            scope: self.scope.copy(),
            event_kind: self.event_kind.copy(),
            payload: self.payload.copy(),
            delivery_state: self.delivery_state,
        }
    }
}

/// A worker's own report that it delivered something. It decides nothing.
#[derive(Debug)]
pub struct WorkerDeliveryClaim {
    pub delivery_id: String,
    pub worker: RemoteWorkerIdentity,
}

impl Record for WorkerDeliveryClaim {
    open spec fn alike(&self, other: &Self) -> bool {
        self.delivery_id@ == other.delivery_id@ && self.worker.alike(&other.worker)
    }

    proof fn alike_reflexive(&self) {
    }

    fn same(&self, other: &Self) -> (r: bool) {
        self.delivery_id.same(&other.delivery_id) && self.worker.same(&other.worker)
    }

    fn copy(&self) -> (r: Self) {
        WorkerDeliveryClaim { delivery_id: self.delivery_id.copy(), worker: self.worker.copy() }
    }
}

/// The acknowledgement of the control plane.
#[derive(Debug)]
pub struct NotificationAcknowledgement {
    pub delivery_id: String,
}

/// Why a notification operation failed.
#[derive(Debug)]
pub enum RemoteWorkerNotificationError {
    InvalidProposal { reason: String },
    ForeignScope { delivery_id: String },
    UnboundedPayload { delivery_id: String },
    DuplicateConflict { delivery_id: String },
    UnknownDelivery { delivery_id: String },
    Serialization { reason: String },
    /// The store itself failed; nothing was changed.
    Database { reason: String },
}

impl RemoteWorkerNotificationError {
    /// The error in words.
    pub fn to_text(&self) -> (r: String)
        ensures
            r@ == match *self {
                RemoteWorkerNotificationError::InvalidProposal { reason } => {
                    "remote-worker proposal is invalid: "@ + reason@
                },
                RemoteWorkerNotificationError::ForeignScope { delivery_id } => {
                    "remote-worker proposal "@ + delivery_id@ + " belongs to a foreign scope"@
                },
                RemoteWorkerNotificationError::UnboundedPayload { delivery_id } => {
                    "remote-worker proposal "@ + delivery_id@
                        + " exceeds the bounded payload size"@
                },
                RemoteWorkerNotificationError::DuplicateConflict { delivery_id } => {
                    "remote-worker proposal "@ + delivery_id@
                        + " conflicts with the stored record"@
                },
                RemoteWorkerNotificationError::UnknownDelivery { delivery_id } => {
                    "remote-worker delivery "@ + delivery_id@ + " is not known to the ledger"@
                },
                RemoteWorkerNotificationError::Serialization { reason } => {
                    "remote-worker notification serialization failed: "@ + reason@
                },
                RemoteWorkerNotificationError::Database { reason } => {
                    "remote-worker notification store failed: "@ + reason@
                },
            },
    {
        let (head, name, tail): (&str, &String, &str) = match self {
            RemoteWorkerNotificationError::InvalidProposal { reason } => (
                "remote-worker proposal is invalid: ",
                reason,
                "",
            ),
            RemoteWorkerNotificationError::ForeignScope { delivery_id } => (
                "remote-worker proposal ",
                delivery_id,
                " belongs to a foreign scope",
            ),
            RemoteWorkerNotificationError::UnboundedPayload { delivery_id } => (
                "remote-worker proposal ",
                delivery_id,
                " exceeds the bounded payload size",
            ),
            RemoteWorkerNotificationError::DuplicateConflict { delivery_id } => (
                "remote-worker proposal ",
                delivery_id,
                " conflicts with the stored record",
            ),
            RemoteWorkerNotificationError::UnknownDelivery { delivery_id } => (
                "remote-worker delivery ",
                delivery_id,
                " is not known to the ledger",
            ),
            RemoteWorkerNotificationError::Serialization { reason } => (
                "remote-worker notification serialization failed: ",
                reason,
                "",
            ),
            RemoteWorkerNotificationError::Database { reason } => (
                "remote-worker notification store failed: ",
                reason,
                "",
            ),
        };
        let start: String = text::joined(head, name);
        let out: String = text::joined(&start, tail);
        proof {
            reveal_strlit("");
            assert(start@ + ""@ =~= start@);
        }
        out
    }
}

/// What is wrong with a proposal on its own.
#[verifier::ext_equal]
pub ghost enum ProposalFault {
    Invalid(Seq<char>),
    NotJson(Seq<char>),
    TooLarge,
}

/// What is wrong with a proposal on its own.
pub open spec fn proposal_fault(proposal: NotificationProposal) -> Option<ProposalFault> {
    if proposal.delivery_id@.len() == 0 {
        Some(ProposalFault::Invalid("delivery_id is blank"@))
    } else if text::is_blank(proposal.event_kind@) {
        Some(ProposalFault::Invalid("event_kind is blank"@))
    } else if proposal.worker.plugin_id.value@.len() == 0
        || proposal.worker.account_id.value@.len() == 0 {
        Some(ProposalFault::Invalid("worker identity is incomplete"@))
    } else {
        match outside::json_compact(proposal.payload@) {
            Err(words) => Some(ProposalFault::NotJson(words)),
            Ok(compact) => if text::byte_len(compact) > MAX_PROPOSAL_PAYLOAD_BYTES {
                Some(ProposalFault::TooLarge)
            } else {
                None
            },
        }
    }
}

/// The error says this fault of a proposal.
pub open spec fn says(
    error: RemoteWorkerNotificationError,
    fault: ProposalFault,
    proposal: NotificationProposal,
) -> bool {
    match (error, fault) {
        (
            RemoteWorkerNotificationError::InvalidProposal { reason },
            ProposalFault::Invalid(words),
        ) => reason@ == words,
        (
            RemoteWorkerNotificationError::Serialization { reason },
            ProposalFault::NotJson(words),
        ) => reason@ == words,
        (RemoteWorkerNotificationError::UnboundedPayload { delivery_id }, ProposalFault::TooLarge)
        => delivery_id == proposal.delivery_id,
        _ => false,
    }
}

/// Checks the size of a payload that is written without white space.
pub fn bounded_payload(delivery_id: &String, compact: &str) -> (r: Result<
    usize,
    RemoteWorkerNotificationError,
>)
    ensures
        match r {
            Ok(size) => size == text::byte_len(compact@) && size <= MAX_PROPOSAL_PAYLOAD_BYTES,
            Err(error) => text::byte_len(compact@) > MAX_PROPOSAL_PAYLOAD_BYTES && error
                == (RemoteWorkerNotificationError::UnboundedPayload { delivery_id: *delivery_id }),
        },
{
    let size: usize = text::byte_count(compact);
    if size > MAX_PROPOSAL_PAYLOAD_BYTES {
        return Err(
            RemoteWorkerNotificationError::UnboundedPayload { delivery_id: delivery_id.clone() },
        );
    }
    Ok(size)
}

/// Checks a proposal on its own and tells the size of its payload.
pub fn validated_payload(proposal: &NotificationProposal) -> (r: Result<
    usize,
    RemoteWorkerNotificationError,
>)
    ensures
        match r {
            Ok(size) => proposal_fault(*proposal) is None && outside::json_compact(
                proposal.payload@,
            ) is Ok && size == text::byte_len(outside::json_compact(proposal.payload@)->Ok_0),
            Err(error) => proposal_fault(*proposal) matches Some(fault) && says(
                error,
                fault,
                *proposal,
            ),
        },
{
    if proposal.delivery_id.as_str().is_empty() {
        return Err(
            RemoteWorkerNotificationError::InvalidProposal {
                reason: "delivery_id is blank".to_owned(),
            },
        );
    }
    if text::blank(&proposal.event_kind) {
        return Err(
            RemoteWorkerNotificationError::InvalidProposal {
                reason: "event_kind is blank".to_owned(),
            },
        );
    }
    if proposal.worker.plugin_id.value.as_str().is_empty()
        || proposal.worker.account_id.value.as_str().is_empty() {
        return Err(
            RemoteWorkerNotificationError::InvalidProposal {
                reason: "worker identity is incomplete".to_owned(),
            },
        );
    }
    match outside::compact_json(&proposal.payload) {
        Ok(compact) => bounded_payload(&proposal.delivery_id, &compact),
        Err(reason) => Err(RemoteWorkerNotificationError::Serialization { reason }),
    }
}

/// What is stored of notifications, by delivery.
#[verifier::ext_equal]
pub ghost struct Notifications {
    pub proposals: Map<Seq<char>, NotificationProposalRecord>,
    pub claims: Map<Seq<char>, Seq<WorkerDeliveryClaim>>,
}

/// The record that a proposal is stored as.
pub open spec fn fresh_record(proposal: NotificationProposal) -> NotificationProposalRecord {
    NotificationProposalRecord {
        schema_version: REMOTE_WORKER_NOTIFICATION_SCHEMA_VERSION,
        delivery_id: proposal.delivery_id,
        worker: proposal.worker,
        scope: proposal.scope,
        event_kind: proposal.event_kind,
        payload: proposal.payload,
        delivery_state: NotificationDeliveryState::Pending,
    }
}

/// The stored record holds the same proposal.
pub open spec fn is_replay(
    stored: NotificationProposalRecord,
    proposal: NotificationProposal,
) -> bool {
    &&& stored.worker.alike(&proposal.worker)
    &&& stored.scope.alike(&proposal.scope)
    &&& stored.event_kind@ == proposal.event_kind@
    &&& outside::json_equal(stored.payload@, proposal.payload@)
}

/// The proposal is stored word by word.
pub open spec fn holds_verbatim(state: Notifications, proposal: NotificationProposal) -> bool {
    let key = proposal.delivery_id@;
    &&& state.proposals.contains_key(key)
    &&& state.proposals[key].worker.alike(&proposal.worker)
    &&& state.proposals[key].scope.alike(&proposal.scope)
    &&& state.proposals[key].event_kind@ == proposal.event_kind@
    &&& state.proposals[key].payload@ == proposal.payload@
}

/// The claims of a delivery, in the order of their arrival.
pub open spec fn claims_of(state: Notifications, delivery_id: Seq<char>) -> Seq<
    WorkerDeliveryClaim,
> {
    if state.claims.contains_key(delivery_id) {
        state.claims[delivery_id]
    } else {
        Seq::empty()
    }
}

/// What comes of proposing to a ledger of one scope.
pub open spec fn propose_result(
    before: Notifications,
    scope: NotificationScope,
    proposal: NotificationProposal,
    r: Result<NotificationProposalRecord, RemoteWorkerNotificationError>,
    after: Notifications,
) -> bool {
    let key = proposal.delivery_id@;
    let known = before.proposals.contains_key(key);
    match r {
        Ok(record) => {
            &&& proposal_fault(proposal) is None
            &&& proposal.scope.alike(&scope)
            &&& if known {
                &&& is_replay(before.proposals[key], proposal)
                &&& record == before.proposals[key]
                &&& after == before
            } else {
                &&& record == fresh_record(proposal)
                &&& after == (Notifications {
                    proposals: before.proposals.insert(key, record),
                    ..before
                })
            }
        },
        Err(error) => {
            &&& after == before
            &&& match proposal_fault(proposal) {
                Some(fault) => says(error, fault, proposal),
                None => if !proposal.scope.alike(&scope) {
                    error == (RemoteWorkerNotificationError::ForeignScope {
                        delivery_id: proposal.delivery_id,
                    })
                } else {
                    known && !is_replay(before.proposals[key], proposal) && error == (
                    RemoteWorkerNotificationError::DuplicateConflict {
                        delivery_id: proposal.delivery_id,
                    })
                },
            }
        },
    }
}

/// What comes of a worker's claim: it is added to the claims of a known delivery, and nothing else
/// changes.
pub open spec fn claim_result(
    before: Notifications,
    claim: WorkerDeliveryClaim,
    known: bool,
    r: Result<usize, RemoteWorkerNotificationError>,
    after: Notifications,
) -> bool {
    let key = claim.delivery_id@;
    match r {
        Ok(count) => {
            &&& known
            &&& after == (Notifications {
                claims: before.claims.insert(key, claims_of(before, key).push(claim)),
                ..before
            })
            &&& count == claims_of(before, key).len() + 1
        },
        Err(RemoteWorkerNotificationError::UnknownDelivery { delivery_id }) => {
            !known && delivery_id == claim.delivery_id && after == before
        },
        Err(error) => error is Database && after == before,
    }
}

/// What comes of an acknowledgement: a known delivery is delivered, once and for all.
pub open spec fn acknowledge_result(
    before: Notifications,
    acknowledgement: NotificationAcknowledgement,
    r: Result<NotificationDeliveryState, RemoteWorkerNotificationError>,
    after: Notifications,
) -> bool {
    let key = acknowledgement.delivery_id@;
    match r {
        Ok(state) => {
            &&& state == NotificationDeliveryState::Delivered
            &&& before.proposals.contains_key(key)
            &&& after == (Notifications {
                proposals: before.proposals.insert(
                    key,
                    NotificationProposalRecord {
                        delivery_state: NotificationDeliveryState::Delivered,
                        ..before.proposals[key]
                    },
                ),
                ..before
            })
        },
        Err(RemoteWorkerNotificationError::UnknownDelivery { delivery_id }) => {
            &&& !before.proposals.contains_key(key)
            &&& delivery_id == acknowledgement.delivery_id
            &&& after == before
        },
        Err(error) => error is Database && after == before,
    }
}

/// The proposals of one scope, in memory.
pub struct NotificationProposalLedger {
    scope: NotificationScope,
    proposals: Table<NotificationProposalRecord>,
    claims: Table<Vec<WorkerDeliveryClaim>>,
}

/// The claims of each delivery, as their lists.
spec fn claim_lists(claims: Map<Seq<char>, Vec<WorkerDeliveryClaim>>) -> Map<
    Seq<char>,
    Seq<WorkerDeliveryClaim>,
> {
    claims.map_values(|list: Vec<WorkerDeliveryClaim>| list@)
}

impl NotificationProposalLedger {
    /// The ledger is in order.
    pub closed spec fn ready(&self) -> bool {
        self.proposals.wf() && self.claims.wf()
    }

    /// What the ledger holds.
    pub closed spec fn holdings(&self) -> Notifications {
        Notifications { proposals: self.proposals@, claims: claim_lists(self.claims@) }
    }

    /// The scope of the ledger.
    pub closed spec fn own_scope(&self) -> NotificationScope {
        self.scope
    }

    /// An empty ledger of a scope.
    pub fn new(scope: NotificationScope) -> (r: Self)
        ensures
            r.ready(),
            r.own_scope() == scope,
            r.holdings() == (Notifications { proposals: Map::empty(), claims: Map::empty() }),
    {
        let r: NotificationProposalLedger = NotificationProposalLedger {
            scope,
            proposals: Table::new(),
            claims: Table::new(),
        };
        assert(r.holdings() =~= Notifications { proposals: Map::empty(), claims: Map::empty() });
        r
    }

    /// Stores a proposal. The same one again is answered from the store; another one under its
    /// delivery is refused.
    pub fn propose(&mut self, proposal: NotificationProposal) -> (r: Result<
        NotificationProposalRecord,
        RemoteWorkerNotificationError,
    >)
        requires
            old(self).ready(),
        ensures
            final(self).ready(),
            final(self).own_scope() == old(self).own_scope(),
            propose_result(
                old(self).holdings(),
                old(self).own_scope(),
                proposal,
                r,
                final(self).holdings(),
            ),
            // The same proposal again succeeds.
            proposal_fault(proposal) is None && proposal.scope.alike(&old(self).own_scope())
                && holds_verbatim(old(self).holdings(), proposal) ==> r is Ok,
    {
        match validated_payload(&proposal) {
            Ok(_) => {},
            Err(error) => {
                return Err(error);
            },
        }
        if !proposal.scope.same(&self.scope) {
            return Err(
                RemoteWorkerNotificationError::ForeignScope { delivery_id: proposal.delivery_id },
            );
        }
        match self.proposals.get(&proposal.delivery_id) {
            Some(existing) => {
                if replays(existing, &proposal) {
                    Ok(existing.copy())
                } else {
                    Err(
                        RemoteWorkerNotificationError::DuplicateConflict {
                            delivery_id: proposal.delivery_id,
                        },
                    )
                }
            },
            None => {
                let record: NotificationProposalRecord = record_of(proposal);
                let stored: NotificationProposalRecord = record.copy();
                self.proposals.put(record.delivery_id.clone(), stored);
                Ok(record)
            },
        }
    }

    /// Records a worker's claim and tells how many the delivery has.
    pub fn observe_worker_claim(&mut self, claim: WorkerDeliveryClaim) -> (r: Result<
        usize,
        RemoteWorkerNotificationError,
    >)
        requires
            old(self).ready(),
            claims_of(old(self).holdings(), claim.delivery_id@).len() < usize::MAX,
        ensures
            final(self).ready(),
            final(self).own_scope() == old(self).own_scope(),
            claim_result(
                old(self).holdings(),
                claim,
                old(self).holdings().proposals.contains_key(claim.delivery_id@),
                r,
                final(self).holdings(),
            ),
            !(r matches Err(RemoteWorkerNotificationError::Database { .. })),
    {
        if !self.proposals.has(&claim.delivery_id) {
            return Err(
                RemoteWorkerNotificationError::UnknownDelivery { delivery_id: claim.delivery_id },
            );
        }
        Ok(add_claim(&mut self.claims, claim))
    }

    /// Applies the acknowledgement of the control plane.
    pub fn acknowledge(&mut self, acknowledgement: NotificationAcknowledgement) -> (r: Result<
        NotificationDeliveryState,
        RemoteWorkerNotificationError,
    >)
        requires
            old(self).ready(),
        ensures
            final(self).ready(),
            final(self).own_scope() == old(self).own_scope(),
            acknowledge_result(
                old(self).holdings(),
                acknowledgement,
                r,
                final(self).holdings(),
            ),
            !(r matches Err(RemoteWorkerNotificationError::Database { .. })),
    {
        let mut record: NotificationProposalRecord = match self.proposals.get(
            &acknowledgement.delivery_id,
        ) {
            Some(record) => record.copy(),
            None => {
                return Err(
                    RemoteWorkerNotificationError::UnknownDelivery {
                        delivery_id: acknowledgement.delivery_id,
                    },
                );
            },
        };
        record.delivery_state = NotificationDeliveryState::Delivered;
        self.proposals.put(acknowledgement.delivery_id, record);
        Ok(NotificationDeliveryState::Delivered)
    }

    /// The stored records, in the order of their deliveries.
    pub fn records(&self) -> (r: Vec<NotificationProposalRecord>)
        requires
            self.ready(),
        ensures
            crate::table::lists_in_order(
                r@,
                self.holdings().proposals,
                |record: NotificationProposalRecord| true,
            ),
    {
        let ghost wanted = |record: NotificationProposalRecord| true;
        let keep = |record: &NotificationProposalRecord| -> (b: bool)
            ensures
                b,
        {
            true
        };
        let list: Vec<NotificationProposalRecord> = rows_where(
            &self.proposals,
            keep,
            Ghost(wanted),
        );
        proof {
            self.proposals.lemma_wf_ascending();
            assert(crate::table::ascending(self.proposals.entries()));
        }
        list
    }

    /// The claims of a delivery, in the order of their arrival.
    pub fn worker_claims(&self, delivery_id: &str) -> (r: Vec<WorkerDeliveryClaim>)
        requires
            self.ready(),
        ensures
            r@ == claims_of(self.holdings(), delivery_id@),
    {
        match self.claims.get(delivery_id) {
            Some(claims) => copy_all(claims),
            None => Vec::new(),
        }
    }
}

/// Whether a stored record holds the same proposal.
pub fn replays(stored: &NotificationProposalRecord, proposal: &NotificationProposal) -> (r: bool)
    ensures
        r == is_replay(*stored, *proposal),
        stored.worker.alike(&proposal.worker) && stored.scope.alike(&proposal.scope)
            && stored.event_kind@ == proposal.event_kind@ && stored.payload@ == proposal.payload@
            && outside::json_compact(proposal.payload@) is Ok ==> r,
{
    stored.worker.same(&proposal.worker) && stored.scope.same(&proposal.scope)
        && stored.event_kind.same(&proposal.event_kind) && outside::same_json(
        &stored.payload,
        &proposal.payload,
    )
}

/// The record that a proposal is stored as.
pub fn record_of(proposal: NotificationProposal) -> (r: NotificationProposalRecord)
    ensures
        r == fresh_record(proposal),
{
    NotificationProposalRecord {
        schema_version: REMOTE_WORKER_NOTIFICATION_SCHEMA_VERSION,
        delivery_id: proposal.delivery_id,
        worker: proposal.worker,
        scope: proposal.scope,
        event_kind: proposal.event_kind,
        payload: proposal.payload,
        delivery_state: NotificationDeliveryState::Pending,
    }
}

/// Adds a claim to those of its delivery and tells how many there are.
pub fn add_claim(claims: &mut Table<Vec<WorkerDeliveryClaim>>, claim: WorkerDeliveryClaim) -> (r:
    usize)
    requires
        old(claims).wf(),
        old(claims)@.contains_key(claim.delivery_id@) ==> old(
            claims,
        )@[claim.delivery_id@]@.len() < usize::MAX,
    ensures
        final(claims).wf(),
        ({
            let before = old(claims)@.map_values(|list: Vec<WorkerDeliveryClaim>| list@);
            let after = final(claims)@.map_values(|list: Vec<WorkerDeliveryClaim>| list@);
            let key = claim.delivery_id@;
            let earlier = if before.contains_key(key) {
                before[key]
            } else {
                Seq::empty()
            };
            &&& after == before.insert(key, earlier.push(claim))
            &&& r == earlier.len() + 1
        }),
{
    let mut list: Vec<WorkerDeliveryClaim> = match claims.get(&claim.delivery_id) {
        Some(list) => copy_all(list),
        None => Vec::new(),
    };
    let key: String = claim.delivery_id.clone();
    let ghost held = claims@;
    let ghost name = claim.delivery_id@;
    list.push(claim);
    let count: usize = list.len();
    let ghost added = list;
    claims.put(key, list);
    proof {
        let before = held.map_values(|list: Vec<WorkerDeliveryClaim>| list@);
        let after = claims@.map_values(|list: Vec<WorkerDeliveryClaim>| list@);
        assert(after =~= before.insert(name, added@));
    }
    count
}

/// A claim never moves a delivery: every stored proposal stays as it is.
pub proof fn law_claims_move_no_delivery(
    before: Notifications,
    claim: WorkerDeliveryClaim,
    known: bool,
    r: Result<usize, RemoteWorkerNotificationError>,
    after: Notifications,
)
    requires
        claim_result(before, claim, known, r, after),
    ensures
        after.proposals == before.proposals,
{
}

/// Only an acknowledgement delivers: a proposal leaves the state of every stored delivery, and a
/// stored one starts pending.
pub proof fn law_only_acknowledgement_delivers(
    before: Notifications,
    scope: NotificationScope,
    proposal: NotificationProposal,
    r: Result<NotificationProposalRecord, RemoteWorkerNotificationError>,
    after: Notifications,
    key: Seq<char>,
)
    requires
        propose_result(before, scope, proposal, r, after),
        after.proposals.contains_key(key),
        after.proposals[key].delivery_state == NotificationDeliveryState::Delivered,
    ensures
        before.proposals.contains_key(key),
        before.proposals[key] == after.proposals[key],
{
}

/// Acknowledging again changes nothing.
pub proof fn law_acknowledgement_is_idempotent(
    before: Notifications,
    acknowledgement: NotificationAcknowledgement,
    between: Notifications,
    r: Result<NotificationDeliveryState, RemoteWorkerNotificationError>,
    after: Notifications,
)
    requires
        acknowledge_result(
            before,
            acknowledgement,
            Ok(NotificationDeliveryState::Delivered),
            between,
        ),
        acknowledge_result(between, acknowledgement, r, after),
    ensures
        after == between,
{
    if r is Ok {
        assert(after.proposals =~= between.proposals);
    }
}

/// Proposing again under a known delivery changes nothing, whether it is the same proposal or a
/// divergent one.
pub proof fn law_stored_proposals_are_immutable(
    before: Notifications,
    scope: NotificationScope,
    proposal: NotificationProposal,
    r: Result<NotificationProposalRecord, RemoteWorkerNotificationError>,
    after: Notifications,
)
    requires
        propose_result(before, scope, proposal, r, after),
        before.proposals.contains_key(proposal.delivery_id@),
    ensures
        after == before,
{
}

/// The order of arrival leaves no trace: two proposals of different deliveries lead to the same
/// ledger either way, and the records of the two ledgers read the same.
pub proof fn law_arrival_order_does_not_matter(
    before: Notifications,
    scope: NotificationScope,
    p: NotificationProposal,
    q: NotificationProposal,
    results: (
        Result<NotificationProposalRecord, RemoteWorkerNotificationError>,
        Result<NotificationProposalRecord, RemoteWorkerNotificationError>,
    ),
    between: Notifications,
    after: Notifications,
    other_results: (
        Result<NotificationProposalRecord, RemoteWorkerNotificationError>,
        Result<NotificationProposalRecord, RemoteWorkerNotificationError>,
    ),
    other_between: Notifications,
    other_after: Notifications,
    records: Seq<NotificationProposalRecord>,
    other_records: Seq<NotificationProposalRecord>,
)
    requires
        p.delivery_id@ != q.delivery_id@,
        propose_result(before, scope, p, results.0, between),
        propose_result(between, scope, q, results.1, after),
        propose_result(before, scope, q, other_results.0, other_between),
        propose_result(other_between, scope, p, other_results.1, other_after),
        crate::table::lists_in_order(
            records,
            after.proposals,
            |record: NotificationProposalRecord| true,
        ),
        crate::table::lists_in_order(
            other_records,
            other_after.proposals,
            |record: NotificationProposalRecord| true,
        ),
    ensures
        other_after == after,
        other_records == records,
{
    assert(other_after.proposals =~= after.proposals);
    assert(other_after.claims =~= after.claims);
    crate::table::law_ordered_list_is_determined_by_map(
        records,
        other_records,
        after.proposals,
        |record: NotificationProposalRecord| true,
    );
}

} // verus!
