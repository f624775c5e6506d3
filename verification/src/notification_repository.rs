//! The durable store of notification proposals. The scope of a delivery is fixed by its first
//! proposal and never rewritten; a worker reaches only deliveries of its own scope.
use vstd::prelude::*;
use vstd::string::*;
use crate::record::{copy_all, rows_where, Record};
use crate::remote_worker_notification::{
    add_claim, record_of, replays, validated_payload, NotificationAcknowledgement,
    NotificationDeliveryState, NotificationProposal, NotificationProposalRecord,
    NotificationScope, Notifications, RemoteWorkerNotificationError, WorkerDeliveryClaim,
    REMOTE_WORKER_NOTIFICATION_SCHEMA_VERSION,
};
use crate::table::Table;
use crate::text;

verus! {

/// The words for a record of another version.
pub open spec fn version_words(delivery_id: Seq<char>, version: u16) -> Seq<char> {
    "notification proposal "@ + delivery_id + " has schema version "@ + text::decimal(
        version as nat,
    ) + ", expected "@ + text::decimal(REMOTE_WORKER_NOTIFICATION_SCHEMA_VERSION as nat)
}

/// Accepts a record that was read back. One of another version is refused rather than rewritten.
pub fn accept_stored(record: NotificationProposalRecord) -> (r: Result<
    NotificationProposalRecord,
    RemoteWorkerNotificationError,
>)
    ensures
        match r {
            Ok(accepted) => accepted == record && record.schema_version
                == REMOTE_WORKER_NOTIFICATION_SCHEMA_VERSION,
            Err(RemoteWorkerNotificationError::Database { reason }) => record.schema_version
                != REMOTE_WORKER_NOTIFICATION_SCHEMA_VERSION && reason@ == version_words(
                record.delivery_id@,
                record.schema_version,
            ),
            Err(_) => false,
        },
{
    if record.schema_version == REMOTE_WORKER_NOTIFICATION_SCHEMA_VERSION {
        return Ok(record);
    }
    let found: String = text::numeral(record.schema_version as u64);
    let wanted: String = text::numeral(REMOTE_WORKER_NOTIFICATION_SCHEMA_VERSION as u64);
    let mut reason: String = text::joined("notification proposal ", &record.delivery_id);
    reason.append(" has schema version ");
    reason.append(&found);
    reason.append(", expected ");
    reason.append(&wanted);
    Err(RemoteWorkerNotificationError::Database { reason })
}

/// What comes of a durable proposal. The first one fixes the scope of its delivery; a proposal from
/// another scope is refused before its content is compared.
pub open spec fn store_result(
    before: Notifications,
    proposal: NotificationProposal,
    r: Result<NotificationProposalRecord, RemoteWorkerNotificationError>,
    after: Notifications,
) -> bool {
    let key = proposal.delivery_id@;
    let known = before.proposals.contains_key(key);
    let fault = crate::remote_worker_notification::proposal_fault(proposal);
    match r {
        Ok(record) => {
            &&& fault is None
            &&& if known {
                &&& crate::remote_worker_notification::is_replay(before.proposals[key], proposal)
                &&& record == before.proposals[key]
                &&& after == before
            } else {
                &&& record == crate::remote_worker_notification::fresh_record(proposal)
                &&& after == (Notifications {
                    proposals: before.proposals.insert(key, record),
                    ..before
                })
            }
        },
        Err(error) => {
            &&& after == before
            &&& match fault {
                Some(fault) => crate::remote_worker_notification::says(error, fault, proposal),
                None => {
                    ||| error is Database
                    ||| {
                        &&& known
                        &&& !before.proposals[key].scope.alike(&proposal.scope)
                        &&& error == (RemoteWorkerNotificationError::ForeignScope {
                            delivery_id: proposal.delivery_id,
                        })
                    }
                    ||| {
                        &&& known
                        &&& before.proposals[key].scope.alike(&proposal.scope)
                        &&& !crate::remote_worker_notification::is_replay(
                            before.proposals[key],
                            proposal,
                        )
                        &&& error == (RemoteWorkerNotificationError::DuplicateConflict {
                            delivery_id: proposal.delivery_id,
                        })
                    }
                },
            }
        },
    }
}

/// The delivery belongs to the scope.
pub open spec fn owns(scope: NotificationScope, record: NotificationProposalRecord) -> bool {
    record.scope.organization_id.value@ == scope.organization_id.value@
        && record.scope.workspace_id.value@ == scope.workspace_id.value@
}

/// The delivery is known to the scope.
pub open spec fn knows(
    state: Notifications,
    scope: NotificationScope,
    delivery_id: Seq<char>,
) -> bool {
    state.proposals.contains_key(delivery_id) && owns(scope, state.proposals[delivery_id])
}

/// Whether a delivery belongs to a scope.
fn belongs(scope: &NotificationScope, record: &NotificationProposalRecord) -> (r: bool)
    ensures
        r == owns(*scope, *record),
{
    text::same(&record.scope.organization_id.value, &scope.organization_id.value) && text::same(
        &record.scope.workspace_id.value,
        &scope.workspace_id.value,
    )
}

/// The record of a delivery was written in another version.
pub open spec fn is_outdated(state: Notifications, delivery_id: Seq<char>) -> bool {
    state.proposals.contains_key(delivery_id) && state.proposals[delivery_id].schema_version
        != REMOTE_WORKER_NOTIFICATION_SCHEMA_VERSION
}

/// The outcome refuses the record of a delivery by its version; a store that can fail may fail in
/// place of it.
pub open spec fn is_version_refusal<T>(
    state: Notifications,
    delivery_id: Seq<char>,
    fallible: bool,
    r: Result<T, RemoteWorkerNotificationError>,
) -> bool {
    r matches Err(RemoteWorkerNotificationError::Database { reason }) && (fallible || reason@
        == version_words(
        state.proposals[delivery_id].delivery_id@,
        state.proposals[delivery_id].schema_version,
    ))
}

/// The first record of a list that was written in another version is at `at`.
pub open spec fn is_first_outdated(list: Seq<NotificationProposalRecord>, at: int) -> bool {
    &&& 0 <= at < list.len()
    &&& list[at].schema_version != REMOTE_WORKER_NOTIFICATION_SCHEMA_VERSION
    &&& forall|i: int|
        0 <= i < at ==> (#[trigger] list[i]).schema_version
            == REMOTE_WORKER_NOTIFICATION_SCHEMA_VERSION
}

/// `list` holds the records of a scope, in the order of their deliveries.
pub open spec fn is_record_list(
    list: Seq<NotificationProposalRecord>,
    state: Notifications,
    scope: NotificationScope,
) -> bool {
    crate::table::lists_in_order(
        list,
        state.proposals,
        |record: NotificationProposalRecord| owns(scope, record),
    )
}

/// What comes of reading the records of a scope: all of them, or a refusal of the first one that
/// was written in another version.
pub open spec fn records_result(
    state: Notifications,
    scope: NotificationScope,
    r: Result<Vec<NotificationProposalRecord>, RemoteWorkerNotificationError>,
) -> bool {
    match r {
        Ok(list) => is_record_list(list@, state, scope) && forall|i: int|
            0 <= i < list@.len() ==> (#[trigger] list@[i]).schema_version
                == REMOTE_WORKER_NOTIFICATION_SCHEMA_VERSION,
        Err(error) => exists|list: Seq<NotificationProposalRecord>, at: int|
            {
                &&& #[trigger] is_record_list(list, state, scope)
                &&& #[trigger] is_first_outdated(list, at)
                &&& error matches RemoteWorkerNotificationError::Database { reason }
                &&& reason@ == version_words(list[at].delivery_id@, list[at].schema_version)
            },
    }
}

/// A durable store of proposals.
pub trait NotificationProposalRepository {
    /// The store is in order.
    spec fn ready(&self) -> bool;

    /// What the store holds.
    spec fn holdings(&self) -> Notifications;

    /// The store itself can fail, whatever it is asked.
    spec fn fallible(&self) -> bool;

    /// Stores a proposal.
    fn propose(&mut self, proposal: NotificationProposal) -> (r: Result<
        NotificationProposalRecord,
        RemoteWorkerNotificationError,
    >)
        requires
            old(self).ready(),
        ensures
            final(self).ready(),
            store_result(old(self).holdings(), proposal, r, final(self).holdings()),
            r matches Err(RemoteWorkerNotificationError::Database { .. }) ==> old(self).fallible()
                || is_outdated(old(self).holdings(), proposal.delivery_id@),
            // A record of another version is refused by its version, whatever else it holds.
            crate::remote_worker_notification::proposal_fault(proposal) is None && is_outdated(
                old(self).holdings(),
                proposal.delivery_id@,
            ) ==> is_version_refusal(
                old(self).holdings(),
                proposal.delivery_id@,
                old(self).fallible(),
                r,
            ),
            // The same proposal again is answered by the record that is stored.
            crate::remote_worker_notification::proposal_fault(proposal) is None && !old(
                self,
            ).fallible() && crate::remote_worker_notification::holds_verbatim(
                old(self).holdings(),
                proposal,
            ) && !is_outdated(old(self).holdings(), proposal.delivery_id@) ==> r is Ok,
            final(self).fallible() == old(self).fallible(),
    ;

    /// Records a worker's claim on a delivery of its scope.
    fn observe_worker_claim(&mut self, scope: &NotificationScope, claim: WorkerDeliveryClaim) -> (r:
        Result<usize, RemoteWorkerNotificationError>)
        requires
            old(self).ready(),
            crate::remote_worker_notification::claims_of(
                old(self).holdings(),
                claim.delivery_id@,
            ).len() < usize::MAX,
        ensures
            final(self).ready(),
            crate::remote_worker_notification::claim_result(
                old(self).holdings(),
                claim,
                knows(old(self).holdings(), *scope, claim.delivery_id@),
                r,
                final(self).holdings(),
            ),
            r matches Err(RemoteWorkerNotificationError::Database { .. }) ==> old(self).fallible(),
            final(self).fallible() == old(self).fallible(),
    ;

    /// Applies the acknowledgement of the control plane, which is trusted and needs no scope.
    fn acknowledge(&mut self, acknowledgement: NotificationAcknowledgement) -> (r: Result<
        NotificationDeliveryState,
        RemoteWorkerNotificationError,
    >)
        requires
            old(self).ready(),
        ensures
            final(self).ready(),
            crate::remote_worker_notification::acknowledge_result(
                old(self).holdings(),
                acknowledgement,
                r,
                final(self).holdings(),
            ),
            r matches Err(RemoteWorkerNotificationError::Database { .. }) ==> old(self).fallible()
                || is_outdated(old(self).holdings(), acknowledgement.delivery_id@),
            is_outdated(old(self).holdings(), acknowledgement.delivery_id@) ==> is_version_refusal(
                old(self).holdings(),
                acknowledgement.delivery_id@,
                old(self).fallible(),
                r,
            ),
            final(self).fallible() == old(self).fallible(),
    ;

    /// The records of a scope, in the order of their deliveries.
    fn records(&self, scope: &NotificationScope) -> (r: Result<
        Vec<NotificationProposalRecord>,
        RemoteWorkerNotificationError,
    >)
        requires
            self.ready(),
        ensures
            records_result(self.holdings(), *scope, r) || (self.fallible() && r matches Err(
                RemoteWorkerNotificationError::Database { .. },
            )),
    ;

    /// The claims of a delivery in the order of their arrival; none where the scope does not know
    /// the delivery.
    fn worker_claims(&self, scope: &NotificationScope, delivery_id: &str) -> (r: Result<
        Vec<WorkerDeliveryClaim>,
        RemoteWorkerNotificationError,
    >)
        requires
            self.ready(),
        ensures
            match r {
                Ok(claims) => claims@ == if knows(self.holdings(), *scope, delivery_id@) {
                    crate::remote_worker_notification::claims_of(self.holdings(), delivery_id@)
                } else {
                    Seq::empty()
                },
                Err(error) => error is Database,
            },
            r matches Err(RemoteWorkerNotificationError::Database { .. }) ==> self.fallible(),
    ;
}

/// Proposals of every scope, in memory.
pub struct NotificationProposalTable {
    pub proposals: Table<NotificationProposalRecord>,
    pub claims: Table<Vec<WorkerDeliveryClaim>>,
}

impl NotificationProposalTable {
    /// A store without proposals.
    pub fn new() -> (r: Self)
        ensures
            r.ready(),
            r.holdings() == (Notifications { proposals: Map::empty(), claims: Map::empty() }),
    {
        let r: NotificationProposalTable = NotificationProposalTable {
            proposals: Table::new(),
            claims: Table::new(),
        };
        assert(r.holdings() =~= Notifications { proposals: Map::empty(), claims: Map::empty() });
        r
    }
}

impl NotificationProposalRepository for NotificationProposalTable {
    open spec fn ready(&self) -> bool {
        self.proposals.wf() && self.claims.wf()
    }

    open spec fn holdings(&self) -> Notifications {
        Notifications {
            proposals: self.proposals@,
            claims: self.claims@.map_values(|list: Vec<WorkerDeliveryClaim>| list@),
        }
    }

    open spec fn fallible(&self) -> bool {
        false
    }

    fn propose(&mut self, proposal: NotificationProposal) -> (r: Result<
        NotificationProposalRecord,
        RemoteWorkerNotificationError,
    >)
        ensures
            crate::remote_worker_notification::proposal_fault(proposal) is None && !old(
                self,
            ).holdings().proposals.contains_key(proposal.delivery_id@) ==> r is Ok,
    {
        match validated_payload(&proposal) {
            Ok(_) => {},
            Err(error) => {
                return Err(error);
            },
        }
        let stored: NotificationProposalRecord = match self.proposals.get(&proposal.delivery_id) {
            Some(stored) => stored.copy(),
            None => {
                let record: NotificationProposalRecord = record_of(proposal);
                let kept: NotificationProposalRecord = record.copy();
                self.proposals.put(record.delivery_id.clone(), kept);
                return Ok(record);
            },
        };
        let stored: NotificationProposalRecord = match accept_stored(stored) {
            Ok(stored) => stored,
            Err(error) => {
                return Err(error);
            },
        };
        if !stored.scope.same(&proposal.scope) {
            return Err(
                RemoteWorkerNotificationError::ForeignScope { delivery_id: proposal.delivery_id },
            );
        }
        if replays(&stored, &proposal) {
            return Ok(stored);
        }
        Err(RemoteWorkerNotificationError::DuplicateConflict { delivery_id: proposal.delivery_id })
    }

    fn observe_worker_claim(&mut self, scope: &NotificationScope, claim: WorkerDeliveryClaim) -> (r:
        Result<usize, RemoteWorkerNotificationError>)
        ensures
            r is Ok <==> knows(old(self).holdings(), *scope, claim.delivery_id@),
    {
        let known: bool = match self.proposals.get(&claim.delivery_id) {
            Some(record) => belongs(scope, record),
            None => false,
        };
        if !known {
            return Err(
                RemoteWorkerNotificationError::UnknownDelivery { delivery_id: claim.delivery_id },
            );
        }
        Ok(add_claim(&mut self.claims, claim))
    }

    fn acknowledge(&mut self, acknowledgement: NotificationAcknowledgement) -> (r: Result<
        NotificationDeliveryState,
        RemoteWorkerNotificationError,
    >) {
        let stored: NotificationProposalRecord = match self.proposals.get(
            &acknowledgement.delivery_id,
        ) {
            Some(stored) => stored.copy(),
            None => {
                return Err(
                    RemoteWorkerNotificationError::UnknownDelivery {
                        delivery_id: acknowledgement.delivery_id,
                    },
                );
            },
        };
        let mut record: NotificationProposalRecord = match accept_stored(stored) {
            Ok(record) => record,
            Err(error) => {
                return Err(error);
            },
        };
        record.delivery_state = NotificationDeliveryState::Delivered;
        self.proposals.put(acknowledgement.delivery_id, record);
        Ok(NotificationDeliveryState::Delivered)
    }

    fn records(&self, scope: &NotificationScope) -> (r: Result<
        Vec<NotificationProposalRecord>,
        RemoteWorkerNotificationError,
    >) {
        let ghost wanted = |record: NotificationProposalRecord| owns(*scope, record);
        let keep = |record: &NotificationProposalRecord| -> (b: bool)
            ensures
                b == owns(*scope, *record),
        {
            belongs(scope, record)
        };
        let list: Vec<NotificationProposalRecord> = rows_where(
            &self.proposals,
            keep,
            Ghost(wanted),
        );
        proof {
            self.proposals.lemma_wf_ascending();
            assert(crate::table::ascending(self.proposals.entries()));
            assert(is_record_list(list@, self.holdings(), *scope));
        }
        let mut i: usize = 0;
        while i < list.len()
            invariant
                i <= list@.len(),
                is_record_list(list@, self.holdings(), *scope),
                forall|k: int|
                    0 <= k < i ==> (#[trigger] list@[k]).schema_version
                        == REMOTE_WORKER_NOTIFICATION_SCHEMA_VERSION,
            decreases list@.len() - i,
        {
            match accept_stored(list[i].copy()) {
                Ok(_) => {},
                Err(error) => {
                    assert(is_first_outdated(list@, i as int));
                    return Err(error);
                },
            }
            i = i + 1;
        }
        Ok(list)
    }

    fn worker_claims(&self, scope: &NotificationScope, delivery_id: &str) -> (r: Result<
        Vec<WorkerDeliveryClaim>,
        RemoteWorkerNotificationError,
    >)
        ensures
            r is Ok,
    {
        let known: bool = match self.proposals.get(delivery_id) {
            Some(record) => belongs(scope, record),
            None => false,
        };
        if !known {
            return Ok(Vec::new());
        }
        match self.claims.get(delivery_id) {
            Some(claims) => Ok(copy_all(claims)),
            None => Ok(Vec::new()),
        }
    }
}

/// The attribution of a delivery is never rewritten, and neither is anything else of a stored
/// proposal: proposing under a known delivery changes nothing.
pub proof fn law_attribution_is_never_rewritten(
    before: Notifications,
    proposal: NotificationProposal,
    r: Result<NotificationProposalRecord, RemoteWorkerNotificationError>,
    after: Notifications,
    key: Seq<char>,
)
    requires
        store_result(before, proposal, r, after),
        before.proposals.contains_key(key),
    ensures
        after.proposals.contains_key(key),
        after.proposals[key] == before.proposals[key],
{
}

/// A worker of another scope reaches nothing: its claim on a delivery is refused and leaves no
/// trace.
pub proof fn law_foreign_claims_leave_no_trace(
    before: Notifications,
    scope: NotificationScope,
    claim: WorkerDeliveryClaim,
    r: Result<usize, RemoteWorkerNotificationError>,
    after: Notifications,
)
    requires
        crate::remote_worker_notification::claim_result(
            before,
            claim,
            knows(before, scope, claim.delivery_id@),
            r,
            after,
        ),
        before.proposals.contains_key(claim.delivery_id@),
        !owns(scope, before.proposals[claim.delivery_id@]),
    ensures
        r is Err,
        after == before,
{
}

} // verus!
