//! A deterministic comparison input made from evidence and ordered activity. It holds no times, no
//! prose and no decision.
use vstd::prelude::*;
use crate::model::EntityId;
use crate::protocol_dispatch::ActivityEvent;
use crate::record::Record;
use crate::stable_sort::{stable_order, SortKey};
use crate::text;

verus! {

/// The version of the comparison input.
pub const QM_084_EVIDENCE_REPLAY_SCHEMA_VERSION: u16 = 1;

/// A record of what an attempt left.
#[derive(Debug)]
pub struct Evidence {
    pub id: EntityId,
    pub organization_id: EntityId,
    pub work_item_id: EntityId,
    pub attempt_id: EntityId,
    pub kind: String,
    pub reference: String,
    pub created_at_unix_seconds: u64,
}

/// A reference to evidence.
#[derive(Debug)]
pub struct EvidenceReplayArtifact {
    pub evidence_id: String,
    pub kind: String,
    pub reference: String,
}

/// A correlated activity.
#[derive(Debug)]
pub struct EvidenceReplayActivity {
    pub event_id: String,
    pub correlation_id: String,
}

/// The comparison input.
#[derive(Debug)]
pub struct EvidenceReplayInput {
    pub schema_version: u16,
    pub organization_id: EntityId,
    pub work_item_id: EntityId,
    pub attempt_id: EntityId,
    pub evidence: Vec<EvidenceReplayArtifact>,
    pub activity: Vec<EvidenceReplayActivity>,
}

/// Why records do not make a comparison input.
#[derive(Debug)]
pub enum EvidenceReplayError {
    MissingEvidence,
    MissingActivity,
    EvidenceScopeMismatch { evidence_id: String },
    UnsafeReference { evidence_id: String },
    DuplicateEvidence { evidence_id: String },
    ActivityScopeMismatch { event_id: String },
    MissingCorrelation { event_id: String },
    DuplicateActivity { event_id: String },
    Serialization { reason: String },
}

impl EvidenceReplayError {
    /// The error in words.
    pub fn to_text(&self) -> (r: String)
        ensures
            r@ == match *self {
                EvidenceReplayError::MissingEvidence => {
                    "evidence replay requires at least one evidence record"@
                },
                EvidenceReplayError::MissingActivity => {
                    "evidence replay requires at least one activity record"@
                },
                EvidenceReplayError::EvidenceScopeMismatch { evidence_id } => "evidence "@
                    + evidence_id@ + " is outside the requested organization/work/attempt"@,
                EvidenceReplayError::UnsafeReference { evidence_id } => "evidence "@ + evidence_id@
                    + " contains a credential-like reference"@,
                EvidenceReplayError::DuplicateEvidence { evidence_id } => {
                    "evidence replay contains duplicate evidence id "@ + evidence_id@
                },
                EvidenceReplayError::ActivityScopeMismatch { event_id } => "activity "@ + event_id@
                    + " is outside the requested organization/work/attempt"@,
                EvidenceReplayError::MissingCorrelation { event_id } => "activity "@ + event_id@
                    + " has no correlation id"@,
                EvidenceReplayError::DuplicateActivity { event_id } => {
                    "evidence replay contains duplicate activity id "@ + event_id@
                },
                EvidenceReplayError::Serialization { reason } => {
                    "evidence replay serialization failed: "@ + reason@
                },
            },
    {
        match self {
            EvidenceReplayError::MissingEvidence => {
                "evidence replay requires at least one evidence record".to_owned()
            },
            EvidenceReplayError::MissingActivity => {
                "evidence replay requires at least one activity record".to_owned()
            },
            EvidenceReplayError::EvidenceScopeMismatch { evidence_id } => text::around(
                "evidence ",
                evidence_id,
                " is outside the requested organization/work/attempt",
            ),
            EvidenceReplayError::UnsafeReference { evidence_id } => text::around(
                "evidence ",
                evidence_id,
                " contains a credential-like reference",
            ),
            EvidenceReplayError::DuplicateEvidence { evidence_id } => text::joined(
                "evidence replay contains duplicate evidence id ",
                evidence_id,
            ),
            EvidenceReplayError::ActivityScopeMismatch { event_id } => text::around(
                "activity ",
                event_id,
                " is outside the requested organization/work/attempt",
            ),
            EvidenceReplayError::MissingCorrelation { event_id } => text::around(
                "activity ",
                event_id,
                " has no correlation id",
            ),
            EvidenceReplayError::DuplicateActivity { event_id } => text::joined(
                "evidence replay contains duplicate activity id ",
                event_id,
            ),
            EvidenceReplayError::Serialization { reason } => text::joined(
                "evidence replay serialization failed: ",
                reason,
            ),
        }
    }
}

/// What a comparison input is about.
#[verifier::ext_equal]
pub ghost struct ReplayScope {
    pub organization_id: EntityId,
    pub work_item_id: EntityId,
    pub attempt_id: EntityId,
}

/// The reference looks like it carries a credential.
pub open spec fn looks_unsafe(reference: Seq<char>) -> bool {
    let value = text::lower(reference);
    ||| text::contains(value, "api_key="@)
    ||| text::contains(value, "token="@)
    ||| text::contains(value, "password="@)
    ||| text::contains(value, "secret="@)
    ||| text::contains(value, "authorization:"@)
}

/// Whether a reference looks like it carries a credential.
pub fn credential_like_reference(reference: &str) -> (r: bool)
    ensures
        r == looks_unsafe(reference@),
{
    let value: String = text::to_lower(reference);
    text::has(&value, "api_key=") || text::has(&value, "token=") || text::has(&value, "password=")
        || text::has(&value, "secret=") || text::has(&value, "authorization:")
}

/// What the records are ordered by: their times, then their identifiers.
pub open spec fn evidence_keys(evidence: Seq<Evidence>) -> Seq<SortKey> {
    evidence.map_values(
        |item: Evidence| SortKey { rank: item.created_at_unix_seconds, name: item.id.value },
    )
}

/// The records in an order.
pub open spec fn in_order(evidence: Seq<Evidence>, order: Seq<usize>) -> Seq<Evidence> {
    order.map_values(|at: usize| evidence[at as int])
}

/// What is wrong with the records.
#[verifier::ext_equal]
pub ghost enum ReplayFault {
    EvidenceScope(Seq<char>),
    Unsafe(Seq<char>),
    DuplicateEvidence(Seq<char>),
    ActivityScope(Seq<char>),
    Uncorrelated(Seq<char>),
    DuplicateActivity(Seq<char>),
}

/// The error says this fault.
pub open spec fn says(error: EvidenceReplayError, fault: ReplayFault) -> bool {
    match (error, fault) {
        (
            EvidenceReplayError::EvidenceScopeMismatch { evidence_id },
            ReplayFault::EvidenceScope(id),
        ) => evidence_id@ == id,
        (EvidenceReplayError::UnsafeReference { evidence_id }, ReplayFault::Unsafe(id)) => {
            evidence_id@ == id
        },
        (
            EvidenceReplayError::DuplicateEvidence { evidence_id },
            ReplayFault::DuplicateEvidence(id),
        ) => evidence_id@ == id,
        (
            EvidenceReplayError::ActivityScopeMismatch { event_id },
            ReplayFault::ActivityScope(id),
        ) => event_id@ == id,
        (EvidenceReplayError::MissingCorrelation { event_id }, ReplayFault::Uncorrelated(id)) => {
            event_id@ == id
        },
        (
            EvidenceReplayError::DuplicateActivity { event_id },
            ReplayFault::DuplicateActivity(id),
        ) => event_id@ == id,
        _ => false,
    }
}

/// A record before this one has the same identifier.
pub open spec fn repeats_evidence(records: Seq<Evidence>, i: int) -> bool {
    exists|k: int| 0 <= k < i && (#[trigger] records[k]).id.value@ == records[i].id.value@
}

/// What is wrong with one record of the ordered evidence.
pub open spec fn evidence_fault(
    records: Seq<Evidence>,
    scope: ReplayScope,
    i: int,
) -> Option<ReplayFault> {
    let item = records[i];
    if !item.organization_id.alike(&scope.organization_id) || !item.work_item_id.alike(
        &scope.work_item_id,
    ) || !item.attempt_id.alike(&scope.attempt_id) {
        Some(ReplayFault::EvidenceScope(item.id.value@))
    } else if looks_unsafe(item.reference@) {
        Some(ReplayFault::Unsafe(item.id.value@))
    } else if repeats_evidence(records, i) {
        Some(ReplayFault::DuplicateEvidence(item.id.value@))
    } else {
        None
    }
}

/// An event before this one has the same identifier.
pub open spec fn repeats_activity(events: Seq<ActivityEvent>, i: int) -> bool {
    exists|k: int| 0 <= k < i && (#[trigger] events[k]).event_id@ == events[i].event_id@
}

/// The event has a correlation.
pub open spec fn is_correlated(event: ActivityEvent) -> bool {
    event.correlation_id is Some && event.correlation_id->0@.len() > 0
}

/// What is wrong with one event.
pub open spec fn activity_fault(
    events: Seq<ActivityEvent>,
    scope: ReplayScope,
    i: int,
) -> Option<ReplayFault> {
    let event = events[i];
    if !event.organization_id.alike(&scope.organization_id) || !(event.work_item_id is Some
        && event.work_item_id->0.alike(&scope.work_item_id)) || !(event.attempt_id is Some
        && event.attempt_id->0.alike(&scope.attempt_id)) {
        Some(ReplayFault::ActivityScope(event.event_id@))
    } else if !is_correlated(event) {
        Some(ReplayFault::Uncorrelated(event.event_id@))
    } else if repeats_activity(events, i) {
        Some(ReplayFault::DuplicateActivity(event.event_id@))
    } else {
        None
    }
}

/// No record is faulty.
pub open spec fn evidence_is_sound(records: Seq<Evidence>, scope: ReplayScope, count: int) -> bool {
    forall|i: int| 0 <= i < count ==> #[trigger] evidence_fault(records, scope, i) is None
}

/// No event is faulty.
pub open spec fn activity_is_sound(
    events: Seq<ActivityEvent>,
    scope: ReplayScope,
    count: int,
) -> bool {
    forall|i: int| 0 <= i < count ==> #[trigger] activity_fault(events, scope, i) is None
}

/// The artifact refers to the record.
pub open spec fn refers_to(artifact: EvidenceReplayArtifact, item: Evidence) -> bool {
    &&& artifact.evidence_id == item.id.value
    &&& artifact.kind == item.kind
    &&& artifact.reference == item.reference
}

/// The activity correlates the event.
pub open spec fn correlates(activity: EvidenceReplayActivity, event: ActivityEvent) -> bool {
    &&& activity.event_id == event.event_id
    &&& event.correlation_id == Some(activity.correlation_id)
}

/// What comes of normalizing records: the evidence in its canonical order is checked first, then
/// the activity in its given order.
pub open spec fn replay_result(
    scope: ReplayScope,
    evidence: Seq<Evidence>,
    activity: Seq<ActivityEvent>,
    order: Seq<usize>,
    r: Result<EvidenceReplayInput, EvidenceReplayError>,
) -> bool {
    let records = in_order(evidence, order);
    match r {
        Ok(input) => {
            &&& evidence.len() > 0
            &&& activity.len() > 0
            &&& evidence_is_sound(records, scope, records.len() as int)
            &&& activity_is_sound(activity, scope, activity.len() as int)
            &&& input.schema_version == QM_084_EVIDENCE_REPLAY_SCHEMA_VERSION
            &&& input.organization_id == scope.organization_id
            &&& input.work_item_id == scope.work_item_id
            &&& input.attempt_id == scope.attempt_id
            &&& input.evidence@.len() == records.len()
            &&& forall|i: int|
                0 <= i < records.len() ==> refers_to(#[trigger] input.evidence@[i], records[i])
            &&& input.activity@.len() == activity.len()
            &&& forall|i: int|
                0 <= i < activity.len() ==> correlates(
                    #[trigger] input.activity@[i],
                    activity[i],
                )
        },
        Err(EvidenceReplayError::MissingEvidence) => evidence.len() == 0,
        Err(EvidenceReplayError::MissingActivity) => evidence.len() > 0 && activity.len() == 0,
        Err(error) => {
            &&& evidence.len() > 0
            &&& activity.len() > 0
            &&& {
                ||| exists|i: int|
                    {
                        &&& 0 <= i < records.len()
                        &&& evidence_is_sound(records, scope, i)
                        &&& (#[trigger] evidence_fault(records, scope, i)) is Some
                        &&& says(error, evidence_fault(records, scope, i)->0)
                    }
                ||| evidence_is_sound(records, scope, records.len() as int) && exists|i: int|
                    {
                        &&& 0 <= i < activity.len()
                        &&& activity_is_sound(activity, scope, i)
                        &&& (#[trigger] activity_fault(activity, scope, i)) is Some
                        &&& says(error, activity_fault(activity, scope, i)->0)
                    }
            }
        },
    }
}

/// The references to the ordered evidence.
fn artifacts_of(
    evidence: &Vec<Evidence>,
    order: &Vec<usize>,
    organization_id: &EntityId,
    work_item_id: &EntityId,
    attempt_id: &EntityId,
) -> (r: Result<Vec<EvidenceReplayArtifact>, EvidenceReplayError>)
    requires
        forall|a: int| 0 <= a < order@.len() ==> (#[trigger] order@[a]) < evidence@.len(),
    ensures
        ({
            let records = in_order(evidence@, order@);
            let scope = ReplayScope {
                organization_id: *organization_id,
                work_item_id: *work_item_id,
                attempt_id: *attempt_id,
            };
            match r {
                Ok(artifacts) => {
                    &&& evidence_is_sound(records, scope, records.len() as int)
                    &&& artifacts@.len() == records.len()
                    &&& forall|i: int|
                        0 <= i < records.len() ==> refers_to(
                            #[trigger] artifacts@[i],
                            records[i],
                        )
                },
                Err(error) => exists|i: int|
                    {
                        &&& 0 <= i < records.len()
                        &&& evidence_is_sound(records, scope, i)
                        &&& (#[trigger] evidence_fault(records, scope, i)) is Some
                        &&& says(error, evidence_fault(records, scope, i)->0)
                    },
            }
        }),
{
    let ghost records = in_order(evidence@, order@);
    let ghost scope = ReplayScope {
        organization_id: *organization_id,
        work_item_id: *work_item_id,
        attempt_id: *attempt_id,
    };
    let mut out: Vec<EvidenceReplayArtifact> = Vec::new();
    let mut i: usize = 0;
    while i < order.len()
        invariant
            i <= order@.len(),
            forall|a: int| 0 <= a < order@.len() ==> (#[trigger] order@[a]) < evidence@.len(),
            records == in_order(evidence@, order@),
            scope == (ReplayScope {
                organization_id: *organization_id,
                work_item_id: *work_item_id,
                attempt_id: *attempt_id,
            }),
            evidence_is_sound(records, scope, i as int),
            out@.len() == i,
            forall|k: int| 0 <= k < i ==> refers_to(#[trigger] out@[k], records[k]),
        decreases order@.len() - i,
    {
        let at: usize = order[i];
        let item: &Evidence = &evidence[at];
        assert(records[i as int] == *item);
        let ghost fault = evidence_fault(records, scope, i as int);
        if !item.organization_id.same(organization_id) || !item.work_item_id.same(work_item_id)
            || !item.attempt_id.same(attempt_id) {
            let error: EvidenceReplayError = EvidenceReplayError::EvidenceScopeMismatch {
                evidence_id: item.id.value.clone(),
            };
            assert(says(error, fault->0));
            return Err(error);
        }
        if credential_like_reference(&item.reference) {
            let error: EvidenceReplayError = EvidenceReplayError::UnsafeReference {
                evidence_id: item.id.value.clone(),
            };
            assert(says(error, fault->0));
            return Err(error);
        }
        if repeated_artifact(&out, &item.id.value) {
            let error: EvidenceReplayError = EvidenceReplayError::DuplicateEvidence {
                evidence_id: item.id.value.clone(),
            };
            proof {
                let k = choose|k: int|
                    0 <= k < out@.len() && (#[trigger] out@[k]).evidence_id@ == item.id.value@;
                assert(refers_to(out@[k], records[k]));
                assert(records[k].id.value@ == records[i as int].id.value@);
                assert(repeats_evidence(records, i as int));
                assert(says(error, fault->0));
            }
            return Err(error);
        }
        proof {
            if repeats_evidence(records, i as int) {
                let k = choose|k: int|
                    0 <= k < i && (#[trigger] records[k]).id.value@ == records[i as int].id.value@;
                assert(refers_to(out@[k], records[k]));
                assert(out@[k].evidence_id@ == item.id.value@);
                assert(false);
            }
            assert(fault is None);
        }
        out.push(
            EvidenceReplayArtifact {
                evidence_id: item.id.value.clone(),
                kind: item.kind.clone(),
                reference: item.reference.clone(),
            },
        );
        i = i + 1;
    }
    Ok(out)
}

/// Whether an artifact of this identifier is listed.
fn repeated_artifact(artifacts: &Vec<EvidenceReplayArtifact>, id: &str) -> (r: bool)
    ensures
        r == exists|k: int| 0 <= k < artifacts@.len() && (#[trigger] artifacts@[k]).evidence_id@ == id@,
{
    let mut i: usize = 0;
    while i < artifacts.len()
        invariant
            i <= artifacts@.len(),
            forall|k: int| 0 <= k < i ==> (#[trigger] artifacts@[k]).evidence_id@ != id@,
        decreases artifacts@.len() - i,
    {
        if text::same(&artifacts[i].evidence_id, id) {
            return true;
        }
        i = i + 1;
    }
    false
}

/// Whether an activity of this identifier is listed.
fn repeated_activity(activity: &Vec<EvidenceReplayActivity>, id: &str) -> (r: bool)
    ensures
        r == exists|k: int| 0 <= k < activity@.len() && (#[trigger] activity@[k]).event_id@ == id@,
{
    let mut i: usize = 0;
    while i < activity.len()
        invariant
            i <= activity@.len(),
            forall|k: int| 0 <= k < i ==> (#[trigger] activity@[k]).event_id@ != id@,
        decreases activity@.len() - i,
    {
        if text::same(&activity[i].event_id, id) {
            return true;
        }
        i = i + 1;
    }
    false
}

/// Whether an optional identifier is there and the same.
fn names(id: &Option<EntityId>, wanted: &EntityId) -> (r: bool)
    ensures
        r == (id is Some && id->0.alike(wanted)),
{
    match id {
        Some(id) => id.same(wanted),
        None => false,
    }
}

/// The correlated activities.
fn activities_of(
    events: &Vec<ActivityEvent>,
    organization_id: &EntityId,
    work_item_id: &EntityId,
    attempt_id: &EntityId,
) -> (r: Result<Vec<EvidenceReplayActivity>, EvidenceReplayError>)
    ensures
        ({
            let scope = ReplayScope {
                organization_id: *organization_id,
                work_item_id: *work_item_id,
                attempt_id: *attempt_id,
            };
            match r {
                Ok(activity) => {
                    &&& activity_is_sound(events@, scope, events@.len() as int)
                    &&& activity@.len() == events@.len()
                    &&& forall|i: int|
                        0 <= i < events@.len() ==> correlates(#[trigger] activity@[i], events@[i])
                },
                Err(error) => exists|i: int|
                    {
                        &&& 0 <= i < events@.len()
                        &&& activity_is_sound(events@, scope, i)
                        &&& (#[trigger] activity_fault(events@, scope, i)) is Some
                        &&& says(error, activity_fault(events@, scope, i)->0)
                    },
            }
        }),
{
    let ghost scope = ReplayScope {
        organization_id: *organization_id,
        work_item_id: *work_item_id,
        attempt_id: *attempt_id,
    };
    let mut out: Vec<EvidenceReplayActivity> = Vec::new();
    let mut i: usize = 0;
    while i < events.len()
        invariant
            i <= events@.len(),
            scope == (ReplayScope {
                organization_id: *organization_id,
                work_item_id: *work_item_id,
                attempt_id: *attempt_id,
            }),
            activity_is_sound(events@, scope, i as int),
            out@.len() == i,
            forall|k: int| 0 <= k < i ==> correlates(#[trigger] out@[k], events@[k]),
        decreases events@.len() - i,
    {
        let event: &ActivityEvent = &events[i];
        let ghost fault = activity_fault(events@, scope, i as int);
        if !event.organization_id.same(organization_id) || !names(&event.work_item_id, work_item_id)
            || !names(&event.attempt_id, attempt_id) {
            let error: EvidenceReplayError = EvidenceReplayError::ActivityScopeMismatch {
                event_id: event.event_id.clone(),
            };
            assert(says(error, fault->0));
            return Err(error);
        }
        let correlation_id: Option<String> = match &event.correlation_id {
            Some(correlation) => if correlation.as_str().is_empty() {
                None
            } else {
                Some(correlation.clone())
            },
            None => None,
        };
        let correlation_id: String = match correlation_id {
            Some(correlation) => correlation,
            None => {
                let error: EvidenceReplayError = EvidenceReplayError::MissingCorrelation {
                    event_id: event.event_id.clone(),
                };
                assert(says(error, fault->0));
                return Err(error);
            },
        };
        if repeated_activity(&out, &event.event_id) {
            let error: EvidenceReplayError = EvidenceReplayError::DuplicateActivity {
                event_id: event.event_id.clone(),
            };
            proof {
                let k = choose|k: int|
                    0 <= k < out@.len() && (#[trigger] out@[k]).event_id@ == event.event_id@;
                assert(correlates(out@[k], events@[k]));
                assert(events@[k].event_id@ == events@[i as int].event_id@);
                assert(repeats_activity(events@, i as int));
                assert(says(error, fault->0));
            }
            return Err(error);
        }
        proof {
            if repeats_activity(events@, i as int) {
                let k = choose|k: int|
                    0 <= k < i && (#[trigger] events@[k]).event_id@
                        == events@[i as int].event_id@;
                assert(correlates(out@[k], events@[k]));
                assert(out@[k].event_id@ == event.event_id@);
                assert(false);
            }
            assert(fault is None);
        }
        out.push(EvidenceReplayActivity { event_id: event.event_id.clone(), correlation_id });
        i = i + 1;
    }
    Ok(out)
}

impl EvidenceReplayInput {
    /// Normalizes records. The evidence is ordered by time and identifier, whatever the order of
    /// the read; the order of the activity is part of the audited trace and stays.
    pub fn from_records(
        organization_id: EntityId,
        work_item_id: EntityId,
        attempt_id: EntityId,
        evidence: &Vec<Evidence>,
        activity: &Vec<ActivityEvent>,
    ) -> (r: Result<EvidenceReplayInput, EvidenceReplayError>)
        ensures
            exists|order: Seq<usize>|
                {
                    &&& #[trigger] crate::stable_sort::is_stable_order(
                        evidence_keys(evidence@),
                        order,
                    )
                    &&& replay_result(
                        ReplayScope { organization_id, work_item_id, attempt_id },
                        evidence@,
                        activity@,
                        order,
                        r,
                    )
                },
    {
        let mut keys: Vec<SortKey> = Vec::new();
        let mut i: usize = 0;
        while i < evidence.len()
            invariant
                i <= evidence@.len(),
                keys@ == evidence_keys(evidence@).take(i as int),
            decreases evidence@.len() - i,
        {
            keys.push(
                SortKey {
                    rank: evidence[i].created_at_unix_seconds,
                    name: evidence[i].id.value.clone(),
                },
            );
            assert(keys@ =~= evidence_keys(evidence@).take(i + 1));
            i = i + 1;
        }
        assert(keys@ =~= evidence_keys(evidence@));
        let order: Vec<usize> = stable_order(&keys);
        assert(crate::stable_sort::is_stable_order(evidence_keys(evidence@), order@));
        if evidence.len() == 0 {
            return Err(EvidenceReplayError::MissingEvidence);
        }
        if activity.len() == 0 {
            return Err(EvidenceReplayError::MissingActivity);
        }
        let artifacts: Vec<EvidenceReplayArtifact> = match artifacts_of(
            evidence,
            &order,
            &organization_id,
            &work_item_id,
            &attempt_id,
        ) {
            Ok(artifacts) => artifacts,
            Err(error) => {
                return Err(error);
            },
        };
        let correlated: Vec<EvidenceReplayActivity> = match activities_of(
            activity,
            &organization_id,
            &work_item_id,
            &attempt_id,
        ) {
            Ok(activity) => activity,
            Err(error) => {
                return Err(error);
            },
        };
        Ok(
            EvidenceReplayInput {
                schema_version: QM_084_EVIDENCE_REPLAY_SCHEMA_VERSION,
                organization_id,
                work_item_id,
                attempt_id,
                evidence: artifacts,
                activity: correlated,
            },
        )
    }
}

/// The key of a record.
pub open spec fn key_of(item: Evidence) -> SortKey {
    SortKey { rank: item.created_at_unix_seconds, name: item.id.value }
}

/// No identifier occurs twice.
pub open spec fn ids_are_distinct(evidence: Seq<Evidence>) -> bool {
    forall|i: int, j: int|
        0 <= i < j < evidence.len() ==> (#[trigger] evidence[i]).id.value@ != (
        #[trigger] evidence[j]).id.value@
}

/// The records strictly ascend.
spec fn ascends(records: Seq<Evidence>) -> bool {
    forall|i: int, j: int|
        0 <= i < j < records.len() ==> crate::stable_sort::key_lt(
            key_of(#[trigger] records[i]),
            key_of(#[trigger] records[j]),
        )
}

/// Ordered records with distinct identifiers strictly ascend and are the given ones.
proof fn lemma_in_order(evidence: Seq<Evidence>, order: Seq<usize>)
    requires
        crate::stable_sort::is_stable_order(evidence_keys(evidence), order),
        ids_are_distinct(evidence),
    ensures
        ascends(in_order(evidence, order)),
        forall|x: Evidence| in_order(evidence, order).contains(x) <==> evidence.contains(x),
{
    let keys = evidence_keys(evidence);
    let records = in_order(evidence, order);
    assert forall|a: int, b: int| 0 <= a < b < records.len() implies crate::stable_sort::key_lt(
        key_of(#[trigger] records[a]),
        key_of(#[trigger] records[b]),
    ) by {
        let i = order[a] as int;
        let j = order[b] as int;
        assert(crate::stable_sort::precedes(keys, i, j));
        crate::stable_sort::law_precedence_is_a_strict_total_order(keys, i, j, i);
        assert(i != j);
        crate::stable_sort::lemma_key_lt_asymmetric(keys[i], keys[j]);
        assert(keys[i] == key_of(records[a]) && keys[j] == key_of(records[b]));
        assert(evidence[i].id.value@ != evidence[j].id.value@);
    }
    assert forall|x: Evidence| records.contains(x) <==> evidence.contains(x) by {
        if records.contains(x) {
            let a = choose|a: int| 0 <= a < records.len() && records[a] == x;
            assert(order[a] < evidence.len());
            assert(evidence[order[a] as int] == x);
        }
        if evidence.contains(x) {
            let i = choose|i: int| 0 <= i < evidence.len() && evidence[i] == x;
            crate::stable_sort::law_order_covers_every_row(keys, order, i);
            let a = choose|a: int| 0 <= a < order.len() && (#[trigger] order[a]) as int == i;
            assert(records[a] == x);
        }
    }
}

/// Strictly ascending records are determined by what they hold.
proof fn lemma_ascending_unique(s: Seq<Evidence>, t: Seq<Evidence>)
    requires
        ascends(s),
        ascends(t),
        forall|x: Evidence| s.contains(x) <==> t.contains(x),
    ensures
        s == t,
    decreases s.len(),
{
    if s.len() == 0 {
        if t.len() > 0 {
            assert(t.contains(t[0]));
            assert(s.contains(t[0]));
        }
        assert(s =~= t);
    } else if t.len() == 0 {
        assert(s.contains(s[0]));
        assert(t.contains(s[0]));
        assert(false);
    } else {
        assert(s.contains(s.last()) && t.contains(s.last()));
        assert(t.contains(t.last()) && s.contains(t.last()));
        let k = choose|k: int| 0 <= k < t.len() && t[k] == s.last();
        let m = choose|m: int| 0 <= m < s.len() && s[m] == t.last();
        crate::stable_sort::lemma_key_lt_asymmetric(key_of(s.last()), key_of(t.last()));
        crate::stable_sort::lemma_key_lt_asymmetric(key_of(s.last()), key_of(s.last()));
        if k < t.len() - 1 {
            assert(crate::stable_sort::key_lt(key_of(t[k]), key_of(t[t.len() - 1])));
            if m < s.len() - 1 {
                assert(crate::stable_sort::key_lt(key_of(s[m]), key_of(s[s.len() - 1])));
            }
            assert(false);
        }
        assert(s.last() == t.last());
        let a = s.drop_last();
        let b = t.drop_last();
        assert forall|x: Evidence| a.contains(x) <==> b.contains(x) by {
            if a.contains(x) {
                let i = choose|i: int| 0 <= i < a.len() && a[i] == x;
                assert(s[i] == x && s.contains(x));
                assert(crate::stable_sort::key_lt(key_of(s[i]), key_of(s[s.len() - 1])));
                let j = choose|j: int| 0 <= j < t.len() && t[j] == x;
                assert(j < t.len() - 1);
                assert(b[j] == x);
            }
            if b.contains(x) {
                let i = choose|i: int| 0 <= i < b.len() && b[i] == x;
                assert(t[i] == x && t.contains(x));
                assert(crate::stable_sort::key_lt(key_of(t[i]), key_of(t[t.len() - 1])));
                let j = choose|j: int| 0 <= j < s.len() && s[j] == x;
                assert(j < s.len() - 1);
                assert(a[j] == x);
            }
        }
        assert(ascends(a)) by {
            assert forall|i: int, j: int| 0 <= i < j < a.len() implies crate::stable_sort::key_lt(
                key_of(#[trigger] a[i]),
                key_of(#[trigger] a[j]),
            ) by {
                assert(a[i] == s[i] && a[j] == s[j]);
            }
        }
        assert(ascends(b)) by {
            assert forall|i: int, j: int| 0 <= i < j < b.len() implies crate::stable_sort::key_lt(
                key_of(#[trigger] b[i]),
                key_of(#[trigger] b[j]),
            ) by {
                assert(b[i] == t[i] && b[j] == t[j]);
            }
        }
        lemma_ascending_unique(a, b);
        assert(s =~= a.push(s.last()));
        assert(t =~= b.push(t.last()));
    }
}

/// The record is the same but for its time.
pub open spec fn differs_in_time(item: Evidence, other: Evidence) -> bool {
    other == (Evidence { created_at_unix_seconds: other.created_at_unix_seconds, ..item })
}

/// `b` is another read of the records of `a`: record `at[j]` of the one is record `j` of the other,
/// but for times that order the records in the same way.
pub open spec fn is_other_read(a: Seq<Evidence>, b: Seq<Evidence>, at: Seq<int>) -> bool {
    &&& at.len() == a.len()
    &&& b.len() == a.len()
    &&& at.no_duplicates()
    &&& forall|j: int| 0 <= j < at.len() ==> 0 <= #[trigger] at[j] < a.len()
    &&& forall|j: int| 0 <= j < b.len() ==> differs_in_time(a[at[j]], #[trigger] b[j])
    &&& forall|i: int, j: int|
        0 <= i < b.len() && 0 <= j < b.len() ==> crate::stable_sort::key_lt(
            key_of(#[trigger] b[i]),
            key_of(#[trigger] b[j]),
        ) == crate::stable_sort::key_lt(key_of(a[at[i]]), key_of(a[at[j]]))
}

/// The event is the same but for its kind, actor, time and prose, and for what a comparison input
/// has no use of.
pub open spec fn tells_the_same(event: ActivityEvent, other: ActivityEvent) -> bool {
    &&& other.event_id == event.event_id
    &&& other.organization_id == event.organization_id
    &&& other.work_item_id == event.work_item_id
    &&& other.attempt_id == event.attempt_id
    &&& other.correlation_id == event.correlation_id
}

/// The events are the same, one by one, but for kinds, actors, times and prose.
pub open spec fn is_same_trace(a: Seq<ActivityEvent>, b: Seq<ActivityEvent>) -> bool {
    &&& a.len() == b.len()
    &&& forall|i: int| 0 <= i < a.len() ==> tells_the_same(#[trigger] a[i], #[trigger] b[i])
}

/// Two outcomes are the same: inputs that agree in every field, or refusals for one reason.
pub open spec fn is_same_outcome(
    x: Result<EvidenceReplayInput, EvidenceReplayError>,
    y: Result<EvidenceReplayInput, EvidenceReplayError>,
) -> bool {
    match (x, y) {
        (Ok(one), Ok(other)) => {
            &&& other.schema_version == one.schema_version
            &&& other.organization_id == one.organization_id
            &&& other.work_item_id == one.work_item_id
            &&& other.attempt_id == one.attempt_id
            &&& other.evidence@ == one.evidence@
            &&& other.activity@ == one.activity@
        },
        (Err(EvidenceReplayError::MissingEvidence), Err(EvidenceReplayError::MissingEvidence)) => {
            true
        },
        (Err(EvidenceReplayError::MissingActivity), Err(EvidenceReplayError::MissingActivity)) => {
            true
        },
        (Err(one), Err(other)) => exists|fault: ReplayFault|
            #[trigger] says(one, fault) && says(other, fault),
        _ => false,
    }
}

/// Every record of the one read is a record of the other.
proof fn lemma_other_read_covers(a: Seq<Evidence>, b: Seq<Evidence>, at: Seq<int>, i: int)
    requires
        is_other_read(a, b, at),
        0 <= i < a.len(),
    ensures
        at.contains(i),
{
    let all = vstd::set_lib::set_int_range(0, a.len() as int);
    vstd::set_lib::lemma_int_range(0, a.len() as int);
    at.unique_seq_to_set();
    assert(at.to_set().subset_of(all)) by {
        assert forall|x: int| at.to_set().contains(x) implies all.contains(x) by {
            let j = choose|j: int| 0 <= j < at.len() && at[j] == x;
            assert(0 <= at[j] < a.len());
        }
    }
    vstd::set_lib::lemma_subset_equality(at.to_set(), all);
    assert(at.to_set().contains(i));
}

/// Evidence without repeated identifiers, read in any two ways, comes in one order.
proof fn lemma_one_order(
    a: Seq<Evidence>,
    b: Seq<Evidence>,
    at: Seq<int>,
    p: Seq<usize>,
    q: Seq<usize>,
)
    requires
        crate::stable_sort::is_stable_order(evidence_keys(a), p),
        crate::stable_sort::is_stable_order(evidence_keys(b), q),
        ids_are_distinct(a),
        is_other_read(a, b, at),
    ensures
        in_order(a, p).len() == in_order(b, q).len(),
        forall|i: int|
            0 <= i < in_order(a, p).len() ==> differs_in_time(
                #[trigger] in_order(a, p)[i],
                #[trigger] in_order(b, q)[i],
            ),
{
    let c = Seq::new(b.len(), |j: int| a[at[j]]);
    assert(crate::stable_sort::is_stable_order(evidence_keys(c), q)) by {
        let keys = evidence_keys(c);
        assert forall|m: int, n: int| 0 <= m < n < q.len() implies crate::stable_sort::precedes(
            keys,
            (#[trigger] q[m]) as int,
            (#[trigger] q[n]) as int,
        ) by {
            let i = q[m] as int;
            let j = q[n] as int;
            assert(crate::stable_sort::precedes(evidence_keys(b), i, j));
            assert(evidence_keys(b)[i] == key_of(b[i]) && evidence_keys(b)[j] == key_of(b[j]));
            assert(keys[i] == key_of(a[at[i]]) && keys[j] == key_of(a[at[j]]));
        }
    }
    assert(ids_are_distinct(c)) by {
        assert forall|i: int, j: int| 0 <= i < j < c.len() implies (#[trigger] c[i]).id.value@ != (
        #[trigger] c[j]).id.value@ by {
            assert(at[i] != at[j]);
            if at[i] < at[j] {
                assert(a[at[i]].id.value@ != a[at[j]].id.value@);
            } else {
                assert(a[at[j]].id.value@ != a[at[i]].id.value@);
            }
        }
    }
    assert forall|x: Evidence| a.contains(x) <==> c.contains(x) by {
        if a.contains(x) {
            let i = choose|i: int| 0 <= i < a.len() && a[i] == x;
            lemma_other_read_covers(a, b, at, i);
            let j = choose|j: int| 0 <= j < at.len() && at[j] == i;
            assert(c[j] == x);
        }
        if c.contains(x) {
            let j = choose|j: int| 0 <= j < c.len() && c[j] == x;
            assert(a[at[j]] == x);
        }
    }
    lemma_in_order(a, p);
    lemma_in_order(c, q);
    let s = in_order(a, p);
    let t = in_order(c, q);
    assert forall|x: Evidence| s.contains(x) <==> t.contains(x) by {
        assert(s.contains(x) <==> a.contains(x));
        assert(t.contains(x) <==> c.contains(x));
    }
    lemma_ascending_unique(s, t);
    assert forall|i: int| 0 <= i < s.len() implies differs_in_time(
        #[trigger] s[i],
        #[trigger] in_order(b, q)[i],
    ) by {
        assert(s[i] == t[i]);
        assert(t[i] == c[q[i] as int]);
        assert(in_order(b, q)[i] == b[q[i] as int]);
    }
}

/// Sound ordered evidence repeats no identifier.
pub proof fn lemma_sound_is_distinct(scope: ReplayScope, evidence: Seq<Evidence>, order: Seq<usize>)
    requires
        crate::stable_sort::is_stable_order(evidence_keys(evidence), order),
        evidence_is_sound(in_order(evidence, order), scope, order.len() as int),
    ensures
        ids_are_distinct(evidence),
{
    let keys = evidence_keys(evidence);
    let records = in_order(evidence, order);
    assert forall|i: int, j: int| 0 <= i < j < evidence.len() implies (
    #[trigger] evidence[i]).id.value@ != (#[trigger] evidence[j]).id.value@ by {
        crate::stable_sort::law_order_covers_every_row(keys, order, i);
        crate::stable_sort::law_order_covers_every_row(keys, order, j);
        let a = choose|a: int| 0 <= a < order.len() && (#[trigger] order[a]) as int == i;
        let b = choose|b: int| 0 <= b < order.len() && (#[trigger] order[b]) as int == j;
        assert(records[a] == evidence[i] && records[b] == evidence[j]);
        let (first, second) = if a < b {
            (a, b)
        } else {
            (b, a)
        };
        if evidence[i].id.value@ == evidence[j].id.value@ {
            assert(records[first].id.value@ == records[second].id.value@);
            assert(repeats_evidence(records, second));
            assert(evidence_fault(records, scope, second) is Some);
        }
    }
}

/// Records that differ only in their times have the same faults.
proof fn lemma_same_evidence_faults(
    scope: ReplayScope,
    a: Seq<Evidence>,
    b: Seq<Evidence>,
    i: int,
)
    requires
        a.len() == b.len(),
        forall|k: int| 0 <= k < a.len() ==> differs_in_time(#[trigger] a[k], #[trigger] b[k]),
        0 <= i < a.len(),
    ensures
        evidence_fault(a, scope, i) == evidence_fault(b, scope, i),
{
    assert(differs_in_time(a[i], b[i]));
    if repeats_evidence(a, i) {
        let k = choose|k: int| 0 <= k < i && (#[trigger] a[k]).id.value@ == a[i].id.value@;
        assert(differs_in_time(a[k], b[k]));
        assert(b[k].id.value@ == b[i].id.value@);
    }
    if repeats_evidence(b, i) {
        let k = choose|k: int| 0 <= k < i && (#[trigger] b[k]).id.value@ == b[i].id.value@;
        assert(differs_in_time(a[k], b[k]));
        assert(a[k].id.value@ == a[i].id.value@);
    }
}

/// Events of one trace have the same faults.
proof fn lemma_same_activity_faults(
    scope: ReplayScope,
    a: Seq<ActivityEvent>,
    b: Seq<ActivityEvent>,
    i: int,
)
    requires
        is_same_trace(a, b),
        0 <= i < a.len(),
    ensures
        activity_fault(a, scope, i) == activity_fault(b, scope, i),
{
    assert(tells_the_same(a[i], b[i]));
    if repeats_activity(a, i) {
        let k = choose|k: int| 0 <= k < i && (#[trigger] a[k]).event_id@ == a[i].event_id@;
        assert(tells_the_same(a[k], b[k]));
        assert(b[k].event_id@ == b[i].event_id@);
    }
    if repeats_activity(b, i) {
        let k = choose|k: int| 0 <= k < i && (#[trigger] b[k]).event_id@ == b[i].event_id@;
        assert(tells_the_same(a[k], b[k]));
        assert(a[k].event_id@ == a[i].event_id@);
    }
}

/// The comparison input does not depend on the order in which the evidence was read, on times that
/// order the evidence in the same way, or on the kinds, actors, times and prose of the activity: a
/// read that differs only in those makes the same input or is refused for the same reason. No
/// identifier occurs twice in the evidence, which holds of whatever makes an input.
pub proof fn law_read_order_does_not_matter(
    scope: ReplayScope,
    a: Seq<Evidence>,
    b: Seq<Evidence>,
    at: Seq<int>,
    activity: Seq<ActivityEvent>,
    retold: Seq<ActivityEvent>,
    p: Seq<usize>,
    q: Seq<usize>,
    x: Result<EvidenceReplayInput, EvidenceReplayError>,
    y: Result<EvidenceReplayInput, EvidenceReplayError>,
)
    requires
        crate::stable_sort::is_stable_order(evidence_keys(a), p),
        crate::stable_sort::is_stable_order(evidence_keys(b), q),
        is_other_read(a, b, at),
        is_same_trace(activity, retold),
        replay_result(scope, a, activity, p, x),
        replay_result(scope, b, retold, q, y),
        ids_are_distinct(a) || x is Ok,
    ensures
        is_same_outcome(x, y),
{
    if x is Ok {
        lemma_sound_is_distinct(scope, a, p);
    }
    lemma_one_order(a, b, at, p, q);
    let records = in_order(a, p);
    let others = in_order(b, q);
    assert forall|i: int| 0 <= i < records.len() implies #[trigger] evidence_fault(
        records,
        scope,
        i,
    ) == evidence_fault(others, scope, i) by {
        lemma_same_evidence_faults(scope, records, others, i);
    }
    assert forall|i: int| 0 <= i < others.len() implies #[trigger] evidence_fault(
        others,
        scope,
        i,
    ) == evidence_fault(records, scope, i) by {
        lemma_same_evidence_faults(scope, records, others, i);
    }
    assert forall|i: int| 0 <= i < activity.len() implies #[trigger] activity_fault(
        activity,
        scope,
        i,
    ) == activity_fault(retold, scope, i) by {
        lemma_same_activity_faults(scope, activity, retold, i);
    }
    assert forall|i: int| 0 <= i < retold.len() implies #[trigger] activity_fault(
        retold,
        scope,
        i,
    ) == activity_fault(activity, scope, i) by {
        lemma_same_activity_faults(scope, activity, retold, i);
    }
    if x is Ok && y is Ok {
        let one = x->Ok_0;
        let other = y->Ok_0;
        assert forall|i: int| 0 <= i < records.len() implies other.evidence@[i]
            == one.evidence@[i] by {
            assert(refers_to(one.evidence@[i], records[i]));
            assert(refers_to(other.evidence@[i], others[i]));
            assert(differs_in_time(records[i], others[i]));
        }
        assert(other.evidence@ =~= one.evidence@);
        assert forall|i: int| 0 <= i < activity.len() implies other.activity@[i]
            == one.activity@[i] by {
            assert(correlates(one.activity@[i], activity[i]));
            assert(correlates(other.activity@[i], retold[i]));
            assert(tells_the_same(activity[i], retold[i]));
        }
        assert(other.activity@ =~= one.activity@);
    }
}

} // verus!
