//! When records make a comparison input, what it holds of them, and what a projection counts.
use vstd::prelude::*;
use vstd::string::*;
use crate::evaluation_projection::{EvaluationProjectionError, EvaluationReplayProjection};
use crate::evidence_replay::{
    Evidence, EvidenceReplayActivity, EvidenceReplayArtifact, EvidenceReplayError,
    EvidenceReplayInput, ReplayScope,
};
use crate::model::EntityId;
use crate::protocol_dispatch::ActivityEvent;
use crate::text;

verus! {

/// Two identifiers have the same type and the same value.
pub open spec fn is_same(a: EntityId, b: EntityId) -> bool {
    a.kind@ == b.kind@ && a.value@ == b.value@
}

/// A text stands in another one, whatever the case of the latter's letters.
pub open spec fn mentions(reference: Seq<char>, name: Seq<char>) -> bool {
    exists|at: int|
        0 <= at && at + name.len() <= reference.len() && #[trigger] text::lower(
            reference,
        ).subrange(at, at + name.len()) == name
}

/// A reference mentions a credential.
pub open spec fn mentions_a_credential(reference: Seq<char>) -> bool {
    ||| mentions(reference, "api_key="@)
    ||| mentions(reference, "token="@)
    ||| mentions(reference, "password="@)
    ||| mentions(reference, "secret="@)
    ||| mentions(reference, "authorization:"@)
}

/// A record is of the organization, the work item and the attempt, and its reference mentions no
/// credential.
pub open spec fn is_admissible(item: Evidence, scope: ReplayScope) -> bool {
    &&& is_same(item.organization_id, scope.organization_id)
    &&& is_same(item.work_item_id, scope.work_item_id)
    &&& is_same(item.attempt_id, scope.attempt_id)
    &&& !mentions_a_credential(item.reference@)
}

/// An event is of the organization, the work item and the attempt, and has a correlation.
pub open spec fn is_traceable(event: ActivityEvent, scope: ReplayScope) -> bool {
    &&& is_same(event.organization_id, scope.organization_id)
    &&& event.work_item_id is Some
    &&& is_same(event.work_item_id->0, scope.work_item_id)
    &&& event.attempt_id is Some
    &&& is_same(event.attempt_id->0, scope.attempt_id)
    &&& event.correlation_id is Some
    &&& event.correlation_id->0@.len() > 0
}

/// A reference looks unsafe exactly where it mentions a credential, in whatever case.
pub proof fn law_unsafe_references_mention_a_credential(reference: Seq<char>)
    ensures
        crate::evidence_replay::looks_unsafe(reference) <==> mentions_a_credential(reference),
{
    lemma_mentions(reference, "api_key="@);
    lemma_mentions(reference, "token="@);
    lemma_mentions(reference, "password="@);
    lemma_mentions(reference, "secret="@);
    lemma_mentions(reference, "authorization:"@);
}

/// To mention is to hold in small letters.
pub proof fn lemma_mentions(reference: Seq<char>, name: Seq<char>)
    ensures
        text::contains(text::lower(reference), name) <==> mentions(reference, name),
{
    let value = text::lower(reference);
    assert(value.len() == reference.len());
    if text::contains(value, name) {
        let at = choose|at: int| text::stands_at(value, name, at);
        assert(value.subrange(at, at + name.len()) == name);
    }
    if mentions(reference, name) {
        let at = choose|at: int|
            0 <= at && at + name.len() <= reference.len() && #[trigger] text::lower(
                reference,
            ).subrange(at, at + name.len()) == name;
        assert(text::stands_at(value, name, at));
    }
}

/// Records make a comparison input exactly where there is evidence and activity, every record is
/// admissible, every event is traceable, and no identifier of either occurs twice.
pub proof fn law_sound_records_make_an_input(
    scope: ReplayScope,
    evidence: Seq<Evidence>,
    activity: Seq<ActivityEvent>,
    order: Seq<usize>,
    r: Result<EvidenceReplayInput, EvidenceReplayError>,
)
    requires
        crate::stable_sort::is_stable_order(
            crate::evidence_replay::evidence_keys(evidence),
            order,
        ),
        crate::evidence_replay::replay_result(scope, evidence, activity, order, r),
    ensures
        r is Ok <==> {
            &&& evidence.len() > 0
            &&& activity.len() > 0
            &&& forall|i: int|
                0 <= i < evidence.len() ==> is_admissible(#[trigger] evidence[i], scope)
            &&& forall|i: int, j: int|
                0 <= i < j < evidence.len() ==> (#[trigger] evidence[i]).id.value@ != (
                #[trigger] evidence[j]).id.value@
            &&& forall|i: int|
                0 <= i < activity.len() ==> is_traceable(#[trigger] activity[i], scope)
            &&& forall|i: int, j: int|
                0 <= i < j < activity.len() ==> (#[trigger] activity[i]).event_id@ != (
                #[trigger] activity[j]).event_id@
        },
        evidence.len() == 0 <==> r is Err && r->Err_0 is MissingEvidence,
        evidence.len() > 0 && activity.len() == 0 <==> r is Err && r->Err_0 is MissingActivity,
{
    let keys = crate::evidence_replay::evidence_keys(evidence);
    let records = crate::evidence_replay::in_order(evidence, order);
    if r is Ok {
        crate::evidence_replay::lemma_sound_is_distinct(scope, evidence, order);
        assert forall|i: int| 0 <= i < evidence.len() implies is_admissible(
            #[trigger] evidence[i],
            scope,
        ) by {
            crate::stable_sort::law_order_covers_every_row(keys, order, i);
            let a = choose|a: int| 0 <= a < order.len() && (#[trigger] order[a]) as int == i;
            assert(records[a] == evidence[i]);
            assert(crate::evidence_replay::evidence_fault(records, scope, a) is None);
            law_unsafe_references_mention_a_credential(evidence[i].reference@);
        }
        assert forall|i: int| 0 <= i < activity.len() implies is_traceable(
            #[trigger] activity[i],
            scope,
        ) by {
            assert(crate::evidence_replay::activity_fault(activity, scope, i) is None);
        }
        assert forall|i: int, j: int| 0 <= i < j < activity.len() implies (
        #[trigger] activity[i]).event_id@ != (#[trigger] activity[j]).event_id@ by {
            assert(crate::evidence_replay::activity_fault(activity, scope, j) is None);
            assert(!crate::evidence_replay::repeats_activity(activity, j));
        }
    }
    let sound = {
        &&& evidence.len() > 0
        &&& activity.len() > 0
        &&& forall|i: int|
            0 <= i < evidence.len() ==> is_admissible(#[trigger] evidence[i], scope)
        &&& forall|i: int, j: int|
            0 <= i < j < evidence.len() ==> (#[trigger] evidence[i]).id.value@ != (
            #[trigger] evidence[j]).id.value@
        &&& forall|i: int|
            0 <= i < activity.len() ==> is_traceable(#[trigger] activity[i], scope)
        &&& forall|i: int, j: int|
            0 <= i < j < activity.len() ==> (#[trigger] activity[i]).event_id@ != (
            #[trigger] activity[j]).event_id@
    };
    if sound {
        assert forall|a: int| 0 <= a < records.len() implies #[trigger] crate::evidence_replay::evidence_fault(
            records,
            scope,
            a,
        ) is None by {
            let i = order[a] as int;
            assert(records[a] == evidence[i]);
            assert(is_admissible(evidence[i], scope));
            law_unsafe_references_mention_a_credential(evidence[i].reference@);
            if crate::evidence_replay::repeats_evidence(records, a) {
                let k = choose|k: int|
                    0 <= k < a && (#[trigger] records[k]).id.value@ == records[a].id.value@;
                let j = order[k] as int;
                assert(crate::stable_sort::precedes(keys, j, i));
                crate::stable_sort::law_precedence_is_a_strict_total_order(keys, i, j, i);
                assert(i != j);
                assert(records[k] == evidence[j]);
                if i < j {
                    assert(evidence[i].id.value@ != evidence[j].id.value@);
                } else {
                    assert(evidence[j].id.value@ != evidence[i].id.value@);
                }
            }
        }
        assert forall|i: int| 0 <= i < activity.len() implies #[trigger] crate::evidence_replay::activity_fault(
            activity,
            scope,
            i,
        ) is None by {
            assert(is_traceable(activity[i], scope));
            if crate::evidence_replay::repeats_activity(activity, i) {
                let k = choose|k: int|
                    0 <= k < i && (#[trigger] activity[k]).event_id@ == activity[i].event_id@;
                assert(activity[k].event_id@ != activity[i].event_id@);
            }
        }
    }
}

/// The places of the artifacts are all the records, each once, by time and then by identifier.
pub open spec fn is_canonical_order(from: Seq<int>, evidence: Seq<Evidence>) -> bool {
    &&& from.len() == evidence.len()
    &&& forall|i: int| 0 <= i < from.len() ==> 0 <= #[trigger] from[i] < evidence.len()
    &&& forall|i: int, j: int|
        0 <= i < j < from.len() ==> {
            let x = evidence[#[trigger] from[i]];
            let y = evidence[#[trigger] from[j]];
            &&& from[i] != from[j]
            &&& x.created_at_unix_seconds <= y.created_at_unix_seconds
            &&& x.created_at_unix_seconds == y.created_at_unix_seconds ==> text::lt(
                x.id.value@,
                y.id.value@,
            )
        }
}

/// An artifact names a record, its kind and its reference.
pub open spec fn names_record(artifact: EvidenceReplayArtifact, item: Evidence) -> bool {
    &&& artifact.evidence_id == item.id.value
    &&& artifact.kind == item.kind
    &&& artifact.reference == item.reference
}

/// A comparison input holds every record once, by time and then by identifier, with its identifier,
/// kind and reference; and every event in its given order, with its identifier and correlation. It
/// is of the scope that was asked for, in the first version.
pub proof fn law_input_holds_every_record(
    scope: ReplayScope,
    evidence: Seq<Evidence>,
    activity: Seq<ActivityEvent>,
    order: Seq<usize>,
    input: EvidenceReplayInput,
) -> (from: Seq<int>)
    requires
        crate::stable_sort::is_stable_order(
            crate::evidence_replay::evidence_keys(evidence),
            order,
        ),
        crate::evidence_replay::replay_result(scope, evidence, activity, order, Ok(input)),
    ensures
        input.schema_version == 1,
        input.organization_id == scope.organization_id,
        input.work_item_id == scope.work_item_id,
        input.attempt_id == scope.attempt_id,
        is_canonical_order(from, evidence),
        input.evidence@.len() == evidence.len(),
        forall|i: int|
            0 <= i < input.evidence@.len() ==> names_record(
                #[trigger] input.evidence@[i],
                evidence[from[i]],
            ),
        input.activity@.len() == activity.len(),
        forall|i: int|
            0 <= i < input.activity@.len() ==> {
                &&& (#[trigger] input.activity@[i]).event_id == activity[i].event_id
                &&& activity[i].correlation_id == Some(input.activity@[i].correlation_id)
            },
{
    let keys = crate::evidence_replay::evidence_keys(evidence);
    let records = crate::evidence_replay::in_order(evidence, order);
    let from = Seq::new(order.len(), |i: int| order[i] as int);
    crate::evidence_replay::lemma_sound_is_distinct(scope, evidence, order);
    assert forall|i: int| 0 <= i < from.len() implies 0 <= #[trigger] from[i] < evidence.len() by {
        assert(order[i] < keys.len());
    }
    assert forall|i: int, j: int| 0 <= i < j < from.len() implies {
        let x = evidence[#[trigger] from[i]];
        let y = evidence[#[trigger] from[j]];
        &&& from[i] != from[j]
        &&& x.created_at_unix_seconds <= y.created_at_unix_seconds
        &&& x.created_at_unix_seconds == y.created_at_unix_seconds ==> text::lt(
            x.id.value@,
            y.id.value@,
        )
    } by {
        let a = order[i] as int;
        let b = order[j] as int;
        assert(crate::stable_sort::precedes(keys, a, b));
        crate::stable_sort::law_precedence_is_a_strict_total_order(keys, a, b, a);
        assert(a != b);
        crate::stable_sort::lemma_key_lt_asymmetric(keys[a], keys[b]);
        if a < b {
            assert(evidence[a].id.value@ != evidence[b].id.value@);
        } else {
            assert(evidence[b].id.value@ != evidence[a].id.value@);
        }
    }
    assert forall|i: int| 0 <= i < input.evidence@.len() implies names_record(
        #[trigger] input.evidence@[i],
        evidence[from[i]],
    ) by {
        assert(crate::evidence_replay::refers_to(input.evidence@[i], records[i]));
        assert(records[i] == evidence[from[i]]);
    }
    assert forall|i: int| 0 <= i < input.activity@.len() implies {
        &&& (#[trigger] input.activity@[i]).event_id == activity[i].event_id
        &&& activity[i].correlation_id == Some(input.activity@[i].correlation_id)
    } by {
        assert(crate::evidence_replay::correlates(input.activity@[i], activity[i]));
    }
    from
}

/// Each refusal names a record or an event that gives cause for it: one out of scope, one with a
/// credential, one without a correlation, or one whose identifier occurred before.
pub proof fn law_refusals_name_a_cause(
    scope: ReplayScope,
    evidence: Seq<Evidence>,
    activity: Seq<ActivityEvent>,
    order: Seq<usize>,
    error: EvidenceReplayError,
)
    requires
        crate::stable_sort::is_stable_order(
            crate::evidence_replay::evidence_keys(evidence),
            order,
        ),
        crate::evidence_replay::replay_result(scope, evidence, activity, order, Err(error)),
    ensures
        error matches EvidenceReplayError::EvidenceScopeMismatch { evidence_id } ==> exists|i: int|
            {
                &&& 0 <= i < evidence.len()
                &&& (#[trigger] evidence[i]).id.value@ == evidence_id@
                &&& !(is_same(evidence[i].organization_id, scope.organization_id) && is_same(
                    evidence[i].work_item_id,
                    scope.work_item_id,
                ) && is_same(evidence[i].attempt_id, scope.attempt_id))
            },
        error matches EvidenceReplayError::UnsafeReference { evidence_id } ==> exists|i: int|
            {
                &&& 0 <= i < evidence.len()
                &&& (#[trigger] evidence[i]).id.value@ == evidence_id@
                &&& mentions_a_credential(evidence[i].reference@)
            },
        error matches EvidenceReplayError::MissingCorrelation { event_id } ==> exists|i: int|
            {
                &&& 0 <= i < activity.len()
                &&& (#[trigger] activity[i]).event_id@ == event_id@
                &&& activity[i].correlation_id is None || activity[i].correlation_id->0@.len() == 0
            },
        error matches EvidenceReplayError::DuplicateActivity { event_id } ==> exists|i: int, j: int|
            {
                &&& 0 <= i < j < activity.len()
                &&& (#[trigger] activity[i]).event_id@ == event_id@
                &&& (#[trigger] activity[j]).event_id@ == event_id@
            },
{
    let records = crate::evidence_replay::in_order(evidence, order);
    if evidence.len() > 0 && activity.len() > 0 {
        if exists|i: int|
            {
                &&& 0 <= i < records.len()
                &&& crate::evidence_replay::evidence_is_sound(records, scope, i)
                &&& (#[trigger] crate::evidence_replay::evidence_fault(records, scope, i)) is Some
                &&& crate::evidence_replay::says(
                    error,
                    crate::evidence_replay::evidence_fault(records, scope, i)->0,
                )
            } {
            let i = choose|i: int|
                {
                    &&& 0 <= i < records.len()
                    &&& crate::evidence_replay::evidence_is_sound(records, scope, i)
                    &&& (#[trigger] crate::evidence_replay::evidence_fault(
                        records,
                        scope,
                        i,
                    )) is Some
                    &&& crate::evidence_replay::says(
                        error,
                        crate::evidence_replay::evidence_fault(records, scope, i)->0,
                    )
                };
            assert(records[i] == evidence[order[i] as int]);
            assert(order[i] < evidence.len());
            law_unsafe_references_mention_a_credential(records[i].reference@);
        } else {
            let i = choose|i: int|
                {
                    &&& 0 <= i < activity.len()
                    &&& crate::evidence_replay::activity_is_sound(activity, scope, i)
                    &&& (#[trigger] crate::evidence_replay::activity_fault(
                        activity,
                        scope,
                        i,
                    )) is Some
                    &&& crate::evidence_replay::says(
                        error,
                        crate::evidence_replay::activity_fault(activity, scope, i)->0,
                    )
                };
            assert(activity[i].event_id@ == activity[i].event_id@);
            if error is DuplicateActivity {
                assert(crate::evidence_replay::repeats_activity(activity, i));
                let k = choose|k: int|
                    0 <= k < i && (#[trigger] activity[k]).event_id@ == activity[i].event_id@;
                assert(activity[k].event_id@ == activity[i].event_id@);
            }
        }
    }
}

/// A projection counts the evidence, the activity and the different correlations, and lists the
/// different kinds of evidence in order. There is one exactly where the input is of the first version
/// and holds evidence and activity; it is of the input's own scope.
pub proof fn law_projection_counts_what_is_there(
    input: EvidenceReplayInput,
    r: Result<EvaluationReplayProjection, EvaluationProjectionError>,
)
    requires
        crate::evaluation_projection::projection_result(input, r),
    ensures
        r is Ok <==> input.schema_version == 1 && input.evidence@.len() > 0
            && input.activity@.len() > 0,
        input.schema_version != 1 ==> (r matches Err(
            EvaluationProjectionError::UnsupportedSourceSchema { actual },
        ) && actual == input.schema_version),
        r matches Ok(projection) ==> {
            &&& projection.schema_version == 1
            &&& projection.source_schema_version == 1
            &&& projection.organization_id == input.organization_id
            &&& projection.work_item_id == input.work_item_id
            &&& projection.attempt_id == input.attempt_id
            &&& projection.evidence_count == input.evidence@.len()
            &&& projection.activity_count == input.activity@.len()
            &&& projection.unique_correlation_count == input.activity@.map_values(
                |activity: EvidenceReplayActivity| activity.correlation_id@,
            ).to_set().len()
            &&& forall|i: int, j: int|
                0 <= i < j < projection.evidence_kinds@.len() ==> text::lt(
                    (#[trigger] projection.evidence_kinds@[i])@,
                    (#[trigger] projection.evidence_kinds@[j])@,
                )
            &&& forall|i: int|
                0 <= i < input.evidence@.len() ==> is_listed_kind(
                    projection.evidence_kinds@,
                    (#[trigger] input.evidence@[i]).kind@,
                )
            &&& forall|i: int|
                0 <= i < projection.evidence_kinds@.len() ==> is_kind_of(
                    input.evidence@,
                    (#[trigger] projection.evidence_kinds@[i])@,
                )
        },
{
    if let Ok(projection) = r {
        let correlations = input.activity@.map_values(
            |activity: EvidenceReplayActivity| activity.correlation_id@,
        );
        assert(correlations =~= crate::evaluation_projection::correlations_of(input));
        let kinds = crate::evaluation_projection::kinds_of(input);
        let list = text::views(projection.evidence_kinds@);
        assert forall|i: int, j: int| 0 <= i < j < projection.evidence_kinds@.len() implies text::lt(
            (#[trigger] projection.evidence_kinds@[i])@,
            (#[trigger] projection.evidence_kinds@[j])@,
        ) by {
            assert(text::lt(list[i], list[j]));
        }
        assert forall|i: int| 0 <= i < input.evidence@.len() implies is_listed_kind(
            projection.evidence_kinds@,
            (#[trigger] input.evidence@[i]).kind@,
        ) by {
            assert(kinds[i] == input.evidence@[i].kind@);
            assert(kinds.contains(kinds[i]));
            assert(list.contains(kinds[i]));
            let k = choose|k: int| 0 <= k < list.len() && list[k] == kinds[i];
            assert(projection.evidence_kinds@[k]@ == kinds[i]);
        }
        assert forall|i: int| 0 <= i < projection.evidence_kinds@.len() implies is_kind_of(
            input.evidence@,
            (#[trigger] projection.evidence_kinds@[i])@,
        ) by {
            assert(list[i] == projection.evidence_kinds@[i]@);
            assert(list.contains(list[i]));
            assert(kinds.contains(list[i]));
            let k = choose|k: int| 0 <= k < kinds.len() && kinds[k] == list[i];
            assert(input.evidence@[k].kind@ == kinds[k]);
        }
    }
}

/// A kind is listed.
pub open spec fn is_listed_kind(kinds: Seq<String>, kind: Seq<char>) -> bool {
    exists|k: int| 0 <= k < kinds.len() && (#[trigger] kinds[k])@ == kind
}

/// A record is of the kind.
pub open spec fn is_kind_of(evidence: Seq<EvidenceReplayArtifact>, kind: Seq<char>) -> bool {
    exists|k: int| 0 <= k < evidence.len() && (#[trigger] evidence[k]).kind@ == kind
}

} // verus!
