//! What holds of the evaluation read models, stated over the records that they are made from.
use vstd::prelude::*;
use crate::evaluation_projection::EvaluationReplayProjection;
use crate::evaluation_summary::{
    CostEvidence, EvaluationAttemptSummary, EvaluationSummaryError, UsageMeterTotal, UsageRecord,
};
use crate::model::EntityId;

verus! {

/// The records of a meter, whatever else they say.
pub open spec fn of_meter(usage: Seq<UsageRecord>, meter: Seq<char>) -> Seq<UsageRecord> {
    usage.filter(|record: UsageRecord| record.meter@ == meter)
}

/// The amounts of records, added up.
pub open spec fn amount_of(records: Seq<UsageRecord>) -> int {
    records.fold_left(0int, |total: int, record: UsageRecord| total + record.amount)
}

/// One more record adds its amount to its own meter and to no other, whatever its scope says.
pub proof fn law_each_record_adds_its_amount(
    usage: Seq<UsageRecord>,
    record: UsageRecord,
    meter: Seq<char>,
)
    ensures
        crate::evaluation_summary::meter_sum(usage.push(record), meter, usage.len() + 1)
            == crate::evaluation_summary::meter_sum(usage, meter, usage.len()) + (if record.meter@
            == meter {
            record.amount as int
        } else {
            0
        }),
{
    lemma_sum_of_prefix(usage.push(record), usage, meter, usage.len());
}

/// The sum of a meter depends on the counted records alone.
proof fn lemma_sum_of_prefix(
    a: Seq<UsageRecord>,
    b: Seq<UsageRecord>,
    meter: Seq<char>,
    count: nat,
)
    requires
        count <= a.len(),
        count <= b.len(),
        forall|i: int| 0 <= i < count ==> a[i] == b[i],
    ensures
        crate::evaluation_summary::meter_sum(a, meter, count)
            == crate::evaluation_summary::meter_sum(b, meter, count),
    decreases count,
{
    if count > 0 {
        lemma_sum_of_prefix(a, b, meter, (count - 1) as nat);
    }
}

/// The sum of a meter is the sum of the amounts of its records.
pub proof fn lemma_sum_is_fold(usage: Seq<UsageRecord>, meter: Seq<char>)
    ensures
        crate::evaluation_summary::meter_sum(usage, meter, usage.len()) == amount_of(
            of_meter(usage, meter),
        ),
    decreases usage.len(),
{
    reveal(Seq::filter);
    if usage.len() > 0 {
        let earlier = usage.drop_last();
        lemma_sum_is_fold(earlier, meter);
        lemma_sum_of_prefix(usage, earlier, meter, earlier.len());
        let kept = of_meter(earlier, meter);
        if usage.last().meter@ == meter {
            assert(of_meter(usage, meter) == kept.push(usage.last()));
            assert(kept.push(usage.last()).drop_last() =~= kept);
        } else {
            assert(of_meter(usage, meter) == kept);
        }
    }
}

/// A total of the meter is listed.
pub open spec fn is_totalled(meters: Seq<UsageMeterTotal>, meter: Seq<char>) -> bool {
    exists|i: int| 0 <= i < meters.len() && (#[trigger] meters[i]).meter@ == meter
}

/// A record names the meter.
pub open spec fn is_used(usage: Seq<UsageRecord>, meter: Seq<char>) -> bool {
    exists|k: int| 0 <= k < usage.len() && (#[trigger] usage[k]).meter@ == meter
}

/// The totals of a summary are the amounts of all its records, meter by meter: a meter is listed
/// once where a record names it and not otherwise, in order, and its total is the sum of the amounts
/// of every record that names it. Where there is no record there are no totals.
pub proof fn law_totals_are_the_recorded_amounts(
    projection: EvaluationReplayProjection,
    usage: Seq<UsageRecord>,
    summary: EvaluationAttemptSummary,
)
    requires
        crate::evaluation_summary::summary_result(projection, usage, Ok(summary)),
    ensures
        summary.cost_evidence is Unavailable <==> usage.len() == 0,
        summary.cost_evidence matches CostEvidence::Available { meters } ==> {
            &&& forall|i: int|
                0 <= i < meters@.len() ==> (#[trigger] meters@[i]).total_amount == amount_of(
                    of_meter(usage, meters@[i].meter@),
                )
            &&& forall|k: int|
                0 <= k < usage.len() ==> is_totalled(meters@, (#[trigger] usage[k]).meter@)
            &&& forall|i: int|
                0 <= i < meters@.len() ==> is_used(usage, (#[trigger] meters@[i]).meter@)
            &&& forall|i: int, j: int|
                0 <= i < j < meters@.len() ==> (#[trigger] meters@[i]).meter@ != (
                #[trigger] meters@[j]).meter@ && !crate::text::lt(
                    meters@[j].meter@,
                    meters@[i].meter@,
                )
        },
        summary.schema_version == 1,
        summary.projection == projection,
{
    if let CostEvidence::Available { meters } = summary.cost_evidence {
        assert forall|i: int| 0 <= i < meters@.len() implies (#[trigger] meters@[i]).total_amount
            == amount_of(of_meter(usage, meters@[i].meter@)) by {
            lemma_sum_is_fold(usage, meters@[i].meter@);
        }
        assert forall|k: int| 0 <= k < usage.len() implies is_totalled(
            meters@,
            (#[trigger] usage[k]).meter@,
        ) by {
            assert(crate::evaluation_summary::is_listed(meters@, usage[k].meter@));
        }
        assert forall|i: int| 0 <= i < meters@.len() implies is_used(
            usage,
            (#[trigger] meters@[i]).meter@,
        ) by {
            assert(crate::evaluation_summary::meter_occurs(
                usage,
                meters@[i].meter@,
                usage.len() as int,
            ));
        }
        assert forall|i: int, j: int| 0 <= i < j < meters@.len() implies (
        #[trigger] meters@[i]).meter@ != (#[trigger] meters@[j]).meter@ && !crate::text::lt(
            meters@[j].meter@,
            meters@[i].meter@,
        ) by {
            crate::text::law_order_total(meters@[i].meter@, meters@[j].meter@);
            crate::text::law_order_irreflexive(meters@[i].meter@);
        }
    }
}

/// The two identifiers have the same kind and the same value.
pub open spec fn is_same_id(a: EntityId, b: EntityId) -> bool {
    a.kind@ == b.kind@ && a.value@ == b.value@
}

/// The usage is recorded for the projected organization, work item and attempt.
pub open spec fn is_recorded_for(
    record: UsageRecord,
    projection: EvaluationReplayProjection,
) -> bool {
    &&& is_same_id(record.scope.organization_id, projection.organization_id)
    &&& record.scope.work_item_id is Some
    &&& is_same_id(record.scope.work_item_id->0, projection.work_item_id)
    &&& record.scope.attempt_id is Some
    &&& is_same_id(record.scope.attempt_id->0, projection.attempt_id)
}

/// Usage is summarized exactly where it is sound: a projection of the first version, records that
/// repeat no identifier, that are each recorded for the projected organization, work item and
/// attempt and name a meter, and meters whose amounts fit their total.
pub proof fn law_sound_usage_is_summarized(
    projection: EvaluationReplayProjection,
    usage: Seq<UsageRecord>,
    r: Result<EvaluationAttemptSummary, EvaluationSummaryError>,
)
    requires
        crate::evaluation_summary::summary_result(projection, usage, r),
    ensures
        r is Ok <==> {
            &&& projection.schema_version == 1
            &&& forall|i: int, j: int|
                0 <= i < j < usage.len() ==> (#[trigger] usage[i]).id.value@ != (
                #[trigger] usage[j]).id.value@
            &&& forall|i: int|
                0 <= i < usage.len() ==> is_recorded_for(#[trigger] usage[i], projection)
                    && usage[i].meter@.len() > 0 && amount_of(
                    of_meter(usage, usage[i].meter@),
                ) <= u64::MAX
        },
{
    let sound = {
        &&& projection.schema_version == 1
        &&& forall|i: int, j: int|
            0 <= i < j < usage.len() ==> (#[trigger] usage[i]).id.value@ != (
            #[trigger] usage[j]).id.value@
        &&& forall|i: int|
            0 <= i < usage.len() ==> is_recorded_for(#[trigger] usage[i], projection)
                && usage[i].meter@.len() > 0 && amount_of(of_meter(usage, usage[i].meter@))
                <= u64::MAX
    };
    if r is Ok {
        assert forall|i: int, j: int| 0 <= i < j < usage.len() implies (
        #[trigger] usage[i]).id.value@ != (#[trigger] usage[j]).id.value@ by {
            assert(crate::evaluation_summary::usage_fault(usage, projection, j) is None);
            assert(!crate::evaluation_summary::repeats_usage(usage, j));
        }
        assert forall|i: int| 0 <= i < usage.len() implies is_recorded_for(
            #[trigger] usage[i],
            projection,
        ) && usage[i].meter@.len() > 0 && amount_of(of_meter(usage, usage[i].meter@))
            <= u64::MAX by {
            assert(crate::evaluation_summary::usage_fault(usage, projection, i) is None);
            let meter = usage[i].meter@;
            lemma_sum_is_fold(usage, meter);
            lemma_last_of_meter_bounds(projection, usage, meter, usage.len());
        }
    } else if sound {
        assert forall|i: int| 0 <= i < usage.len() implies (
        #[trigger] crate::evaluation_summary::usage_fault(usage, projection, i)) is None by {
            assert(is_recorded_for(usage[i], projection));
            lemma_sum_is_fold(usage, usage[i].meter@);
            lemma_sum_grows(usage, usage[i].meter@, (i + 1) as nat, usage.len());
            if crate::evaluation_summary::repeats_usage(usage, i) {
                let k = choose|k: int|
                    0 <= k < i && (#[trigger] usage[k]).id.value@ == usage[i].id.value@;
                assert(usage[k].id.value@ != usage[i].id.value@);
            }
        }
    }
}

/// Longer sums are no smaller.
pub proof fn lemma_sum_grows(usage: Seq<UsageRecord>, meter: Seq<char>, from: nat, to: nat)
    requires
        from <= to <= usage.len(),
    ensures
        crate::evaluation_summary::meter_sum(usage, meter, from)
            <= crate::evaluation_summary::meter_sum(usage, meter, to),
    decreases to - from,
{
    if from < to {
        lemma_sum_grows(usage, meter, from, (to - 1) as nat);
    }
}

/// Where no record is faulty, every sum fits.
proof fn lemma_last_of_meter_bounds(
    projection: EvaluationReplayProjection,
    usage: Seq<UsageRecord>,
    meter: Seq<char>,
    count: nat,
)
    requires
        count <= usage.len(),
        crate::evaluation_summary::usage_is_sound(usage, projection, usage.len() as int),
    ensures
        crate::evaluation_summary::meter_sum(usage, meter, count) <= u64::MAX,
    decreases count,
{
    if count > 0 {
        lemma_last_of_meter_bounds(projection, usage, meter, (count - 1) as nat);
        assert(crate::evaluation_summary::usage_fault(usage, projection, count - 1) is None);
    }
}

} // verus!
