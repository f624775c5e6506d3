//! A read-only summary of an attempt: its projection with the totals of its recorded usage. Absent
//! usage is unavailable, never zero.
use vstd::prelude::*;
use vstd::string::*;
use crate::evaluation_projection::{
    EvaluationReplayProjection, QM_084_EVALUATION_PROJECTION_SCHEMA_VERSION,
};
use crate::model::EntityId;
use crate::record::Record;
use crate::table::Table;
use crate::text;

verus! {

/// The version of the summary.
pub const QM_084_EVALUATION_ATTEMPT_SUMMARY_SCHEMA_VERSION: u16 = 1;

/// What usage is recorded for.
#[derive(Debug)]
pub struct UsageScope {
    pub organization_id: EntityId,
    pub project_id: Option<EntityId>,
    pub agent_instance_id: Option<EntityId>,
    pub work_item_id: Option<EntityId>,
    pub attempt_id: Option<EntityId>,
}

/// An immutable usage fact.
#[derive(Debug)]
pub struct UsageRecord {
    pub id: EntityId,
    pub scope: UsageScope,
    pub meter: String,
    pub amount: u64,
    pub recorded_at_unix_seconds: u64,
}

/// The total of a meter.
#[derive(Debug)]
pub struct UsageMeterTotal {
    pub meter: String,
    pub total_amount: u64,
}

/// Whether usage was recorded for an attempt.
#[derive(Debug)]
pub enum CostEvidence {
    /// None was; this is not a cost of zero.
    Unavailable,
    /// The totals of the meters, in order.
    Available { meters: Vec<UsageMeterTotal> },
}

/// The summary of an attempt.
#[derive(Debug)]
pub struct EvaluationAttemptSummary {
    pub schema_version: u16,
    pub projection: EvaluationReplayProjection,
    pub cost_evidence: CostEvidence,
}

/// Why there is no summary.
#[derive(Debug)]
pub enum EvaluationSummaryError {
    UnsupportedProjectionSchema { actual: u16 },
    MissingUsageAttribution { usage_record_id: String },
    UsageScopeMismatch { usage_record_id: String },
    DuplicateUsage { usage_record_id: String },
    EmptyMeter { usage_record_id: String },
    MeterOverflow { meter: String },
    Serialization { reason: String },
}

impl EvaluationSummaryError {
    /// The error in words.
    pub fn to_text(&self) -> (r: String)
        ensures
            r@ == match *self {
                EvaluationSummaryError::UnsupportedProjectionSchema { actual } => {
                    "evaluation attempt summary requires projection schema "@ + text::decimal(
                        QM_084_EVALUATION_PROJECTION_SCHEMA_VERSION as nat,
                    ) + ", got "@ + text::decimal(actual as nat)
                },
                EvaluationSummaryError::MissingUsageAttribution { usage_record_id } => {
                    "usage record "@ + usage_record_id@
                        + " lacks exact work and attempt attribution"@
                },
                EvaluationSummaryError::UsageScopeMismatch { usage_record_id } => "usage record "@
                    + usage_record_id@
                    + " is outside the projected organization/work/attempt"@,
                EvaluationSummaryError::DuplicateUsage { usage_record_id } => {
                    "evaluation summary contains duplicate usage id "@ + usage_record_id@
                },
                EvaluationSummaryError::EmptyMeter { usage_record_id } => "usage record "@
                    + usage_record_id@ + " has an empty meter"@,
                EvaluationSummaryError::MeterOverflow { meter } => "usage meter "@ + meter@
                    + " overflows while forming an evaluation summary"@,
                EvaluationSummaryError::Serialization { reason } => {
                    "evaluation attempt summary serialization failed: "@ + reason@
                },
            },
    {
        match self {
            EvaluationSummaryError::UnsupportedProjectionSchema { actual } => {
                let wanted: String = text::numeral(
                    QM_084_EVALUATION_PROJECTION_SCHEMA_VERSION as u64,
                );
                let found: String = text::numeral(*actual as u64);
                let mut out: String = text::joined(
                    "evaluation attempt summary requires projection schema ",
                    &wanted,
                );
                out.append(", got ");
                out.append(&found);
                out
            },
            EvaluationSummaryError::MissingUsageAttribution { usage_record_id } => text::around(
                "usage record ",
                usage_record_id,
                " lacks exact work and attempt attribution",
            ),
            EvaluationSummaryError::UsageScopeMismatch { usage_record_id } => text::around(
                "usage record ",
                usage_record_id,
                " is outside the projected organization/work/attempt",
            ),
            EvaluationSummaryError::DuplicateUsage { usage_record_id } => text::joined(
                "evaluation summary contains duplicate usage id ",
                usage_record_id,
            ),
            EvaluationSummaryError::EmptyMeter { usage_record_id } => text::around(
                "usage record ",
                usage_record_id,
                " has an empty meter",
            ),
            EvaluationSummaryError::MeterOverflow { meter } => text::around(
                "usage meter ",
                meter,
                " overflows while forming an evaluation summary",
            ),
            EvaluationSummaryError::Serialization { reason } => text::joined(
                "evaluation attempt summary serialization failed: ",
                reason,
            ),
        }
    }
}

/// The total of a meter over the first `count` records.
pub open spec fn meter_sum(usage: Seq<UsageRecord>, meter: Seq<char>, count: nat) -> nat
    decreases count,
{
    if count == 0 {
        0
    } else {
        meter_sum(usage, meter, (count - 1) as nat) + (if usage[count - 1].meter@ == meter {
            usage[count - 1].amount as nat
        } else {
            0
        })
    }
}

/// The meter occurs among the first `count` records.
pub open spec fn meter_occurs(usage: Seq<UsageRecord>, meter: Seq<char>, count: int) -> bool {
    exists|k: int| 0 <= k < count && (#[trigger] usage[k]).meter@ == meter
}

/// What is wrong with a record.
#[verifier::ext_equal]
pub ghost enum UsageFault {
    Duplicate(Seq<char>),
    Unattributed(Seq<char>),
    Foreign(Seq<char>),
    NoMeter(Seq<char>),
    Overflow(Seq<char>),
}

/// The error says this fault.
pub open spec fn says(error: EvaluationSummaryError, fault: UsageFault) -> bool {
    match (error, fault) {
        (
            EvaluationSummaryError::DuplicateUsage { usage_record_id },
            UsageFault::Duplicate(id),
        ) => usage_record_id@ == id,
        (
            EvaluationSummaryError::MissingUsageAttribution { usage_record_id },
            UsageFault::Unattributed(id),
        ) => usage_record_id@ == id,
        (
            EvaluationSummaryError::UsageScopeMismatch { usage_record_id },
            UsageFault::Foreign(id),
        ) => usage_record_id@ == id,
        (EvaluationSummaryError::EmptyMeter { usage_record_id }, UsageFault::NoMeter(id)) => {
            usage_record_id@ == id
        },
        (EvaluationSummaryError::MeterOverflow { meter }, UsageFault::Overflow(name)) => meter@
            == name,
        _ => false,
    }
}

/// A record before this one has the same identifier.
pub open spec fn repeats_usage(usage: Seq<UsageRecord>, i: int) -> bool {
    exists|k: int| 0 <= k < i && (#[trigger] usage[k]).id.value@ == usage[i].id.value@
}

/// What is wrong with a record, after the ones before it.
pub open spec fn usage_fault(
    usage: Seq<UsageRecord>,
    projection: EvaluationReplayProjection,
    i: int,
) -> Option<UsageFault> {
    let record = usage[i];
    let id = record.id.value@;
    if repeats_usage(usage, i) {
        Some(UsageFault::Duplicate(id))
    } else if record.scope.work_item_id is None || record.scope.attempt_id is None {
        Some(UsageFault::Unattributed(id))
    } else if !record.scope.organization_id.alike(&projection.organization_id)
        || !record.scope.work_item_id->0.alike(&projection.work_item_id)
        || !record.scope.attempt_id->0.alike(&projection.attempt_id) {
        Some(UsageFault::Foreign(id))
    } else if record.meter@.len() == 0 {
        Some(UsageFault::NoMeter(id))
    } else if meter_sum(usage, record.meter@, (i + 1) as nat) > u64::MAX {
        Some(UsageFault::Overflow(record.meter@))
    } else {
        None
    }
}

/// None of the first `count` records is faulty.
pub open spec fn usage_is_sound(
    usage: Seq<UsageRecord>,
    projection: EvaluationReplayProjection,
    count: int,
) -> bool {
    forall|i: int| 0 <= i < count ==> #[trigger] usage_fault(usage, projection, i) is None
}

/// The totals list every meter that occurs once, in order, with its sum.
pub open spec fn are_totals(meters: Seq<UsageMeterTotal>, usage: Seq<UsageRecord>) -> bool {
    &&& forall|i: int, j: int|
        0 <= i < j < meters.len() ==> text::lt(
            (#[trigger] meters[i]).meter@,
            (#[trigger] meters[j]).meter@,
        )
    &&& forall|i: int|
        0 <= i < meters.len() ==> {
            &&& meter_occurs(usage, (#[trigger] meters[i]).meter@, usage.len() as int)
            &&& meters[i].total_amount == meter_sum(usage, meters[i].meter@, usage.len())
        }
    &&& forall|k: int|
        0 <= k < usage.len() ==> is_listed(meters, (#[trigger] usage[k]).meter@)
}

/// The meter is among the totals.
pub open spec fn is_listed(meters: Seq<UsageMeterTotal>, meter: Seq<char>) -> bool {
    exists|i: int| 0 <= i < meters.len() && (#[trigger] meters[i]).meter@ == meter
}

/// What comes of summarizing an attempt.
pub open spec fn summary_result(
    projection: EvaluationReplayProjection,
    usage: Seq<UsageRecord>,
    r: Result<EvaluationAttemptSummary, EvaluationSummaryError>,
) -> bool {
    if projection.schema_version != QM_084_EVALUATION_PROJECTION_SCHEMA_VERSION {
        r == Err::<EvaluationAttemptSummary, EvaluationSummaryError>(
            EvaluationSummaryError::UnsupportedProjectionSchema {
                actual: projection.schema_version,
            },
        )
    } else {
        match r {
            Ok(summary) => {
                &&& usage_is_sound(usage, projection, usage.len() as int)
                &&& summary.schema_version == QM_084_EVALUATION_ATTEMPT_SUMMARY_SCHEMA_VERSION
                &&& summary.projection == projection
                &&& match summary.cost_evidence {
                    CostEvidence::Unavailable => usage.len() == 0,
                    CostEvidence::Available { meters } => usage.len() > 0 && are_totals(
                        meters@,
                        usage,
                    ),
                }
            },
            Err(error) => exists|i: int|
                {
                    &&& 0 <= i < usage.len()
                    &&& usage_is_sound(usage, projection, i)
                    &&& (#[trigger] usage_fault(usage, projection, i)) is Some
                    &&& says(error, usage_fault(usage, projection, i)->0)
                },
        }
    }
}

/// Whether a record before position `i` has the identifier.
fn repeated(usage: &Vec<UsageRecord>, i: usize) -> (r: bool)
    requires
        i < usage@.len(),
    ensures
        r == repeats_usage(usage@, i as int),
{
    let mut k: usize = 0;
    while k < i
        invariant
            k <= i < usage@.len(),
            forall|m: int|
                0 <= m < k ==> (#[trigger] usage@[m]).id.value@ != usage@[i as int].id.value@,
        decreases i - k,
    {
        if text::same(&usage[k].id.value, &usage[i].id.value) {
            return true;
        }
        k = k + 1;
    }
    false
}

/// What is wrong with a record apart from its sum.
fn check_record(usage: &Vec<UsageRecord>, projection: &EvaluationReplayProjection, i: usize) -> (r:
    Result<(), EvaluationSummaryError>)
    requires
        i < usage@.len(),
    ensures
        match r {
            Ok(_) => {
                &&& usage@[i as int].meter@.len() > 0
                &&& usage_fault(usage@, *projection, i as int) == (if meter_sum(
                    usage@,
                    usage@[i as int].meter@,
                    (i + 1) as nat,
                ) > u64::MAX {
                    Some(UsageFault::Overflow(usage@[i as int].meter@))
                } else {
                    None
                })
            },
            Err(error) => usage_fault(usage@, *projection, i as int) is Some && says(
                error,
                usage_fault(usage@, *projection, i as int)->0,
            ),
        },
{
    let record: &UsageRecord = &usage[i];
    let usage_record_id: String = record.id.value.clone();
    if repeated(usage, i) {
        return Err(EvaluationSummaryError::DuplicateUsage { usage_record_id });
    }
    let (work_item_id, attempt_id): (&EntityId, &EntityId) = match (
        &record.scope.work_item_id,
        &record.scope.attempt_id,
    ) {
        (Some(work_item_id), Some(attempt_id)) => (work_item_id, attempt_id),
        _ => {
            return Err(EvaluationSummaryError::MissingUsageAttribution { usage_record_id });
        },
    };
    if !record.scope.organization_id.same(&projection.organization_id) || !work_item_id.same(
        &projection.work_item_id,
    ) || !attempt_id.same(&projection.attempt_id) {
        return Err(EvaluationSummaryError::UsageScopeMismatch { usage_record_id });
    }
    if record.meter.as_str().is_empty() {
        return Err(EvaluationSummaryError::EmptyMeter { usage_record_id });
    }
    Ok(())
}

/// The totals hold the sums of the first `count` records.
spec fn holds_sums(totals: Map<Seq<char>, u64>, usage: Seq<UsageRecord>, count: nat) -> bool {
    forall|meter: Seq<char>|
        {
            &&& #[trigger] totals.contains_key(meter) <==> meter_occurs(usage, meter, count as int)
            &&& totals.contains_key(meter) ==> totals[meter] == meter_sum(usage, meter, count)
        }
}

/// A meter that has not occurred sums to nothing.
proof fn lemma_no_sum(usage: Seq<UsageRecord>, meter: Seq<char>, count: nat)
    requires
        !meter_occurs(usage, meter, count as int),
        count <= usage.len(),
    ensures
        meter_sum(usage, meter, count) == 0,
    decreases count,
{
    if count > 0 {
        assert(usage[count - 1].meter@ != meter);
        assert(!meter_occurs(usage, meter, count - 1)) by {
            if meter_occurs(usage, meter, count - 1) {
                let k = choose|k: int| 0 <= k < count - 1 && (#[trigger] usage[k]).meter@ == meter;
                assert(usage[k].meter@ == meter);
            }
        }
        lemma_no_sum(usage, meter, (count - 1) as nat);
    }
}

/// One more record counted keeps the sums.
proof fn lemma_sums_extend(
    before: Map<Seq<char>, u64>,
    usage: Seq<UsageRecord>,
    count: nat,
    total: u64,
)
    requires
        holds_sums(before, usage, count),
        count < usage.len(),
        total == meter_sum(usage, usage[count as int].meter@, count + 1),
    ensures
        holds_sums(before.insert(usage[count as int].meter@, total), usage, count + 1),
{
    let name = usage[count as int].meter@;
    let after = before.insert(name, total);
    assert forall|meter: Seq<char>|
        {
            &&& #[trigger] after.contains_key(meter) <==> meter_occurs(
                usage,
                meter,
                count as int + 1,
            )
            &&& after.contains_key(meter) ==> after[meter] == meter_sum(usage, meter, count + 1)
        } by {
        assert(before.contains_key(meter) <==> meter_occurs(usage, meter, count as int));
        if meter == name {
            assert(usage[count as int].meter@ == meter);
            assert(meter_occurs(usage, meter, count as int + 1));
        } else {
            if meter_occurs(usage, meter, count as int) {
                let k = choose|k: int| 0 <= k < count && (#[trigger] usage[k]).meter@ == meter;
                assert(usage[k].meter@ == meter);
                assert(meter_occurs(usage, meter, count as int + 1));
            }
            if meter_occurs(usage, meter, count as int + 1) {
                let k = choose|k: int|
                    0 <= k < count + 1 && (#[trigger] usage[k]).meter@ == meter;
                assert(k < count);
                assert(usage[k].meter@ == meter);
                assert(meter_occurs(usage, meter, count as int));
            }
        }
    }
}

impl EvaluationAttemptSummary {
    /// Summarizes an attempt from its projection and its usage, which must stand in exactly the
    /// same scope.
    pub fn from_projection_and_usage(
        projection: EvaluationReplayProjection,
        usage: &Vec<UsageRecord>,
    ) -> (r: Result<EvaluationAttemptSummary, EvaluationSummaryError>)
        ensures
            summary_result(projection, usage@, r),
    {
        if projection.schema_version != QM_084_EVALUATION_PROJECTION_SCHEMA_VERSION {
            return Err(
                EvaluationSummaryError::UnsupportedProjectionSchema {
                    actual: projection.schema_version,
                },
            );
        }
        let mut totals: Table<u64> = Table::new();
        let mut i: usize = 0;
        while i < usage.len()
            invariant
                i <= usage@.len(),
                projection.schema_version == QM_084_EVALUATION_PROJECTION_SCHEMA_VERSION,
                totals.wf(),
                holds_sums(totals@, usage@, i as nat),
                usage_is_sound(usage@, projection, i as int),
            decreases usage@.len() - i,
        {
            match check_record(usage, &projection, i) {
                Ok(_) => {},
                Err(error) => {
                    return Err(error);
                },
            }
            let record: &UsageRecord = &usage[i];
            let ghost name = record.meter@;
            let before: u64 = match totals.get(&record.meter) {
                Some(total) => *total,
                None => 0,
            };
            proof {
                assert(totals@.contains_key(name) <==> meter_occurs(usage@, name, i as int));
                if !totals@.contains_key(name) {
                    lemma_no_sum(usage@, name, i as nat);
                }
                assert(before == meter_sum(usage@, name, i as nat));
                assert(meter_sum(usage@, name, (i + 1) as nat) == before + record.amount);
            }
            let total: u64 = match before.checked_add(record.amount) {
                Some(total) => total,
                None => {
                    let error: EvaluationSummaryError = EvaluationSummaryError::MeterOverflow {
                        meter: record.meter.clone(),
                    };
                    assert(says(error, usage_fault(usage@, projection, i as int)->0));
                    return Err(error);
                },
            };
            let ghost held = totals@;
            totals.put(record.meter.clone(), total);
            proof {
                lemma_sums_extend(held, usage@, i as nat, total);
            }
            i = i + 1;
        }
        let cost_evidence: CostEvidence = if totals.len() == 0 {
            proof {
                if usage@.len() > 0 {
                    let name = usage@[0].meter@;
                    assert(meter_occurs(usage@, name, usage@.len() as int));
                    assert(totals@.contains_key(name));
                    assert(crate::table::has_key(totals.entries(), name));
                    assert(false);
                }
            }
            CostEvidence::Unavailable
        } else {
            let meters: Vec<UsageMeterTotal> = listed_totals(&totals, Ghost(usage@));
            proof {
                assert(crate::table::has_key(totals.entries(), totals.entries()[0].0));
                assert(totals@.contains_key(totals.entries()[0].0));
            }
            CostEvidence::Available { meters }
        };
        Ok(
            EvaluationAttemptSummary {
                schema_version: QM_084_EVALUATION_ATTEMPT_SUMMARY_SCHEMA_VERSION,
                projection,
                cost_evidence,
            },
        )
    }
}

/// The totals as a list.
fn listed_totals(totals: &Table<u64>, Ghost(usage): Ghost<Seq<UsageRecord>>) -> (r: Vec<
    UsageMeterTotal,
>)
    requires
        totals.wf(),
        holds_sums(totals@, usage, usage.len()),
    ensures
        are_totals(r@, usage),
{
    let ghost entries = totals.entries();
    let mut meters: Vec<UsageMeterTotal> = Vec::new();
    let count: usize = totals.len();
    let mut i: usize = 0;
    while i < count
        invariant
            totals.wf(),
            entries == totals.entries(),
            count == entries.len(),
            i <= count,
            meters@.len() == i,
            forall|k: int|
                0 <= k < i ==> (#[trigger] meters@[k]).meter@ == entries[k].0
                    && meters@[k].total_amount == entries[k].1,
        decreases count - i,
    {
        meters.push(
            UsageMeterTotal { meter: totals.key(i).clone(), total_amount: *totals.row(i) },
        );
        i = i + 1;
    }
    proof {
        totals.lemma_wf_ascending();
        assert forall|a: int, b: int| 0 <= a < b < meters@.len() implies text::lt(
            (#[trigger] meters@[a]).meter@,
            (#[trigger] meters@[b]).meter@,
        ) by {
            assert(entries[a].0 == meters@[a].meter@ && entries[b].0 == meters@[b].meter@);
        }
        assert forall|a: int| 0 <= a < meters@.len() implies {
            &&& meter_occurs(usage, (#[trigger] meters@[a]).meter@, usage.len() as int)
            &&& meters@[a].total_amount == meter_sum(usage, meters@[a].meter@, usage.len())
        } by {
            crate::table::lemma_position_unique(entries, a);
            assert(totals@.contains_key(entries[a].0));
        }
        assert forall|k: int| 0 <= k < usage.len() implies is_listed(
            meters@,
            (#[trigger] usage[k]).meter@,
        ) by {
            let name = usage[k].meter@;
            assert(meter_occurs(usage, name, usage.len() as int));
            assert(totals@.contains_key(name));
            assert(crate::table::has_key(entries, name));
            let a = choose|a: int| 0 <= a < entries.len() && (#[trigger] entries[a]).0 == name;
            assert(meters@[a].meter@ == name);
        }
    }
    meters
}

/// Usage outside the scope of the projection never counts: every record of a summary belongs to the
/// projected organization, work item and attempt.
pub proof fn law_summary_counts_its_own_scope(
    projection: EvaluationReplayProjection,
    usage: Seq<UsageRecord>,
    summary: EvaluationAttemptSummary,
    i: int,
)
    requires
        projection.schema_version == QM_084_EVALUATION_PROJECTION_SCHEMA_VERSION,
        summary_result(projection, usage, Ok(summary)),
        0 <= i < usage.len(),
    ensures
        usage[i].scope.organization_id.alike(&projection.organization_id),
        usage[i].scope.work_item_id is Some,
        usage[i].scope.work_item_id->0.alike(&projection.work_item_id),
        usage[i].scope.attempt_id is Some,
        usage[i].scope.attempt_id->0.alike(&projection.attempt_id),
        !repeats_usage(usage, i),
{
    assert(usage_fault(usage, projection, i) is None);
}

} // verus!
