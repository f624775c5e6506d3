//! What a refusal says: the record, the key or the text that it is about, and what is wrong with it.
use vstd::prelude::*;
use vstd::string::*;
use crate::cli::CliError;
use crate::cron_automation_transfer::{
    CronAutomationRecord, Disposition, Mapping, SnapshotStamp, TransferAttribution, TransferError,
};
use crate::evaluation_projection::EvaluationReplayProjection;
use crate::evaluation_summary::{EvaluationSummaryError, UsageRecord};
use crate::evidence_replay::Evidence;
use crate::legacy_import::{LegacyImportAttribution, LegacyImportError, Ledger, Projection};
use crate::legacy_store::MemberView;
use crate::model::{Actor, EntityId};
use crate::opentag_adapter::{EventFault, OpenTagAdapterError, OpenTagAdapterPolicy};
use crate::protocol_dispatch::{
    MutationRecord, MutationStamps, Plane, ProtocolError, ProtocolOutcome,
    TransitionWorkItemCommand,
};
use crate::record::Record;
use crate::remote_worker_notification::{
    NotificationAcknowledgement, NotificationDeliveryState, NotificationProposal, Notifications,
    RemoteWorkerNotificationError, WorkerDeliveryClaim,
};
use crate::repository_readiness::{RepositoryReadinessError, ScopePermit};
use crate::routine_cron_bridge::GateAction;
use crate::routine_materializer::{Progress, RoutineMaterializationError, Wake};
use crate::routine_repository::Routines;
use crate::schedule::{EnableError, Reading};
use crate::text;
use crate::work_item_repository::WorkItems;

verus! {

/// A record of the usage has the identifier.
pub open spec fn is_usage(usage: Seq<UsageRecord>, i: int, id: Seq<char>) -> bool {
    0 <= i < usage.len() && usage[i].id.value@ == id
}

/// A projection of another version is refused by that version, and usage by what is wrong with one
/// of its records: an identifier that an earlier record has, a missing work item or attempt, another
/// scope, no meter, or a meter whose amounts do not fit their total.
pub proof fn law_refused_usage_is_named(
    projection: EvaluationReplayProjection,
    usage: Seq<UsageRecord>,
    error: EvaluationSummaryError,
)
    requires
        crate::evaluation_summary::summary_result(projection, usage, Err(error)),
    ensures
        projection.schema_version != 1 <==> error is UnsupportedProjectionSchema,
        error is UnsupportedProjectionSchema ==> error->actual == projection.schema_version,
        error is DuplicateUsage ==> exists|i: int, j: int|
            i < j && #[trigger] is_usage(usage, i, error->DuplicateUsage_usage_record_id@)
                && #[trigger] is_usage(usage, j, error->DuplicateUsage_usage_record_id@),
        error is MissingUsageAttribution ==> exists|i: int| #[trigger]
            is_usage(usage, i, error->MissingUsageAttribution_usage_record_id@) && (
            usage[i].scope.work_item_id is None || usage[i].scope.attempt_id is None),
        error is UsageScopeMismatch ==> exists|i: int| #[trigger]
            is_usage(usage, i, error->UsageScopeMismatch_usage_record_id@)
                && usage[i].scope.work_item_id is Some && usage[i].scope.attempt_id is Some
                && !crate::evaluation_laws::is_recorded_for(usage[i], projection),
        error is EmptyMeter ==> exists|i: int| #[trigger]
            is_usage(usage, i, error->EmptyMeter_usage_record_id@) && usage[i].meter@.len() == 0
                && crate::evaluation_laws::is_recorded_for(usage[i], projection),
        error is MeterOverflow ==> crate::evaluation_laws::amount_of(
            crate::evaluation_laws::of_meter(usage, error->meter@),
        ) > u64::MAX,
        error is UnsupportedProjectionSchema || error is DuplicateUsage
            || error is MissingUsageAttribution || error is UsageScopeMismatch
            || error is EmptyMeter || error is MeterOverflow,
{
    if projection.schema_version == 1 {
        let i = choose|i: int|
            {
                &&& 0 <= i < usage.len()
                &&& crate::evaluation_summary::usage_is_sound(usage, projection, i)
                &&& (#[trigger] crate::evaluation_summary::usage_fault(
                    usage,
                    projection,
                    i,
                )) is Some
                &&& crate::evaluation_summary::says(
                    error,
                    crate::evaluation_summary::usage_fault(usage, projection, i)->0,
                )
            };
        assert(is_usage(usage, i, usage[i].id.value@));
        if crate::evaluation_summary::repeats_usage(usage, i) {
            let k = choose|k: int|
                0 <= k < i && (#[trigger] usage[k]).id.value@ == usage[i].id.value@;
            assert(is_usage(usage, k, usage[i].id.value@));
        }
        crate::evaluation_laws::lemma_sum_is_fold(usage, usage[i].meter@);
        crate::evaluation_laws::lemma_sum_grows(
            usage,
            usage[i].meter@,
            (i + 1) as nat,
            usage.len(),
        );
    }
}

/// A claim for a delivery that is not known is refused by its own name, and whatever is refused
/// changes nothing.
pub proof fn law_refused_claim_changes_nothing(
    before: Notifications,
    claim: WorkerDeliveryClaim,
    known: bool,
    r: Result<usize, RemoteWorkerNotificationError>,
    after: Notifications,
)
    requires
        crate::remote_worker_notification::claim_result(before, claim, known, r, after),
        !(r matches Err(RemoteWorkerNotificationError::Database { .. })),
    ensures
        r is Ok <==> known,
        r is Err ==> after == before && r->Err_0 is UnknownDelivery
            && r->Err_0->UnknownDelivery_delivery_id == claim.delivery_id,
{
}

/// An acknowledgement of a delivery that is not known is refused by its own name, and whatever is
/// refused changes nothing.
pub proof fn law_refused_acknowledgement_changes_nothing(
    before: Notifications,
    acknowledgement: NotificationAcknowledgement,
    r: Result<NotificationDeliveryState, RemoteWorkerNotificationError>,
    after: Notifications,
)
    requires
        crate::remote_worker_notification::acknowledge_result(before, acknowledgement, r, after),
        !(r matches Err(RemoteWorkerNotificationError::Database { .. })),
    ensures
        r is Ok <==> before.proposals.contains_key(acknowledgement.delivery_id@),
        r is Err ==> after == before && r->Err_0 is UnknownDelivery
            && r->Err_0->UnknownDelivery_delivery_id == acknowledgement.delivery_id,
{
}

/// A record of the evidence has the identifier.
pub open spec fn is_record(evidence: Seq<Evidence>, i: int, id: Seq<char>) -> bool {
    0 <= i < evidence.len() && evidence[i].id.value@ == id
}

/// A manifest that is refused for its evidence names a record of another scope, one whose reference
/// may not be read, or one whose identifier an earlier record has.
pub proof fn law_refused_evidence_is_named(
    organization_id: EntityId,
    repository_url: String,
    work_item: EntityId,
    attempt: EntityId,
    requested: usize,
    admitted: usize,
    truncated: bool,
    evidence: Seq<Evidence>,
    error: RepositoryReadinessError,
)
    requires
        crate::repository_readiness::build_result(
            ScopePermit::Permitted { organization_id, repository_url },
            work_item,
            attempt,
            requested,
            admitted,
            truncated,
            evidence,
            Err(error),
        ),
        admitted <= requested,
    ensures
        error is EvidenceScopeMismatch ==> exists|i: int| #[trigger]
            is_record(evidence, i, error->EvidenceScopeMismatch_evidence_id@) && !(
            crate::evidence_laws::is_same(evidence[i].organization_id, organization_id)
                && crate::evidence_laws::is_same(evidence[i].work_item_id, work_item)
                && crate::evidence_laws::is_same(evidence[i].attempt_id, attempt)),
        error is UnsafeEvidenceReference ==> exists|i: int| #[trigger]
            is_record(evidence, i, error->UnsafeEvidenceReference_evidence_id@)
                && !crate::ingress_laws::is_readable(evidence[i].reference@),
        error is DuplicateEvidence ==> exists|i: int, j: int|
            i < j && #[trigger] is_record(evidence, i, error->DuplicateEvidence_evidence_id@)
                && #[trigger] is_record(evidence, j, error->DuplicateEvidence_evidence_id@),
        error is EvidenceScopeMismatch || error is UnsafeEvidenceReference
            || error is DuplicateEvidence,
{
    let i = choose|i: int|
        {
            &&& 0 <= i < evidence.len()
            &&& crate::repository_readiness::is_sound(
                evidence,
                organization_id,
                work_item,
                attempt,
                i,
            )
            &&& (#[trigger] crate::repository_readiness::record_fault(
                evidence,
                organization_id,
                work_item,
                attempt,
                i,
            )) is Some
            &&& crate::repository_readiness::says(
                error,
                crate::repository_readiness::record_fault(
                    evidence,
                    organization_id,
                    work_item,
                    attempt,
                    i,
                )->0,
            )
        };
    let id = evidence[i].id.value@;
    assert(is_record(evidence, i, id));
    crate::ingress_laws::law_unsafe_references_may_not_be_read(evidence[i].reference@);
    let earlier = crate::repository_readiness::ids_of(evidence, i);
    if earlier.contains(id) {
        let k = choose|k: int| 0 <= k < earlier.len() && earlier[k] == id;
        assert(is_record(evidence, k, id));
    }
}

/// A refused event says its fault: what has no verified source says so, and every other names the
/// field or the key that it is about.
pub proof fn law_refused_events_say_their_fault(error: OpenTagAdapterError, fault: EventFault)
    requires
        crate::opentag_adapter::says(error, fault),
    ensures
        fault is Unverified <==> error is UnverifiedSource,
        fault is Field ==> error is InvalidField && error->field@ == fault->Field_0,
        fault is NotAllowed ==> error is MetadataNotAllowed && error->MetadataNotAllowed_key@
            == fault->NotAllowed_0,
        fault is TooLarge ==> error is MetadataTooLarge && error->MetadataTooLarge_key@
            == fault->TooLarge_0,
        fault is Credential ==> error is CredentialLikeMetadata
            && error->CredentialLikeMetadata_key@ == fault->Credential_0,
{
}

/// A faulty entry of the metadata is named by its key: one that is not allowed first, then one that
/// is too large, then one that speaks of a credential.
pub proof fn law_faulty_metadata_is_named_by_its_key(
    policy: OpenTagAdapterPolicy,
    key: Seq<char>,
    value: String,
)
    ensures
        ({
            let fault = crate::opentag_adapter::entry_fault(policy, (key, value));
            let allowed = crate::ingress_laws::allows(policy, key);
            let bounded = vstd::utf8::encode_utf8(value@).len() <= policy.max_metadata_value_bytes;
            let speaks = crate::ingress_laws::speaks_of_credentials(key)
                || crate::ingress_laws::speaks_of_credentials(value@);
            &&& !allowed ==> fault == Some(EventFault::NotAllowed(key))
            &&& allowed && !bounded ==> fault == Some(EventFault::TooLarge(key))
            &&& allowed && bounded && speaks ==> fault == Some(EventFault::Credential(key))
            &&& allowed && bounded && !speaks ==> fault is None
        }),
{
    crate::ingress_laws::lemma_clean_entry(policy, (key, value));
    crate::ingress_laws::lemma_credentials(key);
    crate::ingress_laws::lemma_credentials(value@);
    let names = text::views(policy.allowed_metadata_keys@);
    if names.contains(key) {
        let i = choose|i: int| 0 <= i < names.len() && names[i] == key;
        assert(policy.allowed_metadata_keys@[i]@ == key);
    }
    if crate::ingress_laws::allows(policy, key) {
        let i = choose|i: int|
            0 <= i < policy.allowed_metadata_keys@.len() && (
            #[trigger] policy.allowed_metadata_keys@[i])@ == key;
        assert(names[i] == key);
    }
}

/// The metadata is judged by its first faulty entry.
pub proof fn law_first_faulty_entry_decides(
    policy: OpenTagAdapterPolicy,
    entries: Seq<(Seq<char>, String)>,
    at: int,
)
    requires
        0 <= at < entries.len(),
        forall|i: int|
            0 <= i < at ==> crate::opentag_adapter::entry_fault(policy, #[trigger] entries[i])
                is None,
        crate::opentag_adapter::entry_fault(policy, entries[at]) is Some,
    ensures
        crate::opentag_adapter::metadata_fault(policy, entries)
            == crate::opentag_adapter::entry_fault(policy, entries[at]),
    decreases entries.len(),
{
    let shorter = entries.drop_last();
    if at < shorter.len() {
        assert forall|i: int| 0 <= i < at implies crate::opentag_adapter::entry_fault(
            policy,
            #[trigger] shorter[i],
        ) is None by {
            assert(shorter[i] == entries[i]);
        }
        law_first_faulty_entry_decides(policy, shorter, at);
    } else {
        assert forall|i: int| 0 <= i < shorter.len() implies crate::opentag_adapter::entry_fault(
            policy,
            #[trigger] shorter[i],
        ) is None by {
            assert(shorter[i] == entries[i]);
        }
        lemma_faultless(policy, shorter);
    }
}

/// Metadata without a faulty entry has no fault.
proof fn lemma_faultless(policy: OpenTagAdapterPolicy, entries: Seq<(Seq<char>, String)>)
    requires
        forall|i: int|
            0 <= i < entries.len() ==> crate::opentag_adapter::entry_fault(
                policy,
                #[trigger] entries[i],
            ) is None,
    ensures
        crate::opentag_adapter::metadata_fault(policy, entries) is None,
    decreases entries.len(),
{
    if entries.len() > 0 {
        let shorter = entries.drop_last();
        assert forall|i: int| 0 <= i < shorter.len() implies crate::opentag_adapter::entry_fault(
            policy,
            #[trigger] shorter[i],
        ) is None by {
            assert(shorter[i] == entries[i]);
        }
        lemma_faultless(policy, shorter);
        assert(entries[entries.len() - 1] == entries.last());
    }
}

/// A reading that is not verified is refused as it failed, or by the automations that stand in the
/// way, each by its name and its reason.
pub proof fn law_unverified_readings_name_the_blockers(
    mappings: Map<Seq<char>, Mapping>,
    reading: Reading,
    error: TransferError,
)
    requires
        crate::schedule::unverified(mappings, reading, false, error),
    ensures
        reading.outcome is Err ==> error == reading.outcome->Err_0,
        reading.outcome is Ok ==> error is EnableBlocked && error->blockers@.len() > 0
            && error->blockers@.len() == crate::cron_automation_transfer::blockers_of(
            mappings,
            reading.outcome->Ok_0@,
        ).len() && forall|i: int|
            0 <= i < error->blockers@.len() ==> is_blocker(
                #[trigger] error->blockers@[i],
                crate::cron_automation_transfer::blockers_of(mappings, reading.outcome->Ok_0@)[i],
            ),
{
    if reading.outcome is Ok {
        let told = crate::cron_automation_transfer::blocker_texts(error->blockers@);
        assert forall|i: int| 0 <= i < error->blockers@.len() implies is_blocker(
            #[trigger] error->blockers@[i],
            crate::cron_automation_transfer::blockers_of(mappings, reading.outcome->Ok_0@)[i],
        ) by {
            assert(told[i] == crate::cron_automation_transfer::blockers_of(
                mappings,
                reading.outcome->Ok_0@,
            )[i]);
        }
    }
}

/// A blocker says a name and a reason.
pub open spec fn is_blocker(blocker: (String, String), told: (Seq<char>, Seq<char>)) -> bool {
    blocker.0@ == told.0 && blocker.1@ == told.1
}

/// What is larger than a store can be is refused by its path and the four mebibytes that it may
/// have.
pub proof fn law_oversized_stores_name_the_cap(error: LegacyImportError, path: Seq<char>)
    requires
        crate::legacy_store::is_oversized(error, path),
    ensures
        error is InvalidStore,
        error->InvalidStore_reason@ == path + " exceeds the "@ + text::decimal(4_194_304)
            + " byte store cap"@,
{
}

/// A list that is too long is refused by what it is and the two thousand entries that it may have.
pub proof fn law_long_lists_name_the_cap(what: Seq<char>)
    ensures
        crate::legacy_store::cap_words(what) == what + " exceeds the "@ + text::decimal(2_000)
            + " entry cap"@,
{
}

/// A refusal of the command line is a message with the words, and no other kind of error.
pub proof fn law_refused_commands_are_messages(error: CliError, words: Seq<char>)
    requires
        crate::cli::says(error, words),
    ensures
        error is Message,
        error->Message_message@ == words,
{
}

/// An audit touches no work item, whether it lands or fails; without an event log of either kind it
/// leaves that one out.
pub proof fn law_audit_leaves_the_work_alone(
    before: Plane,
    record: MutationRecord,
    r: Result<(), ProtocolError>,
    after: Plane,
)
    requires
        crate::protocol_dispatch::audit_result(before, record, r, after),
    ensures
        after.work == before.work,
        before.activity is None ==> after.activity is None,
        before.control is None ==> after.control is None,
{
}

/// A decision that another one stands against is refused by the flag, the value that is recorded and
/// the value that was asked for.
pub proof fn law_refused_decision_names_both_values(
    before: Map<Seq<char>, Seq<char>>,
    key: Seq<char>,
    value: Seq<char>,
    error: EnableError,
    after: Map<Seq<char>, Seq<char>>,
)
    requires
        crate::schedule::record_result(before, key, value, Err(error), after),
        error is FlagConflict,
    ensures
        before.contains_key(key),
        before[key] != value,
        after == before,
        error->FlagConflict_message@ == "feature flag "@ + key + " is already "@
            + crate::outside::debug_quoted(before[key]) + "; refusing to overwrite it with "@
            + crate::outside::debug_quoted(value),
{
}

/// A cutover that stops over a flag stops over the owner or over the decision: another owner than the
/// one that was asked for is recorded, or another decision than the canonical one.
pub proof fn law_conflicting_cutover_meets_another_decision(
    mappings: Map<Seq<char>, Mapping>,
    flags: Map<Seq<char>, Seq<char>>,
    readings: Seq<Reading>,
    owner: Seq<char>,
    now: u64,
    error: EnableError,
    mappings_after: Map<Seq<char>, Mapping>,
    flags_after: Map<Seq<char>, Seq<char>>,
)
    requires
        crate::schedule::enable_result(
            mappings,
            flags,
            readings,
            owner,
            now,
            false,
            Err(error),
            mappings_after,
            flags_after,
        ),
        error is FlagConflict,
    ensures
        readings.len() == 1,
        readings[0].flags == flags,
        (flags.contains_key("schedule_owner"@) && flags["schedule_owner"@] != owner) || (
        flags.contains_key("control_plane_enabled"@) && flags["control_plane_enabled"@] != "true"@),
{
    reveal_strlit("schedule_owner");
    reveal_strlit("control_plane_enabled");
    assert("schedule_owner"@.len() != "control_plane_enabled"@.len());
}

/// The first reading of a cutover is taken under the flags as they were found, and every later one
/// under the flags that it leaves.
pub proof fn law_later_readings_are_taken_under_the_decision(
    mappings: Map<Seq<char>, Mapping>,
    flags: Map<Seq<char>, Seq<char>>,
    readings: Seq<Reading>,
    owner: Seq<char>,
    now: u64,
    fallible: bool,
    r: Result<usize, EnableError>,
    mappings_after: Map<Seq<char>, Mapping>,
    flags_after: Map<Seq<char>, Seq<char>>,
    i: int,
)
    requires
        crate::schedule::enable_result(
            mappings,
            flags,
            readings,
            owner,
            now,
            fallible,
            r,
            mappings_after,
            flags_after,
        ),
        0 <= i < readings.len(),
    ensures
        readings[0].flags == flags,
        i > 0 ==> readings[i].flags == flags_after,
        i > 0 ==> flags_after["schedule_owner"@] == owner && flags_after["control_plane_enabled"@]
            == "true"@,
{
    reveal_strlit("schedule_owner");
    reveal_strlit("control_plane_enabled");
    assert("schedule_owner"@.len() != "control_plane_enabled"@.len());
    if i > 0 {
        assert(readings.skip(1)[i - 1] == readings[i]);
    }
}

/// Routines are driven by the two actions that tick and by no other: with the mapped routines left
/// out before the cutover, and with none left out after it. Any other action touches neither
/// routines nor wakes.
pub proof fn law_routines_are_driven_by_ticks<F: Fn(&String, u64) -> Option<u64>>(
    action: GateAction,
    start: Progress,
    now: u64,
    evaluator: F,
    r: Option<Result<usize, RoutineMaterializationError>>,
    routines: Routines,
    wakes: Seq<Wake>,
)
    requires
        crate::routine_cron_bridge::performed(action, start, now, evaluator, r, routines, wakes),
    ensures
        r is Some <==> action is TickLegacy || action is TickCanonical,
        action is TickCanonical ==> crate::routine_materializer::materialized(
            start,
            Seq::empty(),
            now,
            evaluator,
            r->0,
            routines,
            wakes,
        ),
        action is TickLegacy ==> crate::routine_materializer::materialized(
            start,
            text::views(action->excluded@),
            now,
            evaluator,
            r->0,
            routines,
            wakes,
        ),
        r is None ==> routines == start.routines && wakes == start.wakes,
{
}

/// A proposal is held verbatim exactly where the record under its name has its worker, its scope,
/// its kind and its payload.
pub proof fn law_verbatim_proposals(state: Notifications, proposal: NotificationProposal)
    ensures
        crate::remote_worker_notification::holds_verbatim(state, proposal) <==> {
            let stored = state.proposals[proposal.delivery_id@];
            &&& state.proposals.contains_key(proposal.delivery_id@)
            &&& stored.worker.alike(&proposal.worker)
            &&& stored.scope.alike(&proposal.scope)
            &&& stored.event_kind@ == proposal.event_kind@
            &&& stored.payload@ == proposal.payload@
        },
{
}

/// A transition that changed the store, even one whose audit failed, was in order: the project was
/// known and the organization's, the item stood in it under the expected revision, and what stands
/// there now is the item with the status that was asked for.
pub proof fn law_changed_item_was_in_order(
    before: Plane,
    command: TransitionWorkItemCommand,
    actor: Actor,
    stamps: MutationStamps,
    r: Result<ProtocolOutcome, ProtocolError>,
    after: Plane,
)
    requires
        before.work is Some,
        crate::work_item_repository::keyed(before.work->0),
        crate::protocol_dispatch::transition_outcome(before, command, actor, stamps, r, after),
        after.work != before.work,
    ensures
        ({
            let work = before.work->0;
            let key = command.work_item_id.value@;
            let owner = work.projects[command.project_id.value@];
            let prior = work.items[key];
            let next = after.work->0.items[key];
            &&& before.activity is Some && before.control is Some
            &&& command.organization_id.kind@ == "organization_id"@
            &&& command.project_id.kind@ == "project_id"@
            &&& command.work_item_id.kind@ == "work_item_id"@
            &&& work.projects.contains_key(command.project_id.value@)
            &&& owner.kind@ == command.organization_id.kind@
            &&& owner.value@ == command.organization_id.value@
            &&& work.items.contains_key(key)
            &&& prior.project_id.value@ == command.project_id.value@
            &&& prior.revision.value == command.expected_revision.value
            &&& after.work is Some
            &&& after.work->0.items.contains_key(key)
            &&& next.status == command.to_status
            &&& next.updated_at == stamps.mutation
            &&& next.title == prior.title
            &&& next.description == prior.description
            &&& next.project_id == prior.project_id
        }),
{
    let key = command.work_item_id.value@;
    let work = before.work->0;
    if work.items.contains_key(key) {
        assert(work.items[key].id.value@ == key);
    }
}

/// A record whose work item another writer moved is refused by its own key, and nothing is written.
pub proof fn law_lost_record_names_its_key(
    before: Ledger,
    attribution: LegacyImportAttribution,
    projection: Projection,
    now: Seq<char>,
    error: LegacyImportError,
    after: Ledger,
)
    requires
        crate::legacy_import::project_result(
            before,
            attribution,
            projection,
            now,
            Err(error),
            after,
        ),
    ensures
        error is RevisionConflict || error is Database,
        error is RevisionConflict ==> error->legacy_key@ == projection.key && after == before,
        after.mappings == before.mappings,
{
}

/// An automation that is mapped is named by the rows that it was mapped to, both under its own name;
/// one without a trigger is told why, and nothing is written for it.
pub proof fn law_mapped_automation_is_named_by_its_rows(
    work: WorkItems,
    routines: Routines,
    automation: CronAutomationRecord,
    attribution: TransferAttribution,
    stamp: SnapshotStamp,
    disposition: Disposition,
    work_after: WorkItems,
    routines_after: Routines,
)
    requires
        crate::cron_automation_transfer::map_result(
            work,
            routines,
            automation,
            attribution,
            stamp,
            Ok(disposition),
            work_after,
            routines_after,
        ),
    ensures
        disposition is Mapped <==> automation.schedule is Cron,
        disposition is Mapped ==> {
            &&& disposition->routine_id.kind@ == "routine_id"@
            &&& disposition->routine_id.value@ == "snap_"@ + automation.id@
            &&& disposition->work_item_id.kind@ == "work_item_id"@
            &&& disposition->work_item_id.value@ == "snap_"@ + automation.id@
        },
        disposition is Incompatible ==> {
            &&& work_after == work
            &&& routines_after == routines
            &&& automation.schedule is At ==> disposition->reason@
                == "one-shot (At) schedule has no canonical trigger"@
            &&& automation.schedule is Every ==> disposition->reason@
                == "interval (Every) schedule has no canonical trigger"@
        },
{
}

/// An assignments member that is no array is refused as such, and one that is too long by its cap.
pub proof fn law_refused_assignments_say_why(
    members: Seq<MemberView>,
    error: LegacyImportError,
    at: int,
)
    requires
        crate::legacy_store::assignments_result(members, Err(error)),
        0 <= at < members.len(),
        members[at].0 == "assignments"@,
        forall|i: int| 0 <= i < at ==> (#[trigger] members[i]).0 != "assignments"@,
    ensures
        error is InvalidStore,
        members[at].1 is None ==> error->InvalidStore_reason@
            == "the assignments key must hold an array"@,
        members[at].1 is Some ==> error->InvalidStore_reason@ == "the assignment source"@
            + " exceeds the "@ + text::decimal(2_000) + " entry cap"@,
{
    crate::reading_laws::law_first_member_of_a_key(members, "assignments"@);
    let found = crate::legacy_store::member_at(members, "assignments"@) as int;
    if found < at {
        assert(members[found].0 != "assignments"@);
    }
    if at < found {
        assert(members[at].0 != "assignments"@);
    }
}

} // verus!
