//! What comes in and what it may read: which events are accepted, which manifests are built and who
//! drives a schedule, said of what is handed in.
use vstd::prelude::*;
use vstd::string::*;
use crate::evidence_replay::Evidence;
use crate::model::{Actor, EntityId};
use crate::opentag_adapter::{
    AgentRepositoryError, AgentStatus, EventFault, NormalizedOpenTagEvent, OpenTagAdapterError,
    OpenTagAdapterPolicy, OpenTagInboundEvent,
};
use crate::outside;
use crate::repository_readiness::{
    RepositoryReadinessError, RepositoryReadinessManifest, ScopePermit,
};
use crate::routine_cron_bridge::{GateAction, GateEvent, ScheduleAuthority};
use crate::text;

verus! {

/// A text holds something but white space.
pub open spec fn says_something(all: Seq<char>) -> bool {
    exists|i: int| 0 <= i < all.len() && !text::is_white_space(#[trigger] all[i])
}

/// A text speaks of a credential, in whatever case.
pub open spec fn speaks_of_credentials(all: Seq<char>) -> bool {
    ||| crate::evidence_laws::mentions(all, "token"@)
    ||| crate::evidence_laws::mentions(all, "secret"@)
    ||| crate::evidence_laws::mentions(all, "credential"@)
    ||| crate::evidence_laws::mentions(all, "password"@)
    ||| crate::evidence_laws::mentions(all, "api_key"@)
    ||| crate::evidence_laws::mentions(all, "apikey"@)
}

/// The policy allows the key.
pub open spec fn allows(policy: OpenTagAdapterPolicy, key: Seq<char>) -> bool {
    exists|i: int|
        0 <= i < policy.allowed_metadata_keys@.len() && (
        #[trigger] policy.allowed_metadata_keys@[i])@ == key
}

/// An entry of the metadata is allowed, bounded, and speaks of no credential in key or value.
pub open spec fn is_clean(policy: OpenTagAdapterPolicy, entry: (Seq<char>, String)) -> bool {
    &&& allows(policy, entry.0)
    &&& vstd::utf8::encode_utf8(entry.1@).len() <= policy.max_metadata_value_bytes
    &&& !speaks_of_credentials(entry.0)
    &&& !speaks_of_credentials(entry.1@)
}

/// An event is acceptable: verified, with something in each of its texts and in the name of the
/// integration, and with no more entries than allowed, each of them clean.
pub open spec fn is_acceptable(event: OpenTagInboundEvent, policy: OpenTagAdapterPolicy) -> bool {
    &&& event.verified
    &&& says_something(policy.integration@)
    &&& says_something(event.provider@)
    &&& says_something(event.provider_event_id@)
    &&& says_something(event.external_actor_id@)
    &&& says_something(event.source_thread_uri@)
    &&& event.metadata.entries().len() <= policy.max_metadata_entries
    &&& forall|i: int|
        0 <= i < event.metadata.entries().len() ==> is_clean(
            policy,
            #[trigger] event.metadata.entries()[i],
        )
}

/// What looks like a credential speaks of one.
pub proof fn lemma_credentials(all: Seq<char>)
    ensures
        crate::opentag_adapter::looks_like_credential(all) <==> speaks_of_credentials(all),
{
    crate::evidence_laws::lemma_mentions(all, "token"@);
    crate::evidence_laws::lemma_mentions(all, "secret"@);
    crate::evidence_laws::lemma_mentions(all, "credential"@);
    crate::evidence_laws::lemma_mentions(all, "password"@);
    crate::evidence_laws::lemma_mentions(all, "api_key"@);
    crate::evidence_laws::lemma_mentions(all, "apikey"@);
}

/// An entry has no fault exactly where it is clean.
pub proof fn lemma_clean_entry(policy: OpenTagAdapterPolicy, entry: (Seq<char>, String))
    ensures
        crate::opentag_adapter::entry_fault(policy, entry) is None <==> is_clean(policy, entry),
{
    lemma_credentials(entry.0);
    lemma_credentials(entry.1@);
    let names = text::views(policy.allowed_metadata_keys@);
    if names.contains(entry.0) {
        let i = choose|i: int| 0 <= i < names.len() && names[i] == entry.0;
        assert(policy.allowed_metadata_keys@[i]@ == entry.0);
    }
    if allows(policy, entry.0) {
        let i = choose|i: int|
            0 <= i < policy.allowed_metadata_keys@.len() && (
            #[trigger] policy.allowed_metadata_keys@[i])@ == entry.0;
        assert(names[i] == entry.0);
    }
}

/// Metadata has no fault exactly where every entry is clean.
proof fn lemma_clean_metadata(policy: OpenTagAdapterPolicy, entries: Seq<(Seq<char>, String)>)
    ensures
        crate::opentag_adapter::metadata_fault(policy, entries) is None <==> forall|i: int|
            0 <= i < entries.len() ==> is_clean(policy, #[trigger] entries[i]),
    decreases entries.len(),
{
    if entries.len() > 0 {
        let earlier = entries.drop_last();
        lemma_clean_metadata(policy, earlier);
        lemma_clean_entry(policy, entries.last());
        if crate::opentag_adapter::metadata_fault(policy, entries) is None {
            assert forall|i: int| 0 <= i < entries.len() implies is_clean(
                policy,
                #[trigger] entries[i],
            ) by {
                if i < earlier.len() {
                    assert(earlier[i] == entries[i]);
                }
            }
        }
        if forall|i: int| 0 <= i < entries.len() ==> is_clean(policy, #[trigger] entries[i]) {
            assert forall|i: int| 0 <= i < earlier.len() implies is_clean(
                policy,
                #[trigger] earlier[i],
            ) by {
                assert(earlier[i] == entries[i]);
            }
            assert(entries[entries.len() - 1] == entries.last());
        }
    }
}

/// Exactly the acceptable events have no fault. Of the others, an unverified one is refused as
/// such, and one with an empty text by the name of the first field that is empty.
pub proof fn law_acceptable_events_have_no_fault(
    event: OpenTagInboundEvent,
    policy: OpenTagAdapterPolicy,
)
    ensures
        crate::opentag_adapter::event_fault(event, policy) is None <==> is_acceptable(
            event,
            policy,
        ),
        !event.verified <==> crate::opentag_adapter::event_fault(event, policy) == Some(
            EventFault::Unverified,
        ),
        event.verified && !says_something(policy.integration@)
            ==> crate::opentag_adapter::event_fault(event, policy) == Some(
            EventFault::Field("integration"@),
        ),
        event.verified && says_something(policy.integration@) && !says_something(event.provider@)
            ==> crate::opentag_adapter::event_fault(event, policy) == Some(
            EventFault::Field("provider"@),
        ),
{
    lemma_clean_metadata(policy, event.metadata.entries());
    lemma_no_unverified(policy, event.metadata.entries());
}

/// A fault of the metadata is about an entry.
proof fn lemma_no_unverified(policy: OpenTagAdapterPolicy, entries: Seq<(Seq<char>, String)>)
    ensures
        crate::opentag_adapter::metadata_fault(policy, entries) != Some(EventFault::Unverified),
    decreases entries.len(),
{
    if entries.len() > 0 {
        lemma_no_unverified(policy, entries.drop_last());
    }
}

/// An agent takes work exactly where it is registered and active; one that is not registered is not
/// found, and one that is paused is not dispatchable.
pub proof fn law_active_agents_take_work(
    agents: Map<Seq<char>, AgentStatus>,
    id: EntityId,
    r: Result<(), AgentRepositoryError>,
)
    requires
        crate::opentag_adapter::dispatch_result(agents, id, r),
        !(r matches Err(AgentRepositoryError::Internal { .. })),
    ensures
        r is Ok <==> agents.contains_key(id.value@) && agents[id.value@] == AgentStatus::Active,
        !agents.contains_key(id.value@) <==> r is Err && r->Err_0 is NotFound,
        agents.contains_key(id.value@) && agents[id.value@] == AgentStatus::Paused <==> r is Err
            && r->Err_0 is NotDispatchable,
{
}

/// A normalized event names the same agent, thread and metadata, and an external actor of the
/// integration and the provider. Its correlation is the digest of integration, provider and event,
/// one per line.
pub proof fn law_normalized_event_is_the_event(
    event: OpenTagInboundEvent,
    policy: OpenTagAdapterPolicy,
    normalized: NormalizedOpenTagEvent,
)
    requires
        crate::opentag_adapter::is_normalized(event, policy, normalized),
    ensures
        normalized.target_agent_instance_id == event.target_agent_instance_id,
        normalized.source_thread_uri == event.source_thread_uri,
        normalized.metadata == event.metadata,
        normalized.source_actor matches Actor::External { integration, external_actor_id }
            && integration@ == policy.integration@ + seq![':'] + event.provider@
            && external_actor_id@ == event.external_actor_id@,
        normalized.correlation_id@ == "ot_"@ + outside::text_digest(
            policy.integration@ + seq!['\n'] + event.provider@ + seq!['\n']
                + event.provider_event_id@,
        ),
{
    reveal_strlit(":");
    reveal_strlit("\n");
    assert(":"@ =~= seq![':']);
    assert("\n"@ =~= seq!['\n']);
}

/// Events whose integration, provider or identifier differ line by line have different
/// correlations, unless the digests of those lines collide.
pub proof fn law_different_events_have_different_correlations(
    a: (Seq<char>, Seq<char>, Seq<char>),
    b: (Seq<char>, Seq<char>, Seq<char>),
)
    requires
        a.0 + seq!['\n'] + a.1 + seq!['\n'] + a.2 != b.0 + seq!['\n'] + b.1 + seq!['\n'] + b.2,
        ({
            let x = vstd::utf8::encode_utf8(a.0 + seq!['\n'] + a.1 + seq!['\n'] + a.2);
            let y = vstd::utf8::encode_utf8(b.0 + seq!['\n'] + b.1 + seq!['\n'] + b.2);
            outside::sha256(x) == outside::sha256(y) ==> x == y
        }),
    ensures
        crate::opentag_adapter::correlation_of(a.0, a.1, a.2)
            != crate::opentag_adapter::correlation_of(b.0, b.1, b.2),
{
    reveal_strlit("\n");
    assert("\n"@ =~= seq!['\n']);
    let x = a.0 + seq!['\n'] + a.1 + seq!['\n'] + a.2;
    let y = b.0 + seq!['\n'] + b.1 + seq!['\n'] + b.2;
    crate::text_laws::law_digests_differ(x, y);
    let head = "ot_"@;
    assert((head + outside::text_digest(x)).skip(head.len() as int) =~= outside::text_digest(x));
    assert((head + outside::text_digest(y)).skip(head.len() as int) =~= outside::text_digest(y));
}

/// A reference may be read: it is relative and mentions no credential.
pub open spec fn is_readable(reference: Seq<char>) -> bool {
    &&& !(reference.len() > 0 && reference[0] == '/')
    &&& !crate::evidence_laws::mentions(reference, "token="@)
    &&& !crate::evidence_laws::mentions(reference, "secret="@)
    &&& !crate::evidence_laws::mentions(reference, "password="@)
    &&& !crate::evidence_laws::mentions(reference, "api_key="@)
}

/// A reference is unsafe exactly where it may not be read.
pub proof fn law_unsafe_references_may_not_be_read(reference: Seq<char>)
    ensures
        crate::repository_readiness::is_unsafe(reference) <==> !is_readable(reference),
{
    reveal_strlit("/");
    crate::evidence_laws::lemma_mentions(reference, "token="@);
    crate::evidence_laws::lemma_mentions(reference, "secret="@);
    crate::evidence_laws::lemma_mentions(reference, "password="@);
    crate::evidence_laws::lemma_mentions(reference, "api_key="@);
    if text::begins_with(reference, "/"@) {
        assert(reference.subrange(0, 1)[0] == reference[0]);
    }
    if reference.len() > 0 && reference[0] == '/' {
        assert(reference.subrange(0, 1) =~= "/"@);
    }
}

/// A record stands in the scope of a manifest and may be read.
pub open spec fn is_readable_record(
    item: Evidence,
    organization: EntityId,
    work_item: EntityId,
    attempt: EntityId,
) -> bool {
    &&& crate::evidence_laws::is_same(item.organization_id, organization)
    &&& crate::evidence_laws::is_same(item.work_item_id, work_item)
    &&& crate::evidence_laws::is_same(item.attempt_id, attempt)
    &&& is_readable(item.reference@)
}

/// A manifest is built exactly where the repository is permitted, no more is admitted than was
/// requested, and every record is readable and occurs once. It says what was handed in and names
/// every record in order. A denied repository and a wrong measurement are refused before anything
/// else.
pub proof fn law_manifest_is_built_of_readable_records(
    permit: ScopePermit,
    work_item: EntityId,
    attempt: EntityId,
    requested: usize,
    admitted: usize,
    truncated: bool,
    evidence: Seq<Evidence>,
    r: Result<RepositoryReadinessManifest, RepositoryReadinessError>,
)
    requires
        crate::repository_readiness::build_result(
            permit,
            work_item,
            attempt,
            requested,
            admitted,
            truncated,
            evidence,
            r,
        ),
    ensures
        permit is Denied <==> r is Err && r->Err_0 is RepositoryDenied,
        permit is Permitted && admitted > requested <==> r is Err
            && r->Err_0 is InvalidByteMeasurement,
        r is Ok <==> {
            &&& permit is Permitted
            &&& admitted <= requested
            &&& forall|i: int|
                0 <= i < evidence.len() ==> is_readable_record(
                    #[trigger] evidence[i],
                    permit->organization_id,
                    work_item,
                    attempt,
                )
            &&& forall|i: int, j: int|
                0 <= i < j < evidence.len() ==> (#[trigger] evidence[i]).id.value@ != (
                #[trigger] evidence[j]).id.value@
        },
        r matches Ok(manifest) ==> {
            &&& manifest.schema_version == 1
            &&& manifest.organization_id == permit->organization_id
            &&& manifest.work_item_id == work_item
            &&& manifest.attempt_id == attempt
            &&& manifest.repository_url == permit->repository_url
            &&& manifest.requested_context_bytes == requested
            &&& manifest.admitted_context_bytes == admitted
            &&& manifest.context_truncated == truncated
            &&& manifest.evidence_ids@.len() == evidence.len()
            &&& forall|i: int|
                0 <= i < evidence.len() ==> (#[trigger] manifest.evidence_ids@[i])@
                    == evidence[i].id.value@
        },
{
    let organization = permit->organization_id;
    if let Ok(manifest) = r {
        let ids = crate::repository_readiness::ids_of(evidence, evidence.len() as int);
        assert(text::views(manifest.evidence_ids@) == ids);
        assert(manifest.evidence_ids@.len() == ids.len());
        assert forall|i: int| 0 <= i < evidence.len() implies (
        #[trigger] manifest.evidence_ids@[i])@ == evidence[i].id.value@ by {
            assert(text::views(manifest.evidence_ids@)[i] == ids[i]);
        }
        assert forall|i: int| 0 <= i < evidence.len() implies is_readable_record(
            #[trigger] evidence[i],
            organization,
            work_item,
            attempt,
        ) by {
            assert(crate::repository_readiness::record_fault(
                evidence,
                organization,
                work_item,
                attempt,
                i,
            ) is None);
            law_unsafe_references_may_not_be_read(evidence[i].reference@);
        }
        assert forall|i: int, j: int| 0 <= i < j < evidence.len() implies (
        #[trigger] evidence[i]).id.value@ != (#[trigger] evidence[j]).id.value@ by {
            assert(crate::repository_readiness::record_fault(
                evidence,
                organization,
                work_item,
                attempt,
                j,
            ) is None);
            let earlier = crate::repository_readiness::ids_of(evidence, j);
            assert(earlier[i] == evidence[i].id.value@);
            assert(earlier.contains(earlier[i]));
        }
    }
    if permit is Permitted && admitted <= requested && (forall|i: int|
        0 <= i < evidence.len() ==> is_readable_record(
            #[trigger] evidence[i],
            organization,
            work_item,
            attempt,
        )) && (forall|i: int, j: int|
        0 <= i < j < evidence.len() ==> (#[trigger] evidence[i]).id.value@ != (
        #[trigger] evidence[j]).id.value@) {
        assert forall|i: int| 0 <= i < evidence.len() implies #[trigger] crate::repository_readiness::record_fault(
            evidence,
            organization,
            work_item,
            attempt,
            i,
        ) is None by {
            assert(is_readable_record(evidence[i], organization, work_item, attempt));
            law_unsafe_references_may_not_be_read(evidence[i].reference@);
            let earlier = crate::repository_readiness::ids_of(evidence, i);
            if earlier.contains(evidence[i].id.value@) {
                let k = choose|k: int| 0 <= k < earlier.len() && earlier[k] == evidence[i].id.value@;
                assert(evidence[k].id.value@ != evidence[i].id.value@);
            }
        }
    }
}

/// The daemon drives a schedule exactly where the cutover is decided and the recorded owner is the
/// daemon. Without a ledger, or under another owner, it gives the lock up; where the cutover is
/// undecided it looks up the mapped routines first and then leaves exactly those out.
pub proof fn law_gate_follows_the_ledger(
    authority: ScheduleAuthority,
    mapped: Vec<String>,
    holding: bool,
)
    ensures
        ({
            let decided = authority.canonical_decided;
            let daemon = authority.owner is Some && authority.owner->0@ == "daemon"@;
            let next = crate::routine_cron_bridge::gate_action(
                GateEvent::LedgerRead { authority: Some(authority) },
                holding,
            );
            &&& next is ReadMappings <==> !decided
            &&& next is Release <==> decided && !daemon
            &&& next is TickCanonical <==> decided && daemon && holding
            &&& next is OpenWorkspace <==> decided && daemon && !holding
        }),
        crate::routine_cron_bridge::gate_action(
            GateEvent::LedgerRead { authority: None },
            holding,
        ) is Release,
        crate::routine_cron_bridge::gate_action(
            GateEvent::MappingsRead { routine_ids: None },
            holding,
        ) is Skip,
        crate::routine_cron_bridge::gate_action(
            GateEvent::MappingsRead { routine_ids: Some(mapped) },
            holding,
        ) == (GateAction::TickLegacy { excluded: mapped }),
        crate::routine_cron_bridge::gate_action(
            GateEvent::WorkspaceOpened { granted: true },
            holding,
        ) is TickCanonical,
        crate::routine_cron_bridge::gate_action(
            GateEvent::WorkspaceOpened { granted: false },
            holding,
        ) is Skip,
{
}

/// The lock is given up by a release, held after a canonical tick, and as it was after anything
/// else.
pub proof fn law_lock_after_an_action(action: GateAction, holding: bool)
    ensures
        action is Release ==> !crate::routine_cron_bridge::holds_after(action, holding),
        action is TickCanonical ==> crate::routine_cron_bridge::holds_after(action, holding),
        !(action is Release) && !(action is TickCanonical)
            ==> crate::routine_cron_bridge::holds_after(action, holding) == holding,
{
}

/// A flag counts as true exactly where it is recorded as that word.
pub proof fn law_flag_is_true_by_its_word(flag: Option<&str>)
    ensures
        crate::routine_cron_bridge::is_true(flag) <==> flag is Some && flag->0@ == "true"@,
{
}

} // verus!
