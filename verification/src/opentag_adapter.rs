//! The bounded ingress of tag events: a verified source event becomes a small projection that names
//! a registered agent and an external actor, and nothing else.
use vstd::prelude::*;
use vstd::string::*;
use crate::model::{Actor, EntityId};
use crate::outside;
use crate::table::Table;
use crate::text;

verus! {

/// An event of a provider whose signature the edge has checked.
pub struct OpenTagInboundEvent {
    pub verified: bool,
    pub provider: String,
    pub provider_event_id: String,
    pub external_actor_id: String,
    pub target_agent_instance_id: EntityId,
    pub source_thread_uri: String,
    pub metadata: Table<String>,
}

/// What a provider may send along.
#[derive(Debug)]
pub struct OpenTagAdapterPolicy {
    pub integration: String,
    pub allowed_metadata_keys: Vec<String>,
    pub max_metadata_entries: usize,
    pub max_metadata_value_bytes: usize,
}

/// What is handed on.
pub struct NormalizedOpenTagEvent {
    pub correlation_id: String,
    pub source_actor: Actor,
    pub target_agent_instance_id: EntityId,
    pub source_thread_uri: String,
    pub metadata: Table<String>,
}

/// Whether an agent takes work.
#[derive(Debug, Clone, Copy, PartialEq, Eq, Structural)]
pub enum AgentStatus {
    Active,
    Paused,
}

/// Why an agent cannot be dispatched to.
#[derive(Debug)]
pub enum AgentRepositoryError {
    NotFound { agent_instance_id: String },
    NotDispatchable { agent_instance_id: String },
    /// The store itself failed.
    Internal { reason: String },
}

/// What comes of asking for an agent.
pub open spec fn dispatch_result(
    agents: Map<Seq<char>, AgentStatus>,
    id: EntityId,
    r: Result<(), AgentRepositoryError>,
) -> bool {
    let key = id.value@;
    match r {
        Ok(_) => agents.contains_key(key) && agents[key] == AgentStatus::Active,
        Err(AgentRepositoryError::NotFound { agent_instance_id }) => {
            !agents.contains_key(key) && agent_instance_id == id.value
        },
        Err(AgentRepositoryError::NotDispatchable { agent_instance_id }) => {
            agents.contains_key(key) && agents[key] != AgentStatus::Active && agent_instance_id
                == id.value
        },
        Err(AgentRepositoryError::Internal { .. }) => true,
    }
}

/// The registered agents.
pub trait AgentRepository {
    /// The store is in order.
    spec fn ready(&self) -> bool;

    /// The status of each agent.
    spec fn agents(&self) -> Map<Seq<char>, AgentStatus>;

    /// The store itself can fail, whatever it is asked.
    spec fn fallible(&self) -> bool;

    /// Checks that an agent takes work.
    fn ensure_dispatchable(&self, id: &EntityId) -> (r: Result<(), AgentRepositoryError>)
        requires
            self.ready(),
        ensures
            dispatch_result(self.agents(), *id, r),
            r matches Err(AgentRepositoryError::Internal { .. }) ==> self.fallible(),
    ;
}

/// Agents in memory.
pub struct AgentTable {
    rows: Table<AgentStatus>,
}

impl AgentTable {
    /// No agents.
    pub fn new() -> (r: Self)
        ensures
            r.ready(),
            r.agents() == Map::<Seq<char>, AgentStatus>::empty(),
    {
        AgentTable { rows: Table::new() }
    }

    /// Records the status of an agent.
    pub fn put(&mut self, id: &EntityId, status: AgentStatus)
        requires
            old(self).ready(),
        ensures
            final(self).ready(),
            final(self).agents() == old(self).agents().insert(id.value@, status),
    {
        self.rows.put(id.value.clone(), status);
    }
}

impl AgentRepository for AgentTable {
    closed spec fn ready(&self) -> bool {
        self.rows.wf()
    }

    closed spec fn agents(&self) -> Map<Seq<char>, AgentStatus> {
        self.rows@
    }

    open spec fn fallible(&self) -> bool {
        false
    }

    fn ensure_dispatchable(&self, id: &EntityId) -> (r: Result<(), AgentRepositoryError>)
        ensures
            r is Ok <==> self.agents().contains_key(id.value@) && self.agents()[id.value@]
                == AgentStatus::Active,
            r matches Err(error) ==> !(error is Internal),
    {
        match self.rows.get(&id.value) {
            Some(status) => {
                if *status == AgentStatus::Active {
                    Ok(())
                } else {
                    Err(
                        AgentRepositoryError::NotDispatchable {
                            agent_instance_id: id.value.clone(),
                        },
                    )
                }
            },
            None => Err(AgentRepositoryError::NotFound { agent_instance_id: id.value.clone() }),
        }
    }
}

/// Why an event is refused.
#[derive(Debug)]
pub enum OpenTagAdapterError {
    UnverifiedSource,
    InvalidField { field: &'static str },
    TargetAgent(AgentRepositoryError),
    MetadataNotAllowed { key: String },
    MetadataTooLarge { key: String },
    CredentialLikeMetadata { key: String },
}

/// What is wrong with an event, before any agent is asked for.
#[verifier::ext_equal]
pub ghost enum EventFault {
    Unverified,
    Field(Seq<char>),
    NotAllowed(Seq<char>),
    TooLarge(Seq<char>),
    Credential(Seq<char>),
}

/// The error says this fault.
pub open spec fn says(error: OpenTagAdapterError, fault: EventFault) -> bool {
    match (error, fault) {
        (OpenTagAdapterError::UnverifiedSource, EventFault::Unverified) => true,
        (OpenTagAdapterError::InvalidField { field }, EventFault::Field(name)) => field@ == name,
        (OpenTagAdapterError::MetadataNotAllowed { key }, EventFault::NotAllowed(name)) => key@
            == name,
        (OpenTagAdapterError::MetadataTooLarge { key }, EventFault::TooLarge(name)) => key@ == name,
        (
            OpenTagAdapterError::CredentialLikeMetadata { key },
            EventFault::Credential(name),
        ) => key@ == name,
        _ => false,
    }
}

/// The text looks like it carries a credential.
pub open spec fn looks_like_credential(value: Seq<char>) -> bool {
    let lower = text::lower(value);
    ||| text::contains(lower, "token"@)
    ||| text::contains(lower, "secret"@)
    ||| text::contains(lower, "credential"@)
    ||| text::contains(lower, "password"@)
    ||| text::contains(lower, "api_key"@)
    ||| text::contains(lower, "apikey"@)
}

/// Whether a text looks like it carries a credential.
pub fn credential_like(value: &str) -> (r: bool)
    ensures
        r == looks_like_credential(value@),
{
    let lower: String = text::to_lower(value);
    text::has(&lower, "token") || text::has(&lower, "secret") || text::has(&lower, "credential")
        || text::has(&lower, "password") || text::has(&lower, "api_key") || text::has(
        &lower,
        "apikey",
    )
}

/// What is wrong with an entry of the metadata.
pub open spec fn entry_fault(
    policy: OpenTagAdapterPolicy,
    entry: (Seq<char>, String),
) -> Option<EventFault> {
    if !text::views(policy.allowed_metadata_keys@).contains(entry.0) {
        Some(EventFault::NotAllowed(entry.0))
    } else if text::byte_len(entry.1@) > policy.max_metadata_value_bytes {
        Some(EventFault::TooLarge(entry.0))
    } else if looks_like_credential(entry.0) || looks_like_credential(entry.1@) {
        Some(EventFault::Credential(entry.0))
    } else {
        None
    }
}

/// What is wrong with the metadata: the fault of the first faulty entry, in key order.
pub open spec fn metadata_fault(
    policy: OpenTagAdapterPolicy,
    entries: Seq<(Seq<char>, String)>,
) -> Option<EventFault>
    decreases entries.len(),
{
    if entries.len() == 0 {
        None
    } else {
        let earlier = metadata_fault(policy, entries.drop_last());
        if earlier is Some {
            earlier
        } else {
            entry_fault(policy, entries.last())
        }
    }
}

/// What is wrong with an event.
pub open spec fn event_fault(
    event: OpenTagInboundEvent,
    policy: OpenTagAdapterPolicy,
) -> Option<EventFault> {
    if !event.verified {
        Some(EventFault::Unverified)
    } else if text::is_blank(policy.integration@) {
        Some(EventFault::Field("integration"@))
    } else if text::is_blank(event.provider@) {
        Some(EventFault::Field("provider"@))
    } else if text::is_blank(event.provider_event_id@) {
        Some(EventFault::Field("provider_event_id"@))
    } else if text::is_blank(event.external_actor_id@) {
        Some(EventFault::Field("external_actor_id"@))
    } else if text::is_blank(event.source_thread_uri@) {
        Some(EventFault::Field("source_thread_uri"@))
    } else if event.metadata.entries().len() > policy.max_metadata_entries {
        Some(EventFault::Field("metadata"@))
    } else {
        metadata_fault(policy, event.metadata.entries())
    }
}

/// The correlation of an event: the same event always has the same.
pub open spec fn correlation_of(
    integration: Seq<char>,
    provider: Seq<char>,
    provider_event_id: Seq<char>,
) -> Seq<char> {
    "ot_"@ + outside::text_digest(integration + "\n"@ + provider + "\n"@ + provider_event_id)
}

/// What an event is normalized to.
pub open spec fn is_normalized(
    event: OpenTagInboundEvent,
    policy: OpenTagAdapterPolicy,
    normalized: NormalizedOpenTagEvent,
) -> bool {
    &&& normalized.correlation_id@ == correlation_of(
        policy.integration@,
        event.provider@,
        event.provider_event_id@,
    )
    &&& normalized.source_actor matches Actor::External { integration, external_actor_id }
    &&& integration@ == policy.integration@ + ":"@ + event.provider@
    &&& external_actor_id == event.external_actor_id
    &&& normalized.target_agent_instance_id == event.target_agent_instance_id
    &&& normalized.source_thread_uri == event.source_thread_uri
    &&& normalized.metadata == event.metadata
}

/// Refuses a blank field.
fn non_empty(value: &str, field: &'static str) -> (r: Result<(), OpenTagAdapterError>)
    ensures
        match r {
            Ok(_) => !text::is_blank(value@),
            Err(error) => text::is_blank(value@) && says(error, EventFault::Field(field@)),
        },
{
    if text::blank(value) {
        Err(OpenTagAdapterError::InvalidField { field })
    } else {
        Ok(())
    }
}

/// Checks the metadata.
fn check_metadata(metadata: &Table<String>, policy: &OpenTagAdapterPolicy) -> (r: Result<
    (),
    OpenTagAdapterError,
>)
    requires
        metadata.wf(),
    ensures
        match r {
            Ok(_) => metadata_fault(*policy, metadata.entries()) is None,
            Err(error) => metadata_fault(*policy, metadata.entries()) matches Some(fault) && says(
                error,
                fault,
            ),
        },
{
    let ghost entries = metadata.entries();
    let count: usize = metadata.len();
    let mut i: usize = 0;
    assert(entries.take(0) =~= Seq::empty());
    while i < count
        invariant
            metadata.wf(),
            entries == metadata.entries(),
            count == entries.len(),
            i <= count,
            metadata_fault(*policy, entries.take(i as int)) is None,
        decreases count - i,
    {
        let key: &String = metadata.key(i);
        let value: &String = metadata.row(i);
        proof {
            assert(entries.take(i + 1).drop_last() =~= entries.take(i as int));
            assert(entries.take(i + 1).last() == entries[i as int]);
            if metadata_fault(*policy, entries.take(i + 1)) is Some {
                lemma_fault_stays(*policy, entries, i + 1);
            }
        }
        if !text::listed(&policy.allowed_metadata_keys, key) {
            return Err(OpenTagAdapterError::MetadataNotAllowed { key: key.clone() });
        }
        if text::byte_count(value) > policy.max_metadata_value_bytes {
            return Err(OpenTagAdapterError::MetadataTooLarge { key: key.clone() });
        }
        if credential_like(key) || credential_like(value) {
            return Err(OpenTagAdapterError::CredentialLikeMetadata { key: key.clone() });
        }
        i = i + 1;
    }
    assert(entries.take(i as int) =~= entries);
    Ok(())
}

/// A first fault stays the first fault.
proof fn lemma_fault_stays(
    policy: OpenTagAdapterPolicy,
    entries: Seq<(Seq<char>, String)>,
    at: int,
)
    requires
        0 <= at <= entries.len(),
        metadata_fault(policy, entries.take(at)) is Some,
    ensures
        metadata_fault(policy, entries) == metadata_fault(policy, entries.take(at)),
    decreases entries.len(),
{
    if at == entries.len() {
        assert(entries.take(at) =~= entries);
    } else {
        assert(entries.drop_last().take(at) =~= entries.take(at));
        lemma_fault_stays(policy, entries.drop_last(), at);
    }
}

/// Normalizes a verified event. It creates nothing; the agent must be registered and take work.
pub fn normalize_opentag_event<A: AgentRepository>(
    event: OpenTagInboundEvent,
    policy: &OpenTagAdapterPolicy,
    agents: &A,
) -> (r: Result<NormalizedOpenTagEvent, OpenTagAdapterError>)
    requires
        event.metadata.wf(),
        agents.ready(),
    ensures
        match r {
            Ok(normalized) => {
                &&& event_fault(event, *policy) is None
                &&& dispatch_result(agents.agents(), event.target_agent_instance_id, Ok(()))
                &&& is_normalized(event, *policy, normalized)
                &&& outside::is_digest(normalized.correlation_id@.skip("ot_"@.len() as int))
            },
            Err(OpenTagAdapterError::TargetAgent(error)) => {
                &&& event_fault(event, *policy) is None
                &&& dispatch_result(agents.agents(), event.target_agent_instance_id, Err(error))
                &&& error is Internal ==> agents.fallible()
            },
            Err(error) => event_fault(event, *policy) matches Some(fault) && says(error, fault),
        },
{
    if !event.verified {
        return Err(OpenTagAdapterError::UnverifiedSource);
    }
    match non_empty(&policy.integration, "integration") {
        Ok(_) => {},
        Err(error) => {
            return Err(error);
        },
    }
    match non_empty(&event.provider, "provider") {
        Ok(_) => {},
        Err(error) => {
            return Err(error);
        },
    }
    match non_empty(&event.provider_event_id, "provider_event_id") {
        Ok(_) => {},
        Err(error) => {
            return Err(error);
        },
    }
    match non_empty(&event.external_actor_id, "external_actor_id") {
        Ok(_) => {},
        Err(error) => {
            return Err(error);
        },
    }
    match non_empty(&event.source_thread_uri, "source_thread_uri") {
        Ok(_) => {},
        Err(error) => {
            return Err(error);
        },
    }
    if event.metadata.len() > policy.max_metadata_entries {
        return Err(OpenTagAdapterError::InvalidField { field: "metadata" });
    }
    match check_metadata(&event.metadata, policy) {
        Ok(_) => {},
        Err(error) => {
            return Err(error);
        },
    }
    match agents.ensure_dispatchable(&event.target_agent_instance_id) {
        Ok(_) => {},
        Err(error) => {
            return Err(OpenTagAdapterError::TargetAgent(error));
        },
    }
    let mut source: String = text::joined(&policy.integration, "\n");
    source.append(&event.provider);
    source.append("\n");
    source.append(&event.provider_event_id);
    let digest: String = outside::digest_text(&source);
    let mut integration: String = text::joined(&policy.integration, ":");
    integration.append(&event.provider);
    assert(("ot_"@ + digest@).skip("ot_"@.len() as int) =~= digest@);
    Ok(
        NormalizedOpenTagEvent {
            correlation_id: text::joined("ot_", &digest),
            source_actor: Actor::External {
                integration,
                external_actor_id: event.external_actor_id,
            },
            target_agent_instance_id: event.target_agent_instance_id,
            source_thread_uri: event.source_thread_uri,
            metadata: event.metadata,
        },
    )
}

/// A redelivered event has one correlation: it depends on the integration, the provider and the
/// provider's event alone, whatever else the delivery carries.
pub proof fn law_redelivery_keeps_the_correlation(
    first: OpenTagInboundEvent,
    second: OpenTagInboundEvent,
    policy: OpenTagAdapterPolicy,
    a: NormalizedOpenTagEvent,
    b: NormalizedOpenTagEvent,
)
    requires
        is_normalized(first, policy, a),
        is_normalized(second, policy, b),
        first.provider@ == second.provider@,
        first.provider_event_id@ == second.provider_event_id@,
    ensures
        a.correlation_id@ == b.correlation_id@,
{
}

/// No credential passes: every entry of an accepted event is allowed, bounded and does not look
/// like a credential.
pub proof fn law_accepted_metadata_is_clean(
    policy: OpenTagAdapterPolicy,
    entries: Seq<(Seq<char>, String)>,
    i: int,
)
    requires
        metadata_fault(policy, entries) is None,
        0 <= i < entries.len(),
    ensures
        text::views(policy.allowed_metadata_keys@).contains(entries[i].0),
        text::byte_len(entries[i].1@) <= policy.max_metadata_value_bytes,
        !looks_like_credential(entries[i].0),
        !looks_like_credential(entries[i].1@),
    decreases entries.len(),
{
    if i < entries.len() - 1 {
        law_accepted_metadata_is_clean(policy, entries.drop_last(), i);
    }
}

} // verus!
