use altai_control::model::{Actor, EntityId};
use altai_control::opentag_adapter::{
    credential_like, normalize_opentag_event, AgentRepositoryError, AgentStatus, AgentTable,
    OpenTagAdapterError, OpenTagAdapterPolicy, OpenTagInboundEvent,
};
use altai_control::table::Table;

fn agents(status: AgentStatus) -> AgentTable {
    let mut agents = AgentTable::new();
    agents.put(&EntityId::new("agent_instance_id", "ai_opentag_target"), status);
    agents
}

fn policy() -> OpenTagAdapterPolicy {
    OpenTagAdapterPolicy {
        integration: "opentag".to_string(),
        allowed_metadata_keys: vec!["intent".to_string(), "source_kind".to_string()],
        max_metadata_entries: 2,
        max_metadata_value_bytes: 64,
    }
}

fn event() -> OpenTagInboundEvent {
    let mut metadata: Table<String> = Table::new();
    metadata.put("intent".to_string(), "review".to_string());
    OpenTagInboundEvent {
        verified: true,
        provider: "github".to_string(),
        provider_event_id: "evt_1".to_string(),
        external_actor_id: "user_1".to_string(),
        target_agent_instance_id: EntityId::new("agent_instance_id", "ai_opentag_target"),
        source_thread_uri: "github://org/repo/issues/1#comment-2".to_string(),
        metadata,
    }
}

fn refusal(event: OpenTagInboundEvent, agents: &AgentTable) -> OpenTagAdapterError {
    normalize_opentag_event(event, &policy(), agents).err().expect("the event is refused")
}

#[test]
fn verified_redelivery_has_one_stable_correlation_and_external_actor() {
    let agents = agents(AgentStatus::Active);
    let first = normalize_opentag_event(event(), &policy(), &agents).ok().unwrap();
    let second = normalize_opentag_event(event(), &policy(), &agents).ok().unwrap();
    assert_eq!(first.correlation_id, second.correlation_id);
    let digest = first.correlation_id.strip_prefix("ot_").unwrap();
    assert_eq!(digest.len(), 64);
    assert!(digest.chars().all(|c| matches!(c, '0'..='9' | 'a'..='f')));
    assert_eq!(first.target_agent_instance_id.value, second.target_agent_instance_id.value);
    assert_eq!(first.source_thread_uri, second.source_thread_uri);
    assert_eq!(first.metadata.len(), second.metadata.len());
    assert_eq!(first.metadata.get("intent"), second.metadata.get("intent"));
    assert!(matches!(
        first.source_actor,
        Actor::External { ref integration, ref external_actor_id }
            if integration == "opentag:github" && external_actor_id == "user_1"
    ));
}

#[test]
fn unverified_or_unregistered_source_never_resolves_a_target() {
    let agents = agents(AgentStatus::Active);
    let mut unsigned = event();
    unsigned.verified = false;
    assert!(matches!(refusal(unsigned, &agents), OpenTagAdapterError::UnverifiedSource));
    let mut unknown = event();
    unknown.target_agent_instance_id = EntityId::new("agent_instance_id", "ai_from_opentag");
    assert!(matches!(
        refusal(unknown, &agents),
        OpenTagAdapterError::TargetAgent(AgentRepositoryError::NotFound { .. })
    ));
}

#[test]
fn paused_target_and_untrusted_metadata_fail_closed() {
    let paused = agents(AgentStatus::Paused);
    assert!(matches!(
        refusal(event(), &paused),
        OpenTagAdapterError::TargetAgent(AgentRepositoryError::NotDispatchable { .. })
    ));
    let active = agents(AgentStatus::Active);
    let mut forbidden = event();
    forbidden.metadata.put("workspace_hint".to_string(), "secret-path".to_string());
    assert!(matches!(
        refusal(forbidden, &active),
        OpenTagAdapterError::MetadataNotAllowed { .. }
    ));
}

#[test]
fn metadata_is_bounded_and_holds_no_credential() {
    let active = agents(AgentStatus::Active);
    let mut large = event();
    large.metadata.put("intent".to_string(), "x".repeat(65));
    assert!(matches!(
        refusal(large, &active),
        OpenTagAdapterError::MetadataTooLarge { key } if key == "intent"
    ));
    let mut leaking = event();
    leaking.metadata.put("intent".to_string(), "my Password".to_string());
    assert!(matches!(
        refusal(leaking, &active),
        OpenTagAdapterError::CredentialLikeMetadata { key } if key == "intent"
    ));
    let mut blank = event();
    blank.provider = "  ".to_string();
    assert!(matches!(
        refusal(blank, &active),
        OpenTagAdapterError::InvalidField { field: "provider" }
    ));
    assert!(credential_like("APIKEY"));
    assert!(!credential_like("intent"));
}

#[test]
fn another_event_has_another_correlation() {
    let agents = agents(AgentStatus::Active);
    let first = normalize_opentag_event(event(), &policy(), &agents).ok().unwrap();
    let mut later = event();
    later.provider_event_id = "evt_2".to_string();
    let second = normalize_opentag_event(later, &policy(), &agents).ok().unwrap();
    assert_ne!(first.correlation_id, second.correlation_id);
}
