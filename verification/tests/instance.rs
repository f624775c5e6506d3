use altai_control::bus_router::{
    clarification_choices, route_outbound, router_step, AgentMessage, BusMessage, ChoiceItem,
    Delivery, LifecycleMoment, RouterAction, RouterEvent, RouterState, RunEventTransition,
    UserEvent,
};
use altai_control::instance_builder::{
    agent_definitions, apply_permission_mode, build_failure, build_shared_instance,
    checkpoint_plan, register_cron_tool, register_tools, BuildStage, ChannelKind, InstanceRequest, PromptParts, ProviderChoice,
    RegistrationStep, SharedInstanceHooks, ShellPolicy, ToolKind, ToolRegistry, ToolSwitches,
    DEFAULT_BASE_URL,
};

#[test]
fn cron_tool_is_withheld_when_canonical_scheduling_suppresses_fires() {
    let mut tools = ToolRegistry::new();
    let hooks = SharedInstanceHooks { suppress_agent_cron: true, ..Default::default() };
    register_cron_tool(&mut tools, &hooks);
    assert!(
        !tools.has_tool(ToolKind::Cron),
        "the agent-facing cron tool must be absent under canonical scheduling"
    );
}

#[test]
fn cron_tool_registers_when_scheduling_is_legacy() {
    let mut tools = ToolRegistry::new();
    let hooks = SharedInstanceHooks::default();
    register_cron_tool(&mut tools, &hooks);
    assert!(
        tools.has_tool(ToolKind::Cron),
        "legacy workspaces keep the agent-facing cron tool"
    );
}

#[test]
fn tools_are_registered_in_order_with_discovery_last() {
    let off = ToolSwitches {
        git_worktree: false,
        checkpoint: false,
        execution_harness: false,
        kernel_porting: false,
    };
    let bare = register_tools(off, &SharedInstanceHooks::default());
    assert_eq!(bare.steps.len(), 24);
    assert_eq!(bare.steps[0], RegistrationStep::Tool(ToolKind::ReadFile));
    assert_eq!(bare.steps.last(), Some(&RegistrationStep::Tool(ToolKind::ToolSearch)));
    let on = ToolSwitches {
        git_worktree: true,
        checkpoint: true,
        execution_harness: true,
        kernel_porting: true,
    };
    let full = register_tools(on, &SharedInstanceHooks::default());
    assert_eq!(full.steps.len(), 39);
    assert_eq!(full.steps[9], RegistrationStep::Tool(ToolKind::GitWorktree));
    assert_eq!(full.steps[10], RegistrationStep::Tool(ToolKind::Checkpoint));
    let last = full.steps.len() - 1;
    assert_eq!(full.steps[last - 1], RegistrationStep::PluginTools);
    assert_eq!(full.steps[last - 2], RegistrationStep::KernelPortingTools);
}

#[test]
fn the_checkpoint_store_is_set_once() {
    let root = Some("/root".to_string());
    let plan = checkpoint_plan(None, false, &root);
    assert_eq!(plan.init_root.as_deref(), Some("/root"));
    assert!(plan.register_tool && !plan.undo_disabled);
    let plan = checkpoint_plan(Some(true), true, &root);
    assert_eq!(plan.init_root, None);
    assert!(plan.register_tool);
    let plan = checkpoint_plan(None, false, &None);
    assert!(plan.undo_disabled && !plan.register_tool);
    let plan = checkpoint_plan(Some(false), true, &root);
    assert!(!plan.register_tool && !plan.undo_disabled);
}

fn instance_request() -> InstanceRequest<u8> {
    InstanceRequest {
        workspace_dir: "/work/.isanagent".to_string(),
        workspace_dir_exists: true,
        workspace_parent: Some("/work".to_string()),
        sandbox_default: "/sandbox".to_string(),
        state_dir: "/work/.isanagent".to_string(),
        restrict_to_workspace: None,
        git_worktree: false,
        checkpoint_enabled: Some(false),
        checkpoint_store_active: false,
        execution_harness: false,
        kernel_porting: false,
        base_url_override: None,
        configured_base_url: None,
        prompts: PromptParts {
            workspace_prompt: "Base.".to_string(),
            plugin_overlays: " Plugin.".to_string(),
            harness_overlay: Some("Harness.".to_string()),
            persona: Some("Kind.".to_string()),
            subagent_append: Some("Research.".to_string()),
            agent_catalog: " Agents.".to_string(),
        },
        max_iterations: None,
        max_tool_output_chars: Some(10),
        compaction: None,
        subagent_harness: false,
        policy: ShellPolicy {
            interactive_mode: 1,
            interactive_edit_mode: 2,
            unattended_edit_mode: 3,
        },
        shell_mode: None,
        edit_mode: None,
    }
}

#[test]
fn an_instance_is_built_from_its_request_and_its_host() {
    let plan = build_shared_instance(&instance_request(), &SharedInstanceHooks::default());
    assert_eq!(plan.owner_id.len(), 36);
    assert_eq!(plan.channel_id.len(), 36);
    assert_ne!(plan.owner_id, plan.channel_id);
    assert_eq!(plan.channel, ChannelKind::Tauri);
    assert_eq!(plan.sandbox_dir, "/work");
    assert_eq!(plan.plugin_root, "/work");
    assert!(plan.restrict_to_workspace);
    assert_eq!(plan.base_url, DEFAULT_BASE_URL);
    assert!(matches!(plan.provider, ProviderChoice::Remote));
    assert_eq!(
        plan.prompts.system_prompt,
        "Base. Plugin.\n\nHarness.\n\n## Persona\n\nKind. Agents."
    );
    assert_eq!(
        plan.prompts.subagent_system_prompt,
        "Base. Plugin.\n\nHarness.\n\n## Persona\n\nKind.\nResearch."
    );
    assert_eq!(plan.limits.max_iterations, 999);
    assert_eq!(plan.limits.max_tool_output_chars, 10);
    assert_eq!(plan.limits.max_recent_summaries, 5);
    assert_eq!(plan.limits.short_term_threshold_turns, 20);
    assert_eq!(plan.limits.short_term_threshold_tokens, 100_000);
    assert_eq!(plan.create_dir, None);
    assert_eq!(plan.cron_db_path, "/work/.isanagent/.system_generated/agent_memory.db");
    assert_eq!(plan.subagent_dir, None);
    assert_eq!(
        plan.policy,
        ShellPolicy { interactive_mode: 1, interactive_edit_mode: 2, unattended_edit_mode: 3 }
    );
}

#[test]
fn a_missing_state_directory_is_created_and_modes_reach_the_policy() {
    let mut request = instance_request();
    request.workspace_dir = "/fresh/".to_string();
    request.workspace_dir_exists = false;
    request.subagent_harness = true;
    request.shell_mode = Some(7);
    request.edit_mode = Some(8);
    let plan = build_shared_instance(&request, &SharedInstanceHooks::default());
    assert_eq!(plan.create_dir, Some("/fresh/.system_generated".to_string()));
    assert_eq!(plan.cron_db_path, "/fresh/.system_generated/agent_memory.db");
    assert_eq!(plan.subagent_dir, Some("/work".to_string()));
    assert_eq!(
        plan.policy,
        ShellPolicy { interactive_mode: 7, interactive_edit_mode: 8, unattended_edit_mode: 8 }
    );
}

#[test]
fn a_failed_build_names_the_stage() {
    let stage = BuildStage::StateDirectory { workspace_dir: "/w".to_string() };
    assert_eq!(build_failure(&stage, "denied"), "Failed to create workspace directory /w: denied");
    assert_eq!(
        build_failure(&BuildStage::Workspace, "bad"),
        "Failed to load IsanAgent workspace: bad"
    );
    assert_eq!(build_failure(&BuildStage::HostTools, "bad"), "bad");
    assert_eq!(build_failure(&BuildStage::ExecutionHarness, "bad"), "execution harness: bad");
    assert_eq!(build_failure(&BuildStage::Channel, "bad"), "ServiceChannel start failed: bad");
}

#[test]
fn a_scripted_stdio_host_has_its_own_channel_and_provider() {
    let mut request = instance_request();
    request.workspace_parent = None;
    request.base_url_override = Some("http://override".to_string());
    request.configured_base_url = Some("http://configured".to_string());
    let hooks = SharedInstanceHooks {
        checkpoint_root: None,
        scripted_responses: Some(vec!["ok".to_string()]),
        channel_name: "stdio",
        suppress_agent_cron: false,
    };
    let plan = build_shared_instance(&request, &hooks);
    assert_eq!(plan.channel, ChannelKind::Stdio);
    assert_eq!(plan.sandbox_dir, "/sandbox");
    assert_eq!(plan.plugin_root, "/work/.isanagent");
    assert_eq!(plan.base_url, "http://override");
    assert!(matches!(
        plan.provider,
        ProviderChoice::Scripted { responses } if responses == vec!["ok".to_string()]
    ));
}

#[test]
fn permission_modes_override_their_own_gates() {
    let policy =
        || ShellPolicy { interactive_mode: 1, interactive_edit_mode: 2, unattended_edit_mode: 3 };
    let merged = apply_permission_mode(&policy(), Some(7), None);
    assert_eq!(merged.interactive_mode, 7);
    assert_eq!((merged.interactive_edit_mode, merged.unattended_edit_mode), (2, 3));
    let merged = apply_permission_mode(&policy(), None, Some(8));
    assert_eq!(merged.interactive_mode, 1);
    assert_eq!((merged.interactive_edit_mode, merged.unattended_edit_mode), (8, 8));
    assert_eq!(agent_definitions(Vec::new(), vec![1, 2]), vec![1, 2]);
    assert_eq!(agent_definitions(vec![3], vec![1, 2]), vec![3]);
}

fn inbound(channel: &str, run_id: Option<&str>) -> RouterEvent {
    RouterEvent::Received {
        message: BusMessage::Inbound {
            channel: channel.to_string(),
            chat_id: "chat".to_string(),
            run_id: run_id.map(|run| run.to_string()),
        },
    }
}

#[test]
fn an_untrusted_message_is_admitted_before_it_is_forwarded() {
    let (state, action) = router_step(RouterState::Idle, inbound("stdio", None), "stdio");
    assert!(matches!(action, RouterAction::Trust { .. }));
    let (state, action) =
        router_step(state, RouterEvent::Trusted { run_id: Some("run".to_string()) }, "stdio");
    assert!(matches!(action, RouterAction::QueueRun { run_id, .. } if run_id == "run"));
    let (state, action) = router_step(state, RouterEvent::Decided { accepted: true }, "stdio");
    assert!(matches!(action, RouterAction::ForwardInbound { .. }));
    let (state, action) = router_step(state, RouterEvent::Sent { delivered: false }, "stdio");
    assert!(matches!(action, RouterAction::RollBack { run_id, .. } if run_id == "run"));
    assert!(matches!(state, RouterState::Idle));
}

#[test]
fn a_refused_run_is_dropped_and_foreign_messages_pass() {
    let admitting =
        RouterState::Admitting { chat_id: "chat".to_string(), run_id: "run".to_string() };
    let (state, action) = router_step(admitting, RouterEvent::Decided { accepted: false }, "stdio");
    assert!(matches!(action, RouterAction::ReportDropped { .. }));
    assert!(matches!(state, RouterState::Idle));
    let (_, action) = router_step(RouterState::Idle, inbound("tauri", None), "stdio");
    assert!(matches!(action, RouterAction::ForwardInbound { .. }));
    let (_, action) = router_step(RouterState::Idle, inbound("stdio", Some("run")), "stdio");
    assert!(matches!(action, RouterAction::ForwardInbound { .. }));
    let (_, action) = router_step(
        RouterState::Idle,
        RouterEvent::Received { message: BusMessage::Other },
        "stdio",
    );
    assert!(matches!(action, RouterAction::Wait));
}

#[test]
fn steering_and_cancelling_a_run_need_the_coordinator() {
    let steering = RouterState::Steering {
        chat_id: "chat".to_string(),
        run_id: "run".to_string(),
        content: "left".to_string(),
    };
    let (_, action) = router_step(steering, RouterEvent::Decided { accepted: true }, "stdio");
    assert!(matches!(action, RouterAction::ForwardSteer { content, .. } if content == "left"));
    let cancelling =
        RouterState::CancellingRun { chat_id: "chat".to_string(), run_id: "run".to_string() };
    let (_, action) = router_step(cancelling, RouterEvent::Decided { accepted: false }, "stdio");
    assert!(matches!(action, RouterAction::Wait));
    let cancelling = RouterState::Cancelling { chat_id: "chat".to_string() };
    let (_, action) = router_step(cancelling, RouterEvent::Decided { accepted: false }, "stdio");
    assert!(matches!(action, RouterAction::ForwardCancel { .. }));
}

#[test]
fn what_the_agent_emits_is_surfaced_persisted_or_ignored() {
    let items = Some(vec![
        ChoiceItem::Text { text: "yes".to_string() },
        ChoiceItem::Other,
        ChoiceItem::Text { text: "no".to_string() },
    ]);
    assert_eq!(clarification_choices(&items), vec!["yes", "no"]);
    let message = AgentMessage::Outbound {
        chat_id: "chat".to_string(),
        content: "which?".to_string(),
        is_clarification: true,
        choices: items,
        edit_diff: None,
    };
    match route_outbound(message) {
        Delivery::Surface { event: UserEvent::Clarification { choices, .. }, mark_waiting, .. } => {
            assert_eq!(choices, vec!["yes", "no"]);
            assert!(mark_waiting);
        }
        _ => panic!("expected a clarification"),
    }
    let ended = AgentMessage::Lifecycle {
        moment: LifecycleMoment::Terminated,
        chat_id: "chat".to_string(),
        run_id: "run".to_string(),
    };
    assert!(matches!(
        route_outbound(ended),
        Delivery::Persist { transition: RunEventTransition::Terminated { run_id }, .. }
            if run_id == "run"
    ));
    let unmapped = AgentMessage::Telemetry { mapped: false, system: true, chat_id: None };
    assert!(matches!(route_outbound(unmapped), Delivery::Ignore));
    let system = AgentMessage::Telemetry { mapped: true, system: true, chat_id: None };
    assert!(matches!(route_outbound(system), Delivery::Emit { chat_id } if chat_id.is_empty()));
    let own = AgentMessage::Telemetry {
        mapped: true,
        system: false,
        chat_id: Some("chat".to_string()),
    };
    assert!(matches!(route_outbound(own), Delivery::DeliverNext { chat_id } if chat_id == "chat"));
}
