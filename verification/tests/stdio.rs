use altai_control::stdio_host::{
    build_instance, bundle_failure, clarification_outcome, clear_mcp_workspaces,
    configure_mcp_server, create_automation, create_automation_at, cron_delivery, decode_automation_payload,
    delete_automation, delete_session_memory, dirs_checkpoint_root, encode_automation_payload,
    find_automation, list_automations, list_notifications, mark_notification_seen,
    memory_unavailable, mutate_notification, new_automation_id, pause_automation, probe_status, requested_root,
    resolve_notification, restart_mcp_server, retain_workspace_bundles, rewind_latest_turn_for_retry,
    session_workspace_root, set_mcp_server_enabled, trigger_automation, update_automation,
    update_automation_at, validate_automation_chat_id, validate_automation_id,
    validate_automation_schedule, validate_automation_schedule_at, validate_automation_title,
    workspace_bundle, AutomationPayload, BundleStage, CronInbound, McpServer, MemoryArea,
    NotificationChange, NotificationRow, ScheduleKind, ScheduledJob, ServiceSource, StdioAutomation,
    TranscriptMessage, MAX_INTERVAL_MS, MAX_RETRY_PROMPT_BYTES,
};

fn message(from_user: bool, text: Option<&str>) -> TranscriptMessage {
    TranscriptMessage { from_user, text: text.map(|value| value.to_string()) }
}

#[test]
fn a_clarification_is_answered_once() {
    assert!(clarification_outcome(true).is_ok());
    assert_eq!(clarification_outcome(false).unwrap_err(), "clarification_not_pending");
}

#[test]
fn a_retry_rewinds_the_latest_turn() {
    let transcript = vec![
        message(true, Some("first")),
        message(false, Some("answer")),
        message(true, Some("second")),
        message(false, None),
    ];
    let plan = rewind_latest_turn_for_retry(&transcript, &None).ok().unwrap();
    assert_eq!(plan.prompt, "second");
    assert_eq!(plan.keep_user_messages, 1);
    let replacement = Some("other".to_string());
    let plan = rewind_latest_turn_for_retry(&transcript, &replacement).ok().unwrap();
    assert_eq!(plan.prompt, "other");
    let plan = rewind_latest_turn_for_retry(&Vec::new(), &replacement).ok().unwrap();
    assert_eq!(plan.keep_user_messages, 0);
    assert_eq!(
        rewind_latest_turn_for_retry(&vec![message(true, None)], &None).err().unwrap(),
        "retry_prompt_not_found"
    );
    assert_eq!(
        rewind_latest_turn_for_retry(&transcript, &Some("  ".to_string())).err().unwrap(),
        "retry_prompt_not_found"
    );
    assert_eq!(
        rewind_latest_turn_for_retry(&transcript, &Some("x".repeat(MAX_RETRY_PROMPT_BYTES + 1)))
            .err()
            .unwrap(),
        "invalid_retry_prompt"
    );
}

#[test]
fn sessions_and_notifications_are_named_validly() {
    assert!(delete_session_memory("chat-1").is_ok());
    assert_eq!(delete_session_memory(" ").unwrap_err(), "invalid_chat_id");
    assert!(delete_session_memory(&"x".repeat(256)).is_ok());
    assert!(delete_session_memory(&"x".repeat(257)).is_err());
    let rows = vec![
        NotificationRow { notification_id: "n1".to_string(), channel: "tauri".to_string() },
        NotificationRow { notification_id: "n2".to_string(), channel: "stdio".to_string() },
    ];
    assert!(matches!(
        mark_notification_seen("n2", &rows),
        Ok(NotificationChange::MarkSeen { notification_id }) if notification_id == "n2"
    ));
    assert!(matches!(
        resolve_notification("n2", &rows),
        Ok(NotificationChange::Resolve { notification_id }) if notification_id == "n2"
    ));
    assert_eq!(mutate_notification("n1", true, &rows).unwrap_err(), "notification_not_found");
    assert_eq!(mutate_notification("", false, &rows).unwrap_err(), "invalid_notification_id");
}

#[test]
fn empty_roots_clear_nothing() {
    let roots = |names: &[&str]| names.iter().map(|name| name.to_string()).collect::<Vec<_>>();
    assert_eq!(clear_mcp_workspaces(&roots(&["/a", "", "/b", ""])), roots(&["/a", "/b"]));
    assert!(clear_mcp_workspaces(&roots(&[""])).is_empty());
}

#[test]
fn an_encoded_payload_is_decoded_again() {
    let parse = |message: &str| {
        let value: serde_json::Value = serde_json::from_str(message).ok()?;
        Some(AutomationPayload {
            altai_automation: value["altai_automation"].as_u64()? as u8,
            title: value["title"].as_str()?.to_string(),
            prompt: value["prompt"].as_str()?.to_string(),
        })
    };
    let round = |title: &str, prompt: &str| {
        decode_automation_payload(parse(&encode_automation_payload(title, prompt).unwrap()))
    };
    let odd = "quote \" backslash \\ tab \t bell \u{7} \u{2014}\n";
    let payload = round(odd, "\",\"prompt\":\"other").unwrap();
    assert_eq!(payload.altai_automation, 1);
    assert_eq!(payload.title, odd);
    assert_eq!(payload.prompt, "\",\"prompt\":\"other");
    assert!(round(" \n", "p").is_none());
    assert!(round("t", "").is_none());
}

fn server(id: &str, enabled: bool, settings: u8) -> McpServer<u8> {
    McpServer { id: id.to_string(), enabled, settings }
}

#[test]
fn tool_servers_are_replaced_added_switched_and_restarted() {
    let mut servers = vec![server("a", true, 1), server("b", false, 2)];
    configure_mcp_server(&mut servers, server("b", true, 3));
    configure_mcp_server(&mut servers, server("c", true, 4));
    assert_eq!(servers.iter().map(|s| s.settings).collect::<Vec<u8>>(), vec![1, 3, 4]);
    set_mcp_server_enabled(&mut servers, "a", false).unwrap();
    assert!(!servers[0].enabled && servers[0].settings == 1);
    assert_eq!(
        set_mcp_server_enabled(&mut servers, "z", true).unwrap_err(),
        "mcp_server_not_found"
    );
    assert_eq!(restart_mcp_server(&servers, "b").unwrap(), 1);
    assert_eq!(restart_mcp_server(&servers, "a").unwrap_err(), "mcp_server_disabled");
    assert_eq!(restart_mcp_server(&servers, "z").unwrap_err(), "mcp_server_not_found");
    let up = probe_status(&Ok(3));
    assert!(up.connected && up.tool_count == Some(3) && up.last_error.is_none());
    let down = probe_status(&Err("refused".to_string()));
    assert!(!down.connected && down.tool_count.is_none());
    assert_eq!(down.last_error.as_deref(), Some("refused"));
}

fn job(id: &str, channel: &str, message: &str, payload: Option<AutomationPayload>) -> ScheduledJob {
    ScheduledJob {
        id: id.to_string(),
        channel: channel.to_string(),
        chat_id: "chat".to_string(),
        message: message.to_string(),
        payload,
        schedule: ScheduleKind::Every { every_ms: 60_000 },
        enabled: true,
    }
}

fn payload(mark: u8, title: &str, prompt: &str) -> Option<AutomationPayload> {
    Some(AutomationPayload {
        altai_automation: mark,
        title: title.to_string(),
        prompt: prompt.to_string(),
    })
}

#[test]
fn only_stdio_automations_are_listed_in_the_order_of_their_names() {
    let jobs = vec![
        job("altai:b", "stdio", "m", payload(1, "B", "do b")),
        job("other", "stdio", "m", None),
        job("altai:a", "stdio", "whole message", payload(2, "A", "do a")),
        job("altai:c", "tauri", "m", None),
    ];
    let listed = list_automations(&jobs);
    assert_eq!(listed.len(), 2);
    assert_eq!(listed[0].id, "altai:a");
    assert_eq!(listed[0].title, "whole message");
    assert_eq!(listed[1].title, "B");
    assert_eq!(listed[1].prompt, "do b");
    assert_eq!(find_automation(&listed, "altai:b").unwrap(), 1);
    assert_eq!(find_automation(&listed, "altai:z").unwrap_err(), "automation_not_found");
    assert_eq!(find_automation(&listed, "b").unwrap_err(), "invalid_automation_id");
}

#[test]
fn payloads_are_encoded_as_json_and_decoded_by_their_mark() {
    assert_eq!(
        encode_automation_payload("Say \"hi\"", "line\nbreak").unwrap(),
        "{\"altai_automation\":1,\"title\":\"Say \\\"hi\\\"\",\"prompt\":\"line\\nbreak\"}"
    );
    assert!(decode_automation_payload(payload(1, "t", "p")).is_some());
    assert!(decode_automation_payload(payload(2, "t", "p")).is_none());
    assert!(decode_automation_payload(payload(1, " ", "p")).is_none());
    assert!(decode_automation_payload(None).is_none());
}

#[test]
fn automations_are_checked_field_by_field() {
    assert!(validate_automation_id(&new_automation_id()).is_ok());
    assert_ne!(new_automation_id(), new_automation_id());
    assert_eq!(validate_automation_id("x").unwrap_err(), "invalid_automation_id");
    assert_eq!(validate_automation_chat_id("a:b").unwrap_err(), "invalid_automation_chat_id");
    assert_eq!(validate_automation_title("  hi  ").unwrap(), "hi");
    assert_eq!(validate_automation_title(" ").unwrap_err(), "invalid_automation_title");
    let at = ScheduleKind::At { at_ms: 10 };
    assert_eq!(
        validate_automation_schedule_at(&at, 10).unwrap_err(),
        "automation_schedule_must_be_future"
    );
    assert!(validate_automation_schedule_at(&at, 9).is_ok());
    assert_eq!(
        validate_automation_schedule(&at).unwrap_err(),
        "automation_schedule_must_be_future"
    );
    assert!(validate_automation_schedule(&ScheduleKind::At { at_ms: i64::MAX }).is_ok());
    let every = |every_ms: i64| ScheduleKind::Every { every_ms };
    assert_eq!(
        validate_automation_schedule(&every(59_999)).unwrap_err(),
        "automation_interval_too_short"
    );
    assert!(validate_automation_schedule(&every(MAX_INTERVAL_MS)).is_ok());
    assert_eq!(
        validate_automation_schedule(&every(MAX_INTERVAL_MS + 1)).unwrap_err(),
        "automation_interval_too_long"
    );
    assert_eq!(
        validate_automation_schedule(&ScheduleKind::Cron { expr: "* * * * *".to_string() })
            .unwrap_err(),
        "automation_cron_not_supported"
    );
}

fn created() -> (StdioAutomation, String) {
    create_automation_at(
        "altai:1".to_string(),
        "chat",
        " Title ",
        " Do it ",
        ScheduleKind::Every { every_ms: 60_000 },
        0,
    )
    .ok()
    .unwrap()
}

#[test]
fn a_new_automation_is_trimmed_and_enabled() {
    let (automation, message) = created();
    assert_eq!((automation.title.as_str(), automation.prompt.as_str()), ("Title", "Do it"));
    assert!(automation.enabled);
    assert_eq!(message, "{\"altai_automation\":1,\"title\":\"Title\",\"prompt\":\"Do it\"}");
    let refused = create_automation("chat", "Title", " ", ScheduleKind::Every { every_ms: 1 });
    assert_eq!(refused.err().unwrap(), "invalid_automation_prompt");
    let refused = create_automation("a:b", "", "", ScheduleKind::Every { every_ms: 1 });
    assert_eq!(refused.err().unwrap(), "invalid_automation_chat_id");
    let past = create_automation("chat", "T", "P", ScheduleKind::At { at_ms: 1 });
    assert_eq!(past.err().unwrap(), "automation_schedule_must_be_future");
    let (fresh, _) = create_automation("chat", "T", "P", ScheduleKind::Every { every_ms: 60_000 })
        .ok()
        .unwrap();
    assert!(fresh.id.starts_with("altai:") && fresh.id.len() == 42);
}

#[test]
fn a_change_resends_only_what_changed() {
    let (existing, _) = created();
    let (updated, command) =
        update_automation_at(&existing, &Some(" New ".to_string()), &None, &None, None, 0)
            .ok()
            .unwrap();
    assert_eq!(updated.title, "New");
    assert_eq!(updated.prompt, "Do it");
    assert_eq!(
        command.message.as_deref(),
        Some("{\"altai_automation\":1,\"title\":\"New\",\"prompt\":\"Do it\"}")
    );
    assert!(command.schedule.is_none());
    let listed = vec![existing];
    let (updated, command) =
        update_automation(&listed, "altai:1", &None, &None, &None, Some(false)).ok().unwrap();
    assert!(!updated.enabled);
    assert!(command.message.is_none());
    assert_eq!(command.enabled, Some(false));
    let refused = update_automation(
        &listed,
        "altai:1",
        &None,
        &None,
        &Some(ScheduleKind::Every { every_ms: 1 }),
        None,
    );
    assert_eq!(refused.err().unwrap(), "automation_interval_too_short");
    assert_eq!(
        update_automation(&listed, "altai:2", &None, &None, &None, None).err().unwrap(),
        "automation_not_found"
    );
}

#[test]
fn automations_are_triggered_paused_and_removed_by_name() {
    let (existing, _) = created();
    let mut listed = vec![existing];
    assert_eq!(trigger_automation(&listed, "altai:1").unwrap(), 0);
    let (paused, command) = pause_automation(&listed, "altai:1").ok().unwrap();
    assert!(!paused.enabled && command.enabled == Some(false) && command.message.is_none());
    listed[0] = paused;
    assert_eq!(trigger_automation(&listed, "altai:1").unwrap_err(), "automation_paused");
    assert_eq!(trigger_automation(&listed, "x").unwrap_err(), "invalid_automation_id");
    assert_eq!(delete_automation(&listed, "altai:1").unwrap(), 0);
    assert_eq!(delete_automation(&listed, "altai:9").unwrap_err(), "automation_not_found");
}

#[test]
fn a_fired_job_delivers_its_instruction_into_its_chat() {
    let fired = |channel: &str, chat: &str, payload: Option<AutomationPayload>| CronInbound {
        channel: channel.to_string(),
        in_thread: false,
        chat_id: chat.to_string(),
        content: "whole".to_string(),
        payload,
    };
    assert_eq!(
        cron_delivery(fired("stdio", "chat", payload(1, "T", "do"))),
        Some(("chat".to_string(), "do".to_string()))
    );
    assert_eq!(
        cron_delivery(fired("stdio", "chat", None)),
        Some(("chat".to_string(), "whole".to_string()))
    );
    assert_eq!(cron_delivery(fired("tauri", "chat", None)), None);
    assert_eq!(cron_delivery(fired("stdio", " ", None)), None);
}

#[test]
fn a_workspace_keeps_the_services_it_has() {
    let running = vec!["/a".to_string(), "/b".to_string()];
    assert_eq!(workspace_bundle(&running, "/b", "/s"), ServiceSource::Running);
    assert_eq!(workspace_bundle(&running, "/s", "/s"), ServiceSource::Session);
    assert_eq!(workspace_bundle(&running, "/c", "/s"), ServiceSource::Opened);
    assert_eq!(retain_workspace_bundles(&running, "/b"), vec!["/b".to_string()]);
    assert!(retain_workspace_bundles(&running, "/z").is_empty());
    assert_eq!(session_workspace_root("/work//"), "/work/.isanagent");
    assert_eq!(requested_root("", "/own"), "/own");
    assert_eq!(requested_root("/given", "/own"), "/given");
}

#[test]
fn failures_of_services_and_memory_are_put_into_words() {
    assert_eq!(
        bundle_failure(BundleStage::Services, "locked"),
        "Failed to initialize workspace services: locked"
    );
    assert_eq!(
        bundle_failure(BundleStage::DatabasePath, ""),
        "workspace DB path is not valid UTF-8"
    );
    assert_eq!(
        bundle_failure(BundleStage::Cron, "x"),
        "Failed to initialize workspace cron actor: x"
    );
    assert_eq!(memory_unavailable(MemoryArea::Retry, None), "retry_memory_unavailable");
    assert_eq!(
        memory_unavailable(MemoryArea::Inbox, Some("gone")),
        "inbox_memory_unavailable: gone"
    );
}

#[test]
fn the_stdio_host_builds_on_its_own_channel() {
    let root = dirs_checkpoint_root(Some("/home/me".to_string()), None);
    assert_eq!(root.as_deref(), Some("/home/me/.altai/checkpoints"));
    assert_eq!(
        dirs_checkpoint_root(None, Some("/profile/".to_string())).as_deref(),
        Some("/profile/.altai/checkpoints")
    );
    assert_eq!(dirs_checkpoint_root(None, None), None);
    let hooks = build_instance(root, Some("scripted".to_string()));
    assert_eq!(hooks.channel_name, "stdio");
    assert_eq!(hooks.scripted_responses, Some(vec!["scripted".to_string()]));
    assert!(!hooks.suppress_agent_cron);
    let query = list_notifications(true);
    assert_eq!((query.limit, query.unseen_only), (200, true));
    assert_eq!(query.channel.as_deref(), Some("stdio"));
    assert!(query.chat_id.is_none());
}
