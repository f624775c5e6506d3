use altai_control::cli::{
    compaction_overrides, config_field, config_list, config_path, config_value, default_command,
    doctor, final_rendering,
    format_work_inbox_row, host_settings, inbox_list, is_duplicate_observed_bus_message,
    journal_event_line, journal_fetch, journal_summary, models_current, observe, observed,
    open_desktop, paperclip_spike_command, print_version, resolve_flag, resolve_prompt,
    resolve_run_permission, run_output_mode, run_prompt, run_result, run_verdict,
    run_without_color, serve_command, spike_error, work_create, work_item_line, work_list,
    work_review, work_show, workspace_project, AgentOptions, CliError, ConfigValue, DefaultArgs,
    DefaultRoute, DesktopOpening, FinalRendering, JournalEventRow, Observation, ObservedMessage,
    OutputMode, PermissionMode, ResolvedAgentConfig, ResolvedSetting, RunEnding, RunPlan,
    RunRequest, RunResult, RunSummary, RunSurroundings, SpikeArgs, SpikePlaneArg,
    TerminalAppearance, ThemeMode, WorkInboxRow, WorkListFilter,
};
use altai_control::desktop::{
    chosen_desktop, desktop_executable_candidates_for, missing_desktop_message, DesktopPlatform,
    RoutePath,
};
use altai_control::paperclip_spike::{SpikeFailure, SpikeMode, SpikePhase};

fn same_path(route: &RoutePath, path: &str) -> bool {
    let other = RoutePath::parse(path);
    route.absolute == other.absolute && route.names == other.names
}

fn no_options() -> DefaultArgs {
    DefaultArgs {
        prompt: None,
        no_tui: false,
        output: None,
        json: false,
        timeout: None,
        quiet: false,
    }
}

fn setting(value: &str, source: &str) -> Option<ResolvedSetting> {
    Some(ResolvedSetting { value: value.to_string(), source: source.to_string() })
}

#[test]
fn suppresses_immediate_duplicate_observed_bus_messages() {
    let started = Some("{\"RunLifecycle\":{\"Started\":{\"run_id\":\"run-1\",\"chat_id\":\"chat-1\"}}}".to_string());
    let next_run = Some("{\"RunLifecycle\":{\"Started\":{\"run_id\":\"run-2\",\"chat_id\":\"chat-1\"}}}".to_string());
    let control = Some("{\"Cancel\":\"chat-1\"}".to_string());
    let mut previous: Option<String> = None;

    assert!(!is_duplicate_observed_bus_message(&mut previous, true, started.clone()));
    assert!(is_duplicate_observed_bus_message(&mut previous, true, started.clone()));
    assert!(!is_duplicate_observed_bus_message(&mut previous, false, control));
    assert!(!is_duplicate_observed_bus_message(&mut previous, true, started));
    assert!(!is_duplicate_observed_bus_message(&mut previous, true, next_run));
}

#[test]
fn a_message_without_a_fingerprint_is_delivered() {
    let mut previous: Option<String> = Some("a".to_string());
    assert!(!is_duplicate_observed_bus_message(&mut previous, true, None));
    assert_eq!(previous.as_deref(), Some("a"));
}

#[test]
fn desktop_router_uses_sibling_binary_on_windows_and_linux() {
    let windows = desktop_executable_candidates_for(
        &RoutePath::parse("/Program Files/ALTAI/altai-cli.exe"),
        DesktopPlatform::Windows,
    );
    let linux = desktop_executable_candidates_for(
        &RoutePath::parse("/usr/bin/altai-cli"),
        DesktopPlatform::Linux,
    );
    assert_eq!(windows[0].names.last().map(|name| name.as_str()), Some("altai-desktop.exe"));
    assert!(same_path(&linux[0], "/usr/bin/altai-desktop"));
}

#[test]
fn desktop_router_resolves_macos_bundle_with_spaces() {
    let candidates = desktop_executable_candidates_for(
        &RoutePath::parse("/Applications/ALTAI Preview.app/Contents/Resources/bin/altai-cli"),
        DesktopPlatform::MacOs,
    );
    assert!(same_path(
        &candidates[0],
        "/Applications/ALTAI Preview.app/Contents/MacOS/altai-desktop"
    ));
    assert!(candidates
        .iter()
        .any(|route| same_path(route, "/Applications/ALTAI.app/Contents/MacOS/altai-desktop")));
}

#[test]
fn missing_desktop_error_lists_checked_routes() {
    let candidates = vec![
        RoutePath::parse("/missing/altai-desktop"),
        RoutePath::parse("/also missing/altai-desktop"),
    ];
    let message = missing_desktop_message(&candidates);
    assert!(message.contains("/missing/altai-desktop"));
    assert!(message.contains("/also missing/altai-desktop"));
    assert!(message.contains("unified installer"));
}

#[test]
fn the_installed_bundle_is_not_listed_twice_in_a_row() {
    let candidates = desktop_executable_candidates_for(
        &RoutePath::parse("/Applications/ALTAI.app/Contents/MacOS/altai-cli"),
        DesktopPlatform::MacOs,
    );
    assert_eq!(candidates.len(), 1);
    assert_eq!(candidates[0].to_text(), "/Applications/ALTAI.app/Contents/MacOS/altai-desktop");
}

#[test]
fn a_bare_program_name_has_its_sibling_in_the_current_directory() {
    let candidates =
        desktop_executable_candidates_for(&RoutePath::parse("altai-cli"), DesktopPlatform::Linux);
    assert_eq!(candidates[0].to_text(), "altai-desktop");
    let root =
        desktop_executable_candidates_for(&RoutePath::parse("/"), DesktopPlatform::Linux);
    assert_eq!(root[0].to_text(), "./altai-desktop");
}

#[test]
fn the_first_standing_route_is_opened() {
    let candidates = vec![RoutePath::parse("/a"), RoutePath::parse("/b")];
    assert_eq!(chosen_desktop(&vec![false, true]), 1);
    assert_eq!(
        open_desktop(&candidates, &vec![false, true], false).unwrap(),
        DesktopOpening::Launch { route: 1 }
    );
    assert_eq!(
        open_desktop(&candidates, &vec![false, false], true).unwrap(),
        DesktopOpening::Preview { route: 0 }
    );
    assert_eq!(
        open_desktop(&candidates, &vec![false, false], false).unwrap_err().to_text(),
        "ALTAI Desktop was not found. Checked: /a, /b. Reinstall ALTAI with the unified installer."
    );
}

#[test]
fn one_shot_only_options_require_prompt() {
    let mut args = no_options();
    args.output = Some(OutputMode::Json);
    let error = default_command(args).err().expect("prompt should be required");
    assert!(error.to_text().contains("--output require --prompt"));
}

#[test]
fn every_one_shot_option_is_named_in_order() {
    let args = DefaultArgs {
        prompt: None,
        no_tui: false,
        output: Some(OutputMode::Json),
        json: true,
        timeout: Some("30s".to_string()),
        quiet: true,
    };
    let error = default_command(args).err().expect("prompt should be required");
    assert_eq!(
        error.to_text(),
        "--output, --json, --timeout, --quiet require --prompt <TEXT>"
    );
}

#[test]
fn no_tui_conflicts_with_root_prompt() {
    let mut args = no_options();
    args.prompt = Some("hello".to_string());
    args.no_tui = true;
    let error = default_command(args).err().expect("--no-tui should be rejected");
    assert!(error.to_text().contains("--no-tui is only valid"));
}

#[test]
fn a_prompt_runs_and_its_absence_starts_a_session() {
    let mut args = no_options();
    args.prompt = Some("hello".to_string());
    args.timeout = Some("5m".to_string());
    match default_command(args) {
        Ok(DefaultRoute::Run { prompt, output, json, timeout, quiet }) => {
            assert_eq!(prompt, "hello");
            assert_eq!(output, OutputMode::Pretty);
            assert!(!json);
            assert_eq!(timeout.as_deref(), Some("5m"));
            assert!(!quiet);
        }
        _ => panic!("expected a run"),
    }
    let mut args = no_options();
    args.no_tui = true;
    assert!(matches!(default_command(args), Ok(DefaultRoute::Agent { no_tui: true })));
}

#[test]
fn host_unavailable_has_the_reserved_exit_code() {
    assert_eq!(CliError::HostUnavailable { command: "agent" }.exit_code(), 10);
}

#[test]
fn every_error_has_its_exit_code_and_its_words() {
    let message = CliError::Message { message: "no".to_string() };
    assert_eq!((message.exit_code(), message.to_text()), (1, "no".to_string()));
    let failed = CliError::RunFailed { code: 4, message: "denied".to_string() };
    assert_eq!((failed.exit_code(), failed.to_text()), (4, "denied".to_string()));
    let failure = SpikeFailure::new(SpikePhase::Checkout, "claim", "late".to_string());
    let spike = spike_error(&failure);
    assert_eq!(
        (spike.exit_code(), spike.to_text()),
        (34, "paperclip-spike failed: [checkout] claim: late".to_string())
    );
    assert!(CliError::HostUnavailable { command: "agent" }
        .to_text()
        .starts_with("`altai-cli agent` is declared but cannot run yet"));
}

#[test]
fn machine_contract_labels_are_stable() {
    assert_eq!(PermissionMode::Ask.as_str(), "ask");
    assert_eq!(PermissionMode::AutoEdit.as_str(), "auto-edit");
    assert_eq!(PermissionMode::Plan.as_str(), "plan");
    assert_eq!(PermissionMode::Bypass.as_str(), "bypass");
    assert_eq!(ThemeMode::Auto.as_str(), "auto");
    assert_eq!(ThemeMode::Dark.as_str(), "dark");
    assert_eq!(ThemeMode::Light.as_str(), "light");
    assert_eq!(ThemeMode::NoColor.as_str(), "no-color");
    assert_eq!(OutputMode::Pretty.as_str(), "pretty");
    assert_eq!(OutputMode::Plain.as_str(), "plain");
    assert_eq!(OutputMode::Final.as_str(), "final");
    assert_eq!(OutputMode::Json.as_str(), "json");
    assert_eq!(OutputMode::Jsonl.as_str(), "jsonl");
}

#[test]
fn config_value_keeps_origins_machine_readable() {
    match config_value(&setting("test/model", "project-config"), true) {
        ConfigValue::WithOrigin { value, source } => {
            assert_eq!(value.as_deref(), Some("test/model"));
            assert_eq!(source, "project-config");
        }
        ConfigValue::Bare { .. } => panic!("the origin must be shown"),
    }
}

#[test]
fn an_unset_setting_says_so() {
    assert!(matches!(config_value(&None, false), ConfigValue::Bare { value: None }));
    match config_value(&None, true) {
        ConfigValue::WithOrigin { value, source } => {
            assert_eq!(value, None);
            assert_eq!(source, "default");
        }
        ConfigValue::Bare { .. } => panic!("the origin must be shown"),
    }
    assert_eq!(config_field("model", &None, true), "model: <unset> (default)");
    assert_eq!(config_field("model", &None, false), "model: <unset>");
    assert_eq!(config_field("model", &setting("m", "user-config"), true), "model: m (user-config)");
    assert_eq!(config_field("model", &setting("m", "user-config"), false), "model: m");
}

#[test]
fn only_resolved_configuration_is_listed() {
    let config = ResolvedAgentConfig {
        model: setting("m", "cli"),
        fallback_model: None,
        provider: setting("p", "user-config"),
        base_url: None,
    };
    assert_eq!(
        config_list(true, &config, false).unwrap(),
        vec![
            "model: m".to_string(),
            "fallback_model: <unset>".to_string(),
            "provider: p".to_string(),
            "base_url: <unset>".to_string(),
        ]
    );
    assert_eq!(
        config_list(false, &config, false).unwrap_err().to_text(),
        "only resolved configuration is available in this build; pass --resolved"
    );
    assert_eq!(
        models_current(&config, true),
        vec!["model: m (cli)".to_string(), "fallback_model: <unset> (default)".to_string()]
    );
}

#[test]
fn canonical_inbox_router_lists_an_empty_workspace() {
    assert!(inbox_list(&Vec::new()).is_empty());
}

#[test]
fn canonical_inbox_output_is_direct_camel_case_and_human_readable() {
    let item = WorkInboxRow {
        kind: "review_required".to_string(),
        work_id: "work_1".to_string(),
        title: "Review Work".to_string(),
        why: "Attempt finished \u{2014} decide Accept or Return".to_string(),
    };
    assert_eq!(
        format_work_inbox_row(&item),
        "review_required\twork_1\tReview Work\tAttempt finished \u{2014} decide Accept or Return"
    );
}

#[test]
fn run_contract_parses_compaction_flags() {
    let preview = compaction_overrides(true, Some(50_000), Some(8));
    assert_eq!(preview.auto, Some(false));
    assert_eq!(preview.threshold_tokens, Some(50_000));
    assert_eq!(preview.tail_turns, Some(8));
    assert_eq!(compaction_overrides(false, None, None).auto, None);
}

#[test]
fn inbox_rows_and_work_lines_are_tab_separated() {
    let row = WorkInboxRow {
        kind: "review_required".to_string(),
        work_id: "work_1".to_string(),
        title: "Review Work".to_string(),
        why: "Attempt finished \u{2014} decide Accept or Return".to_string(),
    };
    assert_eq!(
        format_work_inbox_row(&row),
        "review_required\twork_1\tReview Work\tAttempt finished \u{2014} decide Accept or Return"
    );
    assert_eq!(work_item_line("work_1", "active", 3, "Fix"), "work_1\tactive\trev 3\tFix");
    let lines = inbox_list(&vec![row]);
    assert_eq!(lines.len(), 1);
    assert!(lines[0].starts_with("review_required\twork_1\t"));
    assert!(inbox_list(&Vec::new()).is_empty());
}

#[test]
fn work_commands_check_what_they_are_given() {
    assert_eq!(work_list("active").unwrap(), WorkListFilter::MyActive);
    assert_eq!(work_list("my-active").unwrap(), WorkListFilter::MyActive);
    assert_eq!(work_list("my_active").unwrap(), WorkListFilter::MyActive);
    assert_eq!(work_list("review").unwrap(), WorkListFilter::Review);
    assert_eq!(work_list("backlog").unwrap(), WorkListFilter::Backlog);
    assert_eq!(work_list("done").unwrap(), WorkListFilter::Done);
    assert_eq!(work_list("all").unwrap_err().to_text(), "unknown filter: all");
    assert!(work_review(true, false).unwrap());
    assert!(!work_review(false, true).unwrap());
    assert_eq!(
        work_review(false, false).unwrap_err().to_text(),
        "work review requires --accept or --return"
    );
    assert_eq!(
        work_review(true, true).unwrap_err().to_text(),
        "pass only one of --accept or --return"
    );
    assert_eq!(work_show(Some(7), "work_1").unwrap(), 7);
    let missing: Option<u8> = None;
    assert_eq!(work_show(missing, "work_1").unwrap_err().to_text(), "work not found: work_1");
    assert_eq!(work_create(Some("task")).unwrap(), "task");
    let unknown: Option<u8> = None;
    assert_eq!(
        work_create(unknown).unwrap_err().to_text(),
        "kind must be task, ticket, or campaign"
    );
    assert_eq!(workspace_project(None), "workspace");
    assert_eq!(workspace_project(Some("repo".to_string())), "repo");
}

#[test]
fn journal_lines_are_aligned_and_complete() {
    let run = |id: &str, terminal: Option<&str>| RunSummary {
        run_id: id.to_string(),
        chat_id: "chat-1".to_string(),
        last_seq: 9,
        terminal_kind: terminal.map(|kind| kind.to_string()),
    };
    assert_eq!(
        journal_summary("/w", &vec![run("run-1", None)], &Some("chat-1".to_string()), &None),
        vec![
            "Workspace: /w".to_string(),
            "Incomplete runs:".to_string(),
            "  run-1 (chat chat-1, last_seq 9)".to_string(),
            "Latest run for chat-1: none".to_string(),
        ]
    );
    assert_eq!(
        journal_summary(
            "/w",
            &Vec::new(),
            &Some("chat-1".to_string()),
            &Some(run("run-2", Some("completed")))
        ),
        vec![
            "Workspace: /w".to_string(),
            "Incomplete runs: none".to_string(),
            "Latest run for chat-1: run-2 (last_seq 9, terminal completed)".to_string(),
        ]
    );
    assert_eq!(
        journal_summary("/w", &Vec::new(), &Some("c".to_string()), &Some(run("run-3", None)))[2],
        "Latest run for c: run-3 (last_seq 9, terminal pending)"
    );
    let event = |seq: u64| JournalEventRow {
        seq,
        kind: "text".to_string(),
        payload: "{}".to_string(),
    };
    assert_eq!(journal_event_line(&event(42)), "    42  text  {}");
    assert_eq!(
        journal_fetch(&vec![event(1_234_567), event(1)]),
        vec!["1234567  text  {}".to_string(), "     1  text  {}".to_string()]
    );
}

#[test]
fn the_installation_is_described_in_lines() {
    assert_eq!(
        config_path("/w", "/w/.altai/config.toml", "/w/.isanagent/config.toml"),
        vec![
            "Workspace: /w".to_string(),
            "ALTAI config: /w/.altai/config.toml".to_string(),
            "IsanAgent config: /w/.isanagent/config.toml".to_string(),
        ]
    );
    assert_eq!(print_version("1.2.3"), "altai-cli 1.2.3");
    let lines = doctor(2, "\"builtin\"");
    assert_eq!(lines[0], "ALTAI CLI foundation: ready");
    assert_eq!(lines[1], "Event schema: v2");
    assert_eq!(lines[2], "Palette source: \"builtin\"");
    assert_eq!(lines[3], "Theme modes: dark, light, no-color");
}

fn run_request(prompt: &str) -> RunRequest {
    RunRequest {
        prompt: prompt.to_string(),
        output: OutputMode::Pretty,
        json: false,
        dry_run: false,
        permission: None,
        theme: ThemeMode::Auto,
    }
}

fn surroundings() -> RunSurroundings<u64> {
    RunSurroundings {
        stdin: Ok(String::new()),
        workspace_error: None,
        terminal: true,
        no_color: false,
        timeout: Ok(Some(30)),
    }
}

#[test]
fn a_run_settles_its_prompt_before_its_workspace_and_its_limit() {
    match run_prompt(&run_request("fix"), surroundings()).unwrap() {
        RunPlan::Execute { prompt, output, permission, timeout, no_color } => {
            assert_eq!(prompt, "fix");
            assert_eq!(output, OutputMode::Pretty);
            assert_eq!(permission, PermissionMode::Ask);
            assert_eq!(timeout, Some(30));
            assert!(!no_color);
        }
        RunPlan::Preview { .. } => panic!("the run is executed"),
    }
    let mut broken = surroundings();
    broken.workspace_error = Some("no workspace".to_string());
    broken.timeout = Err("bad timeout".to_string());
    let error = run_prompt(&run_request(" "), broken).err().unwrap();
    assert_eq!(error.to_text(), "prompt must not be empty");
    let mut broken = surroundings();
    broken.workspace_error = Some("no workspace".to_string());
    broken.timeout = Err("bad timeout".to_string());
    let error = run_prompt(&run_request("fix"), broken).err().unwrap();
    assert_eq!(error.to_text(), "no workspace");
    let mut broken = surroundings();
    broken.timeout = Err("bad timeout".to_string());
    let error = run_prompt(&run_request("fix"), broken).err().unwrap();
    assert_eq!(error.to_text(), "bad timeout");
    let mut broken = surroundings();
    broken.timeout = Err("bad timeout".to_string());
    let mut dry = run_request("fix");
    dry.dry_run = true;
    dry.json = true;
    assert!(matches!(
        run_prompt(&dry, broken),
        Ok(RunPlan::Preview { prompt, output: OutputMode::Jsonl }) if prompt == "fix"
    ));
}

#[test]
fn an_observed_copy_is_neither_journaled_nor_printed() {
    let message = |print: &str| ObservedMessage {
        observable: true,
        fingerprint: Some(print.to_string()),
        tool_started: None,
    };
    let mut previous = None;
    assert!(matches!(
        observed(&mut previous, message("a"), OutputMode::Jsonl, false),
        Some(Observation::Emit)
    ));
    assert!(observed(&mut previous, message("a"), OutputMode::Jsonl, false).is_none());
    assert!(observed(&mut previous, message("b"), OutputMode::Jsonl, false).is_some());
    assert_eq!(previous.as_deref(), Some("b"));
}

#[test]
fn serving_needs_stdio_and_the_protocol_version() {
    assert!(serve_command(true, 1).is_ok());
    assert_eq!(
        serve_command(true, 2).unwrap_err().to_text(),
        "serve requires --stdio --protocol 1"
    );
    assert!(serve_command(false, 1).is_err());
}

#[test]
fn the_prompt_comes_from_the_line_or_from_stdin() {
    let held = |text: &str| -> Result<String, String> { Ok(text.to_string()) };
    assert_eq!(resolve_prompt("hello ", &held("")).unwrap(), "hello ");
    assert_eq!(resolve_prompt("-", &held(" from stdin \n\n")).unwrap(), " from stdin");
    assert_eq!(
        resolve_prompt("-", &held(" \n")).unwrap_err().to_text(),
        "stdin prompt was empty"
    );
    assert_eq!(
        resolve_prompt("-", &Err("closed".to_string())).unwrap_err().to_text(),
        "could not read prompt from stdin: closed"
    );
    assert_eq!(
        resolve_prompt(" \t", &held("x")).unwrap_err().to_text(),
        "prompt must not be empty"
    );
}

#[test]
fn a_run_without_a_terminal_only_plans() {
    assert_eq!(resolve_run_permission(None, true), PermissionMode::Ask);
    assert_eq!(resolve_run_permission(None, false), PermissionMode::Plan);
    assert_eq!(
        resolve_run_permission(Some(PermissionMode::Bypass), false),
        PermissionMode::Bypass
    );
    assert_eq!(run_output_mode(true, OutputMode::Pretty), OutputMode::Jsonl);
    assert_eq!(run_output_mode(false, OutputMode::Json), OutputMode::Json);
    assert!(run_without_color(ThemeMode::NoColor, false));
    assert!(run_without_color(ThemeMode::Dark, true));
    assert!(!run_without_color(ThemeMode::Dark, false));
}

#[test]
fn a_host_gets_what_the_command_line_says() {
    let options = AgentOptions {
        model: Some("m".to_string()),
        fallback_model: None,
        permission: Some(PermissionMode::Plan),
        resume: Some("chat-1".to_string()),
        files: vec!["README.md".to_string()],
        no_auto_compact: true,
        compact_threshold: Some(50_000),
        compact_tail: Some(8),
    };
    let settings = host_settings(options, TerminalAppearance::NoColor, true);
    assert_eq!(settings.model.as_deref(), Some("m"));
    assert_eq!(settings.permission, Some(PermissionMode::Plan));
    assert!(settings.no_color);
    assert!(settings.line_mode);
    assert_eq!(settings.files, vec!["README.md".to_string()]);
    assert_eq!(settings.compaction.auto, Some(false));
    assert_eq!(settings.compaction.threshold_tokens, Some(50_000));
    assert_eq!(settings.compaction.tail_turns, Some(8));
}

#[test]
fn observers_emit_events_or_name_tools() {
    assert!(matches!(observe(OutputMode::Jsonl, true, None), Observation::Emit));
    assert!(matches!(
        observe(OutputMode::Plain, false, Some("bash".to_string())),
        Observation::NameTool { tool } if tool == "bash"
    ));
    assert!(matches!(
        observe(OutputMode::Pretty, true, Some("bash".to_string())),
        Observation::Silent
    ));
    assert!(matches!(
        observe(OutputMode::Final, false, Some("bash".to_string())),
        Observation::Silent
    ));
    assert_eq!(final_rendering(OutputMode::Jsonl), FinalRendering::StreamEvent);
    assert_eq!(final_rendering(OutputMode::Json), FinalRendering::Object);
    assert_eq!(final_rendering(OutputMode::Plain), FinalRendering::Pretty);
}

#[test]
fn a_run_ends_by_its_host_its_user_or_its_clock() {
    let resume = Some("chat-1".to_string());
    let finished = RunEnding::Finished {
        result: RunResult {
            chat_id: "chat-2".to_string(),
            run_id: Some("run-1".to_string()),
            outcome: "completed",
            final_text: Some("done".to_string()),
        },
    };
    let result = run_result(finished, &resume, "cancelled", "timed_out").ok().unwrap();
    assert_eq!(result.chat_id, "chat-2");
    assert_eq!(result.outcome, "completed");
    let result =
        run_result(RunEnding::Interrupted, &resume, "cancelled", "timed_out").ok().unwrap();
    assert_eq!((result.chat_id.as_str(), result.outcome), ("chat-1", "cancelled"));
    assert_eq!(result.run_id, None);
    let result = run_result(RunEnding::OutOfTime, &None, "cancelled", "timed_out").ok().unwrap();
    assert_eq!((result.chat_id.as_str(), result.outcome), ("", "timed_out"));
    let error = run_result(
        RunEnding::HostFailed { reason: "boom".to_string() },
        &resume,
        "cancelled",
        "timed_out",
    )
    .err()
    .unwrap();
    assert_eq!(
        (error.exit_code(), error.to_text()),
        (10, "IsanAgent oneshot host failed: boom".to_string())
    );
    let error = run_result(
        RunEnding::TaskFailed { reason: "panicked".to_string() },
        &resume,
        "cancelled",
        "timed_out",
    )
    .err()
    .unwrap();
    assert_eq!(error.to_text(), "IsanAgent oneshot task failed: panicked");
    assert!(run_verdict(0, None, "completed").is_ok());
    assert_eq!(run_verdict(3, None, "timed_out").unwrap_err().to_text(), "run ended with timed_out");
    let error = run_verdict(4, Some("denied".to_string()), "denied").unwrap_err();
    assert_eq!((error.exit_code(), error.to_text()), (4, "denied".to_string()));
}

#[test]
fn a_downstream_plane_is_named_whole_or_not_at_all() {
    let text = |value: &str| Some(value.to_string());
    assert_eq!(resolve_flag(text("a"), text("b")).as_deref(), Some("a"));
    assert_eq!(resolve_flag(None, text("b")).as_deref(), Some("b"));
    assert_eq!(resolve_flag(None, text("")), None);
    assert_eq!(resolve_flag(text(""), text("b")).as_deref(), Some(""));
    let args = |plane: SpikePlaneArg| SpikeArgs {
        plane,
        bind: text("127.0.0.1:4000"),
        bootstrap_token: None,
        bootstrap_token_env: text("given"),
        downstream_url: None,
        downstream_url_env: None,
        downstream_issue: None,
        downstream_issue_env: None,
    };
    let mut whole = args(SpikePlaneArg::Real);
    whole.downstream_url = text("http://x");
    whole.downstream_issue_env = text("i");
    match paperclip_spike_command(whole) {
        Ok(SpikeMode::Real { bind, downstream: Some(plane), bootstrap_token }) => {
            assert_eq!(bind.as_deref(), Some("127.0.0.1:4000"));
            assert_eq!(bootstrap_token.as_deref(), Some("given"));
            assert_eq!(plane.base_url, "http://x");
            assert_eq!(plane.issue_id, "i");
        }
        _ => panic!("expected a real plane with a downstream"),
    }
    assert!(matches!(paperclip_spike_command(args(SpikePlaneArg::Stub)), Ok(SpikeMode::Stub)));
    let mut half = args(SpikePlaneArg::Stub);
    half.downstream_url = text("http://x");
    let mode = paperclip_spike_command(half);
    assert_eq!(
        mode.err().unwrap().to_text(),
        "--downstream-url and --downstream-issue (or their env fallbacks) must be set together"
    );
}
