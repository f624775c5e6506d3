//! What the commands of the terminal program decide before and after they touch the outside.
use vstd::prelude::*;
use vstd::string::*;
use crate::desktop::{chosen_desktop, missing_desktop_message, RoutePath};
use crate::paperclip_spike::{DownstreamPlane, SpikeFailure, SpikeMode};
use crate::text;

verus! {

/// How protected shell commands and file edits are approved.
#[derive(Debug, Clone, Copy, PartialEq, Eq, Structural)]
pub enum PermissionMode {
    /// Prompt before protected shell commands and file edits.
    Ask,
    /// Apply file edits automatically while retaining protected shell prompts.
    AutoEdit,
    /// Read-only planning.
    Plan,
    /// The guarded bypass policy, which always requires an explicit flag.
    Bypass,
}

impl PermissionMode {
    /// The name of the mode.
    pub fn as_str(&self) -> (r: &'static str)
        ensures
            r@ == match *self {
                PermissionMode::Ask => "ask"@,
                PermissionMode::AutoEdit => "auto-edit"@,
                PermissionMode::Plan => "plan"@,
                PermissionMode::Bypass => "bypass"@,
            },
    {
        match self {
            PermissionMode::Ask => "ask",
            PermissionMode::AutoEdit => "auto-edit",
            PermissionMode::Plan => "plan",
            PermissionMode::Bypass => "bypass",
        }
    }
}

/// Which terminal theme is asked for.
#[derive(Debug, Clone, Copy, PartialEq, Eq, Structural)]
pub enum ThemeMode {
    /// Select a theme from the terminal's capabilities.
    Auto,
    Dark,
    Light,
    /// Preserve the structure without foreground colors.
    NoColor,
}

impl ThemeMode {
    /// The name of the theme.
    pub fn as_str(&self) -> (r: &'static str)
        ensures
            r@ == match *self {
                ThemeMode::Auto => "auto"@,
                ThemeMode::Dark => "dark"@,
                ThemeMode::Light => "light"@,
                ThemeMode::NoColor => "no-color"@,
            },
    {
        match self {
            ThemeMode::Auto => "auto",
            ThemeMode::Dark => "dark",
            ThemeMode::Light => "light",
            ThemeMode::NoColor => "no-color",
        }
    }
}

/// How a one-shot run prints its result.
#[derive(Debug, Clone, Copy, PartialEq, Eq, Structural)]
pub enum OutputMode {
    /// Interactive human-oriented output.
    Pretty,
    /// Line-oriented human output.
    Plain,
    /// Only the terminal assistant result.
    Final,
    /// One structured object for the final result.
    Json,
    /// The versioned event stream.
    Jsonl,
}

impl OutputMode {
    /// The name of the mode.
    pub fn as_str(&self) -> (r: &'static str)
        ensures
            r@ == match *self {
                OutputMode::Pretty => "pretty"@,
                OutputMode::Plain => "plain"@,
                OutputMode::Final => "final"@,
                OutputMode::Json => "json"@,
                OutputMode::Jsonl => "jsonl"@,
            },
    {
        match self {
            OutputMode::Pretty => "pretty",
            OutputMode::Plain => "plain",
            OutputMode::Final => "final",
            OutputMode::Json => "json",
            OutputMode::Jsonl => "jsonl",
        }
    }
}

/// Why a command did not succeed.
#[derive(Debug)]
pub enum CliError {
    /// A refusal or a failure in words.
    Message { message: String },
    /// A command that still lacks a host integration.
    HostUnavailable { command: &'static str },
    /// A run that ended otherwise than in success, with the exit code of its outcome.
    RunFailed { code: u8, message: String },
    /// A failed acceptance spike; the code names the phase that broke.
    Spike { code: u8, message: String },
}

impl CliError {
    /// The process exit code. A missing host integration has the code that is reserved for
    /// internal errors.
    pub fn exit_code(&self) -> (r: u8)
        ensures
            r == match *self {
                CliError::Message { .. } => 1,
                CliError::HostUnavailable { .. } => 10,
                CliError::RunFailed { code, .. } => code,
                CliError::Spike { code, .. } => code,
            },
    {
        match self {
            CliError::HostUnavailable { .. } => 10,
            CliError::RunFailed { code, .. } => *code,
            CliError::Spike { code, .. } => *code,
            CliError::Message { .. } => 1,
        }
    }

    /// The error in words.
    pub fn to_text(&self) -> (r: String)
        ensures
            r@ == match *self {
                CliError::Message { message } => message@,
                CliError::HostUnavailable { command } => "`altai-cli "@ + command@
                    + HOST_UNAVAILABLE@,
                CliError::RunFailed { message, .. } => message@,
                CliError::Spike { message, .. } => "paperclip-spike failed: "@ + message@,
            },
    {
        match self {
            CliError::Message { message } => message.clone(),
            CliError::HostUnavailable { command } => {
                let mut out: String = text::joined("`altai-cli ", command);
                out.append(HOST_UNAVAILABLE);
                out
            },
            CliError::RunFailed { message, .. } => message.clone(),
            CliError::Spike { message, .. } => text::joined("paperclip-spike failed: ", message),
        }
    }
}

/// What is said of a command that cannot run yet.
pub const HOST_UNAVAILABLE: &'static str =
    "` is declared but cannot run yet: the ALTAI adapter needs the reusable IsanAgent host API. Use `altai-cli doctor` to inspect the installed foundation.";

/// The error is a refusal in these words.
pub open spec fn says(error: CliError, words: Seq<char>) -> bool {
    error matches CliError::Message { message } && message@ == words
}

/// A refusal in these words.
fn refusal(words: &str) -> (r: CliError)
    ensures
        says(r, words@),
{
    CliError::Message { message: words.to_owned() }
}

/// The plane that a spike command names.
#[derive(Debug, Clone, Copy, PartialEq, Eq, Structural)]
pub enum SpikePlaneArg {
    Stub,
    Real,
}

/// A flag, or the environment's value where the flag is not given and the value is not empty.
pub open spec fn flag_or_env(flag: Option<String>, env: Option<String>) -> Option<String> {
    match (flag, env) {
        (Some(value), _) => Some(value),
        (None, Some(value)) if value@.len() > 0 => Some(value),
        _ => None,
    }
}

/// A flag, or the environment's value where the flag is not given and the value is not empty.
pub fn resolve_flag(flag: Option<String>, env: Option<String>) -> (r: Option<String>)
    ensures
        r == flag_or_env(flag, env),
{
    match flag {
        Some(value) => Some(value),
        None => match env {
            Some(value) => if value.as_str().is_empty() {
                None
            } else {
                Some(value)
            },
            None => None,
        },
    }
}

/// What is said of a downstream plane that is named by half.
pub const DOWNSTREAM_TOGETHER: &'static str =
    "--downstream-url and --downstream-issue (or their env fallbacks) must be set together";

/// What a spike command line says, and what the environment says where the line is silent.
pub struct SpikeArgs {
    pub plane: SpikePlaneArg,
    pub bind: Option<String>,
    pub bootstrap_token: Option<String>,
    pub bootstrap_token_env: Option<String>,
    pub downstream_url: Option<String>,
    pub downstream_url_env: Option<String>,
    pub downstream_issue: Option<String>,
    pub downstream_issue_env: Option<String>,
}

/// The mode that a command line asks for, with this downstream plane.
pub open spec fn spike_mode(args: SpikeArgs, downstream: Option<DownstreamPlane>) -> SpikeMode {
    match args.plane {
        SpikePlaneArg::Stub => SpikeMode::Stub,
        SpikePlaneArg::Real => SpikeMode::Real {
            bind: args.bind,
            downstream,
            bootstrap_token: flag_or_env(args.bootstrap_token, args.bootstrap_token_env),
        },
    }
}

/// The mode of a spike command. The downstream's address and issue are set together or not at
/// all, whichever plane is asked for.
pub fn paperclip_spike_command(args: SpikeArgs) -> (r: Result<SpikeMode, CliError>)
    ensures
        match (
            flag_or_env(args.downstream_url, args.downstream_url_env),
            flag_or_env(args.downstream_issue, args.downstream_issue_env),
            r,
        ) {
            (None, None, Ok(mode)) => mode == spike_mode(args, None),
            (Some(base_url), Some(issue_id), Ok(mode)) => mode == spike_mode(
                args,
                Some(DownstreamPlane { base_url, issue_id }),
            ),
            (Some(_), None, Err(error)) => says(error, DOWNSTREAM_TOGETHER@),
            (None, Some(_), Err(error)) => says(error, DOWNSTREAM_TOGETHER@),
            _ => false,
        },
{
    let downstream: Option<DownstreamPlane> = match (
        resolve_flag(args.downstream_url, args.downstream_url_env),
        resolve_flag(args.downstream_issue, args.downstream_issue_env),
    ) {
        (None, None) => None,
        (Some(base_url), Some(issue_id)) => Some(DownstreamPlane { base_url, issue_id }),
        _ => {
            return Err(refusal(DOWNSTREAM_TOGETHER));
        },
    };
    match args.plane {
        SpikePlaneArg::Stub => Ok(SpikeMode::Stub),
        SpikePlaneArg::Real => Ok(
            SpikeMode::Real {
                bind: args.bind,
                downstream,
                bootstrap_token: resolve_flag(args.bootstrap_token, args.bootstrap_token_env),
            },
        ),
    }
}

/// The exit of a failed spike: the code of its phase and the failure in words.
pub fn spike_error(failure: &SpikeFailure) -> (r: CliError)
    ensures
        r matches CliError::Spike { code, message } && code == crate::paperclip_spike::phase_code(
            failure.phase,
        ) && message@ == "["@ + crate::paperclip_spike::phase_label(failure.phase) + "] "@
            + failure.step@ + ": "@ + failure.detail@,
{
    CliError::Spike { code: failure.phase.exit_code(), message: failure.to_text() }
}

/// What the program reads of its own arguments when no command is named.
pub struct DefaultArgs {
    pub prompt: Option<String>,
    pub no_tui: bool,
    pub output: Option<OutputMode>,
    pub json: bool,
    pub timeout: Option<String>,
    pub quiet: bool,
}

/// What the program does when no command is named.
#[allow(inconsistent_fields)]
pub enum DefaultRoute {
    /// Run one prompt.
    Run { prompt: String, output: OutputMode, json: bool, timeout: Option<String>, quiet: bool },
    /// Start an interactive session.
    Agent { no_tui: bool },
}

/// A list of one name, or of none.
pub open spec fn named(present: bool, name: Seq<char>) -> Seq<Seq<char>> {
    if present {
        seq![name]
    } else {
        Seq::empty()
    }
}

/// The options that were given though they only govern a one-shot prompt.
pub open spec fn one_shot_options(args: DefaultArgs) -> Seq<Seq<char>> {
    named(args.output is Some, "--output"@) + named(args.json, "--json"@) + named(
        args.timeout is Some,
        "--timeout"@,
    ) + named(args.quiet, "--quiet"@)
}

/// What is said of a line-mode flag beside a prompt.
pub const NO_TUI_ONLY: &'static str =
    "--no-tui is only valid for an interactive session without --prompt";

/// Adds a name to a list when it is present.
fn add_named(names: &mut Vec<String>, present: bool, name: &str)
    ensures
        text::views(final(names)@) == text::views(old(names)@) + named(present, name@),
{
    if present {
        names.push(name.to_owned());
        assert(text::views(names@) =~= text::views(old(names)@) + seq![name@]);
    } else {
        assert(text::views(names@) =~= text::views(old(names)@) + Seq::empty());
    }
}

/// Decides between a one-shot prompt and an interactive session. A prompt excludes the line-mode
/// flag; without a prompt the one-shot options are refused, in a fixed order.
pub fn default_command(args: DefaultArgs) -> (r: Result<DefaultRoute, CliError>)
    ensures
        match (args.prompt, r) {
            (Some(prompt), Ok(route)) => !args.no_tui && route == (DefaultRoute::Run {
                prompt,
                output: args.output.unwrap_or(OutputMode::Pretty),
                json: args.json,
                timeout: args.timeout,
                quiet: args.quiet,
            }),
            (Some(_), Err(error)) => args.no_tui && says(error, NO_TUI_ONLY@),
            (None, Ok(route)) => one_shot_options(args).len() == 0 && route == (
            DefaultRoute::Agent { no_tui: args.no_tui }),
            (None, Err(error)) => one_shot_options(args).len() > 0 && says(
                error,
                text::join(one_shot_options(args), ", "@) + " require --prompt <TEXT>"@,
            ),
        },
{
    let DefaultArgs { prompt, no_tui, output, json, timeout, quiet } = args;
    match prompt {
        Some(prompt) => {
            if no_tui {
                return Err(refusal(NO_TUI_ONLY));
            }
            Ok(
                DefaultRoute::Run {
                    prompt,
                    output: output.unwrap_or(OutputMode::Pretty),
                    json,
                    timeout,
                    quiet,
                },
            )
        },
        None => {
            let mut names: Vec<String> = Vec::new();
            assert(text::views(names@) =~= Seq::empty());
            add_named(&mut names, output.is_some(), "--output");
            add_named(&mut names, json, "--json");
            add_named(&mut names, timeout.is_some(), "--timeout");
            add_named(&mut names, quiet, "--quiet");
            assert(text::views(names@) =~= one_shot_options(args));
            if names.len() > 0 {
                let mut message: String = text::join_all(&names, ", ");
                message.append(" require --prompt <TEXT>");
                return Err(CliError::Message { message });
            }
            Ok(DefaultRoute::Agent { no_tui })
        },
    }
}

/// The version of the stdio protocol that is served.
pub const PROTOCOL_VERSION: u32 = 1;

/// Serving is possible over stdio and at the protocol's version only.
pub fn serve_command(stdio: bool, protocol: u32) -> (r: Result<(), CliError>)
    ensures
        match r {
            Ok(_) => stdio && protocol == PROTOCOL_VERSION,
            Err(error) => !(stdio && protocol == PROTOCOL_VERSION) && says(
                error,
                "serve requires --stdio --protocol 1"@,
            ),
        },
{
    if !stdio || protocol != PROTOCOL_VERSION {
        return Err(refusal("serve requires --stdio --protocol 1"));
    }
    Ok(())
}

/// Which work a listing shows.
#[derive(Debug, Clone, Copy, PartialEq, Eq, Structural)]
pub enum WorkListFilter {
    MyActive,
    Review,
    Backlog,
    Done,
}

/// The filter that a name stands for.
pub open spec fn filter_of(name: Seq<char>) -> Option<WorkListFilter> {
    if name == "my_active"@ || name == "my-active"@ || name == "active"@ {
        Some(WorkListFilter::MyActive)
    } else if name == "review"@ {
        Some(WorkListFilter::Review)
    } else if name == "backlog"@ {
        Some(WorkListFilter::Backlog)
    } else if name == "done"@ {
        Some(WorkListFilter::Done)
    } else {
        None
    }
}

/// The filter of a work listing.
pub fn work_list(filter: &str) -> (r: Result<WorkListFilter, CliError>)
    ensures
        match r {
            Ok(chosen) => filter_of(filter@) == Some(chosen),
            Err(error) => filter_of(filter@) is None && says(error, "unknown filter: "@ + filter@),
        },
{
    if text::same(filter, "my_active") || text::same(filter, "my-active") || text::same(
        filter,
        "active",
    ) {
        Ok(WorkListFilter::MyActive)
    } else if text::same(filter, "review") {
        Ok(WorkListFilter::Review)
    } else if text::same(filter, "backlog") {
        Ok(WorkListFilter::Backlog)
    } else if text::same(filter, "done") {
        Ok(WorkListFilter::Done)
    } else {
        Err(CliError::Message { message: text::joined("unknown filter: ", filter) })
    }
}

/// A review either accepts or returns, never both and never neither. The result tells whether it
/// accepts.
pub fn work_review(accept: bool, send_back: bool) -> (r: Result<bool, CliError>)
    ensures
        match r {
            Ok(accepted) => accept != send_back && accepted == accept,
            Err(error) => {
                &&& accept == send_back
                &&& says(
                    error,
                    if accept {
                        "pass only one of --accept or --return"@
                    } else {
                        "work review requires --accept or --return"@
                    },
                )
            },
        },
{
    if !accept && !send_back {
        return Err(refusal("work review requires --accept or --return"));
    }
    if accept && send_back {
        return Err(refusal("pass only one of --accept or --return"));
    }
    Ok(accept)
}

/// The project that a workspace's work belongs to: the name of its folder.
pub fn workspace_project(folder: Option<String>) -> (r: String)
    ensures
        r@ == match folder {
            Some(name) => name@,
            None => "workspace"@,
        },
{
    match folder {
        Some(name) => name,
        None => "workspace".to_owned(),
    }
}

/// A lookup that has to find its work item.
pub fn work_show<T>(found: Option<T>, id: &str) -> (r: Result<T, CliError>)
    ensures
        match r {
            Ok(item) => found == Some(item),
            Err(error) => found is None && says(error, "work not found: "@ + id@),
        },
{
    match found {
        Some(item) => Ok(item),
        None => Err(CliError::Message { message: text::joined("work not found: ", id) }),
    }
}

/// The kind of a new work item, as it was read from its name.
pub fn work_create<K>(kind: Option<K>) -> (r: Result<K, CliError>)
    ensures
        match r {
            Ok(read) => kind == Some(read),
            Err(error) => kind is None && says(error, "kind must be task, ticket, or campaign"@),
        },
{
    match kind {
        Some(read) => Ok(read),
        None => Err(refusal("kind must be task, ticket, or campaign")),
    }
}

/// A work item as one line.
pub fn work_item_line(id: &str, state: &str, revision: u64, title: &str) -> (r: String)
    ensures
        r@ == id@ + "\t"@ + state@ + "\trev "@ + text::decimal(revision as nat) + "\t"@ + title@,
{
    let mut out: String = id.to_owned();
    out.append("\t");
    out.append(state);
    out.append("\trev ");
    out.append(&text::numeral(revision));
    out.append("\t");
    out.append(title);
    out
}

/// What a row of the inbox shows.
pub struct WorkInboxRow {
    pub kind: String,
    pub work_id: String,
    pub title: String,
    pub why: String,
}

/// An inbox item as one line.
pub fn format_work_inbox_row(item: &WorkInboxRow) -> (r: String)
    ensures
        r@ == inbox_line(*item),
{
    let mut out: String = item.kind.clone();
    out.append("\t");
    out.append(&item.work_id);
    out.append("\t");
    out.append(&item.title);
    out.append("\t");
    out.append(&item.why);
    out
}

/// The line of an inbox item.
pub open spec fn inbox_line(item: WorkInboxRow) -> Seq<char> {
    item.kind@ + "\t"@ + item.work_id@ + "\t"@ + item.title@ + "\t"@ + item.why@
}

/// The inbox, one line for each item.
pub fn inbox_list(items: &Vec<WorkInboxRow>) -> (r: Vec<String>)
    ensures
        text::views(r@) == items@.map_values(|item: WorkInboxRow| inbox_line(item)),
{
    let ghost shown = items@.map_values(|item: WorkInboxRow| inbox_line(item));
    let mut lines: Vec<String> = Vec::new();
    let mut i: usize = 0;
    assert(text::views(lines@) =~= shown.take(0));
    while i < items.len()
        invariant
            i <= items@.len(),
            shown == items@.map_values(|item: WorkInboxRow| inbox_line(item)),
            text::views(lines@) == shown.take(i as int),
        decreases items@.len() - i,
    {
        lines.push(format_work_inbox_row(&items[i]));
        assert(text::views(lines@) =~= shown.take(i as int).push(shown[i as int]));
        assert(shown.take(i as int).push(shown[i as int]) =~= shown.take(i + 1));
        i = i + 1;
    }
    assert(shown.take(i as int) =~= shown);
    lines
}

/// What a listing reads of a run in the journal.
pub struct RunSummary {
    pub run_id: String,
    pub chat_id: String,
    pub last_seq: u64,
    pub terminal_kind: Option<String>,
}

/// The line of an incomplete run.
pub open spec fn incomplete_line(run: RunSummary) -> Seq<char> {
    "  "@ + run.run_id@ + " (chat "@ + run.chat_id@ + ", last_seq "@ + text::decimal(
        run.last_seq as nat,
    ) + ")"@
}

/// The lines on the incomplete runs.
pub open spec fn incomplete_lines(runs: Seq<RunSummary>) -> Seq<Seq<char>> {
    if runs.len() == 0 {
        seq!["Incomplete runs: none"@]
    } else {
        seq!["Incomplete runs:"@] + runs.map_values(|run: RunSummary| incomplete_line(run))
    }
}

/// The line on the latest run of a chat.
pub open spec fn latest_line(chat: Seq<char>, latest: Option<RunSummary>) -> Seq<char> {
    match latest {
        Some(run) => "Latest run for "@ + chat + ": "@ + run.run_id@ + " (last_seq "@
            + text::decimal(run.last_seq as nat) + ", terminal "@ + (match run.terminal_kind {
            Some(kind) => kind@,
            None => "pending"@,
        }) + ")"@,
        None => "Latest run for "@ + chat + ": none"@,
    }
}

/// The lines of a journal summary.
pub open spec fn summary_lines(
    workspace: Seq<char>,
    runs: Seq<RunSummary>,
    chat: Option<String>,
    latest: Option<RunSummary>,
) -> Seq<Seq<char>> {
    seq!["Workspace: "@ + workspace] + incomplete_lines(runs) + (match chat {
        Some(chat) => seq![latest_line(chat@, latest)],
        None => Seq::empty(),
    })
}

/// The line of an incomplete run.
fn describe_incomplete(run: &RunSummary) -> (r: String)
    ensures
        r@ == incomplete_line(*run),
{
    let mut out: String = text::joined("  ", &run.run_id);
    out.append(" (chat ");
    out.append(&run.chat_id);
    out.append(", last_seq ");
    out.append(&text::numeral(run.last_seq));
    out.append(")");
    out
}

/// The line on the latest run of a chat.
fn describe_latest(chat: &str, latest: &Option<RunSummary>) -> (r: String)
    ensures
        r@ == latest_line(chat@, *latest),
{
    let mut out: String = text::joined("Latest run for ", chat);
    match latest {
        Some(run) => {
            out.append(": ");
            out.append(&run.run_id);
            out.append(" (last_seq ");
            out.append(&text::numeral(run.last_seq));
            out.append(", terminal ");
            match &run.terminal_kind {
                Some(kind) => {
                    out.append(kind);
                },
                None => {
                    out.append("pending");
                },
            }
            out.append(")");
        },
        None => {
            out.append(": none");
        },
    }
    out
}

/// The journal's summary of a workspace, as lines.
pub fn journal_summary(
    workspace: &str,
    incomplete: &Vec<RunSummary>,
    chat: &Option<String>,
    latest: &Option<RunSummary>,
) -> (r: Vec<String>)
    ensures
        text::views(r@) == summary_lines(workspace@, incomplete@, *chat, *latest),
{
    let mut lines: Vec<String> = Vec::new();
    lines.push(text::joined("Workspace: ", workspace));
    let ghost head = seq!["Workspace: "@ + workspace@];
    assert(text::views(lines@) =~= head);
    if incomplete.len() == 0 {
        lines.push("Incomplete runs: none".to_owned());
        assert(text::views(lines@) =~= head + incomplete_lines(incomplete@));
    } else {
        lines.push("Incomplete runs:".to_owned());
        let ghost described = incomplete@.map_values(|run: RunSummary| incomplete_line(run));
        let mut i: usize = 0;
        assert(text::views(lines@) =~= head + seq!["Incomplete runs:"@] + described.take(0));
        while i < incomplete.len()
            invariant
                i <= incomplete@.len(),
                described == incomplete@.map_values(|run: RunSummary| incomplete_line(run)),
                text::views(lines@) == head + seq!["Incomplete runs:"@] + described.take(i as int),
            decreases incomplete@.len() - i,
        {
            let ghost before = text::views(lines@);
            lines.push(describe_incomplete(&incomplete[i]));
            assert(text::views(lines@) =~= before.push(described[i as int]));
            assert(before.push(described[i as int]) =~= head + seq!["Incomplete runs:"@]
                + described.take(i + 1));
            i = i + 1;
        }
        assert(described.take(i as int) =~= described);
        assert(text::views(lines@) =~= head + incomplete_lines(incomplete@));
    }
    let ghost middle = text::views(lines@);
    match chat {
        Some(chat) => {
            lines.push(describe_latest(chat, latest));
            assert(text::views(lines@) =~= middle + seq![latest_line(chat@, *latest)]);
        },
        None => {
            assert(text::views(lines@) =~= middle + Seq::empty());
        },
    }
    lines
}

/// What a listing reads of a journal event; the payload is its compact JSON text.
pub struct JournalEventRow {
    pub seq: u64,
    pub kind: String,
    pub payload: String,
}

/// The line of a journal event, its sequence number right-aligned.
pub open spec fn event_line(event: JournalEventRow) -> Seq<char> {
    text::pad_left(text::decimal(event.seq as nat), 6) + "  "@ + event.kind@ + "  "@
        + event.payload@
}

/// A journal event as one line.
pub fn journal_event_line(event: &JournalEventRow) -> (r: String)
    ensures
        r@ == event_line(*event),
{
    let mut out: String = text::padded(&text::numeral(event.seq), 6);
    out.append("  ");
    out.append(&event.kind);
    out.append("  ");
    out.append(&event.payload);
    out
}

/// Events fetched from the journal, one line for each.
pub fn journal_fetch(events: &Vec<JournalEventRow>) -> (r: Vec<String>)
    ensures
        text::views(r@) == events@.map_values(|event: JournalEventRow| event_line(event)),
{
    let ghost shown = events@.map_values(|event: JournalEventRow| event_line(event));
    let mut lines: Vec<String> = Vec::new();
    let mut i: usize = 0;
    assert(text::views(lines@) =~= shown.take(0));
    while i < events.len()
        invariant
            i <= events@.len(),
            shown == events@.map_values(|event: JournalEventRow| event_line(event)),
            text::views(lines@) == shown.take(i as int),
        decreases events@.len() - i,
    {
        lines.push(journal_event_line(&events[i]));
        assert(text::views(lines@) =~= shown.take(i as int).push(shown[i as int]));
        assert(shown.take(i as int).push(shown[i as int]) =~= shown.take(i + 1));
        i = i + 1;
    }
    assert(shown.take(i as int) =~= shown);
    lines
}

/// A setting and the name of the source that supplied it.
pub struct ResolvedSetting {
    pub value: String,
    pub source: String,
}

/// A setting as a line.
pub open spec fn field_line(
    name: Seq<char>,
    setting: Option<ResolvedSetting>,
    show_origin: bool,
) -> Seq<char> {
    match (setting, show_origin) {
        (Some(set), true) => name + ": "@ + set.value@ + " ("@ + set.source@ + ")"@,
        (Some(set), false) => name + ": "@ + set.value@,
        (None, true) => name + ": <unset> (default)"@,
        (None, false) => name + ": <unset>"@,
    }
}

/// A setting as a line.
pub fn config_field(name: &str, setting: &Option<ResolvedSetting>, show_origin: bool) -> (r: String)
    ensures
        r@ == field_line(name@, *setting, show_origin),
{
    let mut out: String = name.to_owned();
    match setting {
        Some(set) => {
            out.append(": ");
            out.append(&set.value);
            if show_origin {
                out.append(" (");
                out.append(&set.source);
                out.append(")");
            }
        },
        None => {
            if show_origin {
                out.append(": <unset> (default)");
            } else {
                out.append(": <unset>");
            }
        },
    }
    out
}

/// What is said when the configuration is asked for otherwise than resolved.
pub const ONLY_RESOLVED: &'static str =
    "only resolved configuration is available in this build; pass --resolved";

/// What the workspace's configuration resolves to.
pub struct ResolvedAgentConfig {
    pub model: Option<ResolvedSetting>,
    pub fallback_model: Option<ResolvedSetting>,
    pub provider: Option<ResolvedSetting>,
    pub base_url: Option<ResolvedSetting>,
}

/// The lines on a resolved configuration.
pub open spec fn config_lines(config: ResolvedAgentConfig, show_origin: bool) -> Seq<Seq<char>> {
    seq![
        field_line("model"@, config.model, show_origin),
        field_line("fallback_model"@, config.fallback_model, show_origin),
        field_line("provider"@, config.provider, show_origin),
        field_line("base_url"@, config.base_url, show_origin),
    ]
}

/// The lines on the workspace's configuration. Only resolved configuration can be listed.
pub fn config_list(resolved: bool, config: &ResolvedAgentConfig, show_origin: bool) -> (r: Result<
    Vec<String>,
    CliError,
>)
    ensures
        match r {
            Ok(lines) => resolved && text::views(lines@) == config_lines(*config, show_origin),
            Err(error) => !resolved && says(error, ONLY_RESOLVED@),
        },
{
    if !resolved {
        return Err(refusal(ONLY_RESOLVED));
    }
    let mut lines: Vec<String> = Vec::new();
    lines.push(config_field("model", &config.model, show_origin));
    lines.push(config_field("fallback_model", &config.fallback_model, show_origin));
    lines.push(config_field("provider", &config.provider, show_origin));
    lines.push(config_field("base_url", &config.base_url, show_origin));
    assert(text::views(lines@) =~= config_lines(*config, show_origin));
    Ok(lines)
}

/// The lines on the models in use: the model and its fallback.
pub fn models_current(config: &ResolvedAgentConfig, show_origin: bool) -> (r: Vec<String>)
    ensures
        text::views(r@) == seq![
            field_line("model"@, config.model, show_origin),
            field_line("fallback_model"@, config.fallback_model, show_origin),
        ],
{
    let mut lines: Vec<String> = Vec::new();
    lines.push(config_field("model", &config.model, show_origin));
    lines.push(config_field("fallback_model", &config.fallback_model, show_origin));
    assert(text::views(lines@) =~= seq![
        field_line("model"@, config.model, show_origin),
        field_line("fallback_model"@, config.fallback_model, show_origin),
    ]);
    lines
}

/// A setting as a machine reads it: with its source, or the bare value; an unset setting has no
/// value and the default source.
pub enum ConfigValue {
    WithOrigin { value: Option<String>, source: String },
    Bare { value: Option<String> },
}

/// A setting as a machine reads it.
pub fn config_value(setting: &Option<ResolvedSetting>, show_origin: bool) -> (r: ConfigValue)
    ensures
        match r {
            ConfigValue::WithOrigin { value, source } => {
                &&& show_origin
                &&& match *setting {
                    Some(set) => value == Some(set.value) && source == set.source,
                    None => value is None && source@ == "default"@,
                }
            },
            ConfigValue::Bare { value } => {
                &&& !show_origin
                &&& value == match *setting {
                    Some(set) => Some(set.value),
                    None => None,
                }
            },
        },
{
    match setting {
        Some(set) => if show_origin {
            ConfigValue::WithOrigin { value: Some(set.value.clone()), source: set.source.clone() }
        } else {
            ConfigValue::Bare { value: Some(set.value.clone()) }
        },
        None => if show_origin {
            ConfigValue::WithOrigin { value: None, source: "default".to_owned() }
        } else {
            ConfigValue::Bare { value: None }
        },
    }
}

/// The lines on where the workspace's configuration lies.
pub fn config_path(workspace: &str, altai_config: &str, isanagent_config: &str) -> (r: Vec<String>)
    ensures
        text::views(r@) == seq![
            "Workspace: "@ + workspace@,
            "ALTAI config: "@ + altai_config@,
            "IsanAgent config: "@ + isanagent_config@,
        ],
{
    let mut lines: Vec<String> = Vec::new();
    lines.push(text::joined("Workspace: ", workspace));
    lines.push(text::joined("ALTAI config: ", altai_config));
    lines.push(text::joined("IsanAgent config: ", isanagent_config));
    assert(text::views(lines@) =~= seq![
        "Workspace: "@ + workspace@,
        "ALTAI config: "@ + altai_config@,
        "IsanAgent config: "@ + isanagent_config@,
    ]);
    lines
}

/// The line on the program's version.
pub fn print_version(version: &str) -> (r: String)
    ensures
        r@ == "altai-cli "@ + version@,
{
    text::joined("altai-cli ", version)
}

/// The lines on the health of the installation; the source of the palette is shown as its JSON
/// text.
pub fn doctor(event_schema_version: u64, palette_source: &str) -> (r: Vec<String>)
    ensures
        text::views(r@) == seq![
            "ALTAI CLI foundation: ready"@,
            "Event schema: v"@ + text::decimal(event_schema_version as nat),
            "Palette source: "@ + palette_source@,
            "Theme modes: dark, light, no-color"@,
        ],
{
    let mut lines: Vec<String> = Vec::new();
    lines.push("ALTAI CLI foundation: ready".to_owned());
    lines.push(text::joined("Event schema: v", &text::numeral(event_schema_version)));
    lines.push(text::joined("Palette source: ", palette_source));
    lines.push("Theme modes: dark, light, no-color".to_owned());
    assert(text::views(lines@) =~= seq![
        "ALTAI CLI foundation: ready"@,
        "Event schema: v"@ + text::decimal(event_schema_version as nat),
        "Palette source: "@ + palette_source@,
        "Theme modes: dark, light, no-color"@,
    ]);
    lines
}

/// What a command line overrides of the compaction preferences. Automatic compaction can be
/// switched off, never on.
pub struct CompactionOverrides {
    pub auto: Option<bool>,
    pub threshold_tokens: Option<usize>,
    pub tail_turns: Option<usize>,
}

/// The overrides that a command line states.
pub fn compaction_overrides(
    no_auto_compact: bool,
    compact_threshold: Option<usize>,
    compact_tail: Option<usize>,
) -> (r: CompactionOverrides)
    ensures
        r.auto == if no_auto_compact {
            Some(false)
        } else {
            None
        },
        r.threshold_tokens == compact_threshold,
        r.tail_turns == compact_tail,
{
    let auto: Option<bool> = if no_auto_compact {
        Some(false)
    } else {
        None
    };
    CompactionOverrides { auto, threshold_tokens: compact_threshold, tail_turns: compact_tail }
}

/// How the terminal is drawn, once its theme is settled.
#[derive(Debug, Clone, Copy, PartialEq, Eq, Structural)]
pub enum TerminalAppearance {
    Dark,
    Light,
    NoColor,
}

/// What a command line says of the agent's host.
pub struct AgentOptions {
    pub model: Option<String>,
    pub fallback_model: Option<String>,
    pub permission: Option<PermissionMode>,
    pub resume: Option<String>,
    pub files: Vec<String>,
    pub no_auto_compact: bool,
    pub compact_threshold: Option<usize>,
    pub compact_tail: Option<usize>,
}

/// What a host is started with.
pub struct HostSettings {
    pub model: Option<String>,
    pub fallback_model: Option<String>,
    pub permission: Option<PermissionMode>,
    pub no_color: bool,
    pub appearance: TerminalAppearance,
    pub resume: Option<String>,
    pub files: Vec<String>,
    pub line_mode: bool,
    pub compaction: CompactionOverrides,
}

/// The settings of a host: what the command line says, in the appearance that the terminal gets.
pub fn host_settings(options: AgentOptions, appearance: TerminalAppearance, line_mode: bool) -> (r:
    HostSettings)
    ensures
        r.model == options.model,
        r.fallback_model == options.fallback_model,
        r.permission == options.permission,
        r.no_color == (appearance == TerminalAppearance::NoColor),
        r.appearance == appearance,
        r.resume == options.resume,
        r.files == options.files,
        r.line_mode == line_mode,
        r.compaction.auto == if options.no_auto_compact {
            Some(false)
        } else {
            None
        },
        r.compaction.threshold_tokens == options.compact_threshold,
        r.compaction.tail_turns == options.compact_tail,
{
    let compaction: CompactionOverrides = compaction_overrides(
        options.no_auto_compact,
        options.compact_threshold,
        options.compact_tail,
    );
    HostSettings {
        model: options.model,
        fallback_model: options.fallback_model,
        permission: options.permission,
        no_color: appearance == TerminalAppearance::NoColor,
        appearance,
        resume: options.resume,
        files: options.files,
        line_mode,
        compaction,
    }
}

/// A one-shot run is drawn without color when its theme or the environment asks for that.
pub fn run_without_color(theme: ThemeMode, environment_asks: bool) -> (r: bool)
    ensures
        r == (theme == ThemeMode::NoColor || environment_asks),
{
    theme == ThemeMode::NoColor || environment_asks
}

/// The output mode of a run: the alias flag means the event stream.
pub fn run_output_mode(json: bool, output: OutputMode) -> (r: OutputMode)
    ensures
        r == if json {
            OutputMode::Jsonl
        } else {
            output
        },
{
    if json {
        OutputMode::Jsonl
    } else {
        output
    }
}

/// The prompt is to be read from standard input.
pub open spec fn from_stdin(prompt: Seq<char>) -> bool {
    prompt == "-"@
}

/// The prompt that a run has: `-` stands for what standard input held, without its trailing white
/// space; a prompt is never empty.
pub open spec fn prompt_of(prompt: Seq<char>, stdin: Result<String, String>) -> Result<
    Seq<char>,
    Seq<char>,
> {
    if from_stdin(prompt) {
        match stdin {
            Err(reason) => Err("could not read prompt from stdin: "@ + reason@),
            Ok(held) => if text::trim_end_space(held@).len() == 0 {
                Err("stdin prompt was empty"@)
            } else {
                Ok(text::trim_end_space(held@))
            },
        }
    } else if text::is_blank(prompt) {
        Err("prompt must not be empty"@)
    } else {
        Ok(prompt)
    }
}

/// The prompt of a run, given what reading standard input brought. Standard input matters only
/// where the prompt is `-`.
pub fn resolve_prompt(prompt: &str, stdin: &Result<String, String>) -> (r: Result<String, CliError>)
    ensures
        match r {
            Ok(text) => prompt_of(prompt@, *stdin) == Ok::<Seq<char>, Seq<char>>(text@),
            Err(error) => {
                &&& prompt_of(prompt@, *stdin) is Err
                &&& says(error, prompt_of(prompt@, *stdin)->Err_0)
            },
        },
{
    if text::same(prompt, "-") {
        let held: &String = match stdin {
            Ok(held) => held,
            Err(reason) => {
                return Err(
                    CliError::Message {
                        message: text::joined("could not read prompt from stdin: ", reason),
                    },
                );
            },
        };
        let trimmed: String = text::trimmed_end(held);
        if trimmed.as_str().is_empty() {
            return Err(refusal("stdin prompt was empty"));
        }
        return Ok(trimmed);
    }
    if text::blank(prompt) {
        return Err(refusal("prompt must not be empty"));
    }
    Ok(prompt.to_owned())
}

/// The permission mode of a run: an explicit mode stands; without one a terminal asks and
/// anything else only plans.
pub fn resolve_run_permission(explicit: Option<PermissionMode>, terminal: bool) -> (r:
    PermissionMode)
    ensures
        r == match explicit {
            Some(mode) => mode,
            None => if terminal {
                PermissionMode::Ask
            } else {
                PermissionMode::Plan
            },
        },
{
    match explicit {
        Some(mode) => mode,
        None => if terminal {
            PermissionMode::Ask
        } else {
            PermissionMode::Plan
        },
    }
}

/// What a one-shot command line says.
pub struct RunRequest {
    pub prompt: String,
    pub output: OutputMode,
    pub json: bool,
    pub dry_run: bool,
    pub permission: Option<PermissionMode>,
    pub theme: ThemeMode,
}

/// What a one-shot run finds around it.
pub struct RunSurroundings<T> {
    /// What reading standard input brought.
    pub stdin: Result<String, String>,
    /// Why the workspace could not be resolved, where it could not.
    pub workspace_error: Option<String>,
    /// Standard input is a terminal.
    pub terminal: bool,
    /// The environment asks for output without color.
    pub no_color: bool,
    /// The time allowed for the run, as it was read from its text.
    pub timeout: Result<Option<T>, String>,
}

/// What a one-shot command comes to.
pub enum RunPlan<T> {
    /// Show what would be run.
    Preview { prompt: String, output: OutputMode },
    /// Run it.
    Execute {
        prompt: String,
        output: OutputMode,
        permission: PermissionMode,
        timeout: Option<T>,
        no_color: bool,
    },
}

/// Decides what a one-shot command comes to. The prompt is settled first, then the workspace; a
/// dry run needs no more than these, and an unreadable time limit refuses a run.
pub fn run_prompt<T>(request: &RunRequest, found: RunSurroundings<T>) -> (r: Result<
    RunPlan<T>,
    CliError,
>)
    ensures
        match (prompt_of(request.prompt@, found.stdin), found.workspace_error) {
            (Err(words), _) => r is Err && says(r->Err_0, words),
            (Ok(_), Some(reason)) => r is Err && says(r->Err_0, reason@),
            (Ok(text), None) => {
                let mode = if request.json {
                    OutputMode::Jsonl
                } else {
                    request.output
                };
                if request.dry_run {
                    r matches Ok(RunPlan::Preview { prompt, output }) && prompt@ == text && output
                        == mode
                } else {
                    match found.timeout {
                        Err(reason) => r is Err && says(r->Err_0, reason@),
                        Ok(limit) => {
                            &&& r matches Ok(
                                RunPlan::Execute { prompt, output, permission, timeout, no_color },
                            )
                            &&& prompt@ == text
                            &&& output == mode
                            &&& permission == match request.permission {
                                Some(explicit) => explicit,
                                None => if found.terminal {
                                    PermissionMode::Ask
                                } else {
                                    PermissionMode::Plan
                                },
                            }
                            &&& timeout == limit
                            &&& no_color == (request.theme == ThemeMode::NoColor || found.no_color)
                        },
                    }
                }
            },
        },
{
    let output: OutputMode = run_output_mode(request.json, request.output);
    let prompt: String = match resolve_prompt(&request.prompt, &found.stdin) {
        Ok(prompt) => prompt,
        Err(error) => {
            return Err(error);
        },
    };
    match found.workspace_error {
        Some(message) => {
            return Err(CliError::Message { message });
        },
        None => {},
    }
    if request.dry_run {
        return Ok(RunPlan::Preview { prompt, output });
    }
    let permission: PermissionMode = resolve_run_permission(request.permission, found.terminal);
    match found.timeout {
        Err(message) => Err(CliError::Message { message }),
        Ok(timeout) => Ok(
            RunPlan::Execute {
                prompt,
                output,
                permission,
                timeout,
                no_color: run_without_color(request.theme, found.no_color),
            },
        ),
    }
}

/// Whether an observed bus message is the immediate copy of the one before it. `observable` tells
/// whether the message is one that output and journal consume, and `fingerprint` is its serialised
/// form, where it has one. Other traffic is not retained, and an observable message without a
/// fingerprint is delivered.
pub fn is_duplicate_observed_bus_message(
    previous_fingerprint: &mut Option<String>,
    observable: bool,
    fingerprint: Option<String>,
) -> (r: bool)
    ensures
        r == (observable && fingerprint is Some && *old(previous_fingerprint) is Some
            && fingerprint->0@ == (*old(previous_fingerprint))->0@),
        *final(previous_fingerprint) == if !observable {
            None
        } else if fingerprint is Some {
            fingerprint
        } else {
            *old(previous_fingerprint)
        },
{
    if !observable {
        *previous_fingerprint = None;
        return false;
    }
    match fingerprint {
        None => false,
        Some(print) => {
            let duplicate: bool = match previous_fingerprint {
                Some(before) => text::same(before, &print),
                None => false,
            };
            *previous_fingerprint = Some(print);
            duplicate
        },
    }
}

/// What an observer does with a message that is no duplicate, besides journaling it.
pub enum Observation {
    /// Write it to the event stream.
    Emit,
    /// Name the tool that started.
    NameTool { tool: String },
    /// Nothing.
    Silent,
}

/// What is printed of an observed message, given the tool whose start it reports.
pub open spec fn observation(
    output: OutputMode,
    quiet: bool,
    tool_started: Option<String>,
) -> Observation {
    match (output, tool_started) {
        (OutputMode::Jsonl, _) => Observation::Emit,
        (OutputMode::Pretty | OutputMode::Plain, Some(tool)) => if quiet {
            Observation::Silent
        } else {
            Observation::NameTool { tool }
        },
        _ => Observation::Silent,
    }
}

/// Decides what is printed of an observed message, given the tool whose start it reports.
pub fn observe(output: OutputMode, quiet: bool, tool_started: Option<String>) -> (r: Observation)
    ensures
        r == observation(output, quiet, tool_started),
{
    match output {
        OutputMode::Jsonl => Observation::Emit,
        OutputMode::Pretty | OutputMode::Plain => {
            if quiet {
                return Observation::Silent;
            }
            match tool_started {
                Some(tool) => Observation::NameTool { tool },
                None => Observation::Silent,
            }
        },
        _ => Observation::Silent,
    }
}

/// What the observer of a run is told of a message on the bus.
pub struct ObservedMessage {
    /// Output and journal consume the message.
    pub observable: bool,
    /// Its serialised form, where it has one.
    pub fingerprint: Option<String>,
    /// The tool whose start it reports.
    pub tool_started: Option<String>,
}

/// One step of the observer: none for the immediate copy of the message before it, which is
/// neither journaled nor printed; otherwise what is printed of the message once it is journaled.
pub fn observed(
    previous_fingerprint: &mut Option<String>,
    message: ObservedMessage,
    output: OutputMode,
    quiet: bool,
) -> (r: Option<Observation>)
    ensures
        *final(previous_fingerprint) == remembered(*old(previous_fingerprint), message),
        match r {
            None => is_copy(*old(previous_fingerprint), message),
            Some(seen) => !is_copy(*old(previous_fingerprint), message) && seen == observation(
                output,
                quiet,
                message.tool_started,
            ),
        },
{
    if is_duplicate_observed_bus_message(
        previous_fingerprint,
        message.observable,
        message.fingerprint,
    ) {
        return None;
    }
    Some(observe(output, quiet, message.tool_started))
}

/// The message is the immediate copy of the one whose serialised form is remembered.
pub open spec fn is_copy(previous: Option<String>, message: ObservedMessage) -> bool {
    message.observable && message.fingerprint is Some && previous is Some
        && message.fingerprint->0@ == previous->0@
}

/// What is remembered after a message.
pub open spec fn remembered(previous: Option<String>, message: ObservedMessage) -> Option<String> {
    if !message.observable {
        None
    } else if message.fingerprint is Some {
        message.fingerprint
    } else {
        previous
    }
}

/// A message that is observed twice in a row is handled once, and every message that differs from
/// the one before it is handled.
pub proof fn law_only_immediate_copies_are_dropped(
    previous: Option<String>,
    message: ObservedMessage,
    next: ObservedMessage,
)
    requires
        message.observable,
        message.fingerprint is Some,
        next.observable,
        next.fingerprint is Some,
    ensures
        is_copy(remembered(previous, message), next) <==> next.fingerprint->0@
            == message.fingerprint->0@,
{
}

/// How a one-shot run was brought to its end.
pub enum RunEnding<O> {
    /// The host finished the run.
    Finished { result: RunResult<O> },
    /// The host failed, with the reason.
    HostFailed { reason: String },
    /// The task that ran the host failed, with the reason.
    TaskFailed { reason: String },
    /// The user interrupted the run.
    Interrupted,
    /// The time allowed for the run passed.
    OutOfTime,
}

/// The result of a one-shot run, its outcome being of type `O`.
pub struct RunResult<O> {
    pub chat_id: String,
    pub run_id: Option<String>,
    pub outcome: O,
    pub final_text: Option<String>,
}

/// `result` is the result of a run that was given up: it belongs to the resumed chat, if there is
/// one, and has neither a run nor a text.
pub open spec fn gave_up<O>(result: RunResult<O>, resume: Option<String>, outcome: O) -> bool {
    &&& result.chat_id@ == match resume {
        Some(chat) => chat@,
        None => Seq::empty(),
    }
    &&& result.run_id is None
    &&& result.outcome == outcome
    &&& result.final_text is None
}

/// The exit code of an internal error.
pub const INTERNAL_EXIT_CODE: u8 = 10;

/// The result of a run by the way it ended: what the host reports, or a cancelled or timed-out
/// result for a run that was given up. A failed host is an internal error.
pub fn run_result<O>(
    ending: RunEnding<O>,
    resume: &Option<String>,
    cancelled: O,
    timed_out: O,
) -> (r: Result<RunResult<O>, CliError>)
    ensures
        match (ending, r) {
            (RunEnding::Finished { result }, Ok(out)) => out == result,
            (RunEnding::HostFailed { reason }, Err(CliError::RunFailed { code, message })) => code
                == INTERNAL_EXIT_CODE && message@ == "IsanAgent oneshot host failed: "@ + reason@,
            (RunEnding::TaskFailed { reason }, Err(CliError::RunFailed { code, message })) => code
                == INTERNAL_EXIT_CODE && message@ == "IsanAgent oneshot task failed: "@ + reason@,
            (RunEnding::Interrupted, Ok(out)) => gave_up(out, *resume, cancelled),
            (RunEnding::OutOfTime, Ok(out)) => gave_up(out, *resume, timed_out),
            _ => false,
        },
{
    let outcome: O = match ending {
        RunEnding::Finished { result } => {
            return Ok(result);
        },
        RunEnding::HostFailed { reason } => {
            let message: String = text::joined("IsanAgent oneshot host failed: ", &reason);
            return Err(CliError::RunFailed { code: INTERNAL_EXIT_CODE, message });
        },
        RunEnding::TaskFailed { reason } => {
            let message: String = text::joined("IsanAgent oneshot task failed: ", &reason);
            return Err(CliError::RunFailed { code: INTERNAL_EXIT_CODE, message });
        },
        RunEnding::Interrupted => cancelled,
        RunEnding::OutOfTime => timed_out,
    };
    let chat_id: String = match resume {
        Some(chat) => chat.clone(),
        None => String::new(),
    };
    Ok(RunResult { chat_id, run_id: None, outcome, final_text: None })
}

/// How the final result is printed.
#[derive(Debug, Clone, Copy, PartialEq, Eq, Structural)]
pub enum FinalRendering {
    /// As the last event of the stream.
    StreamEvent,
    /// As one structured object.
    Object,
    /// For people.
    Pretty,
}

/// How an output mode prints the final result.
pub fn final_rendering(output: OutputMode) -> (r: FinalRendering)
    ensures
        r == match output {
            OutputMode::Jsonl => FinalRendering::StreamEvent,
            OutputMode::Json => FinalRendering::Object,
            _ => FinalRendering::Pretty,
        },
{
    match output {
        OutputMode::Jsonl => FinalRendering::StreamEvent,
        OutputMode::Json => FinalRendering::Object,
        OutputMode::Final | OutputMode::Plain | OutputMode::Pretty => FinalRendering::Pretty,
    }
}

/// The exit of a run: success for the outcome's code 0, otherwise a failure with that code and
/// the result's detail, or the name of the outcome where there is none.
pub fn run_verdict(code: u8, detail: Option<String>, outcome: &str) -> (r: Result<(), CliError>)
    ensures
        match r {
            Ok(_) => code == 0,
            Err(error) => {
                &&& code != 0
                &&& error matches CliError::RunFailed { code: exit, message }
                &&& exit == code
                &&& message@ == match detail {
                    Some(text) => text@,
                    None => "run ended with "@ + outcome@,
                }
            },
        },
{
    if code == 0 {
        return Ok(());
    }
    let message: String = match detail {
        Some(text) => text,
        None => text::joined("run ended with ", outcome),
    };
    Err(CliError::RunFailed { code, message })
}

/// What opening the desktop program comes to, by the number of its route.
#[derive(Debug, Clone, Copy, PartialEq, Eq, Structural)]
pub enum DesktopOpening {
    /// The route is only shown.
    Preview { route: usize },
    /// The program on the route is started.
    Launch { route: usize },
}

/// Decides which route is opened, given at which of them something stands. A route that is only
/// shown need not lead anywhere.
pub fn open_desktop(candidates: &Vec<RoutePath>, present: &Vec<bool>, dry_run: bool) -> (r: Result<
    DesktopOpening,
    CliError,
>)
    requires
        present@.len() == candidates@.len(),
        candidates@.len() > 0,
    ensures
        match r {
            Ok(DesktopOpening::Preview { route }) => dry_run && crate::desktop::is_chosen(
                present@,
                route as int,
            ),
            Ok(DesktopOpening::Launch { route }) => {
                &&& !dry_run
                &&& crate::desktop::is_chosen(present@, route as int)
                &&& present@[route as int]
            },
            Err(error) => {
                &&& !dry_run
                &&& crate::desktop::none_stands(present@)
                &&& says(
                    error,
                    crate::desktop::missing_words(crate::desktop::route_views(candidates@)),
                )
            },
        },
{
    let route: usize = chosen_desktop(present);
    if dry_run {
        return Ok(DesktopOpening::Preview { route });
    }
    if !present[route] {
        return Err(CliError::Message { message: missing_desktop_message(candidates) });
    }
    Ok(DesktopOpening::Launch { route })
}

} // verus!
