//! What the stdio host decides about sessions, notifications, tool servers and automations.
use vstd::prelude::*;
use vstd::string::*;
use crate::instance_builder::{path_inside, SharedInstanceHooks};
use crate::outside;
use crate::stable_sort::{stable_order, SortKey};
use crate::text;

verus! {

/// The error reads so.
pub open spec fn fails<T>(r: Result<T, String>, words: Seq<char>) -> bool {
    r is Err && r->Err_0@ == words
}

/// A failure in these words.
fn fail<T>(words: &str) -> (r: Result<T, String>)
    ensures
        fails(r, words@),
{
    Err(words.to_owned())
}

/// A clarification is answered or dismissed only while a wait is pending, so a repeated answer
/// fails instead of resuming the same tool twice.
pub fn clarification_outcome(pending: bool) -> (r: Result<(), String>)
    ensures
        r is Ok <==> pending,
        !pending ==> fails(r, "clarification_not_pending"@),
{
    if pending {
        Ok(())
    } else {
        fail("clarification_not_pending")
    }
}

/// What a retry reads of a message in a transcript.
pub struct TranscriptMessage {
    pub from_user: bool,
    pub text: Option<String>,
}

/// How many of the messages are the user's.
pub open spec fn user_turns(messages: Seq<TranscriptMessage>) -> nat
    decreases messages.len(),
{
    if messages.len() == 0 {
        0
    } else {
        user_turns(messages.drop_last()) + if messages.last().from_user {
            1nat
        } else {
            0nat
        }
    }
}

/// The text of the user's latest message, where it has one.
pub open spec fn latest_prompt(messages: Seq<TranscriptMessage>) -> Option<String>
    decreases messages.len(),
{
    if messages.len() == 0 {
        None
    } else if messages.last().from_user {
        messages.last().text
    } else {
        latest_prompt(messages.drop_last())
    }
}

/// The prompt that a retry runs and how many of the user's messages it keeps before it.
pub struct RetryPlan {
    pub prompt: String,
    pub keep_user_messages: usize,
}

/// The most bytes that a retried prompt may have.
pub const MAX_RETRY_PROMPT_BYTES: usize = 16_384;

/// The prompt that a retry takes: the replacement, or the user's latest message.
pub open spec fn retry_prompt(
    messages: Seq<TranscriptMessage>,
    replacement: Option<String>,
) -> Option<String> {
    match replacement {
        Some(text) => Some(text),
        None => latest_prompt(messages),
    }
}

/// Rewinds the latest user turn: its prompt, or the replacement, is run again after everything
/// from that turn on is dropped.
pub fn rewind_latest_turn_for_retry(
    messages: &Vec<TranscriptMessage>,
    replacement: &Option<String>,
) -> (r: Result<RetryPlan, String>)
    ensures
        ({
            let prompt = retry_prompt(messages@, *replacement);
            if prompt is None || text::is_blank(prompt->0@) {
                fails(r, "retry_prompt_not_found"@)
            } else if text::byte_len(prompt->0@) > MAX_RETRY_PROMPT_BYTES {
                fails(r, "invalid_retry_prompt"@)
            } else {
                &&& r is Ok
                &&& r->Ok_0.prompt == prompt->0
                &&& r->Ok_0.keep_user_messages == if user_turns(messages@) == 0 {
                    0
                } else {
                    user_turns(messages@) - 1
                }
            }
        }),
{
    let mut turns: usize = 0;
    let mut latest: Option<&String> = None;
    let mut i: usize = 0;
    assert(messages@.take(0) =~= Seq::empty());
    while i < messages.len()
        invariant
            i <= messages@.len(),
            turns <= i,
            turns == user_turns(messages@.take(i as int)),
            match latest {
                Some(text) => latest_prompt(messages@.take(i as int)) == Some(*text),
                None => latest_prompt(messages@.take(i as int)) is None,
            },
        decreases messages@.len() - i,
    {
        assert(messages@.take(i + 1).drop_last() =~= messages@.take(i as int));
        if messages[i].from_user {
            turns = turns + 1;
            latest = messages[i].text.as_ref();
        }
        i = i + 1;
    }
    assert(messages@.take(messages@.len() as int) =~= messages@);
    let chosen: Option<&String> = match replacement {
        Some(text) => Some(text),
        None => latest,
    };
    match chosen {
        Some(prompt) => {
            if text::blank(prompt) {
                return fail("retry_prompt_not_found");
            }
            if text::byte_count(prompt) > MAX_RETRY_PROMPT_BYTES {
                return fail("invalid_retry_prompt");
            }
            let keep_user_messages: usize = if turns == 0 {
                0
            } else {
                turns - 1
            };
            Ok(RetryPlan { prompt: prompt.clone(), keep_user_messages })
        },
        None => fail("retry_prompt_not_found"),
    }
}

/// The name is not blank and has at most `limit` bytes.
pub open spec fn is_bounded_name(name: Seq<char>, limit: int) -> bool {
    !text::is_blank(name) && text::byte_len(name) <= limit
}

/// A chat whose memory may be cleared: its name is not blank and has at most 256 bytes.
pub fn delete_session_memory(chat_id: &str) -> (r: Result<(), String>)
    ensures
        r is Ok <==> is_bounded_name(chat_id@, 256),
        r is Err ==> fails(r, "invalid_chat_id"@),
{
    if text::blank(chat_id) || text::byte_count(chat_id) > 256 {
        return fail("invalid_chat_id");
    }
    Ok(())
}

/// What a notification is found by.
pub struct NotificationRow {
    pub notification_id: String,
    pub channel: String,
}

/// The notification is on the stdio channel.
pub open spec fn is_listed(rows: Seq<NotificationRow>, id: Seq<char>) -> bool {
    exists|i: int|
        0 <= i < rows.len() && (#[trigger] rows[i]).notification_id@ == id && rows[i].channel@
            == "stdio"@
}

/// What is asked of the memory about one notification.
#[derive(Debug)]
pub enum NotificationChange {
    MarkSeen { notification_id: String },
    Resolve { notification_id: String },
}

/// What comes of changing a notification: its name must be valid and it must be on the stdio
/// channel. It is resolved where that is asked, and marked as seen otherwise.
pub open spec fn change_result(
    notification_id: Seq<char>,
    resolve: bool,
    rows: Seq<NotificationRow>,
    r: Result<NotificationChange, String>,
) -> bool {
    if !is_bounded_name(notification_id, 512) {
        fails(r, "invalid_notification_id"@)
    } else if !is_listed(rows, notification_id) {
        fails(r, "notification_not_found"@)
    } else {
        match r {
            Ok(NotificationChange::Resolve { notification_id: id }) => resolve && id@
                == notification_id,
            Ok(NotificationChange::MarkSeen { notification_id: id }) => !resolve && id@
                == notification_id,
            Err(_) => false,
        }
    }
}

/// The change of a notification, whether it is marked as seen or resolved.
pub fn mutate_notification(notification_id: &str, resolve: bool, rows: &Vec<NotificationRow>) -> (r:
    Result<NotificationChange, String>)
    ensures
        change_result(notification_id@, resolve, rows@, r),
{
    if text::blank(notification_id) || text::byte_count(notification_id) > 512 {
        return fail("invalid_notification_id");
    }
    let mut i: usize = 0;
    while i < rows.len()
        invariant
            i <= rows@.len(),
            is_bounded_name(notification_id@, 512),
            forall|k: int|
                0 <= k < i ==> !((#[trigger] rows@[k]).notification_id@ == notification_id@
                    && rows@[k].channel@ == "stdio"@),
        decreases rows@.len() - i,
    {
        if text::same(&rows[i].notification_id, notification_id) && text::same(
            &rows[i].channel,
            "stdio",
        ) {
            assert(rows@[i as int].notification_id@ == notification_id@);
            let notification_id: String = notification_id.to_owned();
            return Ok(
                if resolve {
                    NotificationChange::Resolve { notification_id }
                } else {
                    NotificationChange::MarkSeen { notification_id }
                },
            );
        }
        i = i + 1;
    }
    fail("notification_not_found")
}

/// Marks a notification as seen.
pub fn mark_notification_seen(notification_id: &str, rows: &Vec<NotificationRow>) -> (r: Result<
    NotificationChange,
    String,
>)
    ensures
        change_result(notification_id@, false, rows@, r),
{
    mutate_notification(notification_id, false, rows)
}

/// Resolves a notification.
pub fn resolve_notification(notification_id: &str, rows: &Vec<NotificationRow>) -> (r: Result<
    NotificationChange,
    String,
>)
    ensures
        change_result(notification_id@, true, rows@, r),
{
    mutate_notification(notification_id, true, rows)
}

/// The roots that are not empty, in order.
pub open spec fn named_roots(roots: Seq<Seq<char>>) -> Seq<Seq<char>> {
    roots.filter(|root: Seq<char>| root.len() > 0)
}

/// The workspaces whose tool servers are forgotten: every given root but the empty ones.
pub fn clear_mcp_workspaces(workspace_roots: &Vec<String>) -> (r: Vec<String>)
    ensures
        text::views(r@) == named_roots(text::views(workspace_roots@)),
{
    let ghost all = text::views(workspace_roots@);
    let ghost named = |root: Seq<char>| root.len() > 0;
    let mut out: Vec<String> = Vec::new();
    let mut i: usize = 0;
    proof {
        reveal(Seq::filter);
        assert(text::views(out@) =~= all.take(0).filter(named));
    }
    while i < workspace_roots.len()
        invariant
            i <= workspace_roots@.len(),
            all == text::views(workspace_roots@),
            named == (|root: Seq<char>| root.len() > 0),
            text::views(out@) == all.take(i as int).filter(named),
        decreases workspace_roots@.len() - i,
    {
        let ghost earlier = out@;
        proof {
            reveal(Seq::filter);
            assert(all.take(i + 1).drop_last() =~= all.take(i as int));
            assert(all.take(i + 1).last() == workspace_roots@[i as int]@);
        }
        if !workspace_roots[i].as_str().is_empty() {
            out.push(workspace_roots[i].clone());
            assert(text::views(out@) =~= text::views(earlier).push(workspace_roots@[i as int]@));
        }
        i = i + 1;
    }
    assert(all.take(i as int) =~= all);
    out
}

/// A configured tool server, its settings being of type `S`.
pub struct McpServer<S> {
    pub id: String,
    pub enabled: bool,
    pub settings: S,
}

/// The first server of that name.
pub open spec fn is_server_at<S>(servers: Seq<McpServer<S>>, id: Seq<char>, at: int) -> bool {
    &&& 0 <= at < servers.len()
    &&& servers[at].id@ == id
    &&& forall|k: int| 0 <= k < at ==> (#[trigger] servers[k]).id@ != id
}

/// No server has that name.
pub open spec fn no_server<S>(servers: Seq<McpServer<S>>, id: Seq<char>) -> bool {
    forall|k: int| 0 <= k < servers.len() ==> (#[trigger] servers[k]).id@ != id
}

/// The position of the first server of a name.
fn find_server<S>(servers: &Vec<McpServer<S>>, id: &str) -> (r: Option<usize>)
    ensures
        match r {
            Some(at) => is_server_at(servers@, id@, at as int),
            None => no_server(servers@, id@),
        },
{
    let mut i: usize = 0;
    while i < servers.len()
        invariant
            i <= servers@.len(),
            forall|k: int| 0 <= k < i ==> (#[trigger] servers@[k]).id@ != id@,
        decreases servers@.len() - i,
    {
        if text::same(&servers[i].id, id) {
            return Some(i);
        }
        i = i + 1;
    }
    None
}

/// Puts a server's configuration in place of the one of the same name, or after the others.
pub fn configure_mcp_server<S>(servers: &mut Vec<McpServer<S>>, server: McpServer<S>)
    ensures
        no_server(old(servers)@, server.id@) ==> final(servers)@ == old(servers)@.push(server),
        forall|at: int|
            #[trigger] is_server_at(old(servers)@, server.id@, at) ==> final(servers)@ == old(
                servers,
            )@.update(at, server),
{
    match find_server(servers, &server.id) {
        Some(at) => {
            servers.set(at, server);
        },
        None => {
            servers.push(server);
        },
    }
}

/// Switches a server on or off, leaving everything else as it is.
pub fn set_mcp_server_enabled<S>(servers: &mut Vec<McpServer<S>>, id: &str, enabled: bool) -> (r:
    Result<(), String>)
    ensures
        match r {
            Ok(_) => exists|at: int|
                {
                    &&& #[trigger] is_server_at(old(servers)@, id@, at)
                    &&& final(servers)@ == old(servers)@.update(
                        at,
                        (McpServer {
                            id: old(servers)@[at].id,
                            enabled,
                            settings: old(servers)@[at].settings,
                        }),
                    )
                },
            Err(_) => no_server(old(servers)@, id@) && *final(servers) == *old(servers) && fails(
                r,
                "mcp_server_not_found"@,
            ),
        },
{
    match find_server(servers, id) {
        Some(at) => {
            servers[at].enabled = enabled;
            assert(servers@ =~= old(servers)@.update(at as int, servers@[at as int]));
            assert(is_server_at(old(servers)@, id@, at as int));
            Ok(())
        },
        None => fail("mcp_server_not_found"),
    }
}

/// The server that a restart probes: it is configured and enabled. The result is its position.
pub fn restart_mcp_server<S>(servers: &Vec<McpServer<S>>, id: &str) -> (r: Result<usize, String>)
    ensures
        match r {
            Ok(at) => is_server_at(servers@, id@, at as int) && servers@[at as int].enabled,
            Err(_) => {
                ||| no_server(servers@, id@) && fails(r, "mcp_server_not_found"@)
                ||| exists|at: int| #[trigger]
                    is_server_at(servers@, id@, at) && !servers@[at].enabled && fails(
                        r,
                        "mcp_server_disabled"@,
                    )
            },
        },
{
    match find_server(servers, id) {
        Some(at) => {
            if !servers[at].enabled {
                assert(is_server_at(servers@, id@, at as int));
                return fail("mcp_server_disabled");
            }
            Ok(at)
        },
        None => fail("mcp_server_not_found"),
    }
}

/// The state of a tool server after a probe.
pub struct McpServerStatus {
    pub connected: bool,
    pub tool_count: Option<usize>,
    pub last_error: Option<String>,
}

/// The state that a probe leaves: connected with its tools, or an error.
pub fn probe_status(outcome: &Result<usize, String>) -> (r: McpServerStatus)
    ensures
        match *outcome {
            Ok(tools) => r.connected && r.tool_count == Some(tools) && r.last_error is None,
            Err(reason) => !r.connected && r.tool_count is None && r.last_error == Some(reason),
        },
{
    match outcome {
        Ok(tools) => McpServerStatus { connected: true, tool_count: Some(*tools), last_error: None },
        Err(reason) => McpServerStatus {
            connected: false,
            tool_count: None,
            last_error: Some(reason.clone()),
        },
    }
}

/// When an automation fires.
pub enum ScheduleKind {
    /// Once, at a time in milliseconds since the epoch.
    At { at_ms: i64 },
    /// Again and again, with this pause in milliseconds.
    Every { every_ms: i64 },
    /// By a cron expression.
    Cron { expr: String },
}

impl ScheduleKind {
    /// The same schedule.
    pub fn copy(&self) -> (r: Self)
        ensures
            r == *self,
    {
        match self {
            ScheduleKind::At { at_ms } => ScheduleKind::At { at_ms: *at_ms },
            ScheduleKind::Every { every_ms } => ScheduleKind::Every { every_ms: *every_ms },
            ScheduleKind::Cron { expr } => ScheduleKind::Cron { expr: expr.clone() },
        }
    }
}

/// An automation as the native protocol shows it. Scheduler credentials are no part of it.
pub struct StdioAutomation {
    pub id: String,
    pub chat_id: String,
    pub title: String,
    pub prompt: String,
    pub schedule: ScheduleKind,
    pub enabled: bool,
}

/// What a scheduled job carries for an automation: the title apart from the instruction.
pub struct AutomationPayload {
    pub altai_automation: u8,
    pub title: String,
    pub prompt: String,
}

/// The text of a job's payload.
pub open spec fn payload_text(title: Seq<char>, prompt: Seq<char>) -> Seq<char> {
    "{\"altai_automation\":1,\"title\":"@ + outside::json_string(title) + ",\"prompt\":"@
        + outside::json_string(prompt) + "}"@
}

/// Encodes a title and an instruction as a job's payload.
pub fn encode_automation_payload(title: &str, prompt: &str) -> (r: Result<String, String>)
    ensures
        r is Ok,
        r->Ok_0@ == payload_text(title@, prompt@),
{
    let quoted_title: String = match outside::json_quote(title) {
        Ok(quoted) => quoted,
        Err(error) => {
            return Err(text::joined("automation_payload_encode_failed: ", &error));
        },
    };
    let quoted_prompt: String = match outside::json_quote(prompt) {
        Ok(quoted) => quoted,
        Err(error) => {
            return Err(text::joined("automation_payload_encode_failed: ", &error));
        },
    };
    let mut out: String = "{\"altai_automation\":1,\"title\":".to_owned();
    out.append(&quoted_title);
    out.append(",\"prompt\":");
    out.append(&quoted_prompt);
    out.append("}");
    Ok(out)
}

/// The payload is an automation's: it carries the mark, a title and an instruction.
pub open spec fn is_automation(payload: AutomationPayload) -> bool {
    payload.altai_automation == 1 && !text::is_blank(payload.title@) && !text::is_blank(
        payload.prompt@,
    )
}

/// Accepts a parsed payload as an automation's, or does not.
pub fn decode_automation_payload(parsed: Option<AutomationPayload>) -> (r: Option<
    AutomationPayload,
>)
    ensures
        r == match parsed {
            Some(payload) if is_automation(payload) => Some(payload),
            _ => None,
        },
{
    match parsed {
        Some(payload) => {
            if payload.altai_automation == 1 && !text::blank(&payload.title) && !text::blank(
                &payload.prompt,
            ) {
                Some(payload)
            } else {
                None
            }
        },
        None => None,
    }
}

/// A payload's text keeps its title and its instruction: no other pair is written the same.
pub proof fn law_payload_text_is_unambiguous(
    title: Seq<char>,
    prompt: Seq<char>,
    other_title: Seq<char>,
    other_prompt: Seq<char>,
)
    requires
        payload_text(title, prompt) == payload_text(other_title, other_prompt),
    ensures
        title == other_title,
        prompt == other_prompt,
{
    let head = "{\"altai_automation\":1,\"title\":"@;
    let middle = ",\"prompt\":"@;
    let tail = outside::json_string(prompt) + "}"@;
    let other_tail = outside::json_string(other_prompt) + "}"@;
    let text = payload_text(title, prompt);
    let other = payload_text(other_title, other_prompt);
    assert(text.skip(head.len() as int) =~= outside::json_string(title) + (middle + tail));
    assert(other.skip(head.len() as int) =~= outside::json_string(other_title) + (middle
        + other_tail));
    outside::law_json_strings_are_unambiguous(
        title,
        other_title,
        middle + tail,
        middle + other_tail,
    );
    assert((middle + tail).skip(middle.len() as int) =~= tail);
    assert((middle + other_tail).skip(middle.len() as int) =~= other_tail);
    outside::law_json_strings_are_unambiguous(prompt, other_prompt, "}"@, "}"@);
}

/// The payload is what the text was written from. There is at most one title and one instruction
/// that a text was written from.
pub open spec fn is_written_from(message: Seq<char>, payload: AutomationPayload) -> bool {
    &&& payload.altai_automation == 1
    &&& message == payload_text(payload.title@, payload.prompt@)
}

/// What is encoded is decoded: a parse that finds what the text of a payload was written from gives
/// back the title and the instruction, and nothing where either is blank.
pub proof fn law_payload_round_trips(
    title: Seq<char>,
    prompt: Seq<char>,
    parsed: AutomationPayload,
    r: Option<AutomationPayload>,
)
    requires
        is_written_from(payload_text(title, prompt), parsed),
        r == match Some(parsed) {
            Some(payload) if is_automation(payload) => Some(payload),
            _ => None,
        },
    ensures
        match r {
            Some(payload) => {
                &&& payload.altai_automation == 1
                &&& payload.title@ == title
                &&& payload.prompt@ == prompt
                &&& !text::is_blank(title) && !text::is_blank(prompt)
            },
            None => text::is_blank(title) || text::is_blank(prompt),
        },
{
    law_payload_text_is_unambiguous(title, prompt, parsed.title@, parsed.prompt@);
}

/// An automation's name starts with `altai:` and has at most 512 bytes.
pub open spec fn is_automation_id(id: Seq<char>) -> bool {
    text::begins_with(id, "altai:"@) && text::byte_len(id) <= 512
}

/// Checks the name of an automation.
pub fn validate_automation_id(id: &str) -> (r: Result<(), String>)
    ensures
        r is Ok <==> is_automation_id(id@),
        r is Err ==> fails(r, "invalid_automation_id"@),
{
    if text::starts(id, "altai:") && text::byte_count(id) <= 512 {
        Ok(())
    } else {
        fail("invalid_automation_id")
    }
}

/// A chat that an automation can address: not blank, at most 256 bytes, without a colon.
pub open spec fn is_automation_chat(chat_id: Seq<char>) -> bool {
    is_bounded_name(chat_id, 256) && !chat_id.contains(':')
}

/// Whether a character occurs in a text.
fn holds_char(text: &str, c: char) -> (r: bool)
    ensures
        r == text@.contains(c),
{
    let chars: Vec<char> = text::chars_of(text);
    let mut i: usize = 0;
    while i < chars.len()
        invariant
            i <= chars@.len(),
            chars@ == text@,
            forall|k: int| 0 <= k < i ==> chars@[k] != c,
        decreases chars@.len() - i,
    {
        if chars[i] == c {
            return true;
        }
        i = i + 1;
    }
    false
}

/// Checks the chat of an automation.
pub fn validate_automation_chat_id(chat_id: &str) -> (r: Result<(), String>)
    ensures
        r is Ok <==> is_automation_chat(chat_id@),
        r is Err ==> fails(r, "invalid_automation_chat_id"@),
{
    if !text::blank(chat_id) && text::byte_count(chat_id) <= 256 && !holds_char(chat_id, ':') {
        Ok(())
    } else {
        fail("invalid_automation_chat_id")
    }
}

/// The text without its surrounding white space is neither empty nor longer than `limit` bytes.
pub open spec fn is_bounded_text(given: Seq<char>, limit: int) -> bool {
    text::trimmed(given).len() > 0 && text::byte_len(text::trimmed(given)) <= limit
}

/// Trims a text and checks its length.
fn bounded_trim(given: &str, limit: usize, words: &str) -> (r: Result<String, String>)
    ensures
        match r {
            Ok(kept) => is_bounded_text(given@, limit as int) && kept@ == text::trimmed(given@),
            Err(_) => !is_bounded_text(given@, limit as int) && fails(r, words@),
        },
{
    let kept: String = text::trim(given);
    if kept.as_str().is_empty() || text::byte_count(&kept) > limit {
        fail(words)
    } else {
        Ok(kept)
    }
}

/// The title of an automation, trimmed: one to 256 bytes.
pub fn validate_automation_title(title: &str) -> (r: Result<String, String>)
    ensures
        match r {
            Ok(kept) => is_bounded_text(title@, 256) && kept@ == text::trimmed(title@),
            Err(_) => !is_bounded_text(title@, 256) && fails(r, "invalid_automation_title"@),
        },
{
    bounded_trim(title, 256, "invalid_automation_title")
}

/// The instruction of an automation, trimmed: one to 10000 bytes.
pub fn validate_automation_prompt(prompt: &str) -> (r: Result<String, String>)
    ensures
        match r {
            Ok(kept) => is_bounded_text(prompt@, 10_000) && kept@ == text::trimmed(prompt@),
            Err(_) => !is_bounded_text(prompt@, 10_000) && fails(r, "invalid_automation_prompt"@),
        },
{
    bounded_trim(prompt, 10_000, "invalid_automation_prompt")
}

/// The longest pause between two fires, in milliseconds: 366 days.
pub const MAX_INTERVAL_MS: i64 = 31_622_400_000;

/// What is wrong with a schedule at a given time; none where it is acceptable.
pub open spec fn schedule_fault(schedule: ScheduleKind, now_ms: i64) -> Option<Seq<char>> {
    match schedule {
        ScheduleKind::At { at_ms } => if at_ms <= now_ms {
            Some("automation_schedule_must_be_future"@)
        } else {
            None
        },
        ScheduleKind::Every { every_ms } => if every_ms < 60_000 {
            Some("automation_interval_too_short"@)
        } else if every_ms > MAX_INTERVAL_MS {
            Some("automation_interval_too_long"@)
        } else {
            None
        },
        ScheduleKind::Cron { .. } => Some("automation_cron_not_supported"@),
    }
}

/// Checks a schedule at a given time.
pub fn validate_automation_schedule_at(schedule: &ScheduleKind, now_ms: i64) -> (r: Result<
    (),
    String,
>)
    ensures
        match schedule_fault(*schedule, now_ms) {
            Some(words) => fails(r, words),
            None => r is Ok,
        },
{
    match schedule {
        ScheduleKind::At { at_ms } => if *at_ms <= now_ms {
            fail("automation_schedule_must_be_future")
        } else {
            Ok(())
        },
        ScheduleKind::Every { every_ms } => if *every_ms < 60_000 {
            fail("automation_interval_too_short")
        } else if *every_ms > MAX_INTERVAL_MS {
            fail("automation_interval_too_long")
        } else {
            Ok(())
        },
        ScheduleKind::Cron { .. } => fail("automation_cron_not_supported"),
    }
}

/// Checks a schedule at the time of the clock. Only a schedule for a point in time depends on it.
pub fn validate_automation_schedule(schedule: &ScheduleKind) -> (r: Result<(), String>)
    ensures
        match *schedule {
            ScheduleKind::At { .. } => r is Ok || fails(r, "automation_schedule_must_be_future"@),
            _ => match schedule_fault(*schedule, 0) {
                Some(words) => fails(r, words),
                None => r is Ok,
            },
        },
{
    validate_automation_schedule_at(schedule, outside::clock_millis())
}

/// A job of the scheduler, with its payload parsed where it parses as an automation's.
pub struct ScheduledJob {
    pub id: String,
    pub channel: String,
    pub chat_id: String,
    pub message: String,
    pub payload: Option<AutomationPayload>,
    pub schedule: ScheduleKind,
    pub enabled: bool,
}

/// The job is an automation of the stdio channel.
pub open spec fn is_stdio_automation(job: ScheduledJob) -> bool {
    job.channel@ == "stdio"@ && text::begins_with(job.id@, "altai:"@)
}

/// `shown` shows the job: title and instruction from its payload, or its whole message for both
/// where the payload is not an automation's.
pub open spec fn shows(shown: StdioAutomation, job: ScheduledJob) -> bool {
    &&& shown.id == job.id
    &&& shown.chat_id == job.chat_id
    &&& shown.schedule == job.schedule
    &&& shown.enabled == job.enabled
    &&& match job.payload {
        Some(payload) if is_automation(payload) => shown.title == payload.title && shown.prompt
            == payload.prompt,
        _ => shown.title == job.message && shown.prompt == job.message,
    }
}

/// The positions of the stdio automations among the jobs, in order.
pub open spec fn automation_positions(jobs: Seq<ScheduledJob>) -> Seq<int>
    decreases jobs.len(),
{
    if jobs.len() == 0 {
        Seq::empty()
    } else if is_stdio_automation(jobs.last()) {
        automation_positions(jobs.drop_last()).push(jobs.len() - 1)
    } else {
        automation_positions(jobs.drop_last())
    }
}

/// `list` shows the stdio automations among the jobs, ordered by name, jobs of one name in the
/// order in which they stand.
pub open spec fn is_automation_list(list: Seq<StdioAutomation>, jobs: Seq<ScheduledJob>) -> bool {
    let positions = automation_positions(jobs);
    exists|order: Seq<usize>|
        {
            &&& order.len() == positions.len()
            &&& list.len() == order.len()
            &&& forall|i: int| 0 <= i < order.len() ==> (#[trigger] order[i]) < positions.len()
            &&& forall|i: int, j: int|
                0 <= i < j < order.len() ==> name_precedes(
                    jobs,
                    positions,
                    (#[trigger] order[i]) as int,
                    (#[trigger] order[j]) as int,
                )
            &&& forall|i: int|
                0 <= i < order.len() ==> shows(#[trigger] list[i], jobs[positions[order[i] as int]])
        }
}

/// The automation at `i` among the positions comes before the one at `j`.
pub open spec fn name_precedes(
    jobs: Seq<ScheduledJob>,
    positions: Seq<int>,
    i: int,
    j: int,
) -> bool {
    let a = jobs[positions[i]].id@;
    let b = jobs[positions[j]].id@;
    text::lt(a, b) || (a == b && i < j)
}

/// Shows a job as an automation.
fn show_job(job: &ScheduledJob) -> (r: StdioAutomation)
    ensures
        shows(r, *job),
{
    let (title, prompt): (String, String) = match &job.payload {
        Some(payload) => {
            if payload.altai_automation == 1 && !text::blank(&payload.title) && !text::blank(
                &payload.prompt,
            ) {
                (payload.title.clone(), payload.prompt.clone())
            } else {
                (job.message.clone(), job.message.clone())
            }
        },
        None => (job.message.clone(), job.message.clone()),
    };
    StdioAutomation {
        id: job.id.clone(),
        chat_id: job.chat_id.clone(),
        title,
        prompt,
        schedule: job.schedule.copy(),
        enabled: job.enabled,
    }
}

/// The automations of the stdio channel, ordered by name. Other jobs of the scheduler stay
/// behind.
pub fn list_automations(jobs: &Vec<ScheduledJob>) -> (r: Vec<StdioAutomation>)
    ensures
        is_automation_list(r@, jobs@),
{
    let mut positions: Vec<usize> = Vec::new();
    let mut keys: Vec<SortKey> = Vec::new();
    let mut i: usize = 0;
    assert(jobs@.take(0) =~= Seq::empty());
    while i < jobs.len()
        invariant
            i <= jobs@.len(),
            positions@.len() == keys@.len(),
            positions@.len() == automation_positions(jobs@.take(i as int)).len(),
            forall|k: int|
                0 <= k < positions@.len() ==> (#[trigger] positions@[k]) as int
                    == automation_positions(jobs@.take(i as int))[k] && positions@[k] < i
                    && keys@[k].name@ == jobs@[positions@[k] as int].id@ && keys@[k].rank == 0,
        decreases jobs@.len() - i,
    {
        assert(jobs@.take(i + 1).drop_last() =~= jobs@.take(i as int));
        if text::same(&jobs[i].channel, "stdio") && text::starts(&jobs[i].id, "altai:") {
            positions.push(i);
            keys.push(SortKey { rank: 0, name: jobs[i].id.clone() });
        }
        i = i + 1;
    }
    assert(jobs@.take(jobs@.len() as int) =~= jobs@);
    let order: Vec<usize> = stable_order(&keys);
    let ghost all = automation_positions(jobs@);
    let mut list: Vec<StdioAutomation> = Vec::new();
    let mut j: usize = 0;
    while j < order.len()
        invariant
            j <= order@.len(),
            list@.len() == j,
            order@.len() == positions@.len(),
            all == automation_positions(jobs@),
            all.len() == positions@.len(),
            forall|k: int|
                0 <= k < positions@.len() ==> (#[trigger] positions@[k]) as int == all[k]
                    && positions@[k] < jobs@.len(),
            forall|a: int| 0 <= a < order@.len() ==> (#[trigger] order@[a]) < positions@.len(),
            forall|k: int| 0 <= k < j ==> shows(#[trigger] list@[k], jobs@[all[order@[k] as int]]),
        decreases order@.len() - j,
    {
        assert(order@[j as int] < positions@.len());
        assert(positions@[order@[j as int] as int] as int == all[order@[j as int] as int]);
        list.push(show_job(&jobs[positions[order[j]]]));
        j = j + 1;
    }
    proof {
        let o = order@;
        assert forall|a: int, b: int| 0 <= a < b < o.len() implies name_precedes(
            jobs@,
            all,
            (#[trigger] o[a]) as int,
            (#[trigger] o[b]) as int,
        ) by {
            assert(crate::stable_sort::precedes(keys@, o[a] as int, o[b] as int));
            assert(positions@[o[a] as int] as int == all[o[a] as int]);
            assert(positions@[o[b] as int] as int == all[o[b] as int]);
            text::law_order_total(keys@[o[a] as int].name@, keys@[o[b] as int].name@);
        }
    }
    list
}

/// The command that the scheduler is sent for a change.
pub struct AutomationUpdate {
    pub id: String,
    pub schedule: Option<ScheduleKind>,
    /// The encoded payload, where the title or the instruction changed.
    pub message: Option<String>,
    pub enabled: Option<bool>,
}

/// A fresh name for an automation.
pub fn new_automation_id() -> (r: String)
    ensures
        is_automation_id(r@),
        outside::is_random_uuid(r@.skip("altai:"@.len() as int)),
{
    let uuid: String = outside::random_uuid();
    let id: String = text::joined("altai:", &uuid);
    proof {
        reveal_strlit("altai:");
        assert(id@.skip("altai:"@.len() as int) =~= uuid@);
        assert(id@.subrange(0, "altai:"@.len() as int) =~= "altai:"@);
        assert forall|i: int| 0 <= i < id@.len() implies 0 <= (#[trigger] id@[i]) as nat <= 127 by {
            if i >= 6 {
                assert(id@[i] == uuid@[i - 6]);
            } else {
                assert(id@[i] == "altai:"@[i]);
            }
        }
        vstd::utf8::is_ascii_chars_encode_utf8(id@);
    }
    id
}

/// What is wrong with a new automation at a given time, the chat, the title, the instruction and
/// the schedule being looked at in this order; none where it is acceptable.
pub open spec fn creation_fault(
    chat_id: Seq<char>,
    title: Seq<char>,
    prompt: Seq<char>,
    schedule: ScheduleKind,
    now_ms: i64,
) -> Option<Seq<char>> {
    if !is_automation_chat(chat_id) {
        Some("invalid_automation_chat_id"@)
    } else if !is_bounded_text(title, 256) {
        Some("invalid_automation_title"@)
    } else if !is_bounded_text(prompt, 10_000) {
        Some("invalid_automation_prompt"@)
    } else {
        schedule_fault(schedule, now_ms)
    }
}

/// `created` is the new automation of a name, enabled and with its texts trimmed, and `message` is
/// the encoded payload of its job.
pub open spec fn is_creation(
    created: StdioAutomation,
    message: Seq<char>,
    id: Seq<char>,
    chat_id: Seq<char>,
    title: Seq<char>,
    prompt: Seq<char>,
    schedule: ScheduleKind,
) -> bool {
    &&& created.id@ == id
    &&& created.chat_id@ == chat_id
    &&& created.title@ == text::trimmed(title)
    &&& created.prompt@ == text::trimmed(prompt)
    &&& created.schedule == schedule
    &&& created.enabled
    &&& message == payload_text(text::trimmed(title), text::trimmed(prompt))
}

/// Creates an automation under a given name, at a given time. The second part of the result is
/// the encoded payload of its job.
pub fn create_automation_at(
    id: String,
    chat_id: &str,
    title: &str,
    prompt: &str,
    schedule: ScheduleKind,
    now_ms: i64,
) -> (r: Result<(StdioAutomation, String), String>)
    ensures
        match creation_fault(chat_id@, title@, prompt@, schedule, now_ms) {
            Some(words) => fails(r, words),
            None => r is Ok && is_creation(
                r->Ok_0.0,
                r->Ok_0.1@,
                id@,
                chat_id@,
                title@,
                prompt@,
                schedule,
            ),
        },
{
    match validate_automation_chat_id(chat_id) {
        Ok(_) => {},
        Err(words) => {
            return Err(words);
        },
    }
    let title: String = match validate_automation_title(title) {
        Ok(kept) => kept,
        Err(words) => {
            return Err(words);
        },
    };
    let prompt: String = match validate_automation_prompt(prompt) {
        Ok(kept) => kept,
        Err(words) => {
            return Err(words);
        },
    };
    match validate_automation_schedule_at(&schedule, now_ms) {
        Ok(_) => {},
        Err(words) => {
            return Err(words);
        },
    }
    let message: String = match encode_automation_payload(&title, &prompt) {
        Ok(text) => text,
        Err(words) => {
            return Err(words);
        },
    };
    Ok(
        (
            StdioAutomation {
                id,
                chat_id: chat_id.to_owned(),
                title,
                prompt,
                schedule,
                enabled: true,
            },
            message,
        ),
    )
}

/// Creates an automation under a fresh name, at the time of the clock. Which name it gets is left
/// to chance; only a schedule for a point in time depends on the clock.
pub fn create_automation(chat_id: &str, title: &str, prompt: &str, schedule: ScheduleKind) -> (r:
    Result<(StdioAutomation, String), String>)
    ensures
        exists|id: Seq<char>, now_ms: i64|
            #![trigger is_automation_id(id), creation_fault(chat_id@, title@, prompt@, schedule, now_ms)]
            {
                &&& is_automation_id(id)
                &&& outside::is_random_uuid(id.skip("altai:"@.len() as int))
                &&& match creation_fault(chat_id@, title@, prompt@, schedule, now_ms) {
                    Some(words) => fails(r, words),
                    None => r is Ok && is_creation(
                        r->Ok_0.0,
                        r->Ok_0.1@,
                        id,
                        chat_id@,
                        title@,
                        prompt@,
                        schedule,
                    ),
                }
            },
{
    let id: String = new_automation_id();
    let now_ms: i64 = outside::clock_millis();
    let ghost name = id@;
    let r: Result<(StdioAutomation, String), String> = create_automation_at(
        id,
        chat_id,
        title,
        prompt,
        schedule,
        now_ms,
    );
    assert(is_automation_id(name));
    r
}

/// The text of a field after a change: the new one, trimmed, or the one that is there.
pub open spec fn patched_text(change: Option<String>, current: Seq<char>) -> Seq<char> {
    match change {
        Some(given) => text::trimmed(given@),
        None => current,
    }
}

/// What is wrong with a change at a given time, the title, the instruction and the schedule being
/// looked at in this order; none where it is acceptable.
pub open spec fn update_fault(
    title: Option<String>,
    prompt: Option<String>,
    schedule: Option<ScheduleKind>,
    now_ms: i64,
) -> Option<Seq<char>> {
    if title is Some && !is_bounded_text(title->0@, 256) {
        Some("invalid_automation_title"@)
    } else if prompt is Some && !is_bounded_text(prompt->0@, 10_000) {
        Some("invalid_automation_prompt"@)
    } else {
        match schedule {
            Some(given) => schedule_fault(given, now_ms),
            None => None,
        }
    }
}

/// `updated` is the automation after a change and `command` what the scheduler is sent for it.
/// What is not given stays; the payload is sent again only where the title or the instruction
/// changed.
pub open spec fn is_update(
    updated: StdioAutomation,
    command: AutomationUpdate,
    existing: StdioAutomation,
    title: Option<String>,
    prompt: Option<String>,
    schedule: Option<ScheduleKind>,
    enabled: Option<bool>,
) -> bool {
    &&& updated.id == existing.id
    &&& updated.chat_id == existing.chat_id
    &&& updated.title@ == patched_text(title, existing.title@)
    &&& updated.prompt@ == patched_text(prompt, existing.prompt@)
    &&& updated.schedule == match schedule {
        Some(given) => given,
        None => existing.schedule,
    }
    &&& updated.enabled == enabled.unwrap_or(existing.enabled)
    &&& command.id == existing.id
    &&& command.schedule == schedule
    &&& command.enabled == enabled
    &&& match command.message {
        Some(message) => message@ == payload_text(updated.title@, updated.prompt@) && (
        updated.title@ != existing.title@ || updated.prompt@ != existing.prompt@),
        None => updated.title@ == existing.title@ && updated.prompt@ == existing.prompt@,
    }
}

/// A validated field of a change: the new text, trimmed and checked, or the one that is there.
fn patched(
    change: &Option<String>,
    current: &String,
    limit: usize,
    words: &str,
) -> (r: Result<String, String>)
    ensures
        match r {
            Ok(kept) => {
                &&& kept@ == patched_text(*change, current@)
                &&& *change is Some ==> is_bounded_text((*change)->0@, limit as int)
            },
            Err(_) => {
                &&& *change is Some
                &&& !is_bounded_text((*change)->0@, limit as int)
                &&& fails(r, words@)
            },
        },
{
    match change {
        Some(given) => bounded_trim(given, limit, words),
        None => Ok(current.clone()),
    }
}

/// Changes an automation at a given time.
pub fn update_automation_at(
    existing: &StdioAutomation,
    title: &Option<String>,
    prompt: &Option<String>,
    schedule: &Option<ScheduleKind>,
    enabled: Option<bool>,
    now_ms: i64,
) -> (r: Result<(StdioAutomation, AutomationUpdate), String>)
    ensures
        match update_fault(*title, *prompt, *schedule, now_ms) {
            Some(words) => fails(r, words),
            None => r is Ok && is_update(
                r->Ok_0.0,
                r->Ok_0.1,
                *existing,
                *title,
                *prompt,
                *schedule,
                enabled,
            ),
        },
{
    let title: String = match patched(title, &existing.title, 256, "invalid_automation_title") {
        Ok(kept) => kept,
        Err(words) => {
            return Err(words);
        },
    };
    let prompt: String = match patched(prompt, &existing.prompt, 10_000, "invalid_automation_prompt") {
        Ok(kept) => kept,
        Err(words) => {
            return Err(words);
        },
    };
    let (sent, shown): (Option<ScheduleKind>, ScheduleKind) = match schedule {
        Some(given) => {
            match validate_automation_schedule_at(given, now_ms) {
                Ok(_) => {},
                Err(words) => {
                    return Err(words);
                },
            }
            (Some(given.copy()), given.copy())
        },
        None => (None, existing.schedule.copy()),
    };
    let message: Option<String> = if !text::same(&title, &existing.title) || !text::same(
        &prompt,
        &existing.prompt,
    ) {
        match encode_automation_payload(&title, &prompt) {
            Ok(text) => Some(text),
            Err(words) => {
                return Err(words);
            },
        }
    } else {
        None
    };
    let command: AutomationUpdate = AutomationUpdate {
        id: existing.id.clone(),
        schedule: sent,
        message,
        enabled,
    };
    let updated: StdioAutomation = StdioAutomation {
        id: existing.id.clone(),
        chat_id: existing.chat_id.clone(),
        title,
        prompt,
        schedule: shown,
        enabled: enabled.unwrap_or(existing.enabled),
    };
    Ok((updated, command))
}

/// The first automation of a name among those listed is at `at`.
pub open spec fn is_found(listed: Seq<StdioAutomation>, id: Seq<char>, at: int) -> bool {
    &&& 0 <= at < listed.len()
    &&& listed[at].id@ == id
    &&& forall|k: int| 0 <= k < at ==> (#[trigger] listed[k]).id@ != id
}

/// No automation has that name.
pub open spec fn is_missing(listed: Seq<StdioAutomation>, id: Seq<char>) -> bool {
    forall|k: int| 0 <= k < listed.len() ==> (#[trigger] listed[k]).id@ != id
}

/// Why an automation cannot be addressed; none where it can.
pub open spec fn lookup_fault(listed: Seq<StdioAutomation>, id: Seq<char>) -> Option<Seq<char>> {
    if !is_automation_id(id) {
        Some("invalid_automation_id"@)
    } else if is_missing(listed, id) {
        Some("automation_not_found"@)
    } else {
        None
    }
}

/// The position of the first automation of a name among those listed.
pub fn find_automation(listed: &Vec<StdioAutomation>, automation_id: &str) -> (r: Result<
    usize,
    String,
>)
    ensures
        match lookup_fault(listed@, automation_id@) {
            Some(words) => fails(r, words),
            None => r is Ok && is_found(listed@, automation_id@, r->Ok_0 as int),
        },
{
    match validate_automation_id(automation_id) {
        Ok(_) => {},
        Err(words) => {
            return Err(words);
        },
    }
    let mut i: usize = 0;
    while i < listed.len()
        invariant
            i <= listed@.len(),
            is_automation_id(automation_id@),
            forall|k: int| 0 <= k < i ==> (#[trigger] listed@[k]).id@ != automation_id@,
        decreases listed@.len() - i,
    {
        if text::same(&listed[i].id, automation_id) {
            return Ok(i);
        }
        i = i + 1;
    }
    fail("automation_not_found")
}

/// Changes the automation of a name at the time of the clock. Only a new schedule for a point in
/// time depends on the clock.
pub fn update_automation(
    listed: &Vec<StdioAutomation>,
    automation_id: &str,
    title: &Option<String>,
    prompt: &Option<String>,
    schedule: &Option<ScheduleKind>,
    enabled: Option<bool>,
) -> (r: Result<(StdioAutomation, AutomationUpdate), String>)
    ensures
        match lookup_fault(listed@, automation_id@) {
            Some(words) => fails(r, words),
            None => exists|at: int, now_ms: i64|
                #![trigger is_found(listed@, automation_id@, at), update_fault(*title, *prompt, *schedule, now_ms)]
                {
                    &&& is_found(listed@, automation_id@, at)
                    &&& match update_fault(*title, *prompt, *schedule, now_ms) {
                        Some(words) => fails(r, words),
                        None => r is Ok && is_update(
                            r->Ok_0.0,
                            r->Ok_0.1,
                            listed@[at],
                            *title,
                            *prompt,
                            *schedule,
                            enabled,
                        ),
                    }
                },
        },
{
    let at: usize = match find_automation(listed, automation_id) {
        Ok(at) => at,
        Err(words) => {
            return Err(words);
        },
    };
    let now_ms: i64 = outside::clock_millis();
    let r: Result<(StdioAutomation, AutomationUpdate), String> = update_automation_at(
        &listed[at],
        title,
        prompt,
        schedule,
        enabled,
        now_ms,
    );
    assert(is_found(listed@, automation_id@, at as int));
    r
}

/// The automation that is triggered: the first of its name, and only while it is enabled.
pub fn trigger_automation(listed: &Vec<StdioAutomation>, automation_id: &str) -> (r: Result<
    usize,
    String,
>)
    ensures
        match lookup_fault(listed@, automation_id@) {
            Some(words) => fails(r, words),
            None => exists|at: int| #[trigger]
                is_found(listed@, automation_id@, at) && if listed@[at].enabled {
                    r == Ok::<usize, String>(at as usize)
                } else {
                    fails(r, "automation_paused"@)
                },
        },
{
    let at: usize = match find_automation(listed, automation_id) {
        Ok(at) => at,
        Err(words) => {
            return Err(words);
        },
    };
    assert(is_found(listed@, automation_id@, at as int));
    if !listed[at].enabled {
        return fail("automation_paused");
    }
    Ok(at)
}

/// Pauses the automation of a name: nothing but its being enabled changes.
pub fn pause_automation(listed: &Vec<StdioAutomation>, automation_id: &str) -> (r: Result<
    (StdioAutomation, AutomationUpdate),
    String,
>)
    ensures
        match lookup_fault(listed@, automation_id@) {
            Some(words) => fails(r, words),
            None => exists|at: int| #[trigger]
                is_found(listed@, automation_id@, at) && r is Ok && is_update(
                    r->Ok_0.0,
                    r->Ok_0.1,
                    listed@[at],
                    None,
                    None,
                    None,
                    Some(false),
                ),
        },
{
    update_automation(listed, automation_id, &None, &None, &None, Some(false))
}

/// The automation that is removed: the first of its name.
pub fn delete_automation(listed: &Vec<StdioAutomation>, automation_id: &str) -> (r: Result<
    usize,
    String,
>)
    ensures
        match lookup_fault(listed@, automation_id@) {
            Some(words) => fails(r, words),
            None => r is Ok && is_found(listed@, automation_id@, r->Ok_0 as int),
        },
{
    find_automation(listed, automation_id)
}

/// The state directory of a workspace's sessions.
pub fn session_workspace_root(workspace_root: &str) -> (r: String)
    ensures
        r@ == text::trim_end_of(workspace_root@, '/') + "/.isanagent"@,
{
    let mut out: String = text::trim_end(workspace_root, '/');
    out.append("/.isanagent");
    out
}

/// The root whose services are asked for: the given one, or the host's own where none is given.
pub fn requested_root(workspace_root: &str, own_root: &str) -> (r: String)
    ensures
        r@ == if workspace_root@.len() == 0 {
            own_root@
        } else {
            workspace_root@
        },
{
    if workspace_root.is_empty() {
        own_root.to_owned()
    } else {
        workspace_root.to_owned()
    }
}

/// Where the services of a workspace come from.
#[derive(Debug, Clone, Copy, PartialEq, Eq, Structural)]
pub enum ServiceSource {
    /// They are running already.
    Running,
    /// The host opened them at its start, so its own process's runs are not taken for abandoned.
    Session,
    /// They are opened now.
    Opened,
}

/// Where the services of a directory come from, given the directories whose services are running
/// and the one whose services the host opened at its start.
pub open spec fn source_of(
    running: Seq<Seq<char>>,
    directory: Seq<char>,
    session_directory: Seq<char>,
) -> ServiceSource {
    if running.contains(directory) {
        ServiceSource::Running
    } else if directory == session_directory {
        ServiceSource::Session
    } else {
        ServiceSource::Opened
    }
}

/// The services that a host opened at its start are never opened a second time, whatever is
/// running.
pub proof fn law_session_services_are_never_reopened(
    running: Seq<Seq<char>>,
    session_directory: Seq<char>,
)
    ensures
        source_of(running, session_directory, session_directory) != ServiceSource::Opened,
{
}

/// Services that run are used as long as they are kept: asking for them again opens nothing.
pub proof fn law_running_services_are_reused(
    running: Seq<Seq<char>>,
    directory: Seq<char>,
    session_directory: Seq<char>,
)
    ensures
        source_of(running.push(directory), directory, session_directory) == ServiceSource::Running,
        source_of(retained(running.push(directory), directory), directory, session_directory)
            == ServiceSource::Running,
{
    let grown = running.push(directory);
    assert(grown[grown.len() - 1] == directory);
    grown.lemma_filter_contains(is_kept(directory), grown.len() - 1);
}

/// Decides where the services of a directory come from.
pub fn workspace_bundle(running: &Vec<String>, directory: &str, session_directory: &str) -> (r:
    ServiceSource)
    ensures
        r == source_of(text::views(running@), directory@, session_directory@),
{
    let mut i: usize = 0;
    while i < running.len()
        invariant
            i <= running@.len(),
            forall|k: int| 0 <= k < i ==> (#[trigger] running@[k])@ != directory@,
        decreases running@.len() - i,
    {
        if text::same(&running[i], directory) {
            assert(text::views(running@)[i as int] == directory@);
            return ServiceSource::Running;
        }
        i = i + 1;
    }
    if text::same(directory, session_directory) {
        ServiceSource::Session
    } else {
        ServiceSource::Opened
    }
}

/// Where opening the services of a workspace can fail.
#[derive(Debug, Clone, Copy, PartialEq, Eq, Structural)]
pub enum BundleStage {
    Services,
    /// The path of the database is no text.
    DatabasePath,
    Memory,
    LogForwarder,
    Cron,
}

/// What is said of services that could not be opened.
pub fn bundle_failure(stage: BundleStage, error: &str) -> (r: String)
    ensures
        r@ == match stage {
            BundleStage::Services => "Failed to initialize workspace services: "@ + error@,
            BundleStage::DatabasePath => "workspace DB path is not valid UTF-8"@,
            BundleStage::Memory => "Failed to initialize SqliteMemoryActor: "@ + error@,
            BundleStage::LogForwarder => "Failed to start workspace logger forwarder: "@ + error@,
            BundleStage::Cron => "Failed to initialize workspace cron actor: "@ + error@,
        },
{
    match stage {
        BundleStage::Services => text::joined("Failed to initialize workspace services: ", error),
        BundleStage::DatabasePath => "workspace DB path is not valid UTF-8".to_owned(),
        BundleStage::Memory => text::joined("Failed to initialize SqliteMemoryActor: ", error),
        BundleStage::LogForwarder => text::joined(
            "Failed to start workspace logger forwarder: ",
            error,
        ),
        BundleStage::Cron => text::joined("Failed to initialize workspace cron actor: ", error),
    }
}

/// The directory is the one to keep.
pub open spec fn is_kept(keep: Seq<char>) -> spec_fn(Seq<char>) -> bool {
    |directory: Seq<char>| directory == keep
}

/// The directories whose services stay running when only one of them is kept.
pub open spec fn retained(running: Seq<Seq<char>>, keep: Seq<char>) -> Seq<Seq<char>> {
    running.filter(is_kept(keep))
}

/// Decides which running services stay when a host keeps those of one directory alone.
pub fn retain_workspace_bundles(running: &Vec<String>, keep: &str) -> (r: Vec<String>)
    ensures
        text::views(r@) == retained(text::views(running@), keep@),
{
    let mut out: Vec<String> = Vec::new();
    let ghost all = text::views(running@);
    let ghost kept = is_kept(keep@);
    let mut i: usize = 0;
    assert(text::views(out@) =~= all.take(0).filter(kept)) by {
        reveal(Seq::filter);
    }
    while i < running.len()
        invariant
            i <= running@.len(),
            all == text::views(running@),
            kept == is_kept(keep@),
            text::views(out@) == all.take(i as int).filter(kept),
        decreases running@.len() - i,
    {
        let ghost before = text::views(out@);
        proof {
            reveal(Seq::filter);
            assert(all.take(i + 1).drop_last() =~= all.take(i as int));
            assert(all.take(i + 1).last() == running@[i as int]@);
        }
        if text::same(&running[i], keep) {
            out.push(running[i].clone());
            assert(text::views(out@) =~= before.push(running@[i as int]@));
        }
        i = i + 1;
    }
    assert(all.take(i as int) =~= all);
    out
}

/// Where checkpoints are kept: below the home directory, however the system names it.
pub fn dirs_checkpoint_root(home: Option<String>, user_profile: Option<String>) -> (r: Option<String>)
    ensures
        match (home, user_profile, r) {
            (Some(folder), _, Some(root)) => root@ == checkpoints_below(folder@),
            (None, Some(folder), Some(root)) => root@ == checkpoints_below(folder@),
            (None, None, None) => true,
            _ => false,
        },
{
    let folder: String = match home {
        Some(folder) => folder,
        None => match user_profile {
            Some(folder) => folder,
            None => {
                return None;
            },
        },
    };
    Some(path_inside(&path_inside(&folder, ".altai"), "checkpoints"))
}

/// The checkpoint directory below a home directory.
pub open spec fn checkpoints_below(folder: Seq<char>) -> Seq<char> {
    crate::instance_builder::inside(
        crate::instance_builder::inside(folder, ".altai"@),
        "checkpoints"@,
    )
}

/// How the stdio host hooks into the shared instance builder.
pub fn build_instance(checkpoint_root: Option<String>, scripted: Option<String>) -> (r:
    SharedInstanceHooks)
    ensures
        r.checkpoint_root == checkpoint_root,
        match (scripted, r.scripted_responses) {
            (Some(response), Some(responses)) => responses@ == seq![response],
            (None, None) => true,
            _ => false,
        },
        r.channel_name@ == "stdio"@,
        !r.suppress_agent_cron,
{
    let scripted_responses: Option<Vec<String>> = match scripted {
        Some(response) => {
            let mut responses: Vec<String> = Vec::new();
            responses.push(response);
            Some(responses)
        },
        None => None,
    };
    SharedInstanceHooks {
        checkpoint_root,
        scripted_responses,
        channel_name: "stdio",
        suppress_agent_cron: false,
    }
}

/// What the stdio host asks its memory for about notifications.
pub struct NotificationQuery {
    pub chat_id: Option<String>,
    pub channel: Option<String>,
    pub limit: usize,
    pub unseen_only: bool,
}

/// The query for the notifications of the stdio channel: at most two hundred, of every chat.
pub fn list_notifications(unseen_only: bool) -> (r: NotificationQuery)
    ensures
        r.chat_id is None,
        r.channel matches Some(channel) && channel@ == "stdio"@,
        r.limit == 200,
        r.unseen_only == unseen_only,
{
    NotificationQuery { chat_id: None, channel: Some("stdio".to_owned()), limit: 200, unseen_only }
}

/// What a request to the memory of a workspace is about.
#[derive(Debug, Clone, Copy, PartialEq, Eq, Structural)]
pub enum MemoryArea {
    Retry,
    Session,
    Inbox,
}

/// What is said of a memory that does not answer: the area, and the reason where there is one.
pub fn memory_unavailable(area: MemoryArea, reason: Option<&str>) -> (r: String)
    ensures
        r@ == (match area {
            MemoryArea::Retry => "retry_memory_unavailable"@,
            MemoryArea::Session => "session_memory_unavailable"@,
            MemoryArea::Inbox => "inbox_memory_unavailable"@,
        }) + (match reason {
            Some(words) => ": "@ + words@,
            None => Seq::empty(),
        }),
{
    let head: &str = match area {
        MemoryArea::Retry => "retry_memory_unavailable",
        MemoryArea::Session => "session_memory_unavailable",
        MemoryArea::Inbox => "inbox_memory_unavailable",
    };
    match reason {
        Some(words) => {
            let out: String = text::around(head, ": ", words);
            assert(out@ =~= head@ + (": "@ + words@));
            out
        },
        None => {
            let out: String = head.to_owned();
            assert(out@ =~= head@ + Seq::<char>::empty());
            out
        },
    }
}

/// What a fired job delivers into a chat.
pub struct CronInbound {
    pub channel: String,
    pub in_thread: bool,
    pub chat_id: String,
    pub content: String,
    pub payload: Option<AutomationPayload>,
}

/// The text that a fired job delivers: an automation's instruction without its title, or the whole
/// message of another job; nothing where the job is not a stdio chat's own.
pub fn cron_delivery(inbound: CronInbound) -> (r: Option<(String, String)>)
    ensures
        r == if inbound.channel@ != "stdio"@ || inbound.in_thread || text::is_blank(
            inbound.chat_id@,
        ) {
            None
        } else {
            match inbound.payload {
                Some(payload) if is_automation(payload) => Some((inbound.chat_id, payload.prompt)),
                _ => Some((inbound.chat_id, inbound.content)),
            }
        },
{
    if !text::same(&inbound.channel, "stdio") || inbound.in_thread || text::blank(
        &inbound.chat_id,
    ) {
        return None;
    }
    match decode_automation_payload(inbound.payload) {
        Some(payload) => Some((inbound.chat_id, payload.prompt)),
        None => Some((inbound.chat_id, inbound.content)),
    }
}

/// The positions lead to stdio automations.
proof fn lemma_automation_positions(jobs: Seq<ScheduledJob>)
    ensures
        forall|k: int|
            0 <= k < automation_positions(jobs).len() ==> {
                let at = #[trigger] automation_positions(jobs)[k];
                0 <= at < jobs.len() && is_stdio_automation(jobs[at])
            },
    decreases jobs.len(),
{
    if jobs.len() > 0 {
        let shorter = jobs.drop_last();
        lemma_automation_positions(shorter);
        let positions = automation_positions(jobs);
        assert forall|k: int| 0 <= k < positions.len() implies {
            let at = #[trigger] positions[k];
            0 <= at < jobs.len() && is_stdio_automation(jobs[at])
        } by {
            if k < automation_positions(shorter).len() {
                assert(positions[k] == automation_positions(shorter)[k]);
            }
        }
    }
}

/// A job of another channel or with another name is never listed: whatever is listed shows an
/// automation of the stdio channel.
pub proof fn law_only_stdio_automations_are_listed(
    list: Seq<StdioAutomation>,
    jobs: Seq<ScheduledJob>,
    i: int,
)
    requires
        is_automation_list(list, jobs),
        0 <= i < list.len(),
    ensures
        exists|k: int|
            0 <= k < jobs.len() && is_stdio_automation(#[trigger] jobs[k]) && shows(
                list[i],
                jobs[k],
            ),
{
    lemma_automation_positions(jobs);
    let positions = automation_positions(jobs);
    let order = choose|order: Seq<usize>|
        {
            &&& order.len() == positions.len()
            &&& list.len() == order.len()
            &&& forall|i: int| 0 <= i < order.len() ==> (#[trigger] order[i]) < positions.len()
            &&& forall|i: int, j: int|
                0 <= i < j < order.len() ==> name_precedes(
                    jobs,
                    positions,
                    (#[trigger] order[i]) as int,
                    (#[trigger] order[j]) as int,
                )
            &&& forall|i: int|
                0 <= i < order.len() ==> shows(#[trigger] list[i], jobs[positions[order[i] as int]])
        };
    let at = positions[order[i] as int];
    assert(shows(list[i], jobs[at]));
}

} // verus!
