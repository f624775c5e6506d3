//! The acceptance spike: a scripted scenario against a control plane, step by step.
use vstd::prelude::*;
use vstd::string::*;
use crate::outside;
use crate::text;

verus! {

/// Which transport the scenario rides, and the downstream plane whose projection it probes.
pub enum SpikeMode {
    /// The router in-process, one call per step.
    Stub,
    /// Real HTTP per step, plus the attempt, event and review phases: the address to listen on,
    /// the downstream plane to probe and the bootstrap token to accept, where they are given.
    Real {
        bind: Option<String>,
        downstream: Option<DownstreamPlane>,
        bootstrap_token: Option<String>,
    },
}

/// The downstream plane: its base URL and the issue that projects the spike's work item.
pub struct DownstreamPlane {
    pub base_url: String,
    pub issue_id: String,
}

/// The phases of the scenario. Each has an exit code of its own, distinct from the exit codes of
/// ordinary runs, so a failing scenario names the broken link.
#[derive(Debug, Clone, Copy, PartialEq, Eq, Structural)]
pub enum SpikePhase {
    Health,
    Registration,
    Fixture,
    Dispatch,
    Checkout,
    Attempt,
    Events,
    Review,
    Reconnect,
}

/// The exit code of a phase.
pub open spec fn phase_code(phase: SpikePhase) -> u8 {
    match phase {
        SpikePhase::Health => 30,
        SpikePhase::Registration => 31,
        SpikePhase::Fixture => 32,
        SpikePhase::Dispatch => 33,
        SpikePhase::Checkout => 34,
        SpikePhase::Attempt => 36,
        SpikePhase::Events => 37,
        SpikePhase::Review => 38,
        SpikePhase::Reconnect => 35,
    }
}

/// The name of a phase.
pub open spec fn phase_label(phase: SpikePhase) -> Seq<char> {
    match phase {
        SpikePhase::Health => "health"@,
        SpikePhase::Registration => "registration"@,
        SpikePhase::Fixture => "fixture"@,
        SpikePhase::Dispatch => "dispatch"@,
        SpikePhase::Checkout => "checkout"@,
        SpikePhase::Attempt => "attempt"@,
        SpikePhase::Events => "events"@,
        SpikePhase::Review => "review"@,
        SpikePhase::Reconnect => "reconnect"@,
    }
}

/// Two phases never share an exit code, and none collides with the exit codes of ordinary runs.
pub proof fn law_phase_codes_are_distinct(a: SpikePhase, b: SpikePhase)
    ensures
        phase_code(a) == phase_code(b) <==> a == b,
        phase_code(a) > 10,
{
}

impl SpikePhase {
    /// The exit code of the phase.
    pub fn exit_code(self) -> (r: u8)
        ensures
            r == phase_code(self),
    {
        match self {
            SpikePhase::Health => 30,
            SpikePhase::Registration => 31,
            SpikePhase::Fixture => 32,
            SpikePhase::Dispatch => 33,
            SpikePhase::Checkout => 34,
            SpikePhase::Attempt => 36,
            SpikePhase::Events => 37,
            SpikePhase::Review => 38,
            SpikePhase::Reconnect => 35,
        }
    }

    /// The name of the phase.
    pub fn label(self) -> (r: &'static str)
        ensures
            r@ == phase_label(self),
    {
        match self {
            SpikePhase::Health => "health",
            SpikePhase::Registration => "registration",
            SpikePhase::Fixture => "fixture",
            SpikePhase::Dispatch => "dispatch",
            SpikePhase::Checkout => "checkout",
            SpikePhase::Attempt => "attempt",
            SpikePhase::Events => "events",
            SpikePhase::Review => "review",
            SpikePhase::Reconnect => "reconnect",
        }
    }
}

/// A broken invariant: the phase and the step at which it broke, and what was seen.
#[derive(Debug)]
pub struct SpikeFailure {
    pub phase: SpikePhase,
    pub step: &'static str,
    pub detail: String,
}

impl SpikeFailure {
    /// A failure of a step.
    pub fn new(phase: SpikePhase, step: &'static str, detail: String) -> (r: Self)
        ensures
            r.phase == phase,
            r.step == step,
            r.detail == detail,
    {
        SpikeFailure { phase, step, detail }
    }

    /// The failure in words.
    pub fn to_text(&self) -> (r: String)
        ensures
            r@ == "["@ + phase_label(self.phase) + "] "@ + self.step@ + ": "@ + self.detail@,
    {
        let mut out: String = "[".to_owned();
        out.append(self.phase.label());
        out.append("] ");
        out.append(self.step);
        out.append(": ");
        out.append(&self.detail);
        out
    }
}

/// The agent instance that the scenario registers.
pub const AGENT_INSTANCE: &'static str = "ai_spike_host";

/// The work item that the scenario dispatches.
pub const WORK_ITEM: &'static str = "wi_spike_fixture";

/// The attempt that holds the lease.
pub const ATTEMPT: &'static str = "att_spike_1";

/// The attempt that checks out after recovery.
pub const NEXT_ATTEMPT: &'static str = "att_spike_2";

/// The steps of the scenario.
#[derive(Debug, Clone, Copy, PartialEq, Eq, Structural)]
pub enum SpikeStep {
    HealthAnonymous,
    Health,
    Grant,
    Register,
    GrantReplay,
    SeedWorkItem,
    Enqueue,
    Coalesce,
    Claim,
    Checkout,
    CreateAttempt,
    BindRun,
    MarkClaimed,
    MarkDispatched,
    MarkRunning,
    AppendStarted,
    AppendTerminated,
    Finalize,
    QueryActivity,
    Review,
    Regrant,
    Reregister,
    Reclaim,
    Recheckout,
    RivalCheckout,
    StaleRelease,
    LeasePersisted,
    Release,
    Reattach,
    Complete,
}

/// The step that follows, with the number of the reconnect run it belongs to. Only a real plane
/// has the execution phases, and the host reconnects twice.
pub open spec fn step_after(step: SpikeStep, run: u8, live: bool) -> (SpikeStep, u8) {
    match step {
        SpikeStep::HealthAnonymous => (SpikeStep::Health, run),
        SpikeStep::Health => (SpikeStep::Grant, run),
        SpikeStep::Grant => (SpikeStep::Register, run),
        SpikeStep::Register => (SpikeStep::GrantReplay, run),
        SpikeStep::GrantReplay => (SpikeStep::SeedWorkItem, run),
        SpikeStep::SeedWorkItem => (SpikeStep::Enqueue, run),
        SpikeStep::Enqueue => (SpikeStep::Coalesce, run),
        SpikeStep::Coalesce => (SpikeStep::Claim, run),
        SpikeStep::Claim => (SpikeStep::Checkout, run),
        SpikeStep::Checkout => if live {
            (SpikeStep::CreateAttempt, run)
        } else {
            (SpikeStep::Regrant, 1)
        },
        SpikeStep::CreateAttempt => (SpikeStep::BindRun, run),
        SpikeStep::BindRun => (SpikeStep::MarkClaimed, run),
        SpikeStep::MarkClaimed => (SpikeStep::MarkDispatched, run),
        SpikeStep::MarkDispatched => (SpikeStep::MarkRunning, run),
        SpikeStep::MarkRunning => (SpikeStep::AppendStarted, run),
        SpikeStep::AppendStarted => (SpikeStep::AppendTerminated, run),
        SpikeStep::AppendTerminated => (SpikeStep::Finalize, run),
        SpikeStep::Finalize => (SpikeStep::QueryActivity, run),
        SpikeStep::QueryActivity => (SpikeStep::Review, run),
        SpikeStep::Review => (SpikeStep::Regrant, 1),
        SpikeStep::Regrant => (SpikeStep::Reregister, run),
        SpikeStep::Reregister => (SpikeStep::Reclaim, run),
        SpikeStep::Reclaim => (SpikeStep::Recheckout, run),
        SpikeStep::Recheckout => (SpikeStep::RivalCheckout, run),
        SpikeStep::RivalCheckout => (SpikeStep::StaleRelease, run),
        SpikeStep::StaleRelease => (SpikeStep::LeasePersisted, run),
        SpikeStep::LeasePersisted => if run == 1 {
            (SpikeStep::Regrant, 2)
        } else {
            (SpikeStep::Release, run)
        },
        SpikeStep::Release => (SpikeStep::Reattach, run),
        SpikeStep::Reattach => (SpikeStep::Complete, run),
        SpikeStep::Complete => (SpikeStep::Complete, run),
    }
}

/// The phase that a step belongs to.
pub open spec fn step_phase(step: SpikeStep) -> SpikePhase {
    match step {
        SpikeStep::HealthAnonymous | SpikeStep::Health => SpikePhase::Health,
        SpikeStep::Grant | SpikeStep::Register | SpikeStep::GrantReplay => SpikePhase::Registration,
        SpikeStep::SeedWorkItem => SpikePhase::Fixture,
        SpikeStep::Enqueue | SpikeStep::Coalesce => SpikePhase::Dispatch,
        SpikeStep::Claim | SpikeStep::Checkout => SpikePhase::Checkout,
        SpikeStep::CreateAttempt | SpikeStep::BindRun | SpikeStep::MarkClaimed
        | SpikeStep::MarkDispatched | SpikeStep::MarkRunning | SpikeStep::AppendStarted
        | SpikeStep::AppendTerminated | SpikeStep::Finalize => SpikePhase::Attempt,
        SpikeStep::QueryActivity => SpikePhase::Events,
        SpikeStep::Review => SpikePhase::Review,
        SpikeStep::Regrant | SpikeStep::Reregister | SpikeStep::Reclaim | SpikeStep::Recheckout
        | SpikeStep::RivalCheckout | SpikeStep::StaleRelease | SpikeStep::LeasePersisted
        | SpikeStep::Release | SpikeStep::Reattach | SpikeStep::Complete => SpikePhase::Reconnect,
    }
}

/// The name under which a step is reported.
pub open spec fn step_name(step: SpikeStep) -> Seq<char> {
    match step {
        SpikeStep::HealthAnonymous => "health-anonymous"@,
        SpikeStep::Health => "health"@,
        SpikeStep::Grant => "grant"@,
        SpikeStep::Register => "register"@,
        SpikeStep::GrantReplay => "grant-replay"@,
        SpikeStep::SeedWorkItem => "work-item"@,
        SpikeStep::Enqueue => "enqueue"@,
        SpikeStep::Coalesce => "coalesce"@,
        SpikeStep::Claim => "claim"@,
        SpikeStep::Checkout => "checkout"@,
        SpikeStep::CreateAttempt => "attempt-create"@,
        SpikeStep::BindRun => "bind-run"@,
        SpikeStep::MarkClaimed | SpikeStep::MarkDispatched | SpikeStep::MarkRunning =>
            "attempt-transition"@,
        SpikeStep::AppendStarted | SpikeStep::AppendTerminated => "event-append"@,
        SpikeStep::Finalize => "finalize"@,
        SpikeStep::QueryActivity => "query-activity"@,
        SpikeStep::Review => "review"@,
        SpikeStep::Regrant => "regrant"@,
        SpikeStep::Reregister => "reregister"@,
        SpikeStep::Reclaim => "reclaim"@,
        SpikeStep::Recheckout => "recheckout"@,
        SpikeStep::RivalCheckout => "rival-checkout"@,
        SpikeStep::StaleRelease => "stale-release"@,
        SpikeStep::LeasePersisted => "lease-persisted"@,
        SpikeStep::Release => "release"@,
        SpikeStep::Reattach => "reattach"@,
        SpikeStep::Complete => "complete"@,
    }
}

/// The HTTP status that a step's reply must have; none where the step is not a call.
pub open spec fn expected_status(step: SpikeStep) -> Option<u16> {
    match step {
        SpikeStep::HealthAnonymous | SpikeStep::GrantReplay => Some(401),
        SpikeStep::Health | SpikeStep::Grant | SpikeStep::Register | SpikeStep::Enqueue
        | SpikeStep::Coalesce | SpikeStep::Claim | SpikeStep::BindRun | SpikeStep::Finalize
        | SpikeStep::QueryActivity | SpikeStep::Regrant | SpikeStep::Reregister => Some(200),
        SpikeStep::Checkout | SpikeStep::Reattach => Some(201),
        SpikeStep::Release => Some(204),
        SpikeStep::Reclaim | SpikeStep::Recheckout | SpikeStep::RivalCheckout
        | SpikeStep::StaleRelease | SpikeStep::LeasePersisted => Some(409),
        _ => None,
    }
}

/// The number of steps that are still to be taken, the current one included.
pub open spec fn steps_left(step: SpikeStep, run: u8) -> nat {
    let again: nat = if run == 1 {
        7
    } else {
        0
    };
    match step {
        SpikeStep::HealthAnonymous => 36,
        SpikeStep::Health => 35,
        SpikeStep::Grant => 34,
        SpikeStep::Register => 33,
        SpikeStep::GrantReplay => 32,
        SpikeStep::SeedWorkItem => 31,
        SpikeStep::Enqueue => 30,
        SpikeStep::Coalesce => 29,
        SpikeStep::Claim => 28,
        SpikeStep::Checkout => 27,
        SpikeStep::CreateAttempt => 26,
        SpikeStep::BindRun => 25,
        SpikeStep::MarkClaimed => 24,
        SpikeStep::MarkDispatched => 23,
        SpikeStep::MarkRunning => 22,
        SpikeStep::AppendStarted => 21,
        SpikeStep::AppendTerminated => 20,
        SpikeStep::Finalize => 19,
        SpikeStep::QueryActivity => 18,
        SpikeStep::Review => 17,
        SpikeStep::Regrant => 9 + again,
        SpikeStep::Reregister => 8 + again,
        SpikeStep::Reclaim => 7 + again,
        SpikeStep::Recheckout => 6 + again,
        SpikeStep::RivalCheckout => 5 + again,
        SpikeStep::StaleRelease => 4 + again,
        SpikeStep::LeasePersisted => 3 + again,
        SpikeStep::Release => 2,
        SpikeStep::Reattach => 1,
        SpikeStep::Complete => 0,
    }
}

/// Every step that passes brings the scenario nearer to its end, so it ends.
pub proof fn law_scenario_ends(step: SpikeStep, run: u8, live: bool)
    requires
        step != SpikeStep::Complete,
    ensures
        ({
            let (next, next_run) = step_after(step, run, live);
            steps_left(next, next_run) < steps_left(step, run)
        }),
{
}

/// The scenario against a stub plane never enters the execution phases.
pub proof fn law_stub_plane_has_no_execution_phases(step: SpikeStep, run: u8)
    requires
        step_phase(step) != SpikePhase::Attempt,
        step_phase(step) != SpikePhase::Events,
        step_phase(step) != SpikePhase::Review,
    ensures
        step_phase(step_after(step, run, false).0) != SpikePhase::Attempt,
        step_phase(step_after(step, run, false).0) != SpikePhase::Events,
        step_phase(step_after(step, run, false).0) != SpikePhase::Review,
{
}

/// What the scenario reads of a reply: the status, as a number and in words, the fields that its
/// steps look at, and the body in words.
pub struct Reply {
    pub status: u16,
    pub status_text: String,
    pub body_text: String,
    pub protocol_major: Option<u64>,
    pub service_version: Option<String>,
    pub token: Option<String>,
    pub agent_instance: Option<String>,
    pub id: Option<String>,
    /// The number of `sources`, where the body lists them.
    pub sources: Option<usize>,
    /// `claimed_at` is there and not null.
    pub claimed: bool,
    pub state: Option<String>,
    /// The correlation of each activity item, in order.
    pub correlations: Vec<Option<String>>,
}

/// What is observed of a step.
pub enum SpikeEvent {
    /// The plane replied.
    Replied { reply: Reply },
    /// A repository of the plane took a seeded record, or refused it with this message.
    Seeded { refusal: Option<String> },
    /// The review probe ended.
    Probed { outcome: Result<String, SpikeFailure> },
    /// There is no downstream plane to probe.
    Skipped,
}

/// A passed step in words.
pub struct StepRecord {
    pub step: &'static str,
    pub detail: String,
}

/// What came of an event.
pub enum Advance {
    /// The step passed and is reported.
    Recorded { record: StepRecord },
    /// The step passed without a report of its own.
    Passed,
    /// The event does not answer the current step; nothing changed.
    Unexpected,
}

/// The scenario and how far it has come.
pub struct SpikeScenario {
    pub live: bool,
    pub downstream: bool,
    pub run_id: String,
    pub step: SpikeStep,
    /// The number of the reconnect run.
    pub run: u8,
    pub protocol_major: u16,
    pub grant: String,
    pub wake_id: String,
}

/// The text is there and reads `expected`.
pub open spec fn reads(value: Option<String>, expected: Seq<char>) -> bool {
    value matches Some(shown) && shown@ == expected
}

/// The number of items whose correlation is `run_id`.
pub open spec fn correlated(items: Seq<Option<String>>, run_id: Seq<char>) -> nat
    decreases items.len(),
{
    if items.len() == 0 {
        0
    } else {
        correlated(items.drop_last(), run_id) + if reads(items.last(), run_id) {
            1nat
        } else {
            0nat
        }
    }
}

/// The reply carries what the step needs beyond its status.
pub open spec fn carries(s: SpikeScenario, reply: Reply) -> bool {
    match s.step {
        SpikeStep::Health => reply.protocol_major is Some,
        SpikeStep::Grant | SpikeStep::Regrant => reply.token is Some,
        SpikeStep::Register => reads(reply.agent_instance, AGENT_INSTANCE@),
        SpikeStep::Enqueue => reply.id is Some,
        SpikeStep::Coalesce => reads(reply.id, s.wake_id@) && reply.sources == Some(2usize),
        SpikeStep::Claim => reply.claimed,
        SpikeStep::Finalize => reads(reply.state, "succeeded"@),
        SpikeStep::QueryActivity => correlated(reply.correlations@, s.run_id@) >= 2,
        _ => true,
    }
}

/// The status line of an ordinary success.
pub open spec fn status_line(status: u16) -> Seq<char> {
    if status == 200 {
        "200 OK"@
    } else if status == 201 {
        "201 Created"@
    } else {
        "204 No Content"@
    }
}

/// The failure of a reply whose status is not the one expected.
pub open spec fn wrong_status_detail(s: SpikeScenario, reply: Reply) -> Seq<char> {
    match s.step {
        SpikeStep::HealthAnonymous => "expected 401 without bootstrap bearer, got "@
            + reply.status_text@,
        SpikeStep::GrantReplay => "expected 401 replaying consumed grant, got "@ + reply.status_text@
            + ": "@ + reply.body_text@,
        SpikeStep::Reclaim => "run "@ + text::decimal(s.run as nat)
            + ": re-claim expected 409 AlreadyClaimed, got "@ + reply.status_text@ + ": "@
            + reply.body_text@,
        SpikeStep::Recheckout => "run "@ + text::decimal(s.run as nat)
            + ": same-lease re-checkout expected 409, got "@ + reply.status_text@ + ": "@
            + reply.body_text@,
        SpikeStep::RivalCheckout => "run "@ + text::decimal(s.run as nat)
            + ": rival lease expected 409, got "@ + reply.status_text@ + ": "@ + reply.body_text@,
        SpikeStep::StaleRelease => "run "@ + text::decimal(s.run as nat)
            + ": stale finalizer expected 409, got "@ + reply.status_text@ + ": "@
            + reply.body_text@,
        SpikeStep::LeasePersisted => "run "@ + text::decimal(s.run as nat)
            + ": lease did not persist across reconnect: "@ + reply.status_text@ + " "@
            + reply.body_text@,
        _ => "expected "@ + status_line(expected_status(s.step)->0) + ", got "@
            + reply.status_text@ + ": "@ + reply.body_text@,
    }
}

/// The failure of a reply with the expected status that does not carry what the step needs.
pub open spec fn wrong_body_detail(s: SpikeScenario, reply: Reply) -> Seq<char> {
    match s.step {
        SpikeStep::Health => "response missing protocol_major"@,
        SpikeStep::Grant => "response missing token"@,
        SpikeStep::Regrant => "missing token"@,
        SpikeStep::Register => "plane did not echo agent_instance_id: "@ + reply.body_text@,
        SpikeStep::Enqueue => "wake response missing id"@,
        SpikeStep::Coalesce => "second source did not coalesce into one wake: "@
            + reply.body_text@,
        SpikeStep::Claim => "claim did not stamp claimed_at: "@ + reply.body_text@,
        SpikeStep::Finalize => "attempt did not finalize as succeeded: "@ + reply.body_text@,
        _ => "expected the translated run events over the wire, found "@ + text::decimal(
            correlated(reply.correlations@, s.run_id@),
        ) + ": "@ + reply.body_text@,
    }
}

/// The step is a call to the plane.
pub open spec fn is_call(step: SpikeStep) -> bool {
    expected_status(step) is Some
}

/// The step seeds a record through a repository of the plane.
pub open spec fn is_seed(step: SpikeStep) -> bool {
    match step {
        SpikeStep::SeedWorkItem | SpikeStep::CreateAttempt | SpikeStep::MarkClaimed
        | SpikeStep::MarkDispatched | SpikeStep::MarkRunning | SpikeStep::AppendStarted
        | SpikeStep::AppendTerminated => true,
        _ => false,
    }
}

/// The event answers the current step. The review is probed exactly where a downstream plane is
/// named, and skipped where none is.
pub open spec fn answers(s: SpikeScenario, event: SpikeEvent) -> bool {
    match event {
        SpikeEvent::Replied { .. } => is_call(s.step),
        SpikeEvent::Seeded { .. } => is_seed(s.step),
        SpikeEvent::Probed { .. } => s.step == SpikeStep::Review && s.downstream,
        SpikeEvent::Skipped => s.step == SpikeStep::Review && !s.downstream,
    }
}

/// An event that answers the step lets it pass.
pub open spec fn passes(s: SpikeScenario, event: SpikeEvent) -> bool {
    match event {
        SpikeEvent::Replied { reply } => Some(reply.status) == expected_status(s.step) && carries(
            s,
            reply,
        ),
        SpikeEvent::Seeded { refusal } => refusal is None,
        SpikeEvent::Probed { outcome } => outcome is Ok,
        SpikeEvent::Skipped => true,
    }
}

/// What a failing step says of the event.
pub open spec fn failure_detail(s: SpikeScenario, event: SpikeEvent) -> Seq<char> {
    match event {
        SpikeEvent::Replied { reply } => if Some(reply.status) != expected_status(s.step) {
            wrong_status_detail(s, reply)
        } else {
            wrong_body_detail(s, reply)
        },
        SpikeEvent::Seeded { refusal } => if s.step == SpikeStep::SeedWorkItem {
            "registration rejected"@
        } else {
            refusal->0@
        },
        SpikeEvent::Probed { outcome } => outcome->Err_0.detail@,
        SpikeEvent::Skipped => Seq::empty(),
    }
}

/// `failure` is how the step fails on the event.
pub open spec fn fails_as(s: SpikeScenario, event: SpikeEvent, failure: SpikeFailure) -> bool {
    match event {
        SpikeEvent::Probed { outcome } => outcome == Err::<String, SpikeFailure>(failure),
        _ => {
            &&& failure.phase == step_phase(s.step)
            &&& failure.step@ == step_name(s.step)
            &&& failure.detail@ == failure_detail(s, event)
        },
    }
}

/// The report of a passed step: its name and its detail; none where it is not reported.
pub open spec fn report(s: SpikeScenario, event: SpikeEvent) -> Option<(Seq<char>, Seq<char>)> {
    match (s.step, event) {
        (SpikeStep::Health, SpikeEvent::Replied { reply }) => Some(
            (
                "health"@,
                "service "@ + (match reply.service_version {
                    Some(version) => version@,
                    None => "?"@,
                }) + " protocol v"@ + text::decimal((reply.protocol_major->0 as u16) as nat),
            ),
        ),
        (SpikeStep::Grant, _) => Some(("grant"@, "one-time registration grant issued"@)),
        (SpikeStep::Register, _) => Some(
            ("register"@, "host "@ + AGENT_INSTANCE@ + " registered"@),
        ),
        (SpikeStep::GrantReplay, _) => Some(
            ("grant-replay"@, "consumed grant rejected (one-time)"@),
        ),
        (SpikeStep::SeedWorkItem, _) => Some(
            ("work-item"@, "fixture "@ + WORK_ITEM@ + " registered"@),
        ),
        (SpikeStep::Enqueue, SpikeEvent::Replied { reply }) => Some(
            ("enqueue"@, "wake "@ + reply.id->0@ + " enqueued"@),
        ),
        (SpikeStep::Coalesce, _) => Some(("coalesce"@, "second source coalesced (020)"@)),
        (SpikeStep::Claim, _) => Some(("claim"@, "wake claimed by host"@)),
        (SpikeStep::Checkout, _) => Some(("checkout"@, "lease held for "@ + ATTEMPT@)),
        (SpikeStep::BindRun, _) => Some(
            ("bind-run"@, "run "@ + s.run_id@ + " bound to "@ + ATTEMPT@),
        ),
        (SpikeStep::AppendTerminated, _) => Some(
            ("attempt-events"@, "scripted run translated to audit events (035)"@),
        ),
        (SpikeStep::Finalize, _) => Some(
            ("finalize"@, ATTEMPT@ + " finalized by run completion (034)"@),
        ),
        (SpikeStep::QueryActivity, SpikeEvent::Replied { reply }) => Some(
            (
                "query-activity"@,
                text::decimal(correlated(reply.correlations@, s.run_id@))
                    + " translated events observed over the framed wire (035)"@,
            ),
        ),
        (SpikeStep::Review, SpikeEvent::Probed { outcome }) => Some(
            ("review"@, "downstream projection reached review: "@ + outcome->Ok_0@),
        ),
        (SpikeStep::Review, SpikeEvent::Skipped) => Some(("review"@, SKIPPED_REVIEW@)),
        (SpikeStep::LeasePersisted, _) => Some(
            (
                "reconnect"@,
                "run "@ + text::decimal(s.run as nat)
                    + ": no double fire, lease intact, stale finalizer rejected"@,
            ),
        ),
        (SpikeStep::Release, _) => Some(("release"@, "rightful owner released the lease"@)),
        (SpikeStep::Reattach, _) => Some(
            ("reattach"@, "fresh attempt checked out after recovery (023)"@),
        ),
        _ => None,
    }
}

/// What the review step reports where no downstream plane is configured.
pub const SKIPPED_REVIEW: &'static str =
    "skipped: no downstream plane configured (080 acceptance run sets --downstream-url and --downstream-issue)";

/// `after` is the scenario after its current step passed on the event.
pub open spec fn moved_on(before: SpikeScenario, event: SpikeEvent, after: SpikeScenario) -> bool {
    let (step, run) = step_after(before.step, before.run, before.live);
    &&& after.step == step
    &&& after.run == run
    &&& after.live == before.live
    &&& after.downstream == before.downstream
    &&& after.run_id == before.run_id
    &&& after.protocol_major == match (before.step, event) {
        (SpikeStep::Health, SpikeEvent::Replied { reply }) => reply.protocol_major->0 as u16,
        _ => before.protocol_major,
    }
    &&& after.grant == match (before.step, event) {
        (SpikeStep::Grant | SpikeStep::Regrant, SpikeEvent::Replied { reply }) => reply.token->0,
        _ => before.grant,
    }
    &&& after.wake_id == match (before.step, event) {
        (SpikeStep::Enqueue, SpikeEvent::Replied { reply }) => reply.id->0,
        _ => before.wake_id,
    }
}

/// The text is there and reads `expected`.
fn reads_as(value: &Option<String>, expected: &str) -> (r: bool)
    ensures
        r == reads(*value, expected@),
{
    match value {
        Some(shown) => text::same(shown, expected),
        None => false,
    }
}

/// The number of items whose correlation is `run_id`.
fn count_correlated(items: &Vec<Option<String>>, run_id: &str) -> (r: usize)
    ensures
        r == correlated(items@, run_id@),
        r <= items@.len(),
{
    let mut count: usize = 0;
    let mut i: usize = 0;
    while i < items.len()
        invariant
            i <= items@.len(),
            count <= i,
            count == correlated(items@.take(i as int), run_id@),
        decreases items@.len() - i,
    {
        assert(items@.take(i + 1).drop_last() =~= items@.take(i as int));
        if reads_as(&items[i], run_id) {
            count = count + 1;
        }
        i = i + 1;
    }
    assert(items@.take(items@.len() as int) =~= items@);
    count
}

/// The words of a status report that follow a lead: the status, a separator and the body.
fn status_report(lead: &str, reply: &Reply) -> (r: String)
    ensures
        r@ == lead@ + reply.status_text@ + ": "@ + reply.body_text@,
{
    let mut out: String = lead.to_owned();
    out.append(&reply.status_text);
    out.append(": ");
    out.append(&reply.body_text);
    out
}

/// The lead of a report on a reconnect run.
fn run_lead(run: u8, what: &str) -> (r: String)
    ensures
        r@ == "run "@ + text::decimal(run as nat) + what@,
{
    let mut out: String = "run ".to_owned();
    out.append(&text::numeral(run as u64));
    out.append(what);
    out
}

impl SpikeStep {
    /// The phase that the step belongs to.
    pub fn phase(self) -> (r: SpikePhase)
        ensures
            r == step_phase(self),
    {
        match self {
            SpikeStep::HealthAnonymous | SpikeStep::Health => SpikePhase::Health,
            SpikeStep::Grant | SpikeStep::Register | SpikeStep::GrantReplay =>
                SpikePhase::Registration,
            SpikeStep::SeedWorkItem => SpikePhase::Fixture,
            SpikeStep::Enqueue | SpikeStep::Coalesce => SpikePhase::Dispatch,
            SpikeStep::Claim | SpikeStep::Checkout => SpikePhase::Checkout,
            SpikeStep::CreateAttempt | SpikeStep::BindRun | SpikeStep::MarkClaimed
            | SpikeStep::MarkDispatched | SpikeStep::MarkRunning | SpikeStep::AppendStarted
            | SpikeStep::AppendTerminated | SpikeStep::Finalize => SpikePhase::Attempt,
            SpikeStep::QueryActivity => SpikePhase::Events,
            SpikeStep::Review => SpikePhase::Review,
            SpikeStep::Regrant | SpikeStep::Reregister | SpikeStep::Reclaim
            | SpikeStep::Recheckout | SpikeStep::RivalCheckout | SpikeStep::StaleRelease
            | SpikeStep::LeasePersisted | SpikeStep::Release | SpikeStep::Reattach
            | SpikeStep::Complete => SpikePhase::Reconnect,
        }
    }

    /// The name under which the step is reported.
    pub fn name(self) -> (r: &'static str)
        ensures
            r@ == step_name(self),
    {
        match self {
            SpikeStep::HealthAnonymous => "health-anonymous",
            SpikeStep::Health => "health",
            SpikeStep::Grant => "grant",
            SpikeStep::Register => "register",
            SpikeStep::GrantReplay => "grant-replay",
            SpikeStep::SeedWorkItem => "work-item",
            SpikeStep::Enqueue => "enqueue",
            SpikeStep::Coalesce => "coalesce",
            SpikeStep::Claim => "claim",
            SpikeStep::Checkout => "checkout",
            SpikeStep::CreateAttempt => "attempt-create",
            SpikeStep::BindRun => "bind-run",
            SpikeStep::MarkClaimed | SpikeStep::MarkDispatched | SpikeStep::MarkRunning =>
                "attempt-transition",
            SpikeStep::AppendStarted | SpikeStep::AppendTerminated => "event-append",
            SpikeStep::Finalize => "finalize",
            SpikeStep::QueryActivity => "query-activity",
            SpikeStep::Review => "review",
            SpikeStep::Regrant => "regrant",
            SpikeStep::Reregister => "reregister",
            SpikeStep::Reclaim => "reclaim",
            SpikeStep::Recheckout => "recheckout",
            SpikeStep::RivalCheckout => "rival-checkout",
            SpikeStep::StaleRelease => "stale-release",
            SpikeStep::LeasePersisted => "lease-persisted",
            SpikeStep::Release => "release",
            SpikeStep::Reattach => "reattach",
            SpikeStep::Complete => "complete",
        }
    }

    /// The HTTP status that the step's reply must have; none where the step is not a call.
    pub fn status(self) -> (r: Option<u16>)
        ensures
            r == expected_status(self),
    {
        match self {
            SpikeStep::HealthAnonymous | SpikeStep::GrantReplay => Some(401),
            SpikeStep::Health | SpikeStep::Grant | SpikeStep::Register | SpikeStep::Enqueue
            | SpikeStep::Coalesce | SpikeStep::Claim | SpikeStep::BindRun | SpikeStep::Finalize
            | SpikeStep::QueryActivity | SpikeStep::Regrant | SpikeStep::Reregister => Some(200),
            SpikeStep::Checkout | SpikeStep::Reattach => Some(201),
            SpikeStep::Release => Some(204),
            SpikeStep::Reclaim | SpikeStep::Recheckout | SpikeStep::RivalCheckout
            | SpikeStep::StaleRelease | SpikeStep::LeasePersisted => Some(409),
            _ => None,
        }
    }

    /// Whether the step seeds a record through a repository of the plane.
    fn seeds(self) -> (r: bool)
        ensures
            r == is_seed(self),
    {
        match self {
            SpikeStep::SeedWorkItem | SpikeStep::CreateAttempt | SpikeStep::MarkClaimed
            | SpikeStep::MarkDispatched | SpikeStep::MarkRunning | SpikeStep::AppendStarted
            | SpikeStep::AppendTerminated => true,
            _ => false,
        }
    }

    /// The step that follows, with the number of its reconnect run.
    fn after(self, run: u8, live: bool) -> (r: (SpikeStep, u8))
        ensures
            r == step_after(self, run, live),
    {
        match self {
            SpikeStep::HealthAnonymous => (SpikeStep::Health, run),
            SpikeStep::Health => (SpikeStep::Grant, run),
            SpikeStep::Grant => (SpikeStep::Register, run),
            SpikeStep::Register => (SpikeStep::GrantReplay, run),
            SpikeStep::GrantReplay => (SpikeStep::SeedWorkItem, run),
            SpikeStep::SeedWorkItem => (SpikeStep::Enqueue, run),
            SpikeStep::Enqueue => (SpikeStep::Coalesce, run),
            SpikeStep::Coalesce => (SpikeStep::Claim, run),
            SpikeStep::Claim => (SpikeStep::Checkout, run),
            SpikeStep::Checkout => if live {
                (SpikeStep::CreateAttempt, run)
            } else {
                (SpikeStep::Regrant, 1)
            },
            SpikeStep::CreateAttempt => (SpikeStep::BindRun, run),
            SpikeStep::BindRun => (SpikeStep::MarkClaimed, run),
            SpikeStep::MarkClaimed => (SpikeStep::MarkDispatched, run),
            SpikeStep::MarkDispatched => (SpikeStep::MarkRunning, run),
            SpikeStep::MarkRunning => (SpikeStep::AppendStarted, run),
            SpikeStep::AppendStarted => (SpikeStep::AppendTerminated, run),
            SpikeStep::AppendTerminated => (SpikeStep::Finalize, run),
            SpikeStep::Finalize => (SpikeStep::QueryActivity, run),
            SpikeStep::QueryActivity => (SpikeStep::Review, run),
            SpikeStep::Review => (SpikeStep::Regrant, 1),
            SpikeStep::Regrant => (SpikeStep::Reregister, run),
            SpikeStep::Reregister => (SpikeStep::Reclaim, run),
            SpikeStep::Reclaim => (SpikeStep::Recheckout, run),
            SpikeStep::Recheckout => (SpikeStep::RivalCheckout, run),
            SpikeStep::RivalCheckout => (SpikeStep::StaleRelease, run),
            SpikeStep::StaleRelease => (SpikeStep::LeasePersisted, run),
            SpikeStep::LeasePersisted => if run == 1 {
                (SpikeStep::Regrant, 2)
            } else {
                (SpikeStep::Release, run)
            },
            SpikeStep::Release => (SpikeStep::Reattach, run),
            SpikeStep::Reattach => (SpikeStep::Complete, run),
            SpikeStep::Complete => (SpikeStep::Complete, run),
        }
    }
}

/// Checks that a reply landed on the expected status, which `expected_text` names.
pub fn expect(
    phase: SpikePhase,
    step: &'static str,
    expected: u16,
    expected_text: &str,
    reply: Reply,
) -> (r: Result<Reply, SpikeFailure>)
    ensures
        match r {
            Ok(body) => reply.status == expected && body == reply,
            Err(failure) => {
                &&& reply.status != expected
                &&& failure.phase == phase
                &&& failure.step == step
                &&& failure.detail@ == "expected "@ + expected_text@ + ", got "@
                    + reply.status_text@ + ": "@ + reply.body_text@
            },
        },
{
    if reply.status == expected {
        return Ok(reply);
    }
    Err(SpikeFailure::new(phase, step, unexpected_status(expected_text, &reply)))
}

/// What a reply with an unexpected status is reported as.
fn unexpected_status(expected_text: &str, reply: &Reply) -> (r: String)
    ensures
        r@ == "expected "@ + expected_text@ + ", got "@ + reply.status_text@ + ": "@
            + reply.body_text@,
{
    status_report(&text::around("expected ", expected_text, ", got "), reply)
}

/// The status line of an ordinary success.
fn ordinary_line(status: u16) -> (r: &'static str)
    ensures
        r@ == status_line(status),
{
    if status == 200 {
        "200 OK"
    } else if status == 201 {
        "201 Created"
    } else {
        "204 No Content"
    }
}

impl SpikeScenario {
    /// The scenario at its first step.
    pub fn new(mode: &SpikeMode, run_id: String) -> (r: Self)
        ensures
            r.live == (mode is Real),
            r.downstream == (mode matches SpikeMode::Real { downstream, .. } && downstream is Some),
            r.run_id == run_id,
            r.step == SpikeStep::HealthAnonymous,
            r.run == 0,
            r.protocol_major == 0,
            r.grant@ == Seq::<char>::empty(),
            r.wake_id@ == Seq::<char>::empty(),
    {
        let (live, downstream): (bool, bool) = match mode {
            SpikeMode::Stub => (false, false),
            SpikeMode::Real { downstream, .. } => (true, downstream.is_some()),
        };
        SpikeScenario {
            live,
            downstream,
            run_id,
            step: SpikeStep::HealthAnonymous,
            run: 0,
            protocol_major: 0,
            grant: String::new(),
            wake_id: String::new(),
        }
    }

    /// Whether the reply carries what the step needs beyond its status.
    fn finds(&self, reply: &Reply) -> (r: bool)
        ensures
            r == carries(*self, *reply),
    {
        match self.step {
            SpikeStep::Health => reply.protocol_major.is_some(),
            SpikeStep::Grant | SpikeStep::Regrant => reply.token.is_some(),
            SpikeStep::Register => reads_as(&reply.agent_instance, AGENT_INSTANCE),
            SpikeStep::Enqueue => reply.id.is_some(),
            SpikeStep::Coalesce => reads_as(&reply.id, &self.wake_id) && match reply.sources {
                Some(count) => count == 2,
                None => false,
            },
            SpikeStep::Claim => reply.claimed,
            SpikeStep::Finalize => reads_as(&reply.state, "succeeded"),
            SpikeStep::QueryActivity => count_correlated(&reply.correlations, &self.run_id) >= 2,
            _ => true,
        }
    }

    /// The report on a reply with the wrong status.
    fn describe_wrong_status(&self, reply: &Reply) -> (r: String)
        requires
            is_call(self.step),
        ensures
            r@ == wrong_status_detail(*self, *reply),
    {
        match self.step {
            SpikeStep::HealthAnonymous => text::joined(
                "expected 401 without bootstrap bearer, got ",
                &reply.status_text,
            ),
            SpikeStep::GrantReplay => status_report(
                "expected 401 replaying consumed grant, got ",
                reply,
            ),
            SpikeStep::Reclaim => status_report(
                &run_lead(self.run, ": re-claim expected 409 AlreadyClaimed, got "),
                reply,
            ),
            SpikeStep::Recheckout => status_report(
                &run_lead(self.run, ": same-lease re-checkout expected 409, got "),
                reply,
            ),
            SpikeStep::RivalCheckout => status_report(
                &run_lead(self.run, ": rival lease expected 409, got "),
                reply,
            ),
            SpikeStep::StaleRelease => status_report(
                &run_lead(self.run, ": stale finalizer expected 409, got "),
                reply,
            ),
            SpikeStep::LeasePersisted => {
                let mut out: String = run_lead(
                    self.run,
                    ": lease did not persist across reconnect: ",
                );
                out.append(&reply.status_text);
                out.append(" ");
                out.append(&reply.body_text);
                out
            },
            _ => match self.step.status() {
                Some(expected) => unexpected_status(ordinary_line(expected), reply),
                None => String::new(),
            },
        }
    }

    /// The report on a reply that does not carry what the step needs.
    fn describe_wrong_body(&self, reply: &Reply) -> (r: String)
        ensures
            r@ == wrong_body_detail(*self, *reply),
    {
        match self.step {
            SpikeStep::Health => "response missing protocol_major".to_owned(),
            SpikeStep::Grant => "response missing token".to_owned(),
            SpikeStep::Regrant => "missing token".to_owned(),
            SpikeStep::Register => text::joined(
                "plane did not echo agent_instance_id: ",
                &reply.body_text,
            ),
            SpikeStep::Enqueue => "wake response missing id".to_owned(),
            SpikeStep::Coalesce => text::joined(
                "second source did not coalesce into one wake: ",
                &reply.body_text,
            ),
            SpikeStep::Claim => text::joined("claim did not stamp claimed_at: ", &reply.body_text),
            SpikeStep::Finalize => text::joined(
                "attempt did not finalize as succeeded: ",
                &reply.body_text,
            ),
            _ => {
                let found: usize = count_correlated(&reply.correlations, &self.run_id);
                let mut out: String =
                    "expected the translated run events over the wire, found ".to_owned();
                out.append(&text::numeral(found as u64));
                out.append(": ");
                out.append(&reply.body_text);
                out
            },
        }
    }

    /// The report on a reply that lets the step pass.
    fn describe_reply(&self, reply: &Reply) -> (r: Option<StepRecord>)
        requires
            is_call(self.step),
            carries(*self, *reply),
        ensures
            match r {
                Some(record) => report(*self, SpikeEvent::Replied { reply: *reply }) == Some(
                    (record.step@, record.detail@),
                ),
                None => report(*self, SpikeEvent::Replied { reply: *reply }) is None,
            },
    {
        let (step, detail): (&'static str, String) = match self.step {
            SpikeStep::Health => {
                let mut out: String = "service ".to_owned();
                match &reply.service_version {
                    Some(version) => {
                        out.append(version);
                    },
                    None => {
                        out.append("?");
                    },
                }
                out.append(" protocol v");
                let major: u64 = match reply.protocol_major {
                    Some(value) => value,
                    None => 0,
                };
                out.append(&text::numeral((#[verifier::truncate] (major as u16)) as u64));
                ("health", out)
            },
            SpikeStep::Grant => ("grant", "one-time registration grant issued".to_owned()),
            SpikeStep::Register => {
                let mut out: String = text::joined("host ", AGENT_INSTANCE);
                out.append(" registered");
                ("register", out)
            },
            SpikeStep::GrantReplay => (
                "grant-replay",
                "consumed grant rejected (one-time)".to_owned(),
            ),
            SpikeStep::Enqueue => {
                let mut out: String = "wake ".to_owned();
                match &reply.id {
                    Some(id) => {
                        out.append(id);
                    },
                    None => {},
                }
                out.append(" enqueued");
                ("enqueue", out)
            },
            SpikeStep::Coalesce => ("coalesce", "second source coalesced (020)".to_owned()),
            SpikeStep::Claim => ("claim", "wake claimed by host".to_owned()),
            SpikeStep::Checkout => ("checkout", text::joined("lease held for ", ATTEMPT)),
            SpikeStep::BindRun => {
                let mut out: String = text::joined("run ", &self.run_id);
                out.append(" bound to ");
                out.append(ATTEMPT);
                ("bind-run", out)
            },
            SpikeStep::Finalize => (
                "finalize",
                text::joined(ATTEMPT, " finalized by run completion (034)"),
            ),
            SpikeStep::QueryActivity => {
                let found: usize = count_correlated(&reply.correlations, &self.run_id);
                let mut out: String = text::numeral(found as u64);
                out.append(" translated events observed over the framed wire (035)");
                ("query-activity", out)
            },
            SpikeStep::LeasePersisted => (
                "reconnect",
                run_lead(
                    self.run,
                    ": no double fire, lease intact, stale finalizer rejected",
                ),
            ),
            SpikeStep::Release => ("release", "rightful owner released the lease".to_owned()),
            SpikeStep::Reattach => (
                "reattach",
                "fresh attempt checked out after recovery (023)".to_owned(),
            ),
            _ => {
                return None;
            },
        };
        Some(StepRecord { step, detail })
    }

    /// Moves on to the following step.
    fn move_on(&mut self)
        ensures
            moved_on(*old(self), SpikeEvent::Seeded { refusal: None }, *final(self)),
    {
        let (step, run): (SpikeStep, u8) = self.step.after(self.run, self.live);
        self.step = step;
        self.run = run;
    }

    /// Takes the reply to a call.
    fn on_reply(&mut self, reply: Reply) -> (r: Result<Advance, SpikeFailure>)
        requires
            is_call(old(self).step),
        ensures
            ({
                let event = SpikeEvent::Replied { reply };
                match r {
                    Ok(advance) => {
                        &&& passes(*old(self), event)
                        &&& moved_on(*old(self), event, *final(self))
                        &&& match advance {
                            Advance::Recorded { record } => report(*old(self), event) == Some(
                                (record.step@, record.detail@),
                            ),
                            Advance::Passed => report(*old(self), event) is None,
                            Advance::Unexpected => false,
                        }
                    },
                    Err(failure) => {
                        &&& !passes(*old(self), event)
                        &&& *final(self) == *old(self)
                        &&& fails_as(*old(self), event, failure)
                    },
                }
            }),
    {
        let expected: u16 = match self.step.status() {
            Some(status) => status,
            None => 0,
        };
        if reply.status != expected {
            let detail: String = self.describe_wrong_status(&reply);
            return Err(SpikeFailure::new(self.step.phase(), self.step.name(), detail));
        }
        if !self.finds(&reply) {
            let detail: String = self.describe_wrong_body(&reply);
            return Err(SpikeFailure::new(self.step.phase(), self.step.name(), detail));
        }
        let record: Option<StepRecord> = self.describe_reply(&reply);
        match self.step {
            SpikeStep::Health => match reply.protocol_major {
                Some(major) => {
                    self.protocol_major = #[verifier::truncate] (major as u16);
                },
                None => {},
            },
            SpikeStep::Grant | SpikeStep::Regrant => match reply.token {
                Some(token) => {
                    self.grant = token;
                },
                None => {},
            },
            SpikeStep::Enqueue => match reply.id {
                Some(id) => {
                    self.wake_id = id;
                },
                None => {},
            },
            _ => {},
        }
        self.move_on();
        match record {
            Some(record) => Ok(Advance::Recorded { record }),
            None => Ok(Advance::Passed),
        }
    }

    /// Whether the current step probes the downstream plane.
    pub fn probes(&self) -> (r: bool)
        ensures
            r == (self.step == SpikeStep::Review && self.downstream),
    {
        self.step == SpikeStep::Review && self.downstream
    }

    /// Whether the current step is the review without a downstream plane to probe.
    pub fn skips(&self) -> (r: bool)
        ensures
            r == (self.step == SpikeStep::Review && !self.downstream),
    {
        self.step == SpikeStep::Review && !self.downstream
    }

    /// Takes what was observed of the current step. A step that passes is reported and the
    /// scenario moves on; a step that fails names its phase and leaves the scenario where it is.
    pub fn advance(&mut self, event: SpikeEvent) -> (r: Result<Advance, SpikeFailure>)
        ensures
            match r {
                Ok(Advance::Unexpected) => !answers(*old(self), event) && *final(self)
                    == *old(self),
                Ok(advance) => {
                    &&& answers(*old(self), event)
                    &&& passes(*old(self), event)
                    &&& moved_on(*old(self), event, *final(self))
                    &&& match advance {
                        Advance::Recorded { record } => report(*old(self), event) == Some(
                            (record.step@, record.detail@),
                        ),
                        _ => report(*old(self), event) is None,
                    }
                },
                Err(failure) => {
                    &&& answers(*old(self), event)
                    &&& !passes(*old(self), event)
                    &&& *final(self) == *old(self)
                    &&& fails_as(*old(self), event, failure)
                },
            },
    {
        match event {
            SpikeEvent::Replied { reply } => {
                if self.step.status().is_none() {
                    return Ok(Advance::Unexpected);
                }
                self.on_reply(reply)
            },
            SpikeEvent::Seeded { refusal } => {
                if !self.step.seeds() {
                    return Ok(Advance::Unexpected);
                }
                match refusal {
                    Some(message) => {
                        let detail: String = if self.step == SpikeStep::SeedWorkItem {
                            "registration rejected".to_owned()
                        } else {
                            message
                        };
                        Err(SpikeFailure::new(self.step.phase(), self.step.name(), detail))
                    },
                    None => {
                        let step: SpikeStep = self.step;
                        self.move_on();
                        if step == SpikeStep::SeedWorkItem {
                            let mut detail: String = text::joined("fixture ", WORK_ITEM);
                            detail.append(" registered");
                            Ok(Advance::Recorded { record: StepRecord { step: "work-item", detail } })
                        } else if step == SpikeStep::AppendTerminated {
                            let detail: String =
                                "scripted run translated to audit events (035)".to_owned();
                            Ok(
                                Advance::Recorded {
                                    record: StepRecord { step: "attempt-events", detail },
                                },
                            )
                        } else {
                            Ok(Advance::Passed)
                        }
                    },
                }
            },
            SpikeEvent::Probed { outcome } => {
                if !self.probes() {
                    return Ok(Advance::Unexpected);
                }
                match outcome {
                    Err(failure) => Err(failure),
                    Ok(projection) => {
                        let detail: String = text::joined(
                            "downstream projection reached review: ",
                            &projection,
                        );
                        self.move_on();
                        Ok(Advance::Recorded { record: StepRecord { step: "review", detail } })
                    },
                }
            },
            SpikeEvent::Skipped => {
                if !self.skips() {
                    return Ok(Advance::Unexpected);
                }
                self.move_on();
                let detail: String = SKIPPED_REVIEW.to_owned();
                Ok(Advance::Recorded { record: StepRecord { step: "review", detail } })
            },
        }
    }
}

/// When the wakes are asked for.
pub const REQUESTED_AT: &'static str = "2026-08-16T00:00:00Z";

/// When the leases expire, in seconds since the epoch.
pub const LEASE_EXPIRES_AT: u64 = 4_102_444_800;

/// When the leases are asked for, in seconds since the epoch.
pub const LEASE_NOW: u64 = 1_786_060_000;

/// The component in whose name the scenario acts.
pub const COMPONENT: &'static str = "paperclip-spike";

/// The organization whose activity the scenario records.
pub const ORGANIZATION: &'static str = "spike";

/// What a call carries.
pub enum SpikeBody {
    /// Nothing.
    Empty,
    /// The registration of the host by a grant.
    Registration { grant: String, protocol_major: u16 },
    /// A wake for the work item from a source.
    Wake { source: &'static str, requested_at: &'static str },
    /// The claim of the work item's wake.
    Claim { claimed_at: &'static str },
    /// A lease on the work item, asked for at `now`.
    Lease { owner: &'static str, attempt: &'static str, expires_at: u64, now: u64 },
    /// The binding of the run to the attempt.
    RunBinding { run_id: String, bound_at: u64 },
    /// The outcome of the attempt.
    Finalize { outcome: &'static str, observed_at: u64 },
    /// The framed query for the activity of an organization on the work item.
    ActivityQuery {
        request_id: &'static str,
        protocol_major: u16,
        component: &'static str,
        organization: &'static str,
        limit: u32,
    },
    /// The release of an attempt's lease.
    Release { attempt: &'static str },
}

/// A call to the plane.
pub struct SpikeCall {
    /// `POST` rather than `GET`.
    pub post: bool,
    pub path: String,
    /// The bootstrap bearer is presented.
    pub authorized: bool,
    pub body: SpikeBody,
}

/// The path that a step calls.
pub open spec fn call_path(step: SpikeStep) -> Seq<char> {
    match step {
        SpikeStep::HealthAnonymous | SpikeStep::Health => "/v1/health"@,
        SpikeStep::Grant | SpikeStep::Regrant => "/v1/registration-grants"@,
        SpikeStep::Register | SpikeStep::GrantReplay | SpikeStep::Reregister =>
            "/v1/hosts/register"@,
        SpikeStep::Enqueue | SpikeStep::Coalesce => "/v1/wakes"@,
        SpikeStep::Claim | SpikeStep::Reclaim => "/v1/wakes/"@ + WORK_ITEM@ + "/claim"@,
        SpikeStep::Checkout | SpikeStep::Recheckout | SpikeStep::RivalCheckout
        | SpikeStep::LeasePersisted | SpikeStep::Reattach => "/v1/work-checkouts"@,
        SpikeStep::BindRun => "/v1/runtime/run-bindings"@,
        SpikeStep::Finalize => "/v1/runtime/attempts/"@ + ATTEMPT@ + "/finalize"@,
        SpikeStep::QueryActivity => "/v1/protocol/commands"@,
        _ => "/v1/work-checkouts/release"@,
    }
}

/// `body` is a wake for the work item from `source`.
pub open spec fn is_wake(body: SpikeBody, source: Seq<char>) -> bool {
    body matches SpikeBody::Wake { source: from, requested_at } && from@ == source && requested_at@
        == REQUESTED_AT@
}

/// `body` is the lease of `owner` for `attempt`.
pub open spec fn is_lease(body: SpikeBody, owner: Seq<char>, attempt: Seq<char>) -> bool {
    body matches SpikeBody::Lease { owner: by, attempt: held, expires_at, now } && by@ == owner
        && held@ == attempt && expires_at == LEASE_EXPIRES_AT && now == LEASE_NOW
}

/// `body` is what a step's call carries.
pub open spec fn is_body_of(body: SpikeBody, s: SpikeScenario) -> bool {
    match s.step {
        SpikeStep::HealthAnonymous | SpikeStep::Health | SpikeStep::Grant | SpikeStep::Regrant =>
            body == SpikeBody::Empty,
        SpikeStep::Register | SpikeStep::GrantReplay | SpikeStep::Reregister => body == (
        SpikeBody::Registration { grant: s.grant, protocol_major: s.protocol_major }),
        SpikeStep::Enqueue => is_wake(body, "manual"@),
        SpikeStep::Coalesce => is_wake(body, "comment"@),
        SpikeStep::Claim => body matches SpikeBody::Claim { claimed_at } && claimed_at@
            == "2026-08-16T00:00:01Z"@,
        SpikeStep::Reclaim => body matches SpikeBody::Claim { claimed_at } && claimed_at@
            == "2026-08-16T00:00:02Z"@,
        SpikeStep::Checkout | SpikeStep::Recheckout | SpikeStep::LeasePersisted => is_lease(
            body,
            AGENT_INSTANCE@,
            ATTEMPT@,
        ),
        SpikeStep::RivalCheckout => is_lease(body, "ai_spike_rival"@, "att_spike_rival"@),
        SpikeStep::Reattach => is_lease(body, AGENT_INSTANCE@, NEXT_ATTEMPT@),
        SpikeStep::BindRun => body == (SpikeBody::RunBinding {
            run_id: s.run_id,
            bound_at: 1_786_060_100,
        }),
        SpikeStep::Finalize => body matches SpikeBody::Finalize { outcome, observed_at } && outcome@
            == "succeeded"@ && observed_at == 1_786_060_200,
        SpikeStep::QueryActivity => {
            &&& body matches SpikeBody::ActivityQuery {
                request_id,
                protocol_major,
                component,
                organization,
                limit,
            }
            &&& request_id@ == "spike-query-1"@
            &&& protocol_major == s.protocol_major
            &&& component@ == COMPONENT@
            &&& organization@ == ORGANIZATION@
            &&& limit == 50
        },
        SpikeStep::StaleRelease => body matches SpikeBody::Release { attempt } && attempt@
            == "att_spike_stale"@,
        _ => body matches SpikeBody::Release { attempt } && attempt@ == ATTEMPT@,
    }
}

/// The call is made without the bootstrap bearer.
pub open spec fn is_anonymous(step: SpikeStep) -> bool {
    match step {
        SpikeStep::HealthAnonymous | SpikeStep::Register | SpikeStep::GrantReplay
        | SpikeStep::Reregister => true,
        _ => false,
    }
}

impl SpikeStep {
    /// The path that the step calls.
    fn path(self) -> (r: String)
        ensures
            r@ == call_path(self),
    {
        match self {
            SpikeStep::HealthAnonymous | SpikeStep::Health => "/v1/health".to_owned(),
            SpikeStep::Grant | SpikeStep::Regrant => "/v1/registration-grants".to_owned(),
            SpikeStep::Register | SpikeStep::GrantReplay | SpikeStep::Reregister =>
                "/v1/hosts/register".to_owned(),
            SpikeStep::Enqueue | SpikeStep::Coalesce => "/v1/wakes".to_owned(),
            SpikeStep::Claim | SpikeStep::Reclaim => {
                let mut out: String = text::joined("/v1/wakes/", WORK_ITEM);
                out.append("/claim");
                out
            },
            SpikeStep::Checkout | SpikeStep::Recheckout | SpikeStep::RivalCheckout
            | SpikeStep::LeasePersisted | SpikeStep::Reattach => "/v1/work-checkouts".to_owned(),
            SpikeStep::BindRun => "/v1/runtime/run-bindings".to_owned(),
            SpikeStep::Finalize => {
                let mut out: String = text::joined("/v1/runtime/attempts/", ATTEMPT);
                out.append("/finalize");
                out
            },
            SpikeStep::QueryActivity => "/v1/protocol/commands".to_owned(),
            _ => "/v1/work-checkouts/release".to_owned(),
        }
    }
}

/// The lease of an owner for an attempt.
fn lease(owner: &'static str, attempt: &'static str) -> (r: SpikeBody)
    ensures
        is_lease(r, owner@, attempt@),
{
    SpikeBody::Lease { owner, attempt, expires_at: LEASE_EXPIRES_AT, now: LEASE_NOW }
}

/// The registration of the host by a grant.
fn host_registration(s: &SpikeScenario) -> (r: SpikeBody)
    ensures
        r == (SpikeBody::Registration { grant: s.grant, protocol_major: s.protocol_major }),
{
    SpikeBody::Registration { grant: s.grant.clone(), protocol_major: s.protocol_major }
}

impl SpikeScenario {
    /// The call that the current step makes; none where the step is not a call.
    pub fn call(&self) -> (r: Option<SpikeCall>)
        ensures
            match r {
                Some(call) => {
                    &&& is_call(self.step)
                    &&& call.post == !(self.step == SpikeStep::HealthAnonymous || self.step
                        == SpikeStep::Health)
                    &&& call.path@ == call_path(self.step)
                    &&& call.authorized == !is_anonymous(self.step)
                    &&& is_body_of(call.body, *self)
                },
                None => !is_call(self.step),
            },
    {
        if self.step.status().is_none() {
            return None;
        }
        let (post, authorized, body): (bool, bool, SpikeBody) = match self.step {
            SpikeStep::HealthAnonymous => (false, false, SpikeBody::Empty),
            SpikeStep::Health => (false, true, SpikeBody::Empty),
            SpikeStep::Grant | SpikeStep::Regrant => (true, true, SpikeBody::Empty),
            SpikeStep::Register | SpikeStep::GrantReplay | SpikeStep::Reregister => (
                true,
                false,
                host_registration(self),
            ),
            SpikeStep::Enqueue => (
                true,
                true,
                SpikeBody::Wake { source: "manual", requested_at: REQUESTED_AT },
            ),
            SpikeStep::Coalesce => (
                true,
                true,
                SpikeBody::Wake { source: "comment", requested_at: REQUESTED_AT },
            ),
            SpikeStep::Claim => (
                true,
                true,
                SpikeBody::Claim { claimed_at: "2026-08-16T00:00:01Z" },
            ),
            SpikeStep::Reclaim => (
                true,
                true,
                SpikeBody::Claim { claimed_at: "2026-08-16T00:00:02Z" },
            ),
            SpikeStep::Checkout | SpikeStep::Recheckout | SpikeStep::LeasePersisted => (
                true,
                true,
                lease(AGENT_INSTANCE, ATTEMPT),
            ),
            SpikeStep::RivalCheckout => (
                true,
                true,
                lease("ai_spike_rival", "att_spike_rival"),
            ),
            SpikeStep::Reattach => (
                true,
                true,
                lease(AGENT_INSTANCE, NEXT_ATTEMPT),
            ),
            SpikeStep::BindRun => (
                true,
                true,
                SpikeBody::RunBinding { run_id: self.run_id.clone(), bound_at: 1_786_060_100 },
            ),
            SpikeStep::Finalize => (
                true,
                true,
                SpikeBody::Finalize { outcome: "succeeded", observed_at: 1_786_060_200 },
            ),
            SpikeStep::QueryActivity => (
                true,
                true,
                SpikeBody::ActivityQuery {
                    request_id: "spike-query-1",
                    protocol_major: self.protocol_major,
                    component: COMPONENT,
                    organization: ORGANIZATION,
                    limit: 50,
                },
            ),
            SpikeStep::StaleRelease => (
                true,
                true,
                SpikeBody::Release { attempt: "att_spike_stale" },
            ),
            _ => (true, true, SpikeBody::Release { attempt: ATTEMPT }),
        };
        Some(SpikeCall { post, path: self.step.path(), authorized, body })
    }
}

/// The states through which the scenario takes its attempt.
#[derive(Debug, Clone, Copy, PartialEq, Eq, Structural)]
pub enum SeededState {
    Created,
    Claimed,
    Dispatched,
    Running,
}

/// A record that a step seeds through a repository of the plane, because the wire serves no route
/// for it. Times are in seconds since the epoch.
pub enum SpikeSeed {
    /// The work item of the scenario.
    WorkItem { work_item: &'static str },
    /// The attempt, as it is created.
    Attempt {
        attempt: &'static str,
        work_item: &'static str,
        owner: &'static str,
        profile_revision: &'static str,
        state: SeededState,
        at: u64,
    },
    /// A transition of the attempt.
    Transition { attempt: &'static str, state: SeededState, at: u64 },
    /// An audit event of the attempt, of which `sequence` tells the place in the scripted run.
    Activity {
        event_id: String,
        sequence: u8,
        timestamp: &'static str,
        correlation_id: String,
    },
}

/// `seed` is the transition of the attempt to `state` at `at`.
pub open spec fn is_transition(seed: SpikeSeed, state: SeededState, at: u64) -> bool {
    seed matches SpikeSeed::Transition { attempt, state: to, at: when } && attempt@ == ATTEMPT@ && to
        == state && when == at
}

/// `seed` is the audit event at a place in the scripted run.
pub open spec fn is_activity(seed: SpikeSeed, run_id: String, sequence: u8) -> bool {
    &&& seed matches SpikeSeed::Activity { event_id, sequence: place, timestamp, correlation_id }
    &&& event_id@ == "evt_spike_"@ + ATTEMPT@ + "_"@ + text::decimal(sequence as nat)
    &&& place == sequence
    &&& timestamp@ == "2026-08-16T00:01:00Z"@
    &&& correlation_id == run_id
}

/// `seed` is what a step seeds.
pub open spec fn is_seed_of(seed: SpikeSeed, s: SpikeScenario) -> bool {
    match s.step {
        SpikeStep::SeedWorkItem => seed matches SpikeSeed::WorkItem { work_item } && work_item@
            == WORK_ITEM@,
        SpikeStep::CreateAttempt => {
            &&& seed matches SpikeSeed::Attempt {
                attempt,
                work_item,
                owner,
                profile_revision,
                state,
                at,
            }
            &&& attempt@ == ATTEMPT@
            &&& work_item@ == WORK_ITEM@
            &&& owner@ == AGENT_INSTANCE@
            &&& profile_revision@ == "spike"@
            &&& state == SeededState::Created
            &&& at == 1_786_060_050
        },
        SpikeStep::MarkClaimed => is_transition(seed, SeededState::Claimed, 1_786_060_110),
        SpikeStep::MarkDispatched => is_transition(seed, SeededState::Dispatched, 1_786_060_120),
        SpikeStep::MarkRunning => is_transition(seed, SeededState::Running, 1_786_060_130),
        SpikeStep::AppendStarted => is_activity(seed, s.run_id, 0),
        _ => is_activity(seed, s.run_id, 1),
    }
}

/// A transition of the attempt.
fn transition(state: SeededState, at: u64) -> (r: SpikeSeed)
    ensures
        is_transition(r, state, at),
{
    SpikeSeed::Transition { attempt: ATTEMPT, state, at }
}

/// The audit event at a place in the scripted run.
fn activity(run_id: &String, sequence: u8) -> (r: SpikeSeed)
    ensures
        is_activity(r, *run_id, sequence),
{
    let mut event_id: String = text::around("evt_spike_", ATTEMPT, "_");
    event_id.append(&text::numeral(sequence as u64));
    SpikeSeed::Activity {
        event_id,
        sequence,
        timestamp: "2026-08-16T00:01:00Z",
        correlation_id: run_id.clone(),
    }
}

impl SpikeScenario {
    /// The record that the current step seeds; none where the step seeds nothing.
    pub fn seed(&self) -> (r: Option<SpikeSeed>)
        ensures
            match r {
                Some(seed) => is_seed(self.step) && is_seed_of(seed, *self),
                None => !is_seed(self.step),
            },
    {
        match self.step {
            SpikeStep::SeedWorkItem => Some(SpikeSeed::WorkItem { work_item: WORK_ITEM }),
            SpikeStep::CreateAttempt => Some(
                SpikeSeed::Attempt {
                    attempt: ATTEMPT,
                    work_item: WORK_ITEM,
                    owner: AGENT_INSTANCE,
                    profile_revision: "spike",
                    state: SeededState::Created,
                    at: 1_786_060_050,
                },
            ),
            SpikeStep::MarkClaimed => Some(transition(SeededState::Claimed, 1_786_060_110)),
            SpikeStep::MarkDispatched => Some(transition(SeededState::Dispatched, 1_786_060_120)),
            SpikeStep::MarkRunning => Some(transition(SeededState::Running, 1_786_060_130)),
            SpikeStep::AppendStarted => Some(activity(&self.run_id, 0)),
            SpikeStep::AppendTerminated => Some(activity(&self.run_id, 1)),
            _ => None,
        }
    }
}

/// What the translation of a lifecycle event yields.
pub enum TranslatedEvent {
    RunStarted { run_id: String },
    RunTerminated { run_id: String, outcome: String },
    /// Any other event, in words.
    Other { shown: String },
}

/// The summary under which a translated event is recorded.
pub fn event_summary(event: &TranslatedEvent) -> (r: String)
    ensures
        r@ == match *event {
            TranslatedEvent::RunStarted { run_id } => "run "@ + run_id@ + " started"@,
            TranslatedEvent::RunTerminated { run_id, outcome } => "run "@ + run_id@
                + " terminated: "@ + outcome@,
            TranslatedEvent::Other { shown } => shown@,
        },
{
    match event {
        TranslatedEvent::RunStarted { run_id } => text::around("run ", run_id, " started"),
        TranslatedEvent::RunTerminated { run_id, outcome } => {
            let start: String = text::around("run ", run_id, " terminated: ");
            text::joined(&start, outcome)
        },
        TranslatedEvent::Other { shown } => shown.clone(),
    }
}

/// What can break below the scenario: while the plane is set up, while a call is carried, or while
/// the review probe looks.
#[derive(Debug, Clone, Copy, PartialEq, Eq, Structural)]
pub enum SpikeFault {
    Tempdir,
    Bootstrap,
    ActivityDatabase,
    EventsDatabase,
    AttemptsDatabase,
    Credential,
    BindingsDatabase,
    RoutinesDatabase,
    ApprovalsDatabase,
    Bind,
    RequestBuild,
    Oneshot,
    Body,
    Http,
    HttpBody,
    ProbeBuild,
    ProbeBody,
}

/// The step under which a fault is reported.
pub open spec fn fault_step(fault: SpikeFault) -> Seq<char> {
    match fault {
        SpikeFault::Tempdir => "tempdir"@,
        SpikeFault::Bootstrap => "bootstrap"@,
        SpikeFault::ActivityDatabase => "activity-db"@,
        SpikeFault::EventsDatabase => "events-db"@,
        SpikeFault::AttemptsDatabase => "attempts-db"@,
        SpikeFault::Credential => "credential"@,
        SpikeFault::BindingsDatabase => "bindings-db"@,
        SpikeFault::RoutinesDatabase => "routines-db"@,
        SpikeFault::ApprovalsDatabase => "approvals-db"@,
        SpikeFault::Bind => "bind"@,
        SpikeFault::RequestBuild => "request-build"@,
        SpikeFault::Oneshot => "oneshot"@,
        SpikeFault::Body => "body"@,
        SpikeFault::Http => "http"@,
        SpikeFault::HttpBody => "http-body"@,
        SpikeFault::ProbeBuild => "probe-build"@,
        SpikeFault::ProbeBody => "probe-body"@,
    }
}

/// The failure that a fault ends the scenario with: a fault of the probe belongs to the review,
/// every other one to the health of the plane.
pub fn fault_failure(fault: SpikeFault, error: String) -> (r: SpikeFailure)
    ensures
        r.phase == if fault == SpikeFault::ProbeBuild || fault == SpikeFault::ProbeBody {
            SpikePhase::Review
        } else {
            SpikePhase::Health
        },
        r.step@ == fault_step(fault),
        r.detail == error,
{
    let (phase, step): (SpikePhase, &'static str) = match fault {
        SpikeFault::Tempdir => (SpikePhase::Health, "tempdir"),
        SpikeFault::Bootstrap => (SpikePhase::Health, "bootstrap"),
        SpikeFault::ActivityDatabase => (SpikePhase::Health, "activity-db"),
        SpikeFault::EventsDatabase => (SpikePhase::Health, "events-db"),
        SpikeFault::AttemptsDatabase => (SpikePhase::Health, "attempts-db"),
        SpikeFault::Credential => (SpikePhase::Health, "credential"),
        SpikeFault::BindingsDatabase => (SpikePhase::Health, "bindings-db"),
        SpikeFault::RoutinesDatabase => (SpikePhase::Health, "routines-db"),
        SpikeFault::ApprovalsDatabase => (SpikePhase::Health, "approvals-db"),
        SpikeFault::Bind => (SpikePhase::Health, "bind"),
        SpikeFault::RequestBuild => (SpikePhase::Health, "request-build"),
        SpikeFault::Oneshot => (SpikePhase::Health, "oneshot"),
        SpikeFault::Body => (SpikePhase::Health, "body"),
        SpikeFault::Http => (SpikePhase::Health, "http"),
        SpikeFault::HttpBody => (SpikePhase::Health, "http-body"),
        SpikeFault::ProbeBuild => (SpikePhase::Review, "probe-build"),
        SpikeFault::ProbeBody => (SpikePhase::Review, "probe-body"),
    };
    SpikeFailure::new(phase, step, error)
}

/// A bootstrap bearer: `bootstrap_` before a random identifier.
pub open spec fn is_bootstrap_token(token: Seq<char>) -> bool {
    text::begins_with(token, "bootstrap_"@) && outside::is_random_uuid(
        token.skip("bootstrap_"@.len() as int),
    )
}

/// A fresh bootstrap bearer for a plane.
pub fn new_bootstrap_token() -> (r: String)
    ensures
        is_bootstrap_token(r@),
{
    let uuid: String = outside::random_uuid();
    let token: String = text::joined("bootstrap_", &uuid);
    assert(token@.subrange(0, "bootstrap_"@.len() as int) =~= "bootstrap_"@);
    assert(token@.skip("bootstrap_"@.len() as int) =~= uuid@);
    token
}

/// The report that a real plane is being served.
pub fn serving_record(address: &str) -> (r: StepRecord)
    ensures
        r.step@ == "serve"@,
        r.detail@ == "control plane serving real HTTP on http://"@ + address@,
{
    StepRecord {
        step: "serve",
        detail: text::joined("control plane serving real HTTP on http://", address),
    }
}

/// The line that is printed for a passed step.
pub fn progress_line(record: &StepRecord) -> (r: String)
    ensures
        r@ == "paperclip-spike: "@ + record.step@ + ": "@ + record.detail@,
{
    let start: String = text::around("paperclip-spike: ", record.step, ": ");
    text::joined(&start, &record.detail)
}

impl SpikeScenario {
    /// The line that is printed when every step has passed; none before that.
    pub fn verdict(&self) -> (r: Option<&'static str>)
        ensures
            match r {
                Some(line) => self.step == SpikeStep::Complete && line@ == if self.live {
                    "paperclip-spike: PASS (real plane)"@
                } else {
                    "paperclip-spike: PASS (stub plane)"@
                },
                None => self.step != SpikeStep::Complete,
            },
    {
        if self.step != SpikeStep::Complete {
            return None;
        }
        if self.live {
            Some("paperclip-spike: PASS (real plane)")
        } else {
            Some("paperclip-spike: PASS (stub plane)")
        }
    }
}

/// What the review probe reads of one look at the downstream issue.
pub enum ProbeReply {
    /// The issue was read: whether the status is `200 OK`, the status in words, the issue's own
    /// status and the number of its work products.
    Read { ok: bool, status_text: String, issue_status: Option<String>, products: Option<usize> },
    /// The downstream plane could not be reached, with the reason.
    Unreachable { reason: String },
}

/// How often the downstream projection is looked at.
pub const REVIEW_POLLS: u8 = 45;

/// The review probe: how often it looked, and what it saw last.
pub struct ReviewProbe {
    pub polls: u8,
    pub last: String,
}

/// What the probe does after a look.
pub enum ProbeStep {
    /// The projection sits in review with evidence.
    Reached { projection: String },
    /// Not yet; look again after a pause.
    Again,
    /// The budget is spent.
    Exhausted { failure: SpikeFailure },
}

/// What a look is remembered as.
pub open spec fn sighting(reply: ProbeReply) -> Seq<char> {
    match reply {
        ProbeReply::Read { status_text, issue_status, products, .. } => status_text@ + " status="@
            + (match issue_status {
            Some(status) => status@,
            None => "?"@,
        }) + " workProducts="@ + text::decimal(products.unwrap_or(0) as nat),
        ProbeReply::Unreachable { reason } => reason@,
    }
}

/// The issue sits in review with at least one work product: evidence, not just a state flag.
pub open spec fn in_review(reply: ProbeReply) -> bool {
    match reply {
        ProbeReply::Read { ok, issue_status, products, .. } => ok && reads(
            issue_status,
            "in_review"@,
        ) && products.unwrap_or(0) > 0,
        ProbeReply::Unreachable { .. } => false,
    }
}

impl ReviewProbe {
    /// A probe that has not looked yet.
    pub fn new() -> (r: Self)
        ensures
            r.polls == 0,
            r.last@ == Seq::<char>::empty(),
    {
        ReviewProbe { polls: 0, last: String::new() }
    }

    /// The address of the downstream issue.
    pub fn address(downstream: &DownstreamPlane) -> (r: String)
        ensures
            r@ == text::trim_end_of(downstream.base_url@, '/') + "/api/issues/"@
                + downstream.issue_id@,
    {
        let mut out: String = text::trim_end(&downstream.base_url, '/');
        out.append("/api/issues/");
        out.append(&downstream.issue_id);
        out
    }

    /// Takes one look at the projection.
    pub fn observe(&mut self, reply: ProbeReply) -> (r: ProbeStep)
        requires
            old(self).polls < REVIEW_POLLS,
        ensures
            final(self).polls == old(self).polls + 1,
            final(self).last@ == sighting(reply),
            match r {
                ProbeStep::Reached { projection } => in_review(reply) && projection@ == sighting(
                    reply,
                ),
                ProbeStep::Again => !in_review(reply) && final(self).polls < REVIEW_POLLS,
                ProbeStep::Exhausted { failure } => {
                    &&& !in_review(reply)
                    &&& final(self).polls == REVIEW_POLLS
                    &&& failure.phase == SpikePhase::Review
                    &&& failure.step@ == "projection"@
                    &&& failure.detail@
                        == "downstream projection never reached review with evidence: "@
                        + sighting(reply)
                },
            },
    {
        let (seen, reached): (String, bool) = match &reply {
            ProbeReply::Read { ok, status_text, issue_status, products } => {
                let mut out: String = status_text.clone();
                out.append(" status=");
                match issue_status {
                    Some(status) => {
                        out.append(status);
                    },
                    None => {
                        out.append("?");
                    },
                }
                out.append(" workProducts=");
                let count: usize = products.unwrap_or(0);
                out.append(&text::numeral(count as u64));
                (out, *ok && reads_as(issue_status, "in_review") && count > 0)
            },
            ProbeReply::Unreachable { reason } => (reason.clone(), false),
        };
        self.polls = self.polls + 1;
        self.last = seen.clone();
        if reached {
            ProbeStep::Reached { projection: seen }
        } else if self.polls < REVIEW_POLLS {
            ProbeStep::Again
        } else {
            let detail: String = text::joined(
                "downstream projection never reached review with evidence: ",
                &seen,
            );
            ProbeStep::Exhausted {
                failure: SpikeFailure::new(SpikePhase::Review, "projection", detail),
            }
        }
    }
}

} // verus!
