//! What the acceptance scenario checks, said of the calls it makes and of the replies it takes.
use vstd::prelude::*;
use vstd::string::*;
use crate::paperclip_spike::{
    ProbeReply, Reply, SeededState, SpikeBody, SpikeEvent, SpikeFailure, SpikePhase, SpikeScenario,
    SpikeSeed, SpikeStep,
};
use crate::text;

verus! {

/// The exit codes are the nine from 30 on: the phases of the wire first, the reconnect after them,
/// the phases of the execution last.
pub proof fn law_exit_codes_follow_one_another()
    ensures
        30 <= crate::paperclip_spike::phase_code(SpikePhase::Health)
            < crate::paperclip_spike::phase_code(SpikePhase::Registration)
            < crate::paperclip_spike::phase_code(SpikePhase::Fixture)
            < crate::paperclip_spike::phase_code(SpikePhase::Dispatch)
            < crate::paperclip_spike::phase_code(SpikePhase::Checkout)
            < crate::paperclip_spike::phase_code(SpikePhase::Reconnect)
            < crate::paperclip_spike::phase_code(SpikePhase::Attempt)
            < crate::paperclip_spike::phase_code(SpikePhase::Events)
            < crate::paperclip_spike::phase_code(SpikePhase::Review) <= 38,
{
}

/// The steps up to the lease, in order.
pub open spec fn opening() -> Seq<SpikeStep> {
    seq![
        SpikeStep::HealthAnonymous,
        SpikeStep::Health,
        SpikeStep::Grant,
        SpikeStep::Register,
        SpikeStep::GrantReplay,
        SpikeStep::SeedWorkItem,
        SpikeStep::Enqueue,
        SpikeStep::Coalesce,
        SpikeStep::Claim,
        SpikeStep::Checkout,
    ]
}

/// The steps of the execution, in order.
pub open spec fn execution() -> Seq<SpikeStep> {
    seq![
        SpikeStep::CreateAttempt,
        SpikeStep::BindRun,
        SpikeStep::MarkClaimed,
        SpikeStep::MarkDispatched,
        SpikeStep::MarkRunning,
        SpikeStep::AppendStarted,
        SpikeStep::AppendTerminated,
        SpikeStep::Finalize,
        SpikeStep::QueryActivity,
        SpikeStep::Review,
    ]
}

/// The steps of one reconnect, in order.
pub open spec fn reconnect() -> Seq<SpikeStep> {
    seq![
        SpikeStep::Regrant,
        SpikeStep::Reregister,
        SpikeStep::Reclaim,
        SpikeStep::Recheckout,
        SpikeStep::RivalCheckout,
        SpikeStep::StaleRelease,
        SpikeStep::LeasePersisted,
    ]
}

/// Each step of the opening but the last is followed by the next one, whatever the plane.
pub proof fn law_opening_is_taken_in_order(i: int, run: u8, live: bool)
    requires
        0 <= i < 9,
    ensures
        opening().len() == 10,
        crate::paperclip_spike::step_after(opening()[i], run, live) == (opening()[i + 1], run),
{
    if i == 0 {
        assert(opening()[0] == SpikeStep::HealthAnonymous && opening()[1] == SpikeStep::Health);
    }
    if i == 1 {
        assert(opening()[1] == SpikeStep::Health && opening()[2] == SpikeStep::Grant);
    }
    if i == 2 {
        assert(opening()[2] == SpikeStep::Grant && opening()[3] == SpikeStep::Register);
    }
    if i == 3 {
        assert(opening()[3] == SpikeStep::Register && opening()[4] == SpikeStep::GrantReplay);
    }
    if i == 4 {
        assert(opening()[4] == SpikeStep::GrantReplay && opening()[5] == SpikeStep::SeedWorkItem);
    }
    if i == 5 {
        assert(opening()[5] == SpikeStep::SeedWorkItem && opening()[6] == SpikeStep::Enqueue);
    }
    if i == 6 {
        assert(opening()[6] == SpikeStep::Enqueue && opening()[7] == SpikeStep::Coalesce);
    }
    if i == 7 {
        assert(opening()[7] == SpikeStep::Coalesce && opening()[8] == SpikeStep::Claim);
    }
    if i == 8 {
        assert(opening()[8] == SpikeStep::Claim && opening()[9] == SpikeStep::Checkout);
    }
}

/// Each step of the execution but the last is followed by the next one.
pub proof fn law_execution_is_taken_in_order(i: int, run: u8, live: bool)
    requires
        0 <= i < 9,
    ensures
        execution().len() == 10,
        crate::paperclip_spike::step_after(execution()[i], run, live) == (execution()[i + 1], run),
{
    if i == 0 {
        assert(execution()[0] == SpikeStep::CreateAttempt && execution()[1] == SpikeStep::BindRun);
    }
    if i == 1 {
        assert(execution()[1] == SpikeStep::BindRun && execution()[2] == SpikeStep::MarkClaimed);
    }
    if i == 2 {
        assert(execution()[2] == SpikeStep::MarkClaimed && execution()[3] == SpikeStep::MarkDispatched);
    }
    if i == 3 {
        assert(execution()[3] == SpikeStep::MarkDispatched && execution()[4] == SpikeStep::MarkRunning);
    }
    if i == 4 {
        assert(execution()[4] == SpikeStep::MarkRunning && execution()[5] == SpikeStep::AppendStarted);
    }
    if i == 5 {
        assert(execution()[5] == SpikeStep::AppendStarted && execution()[6] == SpikeStep::AppendTerminated);
    }
    if i == 6 {
        assert(execution()[6] == SpikeStep::AppendTerminated && execution()[7] == SpikeStep::Finalize);
    }
    if i == 7 {
        assert(execution()[7] == SpikeStep::Finalize && execution()[8] == SpikeStep::QueryActivity);
    }
    if i == 8 {
        assert(execution()[8] == SpikeStep::QueryActivity && execution()[9] == SpikeStep::Review);
    }
}

/// Each step of a reconnect but the last is followed by the next one, in the same run.
pub proof fn law_reconnect_is_taken_in_order(i: int, run: u8, live: bool)
    requires
        0 <= i < 6,
    ensures
        reconnect().len() == 7,
        crate::paperclip_spike::step_after(reconnect()[i], run, live) == (reconnect()[i + 1], run),
{
    if i == 0 {
        assert(reconnect()[0] == SpikeStep::Regrant && reconnect()[1] == SpikeStep::Reregister);
    }
    if i == 1 {
        assert(reconnect()[1] == SpikeStep::Reregister && reconnect()[2] == SpikeStep::Reclaim);
    }
    if i == 2 {
        assert(reconnect()[2] == SpikeStep::Reclaim && reconnect()[3] == SpikeStep::Recheckout);
    }
    if i == 3 {
        assert(reconnect()[3] == SpikeStep::Recheckout && reconnect()[4] == SpikeStep::RivalCheckout);
    }
    if i == 4 {
        assert(reconnect()[4] == SpikeStep::RivalCheckout && reconnect()[5] == SpikeStep::StaleRelease);
    }
    if i == 5 {
        assert(reconnect()[5] == SpikeStep::StaleRelease && reconnect()[6] == SpikeStep::LeasePersisted);
    }
}

/// After the opening comes the execution where the plane is real, and the reconnect where it is not;
/// the host reconnects twice, and at last comes the release and the new lease.
pub proof fn law_parts_are_taken_in_order(run: u8, live: bool)
    ensures
        crate::paperclip_spike::step_after(opening().last(), run, true) == (execution()[0], run),
        crate::paperclip_spike::step_after(opening().last(), run, false) == (reconnect()[0], 1u8),
        crate::paperclip_spike::step_after(execution().last(), run, live) == (
            reconnect()[0],
            1u8,
        ),
        crate::paperclip_spike::step_after(reconnect().last(), 1, live) == (reconnect()[0], 2u8),
        crate::paperclip_spike::step_after(reconnect().last(), 2, live) == (
            SpikeStep::Release,
            2u8,
        ),
        crate::paperclip_spike::step_after(SpikeStep::Release, run, live) == (
            SpikeStep::Reattach,
            run,
        ),
        crate::paperclip_spike::step_after(SpikeStep::Reattach, run, live) == (
            SpikeStep::Complete,
            run,
        ),
{
}

/// The phases part the steps: a look at the health, the registration by a grant, the work item, the
/// wake of it, its claim and lease, the execution, its events and its review; all the rest is the
/// reconnect.
pub proof fn law_phases_part_the_steps(step: SpikeStep)
    ensures
        ({
            let phase = crate::paperclip_spike::step_phase(step);
            &&& phase == SpikePhase::Health <==> step == opening()[0] || step == opening()[1]
            &&& phase == SpikePhase::Registration <==> step == opening()[2] || step == opening()[3]
                || step == opening()[4]
            &&& phase == SpikePhase::Fixture <==> step == opening()[5]
            &&& phase == SpikePhase::Dispatch <==> step == opening()[6] || step == opening()[7]
            &&& phase == SpikePhase::Checkout <==> step == opening()[8] || step == opening()[9]
            &&& phase == SpikePhase::Attempt <==> step == execution()[0] || step == execution()[1]
                || step == execution()[2] || step == execution()[3] || step == execution()[4]
                || step == execution()[5] || step == execution()[6] || step == execution()[7]
            &&& phase == SpikePhase::Events <==> step == execution()[8]
            &&& phase == SpikePhase::Review <==> step == execution()[9]
        }),
{
}

/// A correlation is the run's.
pub open spec fn is_of_run(run_id: Seq<char>) -> spec_fn(Option<String>) -> bool {
    |item: Option<String>| item is Some && item->0@ == run_id
}

/// The correlated items are those whose correlation is the run.
pub proof fn law_correlated_items_are_the_runs(items: Seq<Option<String>>, run_id: Seq<char>)
    ensures
        crate::paperclip_spike::correlated(items, run_id) == items.filter(is_of_run(run_id)).len(),
    decreases items.len(),
{
    reveal(Seq::filter);
    if items.len() > 0 {
        law_correlated_items_are_the_runs(items.drop_last(), run_id);
    }
}

/// A call passes only on the status that the plane owes it: without a bearer, and with a grant that
/// was consumed, it is refused as unauthorized; while the lease is held, every further claim or
/// lease and every release by another is a conflict; what creates a lease is answered as created,
/// its release without content, and all else as ordinary success.
pub proof fn law_calls_pass_on_the_owed_status(s: SpikeScenario, reply: Reply)
    requires
        crate::paperclip_spike::answers(s, SpikeEvent::Replied { reply }),
        crate::paperclip_spike::passes(s, SpikeEvent::Replied { reply }),
    ensures
        reply.status == 401 <==> s.step == SpikeStep::HealthAnonymous || s.step
            == SpikeStep::GrantReplay,
        reply.status == 409 <==> s.step == SpikeStep::Reclaim || s.step == SpikeStep::Recheckout
            || s.step == SpikeStep::RivalCheckout || s.step == SpikeStep::StaleRelease || s.step
            == SpikeStep::LeasePersisted,
        reply.status == 201 <==> s.step == SpikeStep::Checkout || s.step == SpikeStep::Reattach,
        reply.status == 204 <==> s.step == SpikeStep::Release,
        reply.status == 200 || reply.status == 201 || reply.status == 204 || reply.status == 401
            || reply.status == 409,
        s.step == SpikeStep::Health ==> reply.protocol_major is Some,
        s.step == SpikeStep::Grant || s.step == SpikeStep::Regrant ==> reply.token is Some,
        s.step == SpikeStep::Register ==> reply.agent_instance is Some && reply.agent_instance->0@
            == "ai_spike_host"@,
        s.step == SpikeStep::Enqueue ==> reply.id is Some,
        s.step == SpikeStep::Coalesce ==> reply.id is Some && reply.id->0@ == s.wake_id@
            && reply.sources == Some(2usize),
        s.step == SpikeStep::Claim ==> reply.claimed,
        s.step == SpikeStep::Finalize ==> reply.state is Some && reply.state->0@ == "succeeded"@,
        s.step == SpikeStep::QueryActivity ==> reply.correlations@.filter(
            is_of_run(s.run_id@),
        ).len() >= 2,
{
    law_correlated_items_are_the_runs(reply.correlations@, s.run_id@);
}

/// A reply with the owed status that carries what the step looks for lets it pass.
pub proof fn law_owed_replies_pass(s: SpikeScenario, reply: Reply)
    requires
        crate::paperclip_spike::expected_status(s.step) == Some(reply.status),
        reply.protocol_major is Some,
        reply.token is Some,
        reply.agent_instance is Some && reply.agent_instance->0@ == "ai_spike_host"@,
        reply.id is Some && reply.id->0@ == s.wake_id@,
        reply.sources == Some(2usize),
        reply.claimed,
        reply.state is Some && reply.state->0@ == "succeeded"@,
        reply.correlations@.filter(is_of_run(s.run_id@)).len() >= 2,
    ensures
        crate::paperclip_spike::passes(s, SpikeEvent::Replied { reply }),
{
    law_correlated_items_are_the_runs(reply.correlations@, s.run_id@);
}

/// Every step but the last is answered by exactly one kind of event: a reply of the plane, a seeded
/// record, or the end of the review. A seeded record that was refused and a probe that failed do
/// not let it pass.
pub proof fn law_every_step_has_its_event(
    s: SpikeScenario,
    reply: Reply,
    refusal: Option<String>,
    outcome: Result<String, SpikeFailure>,
)
    ensures
        s.step == SpikeStep::SeedWorkItem || s.step == SpikeStep::CreateAttempt || s.step
            == SpikeStep::MarkClaimed || s.step == SpikeStep::MarkDispatched || s.step
            == SpikeStep::MarkRunning || s.step == SpikeStep::AppendStarted || s.step
            == SpikeStep::AppendTerminated <==> crate::paperclip_spike::answers(
            s,
            SpikeEvent::Seeded { refusal },
        ),
        s.step == SpikeStep::Review && s.downstream <==> crate::paperclip_spike::answers(
            s,
            SpikeEvent::Probed { outcome },
        ),
        s.step == SpikeStep::Review && !s.downstream <==> crate::paperclip_spike::answers(
            s,
            SpikeEvent::Skipped,
        ),
        crate::paperclip_spike::answers(s, SpikeEvent::Replied { reply }) <==> s.step
            != SpikeStep::Complete && s.step != SpikeStep::Review
            && !crate::paperclip_spike::answers(s, SpikeEvent::Seeded { refusal }),
        crate::paperclip_spike::passes(s, SpikeEvent::Seeded { refusal }) <==> refusal is None,
        crate::paperclip_spike::passes(s, SpikeEvent::Probed { outcome }) <==> outcome is Ok,
        crate::paperclip_spike::passes(s, SpikeEvent::Skipped),
{
}

/// What a reply gave is what the later calls carry: the token of the last grant and the protocol
/// version of the health reply make the registration, and the wake of the first source is the one
/// that the second must join. Nothing else of the scenario changes, and no other step changes these.
pub proof fn law_replies_are_remembered(
    before: SpikeScenario,
    event: SpikeEvent,
    after: SpikeScenario,
)
    requires
        crate::paperclip_spike::moved_on(before, event, after),
    ensures
        after.live == before.live,
        after.downstream == before.downstream,
        after.run_id == before.run_id,
        before.step == SpikeStep::Health && event is Replied ==> after.protocol_major
            == event->Replied_reply.protocol_major->0 as u16,
        before.step == SpikeStep::Grant && event is Replied ==> after.grant
            == event->Replied_reply.token->0,
        before.step == SpikeStep::Regrant && event is Replied ==> after.grant
            == event->Replied_reply.token->0,
        before.step == SpikeStep::Enqueue && event is Replied ==> after.wake_id
            == event->Replied_reply.id->0,
        before.step != SpikeStep::Health ==> after.protocol_major == before.protocol_major,
        before.step != SpikeStep::Grant && before.step != SpikeStep::Regrant ==> after.grant
            == before.grant,
        before.step != SpikeStep::Enqueue ==> after.wake_id == before.wake_id,
{
}

/// A host registers with the grant it was just given, and a consumed grant is replayed as it was.
pub proof fn law_hosts_register_with_their_grant(
    before: SpikeScenario,
    reply: Reply,
    after: SpikeScenario,
    body: SpikeBody,
)
    requires
        before.step == SpikeStep::Grant || before.step == SpikeStep::Regrant,
        crate::paperclip_spike::moved_on(before, SpikeEvent::Replied { reply }, after),
        crate::paperclip_spike::is_body_of(body, after),
    ensures
        body is Registration,
        body->Registration_grant == reply.token->0,
        body->Registration_protocol_major == before.protocol_major,
{
}

/// A consumed grant is replayed as it was registered.
pub proof fn law_grants_are_replayed_as_they_were(
    before: SpikeScenario,
    event: SpikeEvent,
    after: SpikeScenario,
    first: SpikeBody,
    again: SpikeBody,
)
    requires
        before.step == SpikeStep::Register,
        crate::paperclip_spike::is_body_of(first, before),
        crate::paperclip_spike::moved_on(before, event, after),
        crate::paperclip_spike::is_body_of(again, after),
    ensures
        after.step == SpikeStep::GrantReplay,
        again == first,
        first is Registration,
{
}

/// The leases that the scenario asks for: the first, the one repeated and the one by which the
/// persistence is shown are the same; the rival is another owner for another attempt, and the one
/// after the recovery is the same owner for a new attempt. All are asked for by one path.
pub proof fn law_leases_are_told_apart(s: SpikeScenario, body: SpikeBody)
    requires
        crate::paperclip_spike::is_body_of(body, s),
    ensures
        s.step == SpikeStep::Checkout || s.step == SpikeStep::Recheckout || s.step
            == SpikeStep::LeasePersisted ==> body is Lease && body->Lease_owner@
            == "ai_spike_host"@ && body->Lease_attempt@ == "att_spike_1"@,
        s.step == SpikeStep::RivalCheckout ==> body is Lease && body->Lease_owner@
            == "ai_spike_rival"@ && body->Lease_attempt@ == "att_spike_rival"@,
        s.step == SpikeStep::Reattach ==> body is Lease && body->Lease_owner@ == "ai_spike_host"@
            && body->Lease_attempt@ == "att_spike_2"@,
        s.step == SpikeStep::StaleRelease ==> body is Release && body->Release_attempt@
            == "att_spike_stale"@,
        s.step == SpikeStep::Release ==> body is Release && body->Release_attempt@
            == "att_spike_1"@,
        s.step == SpikeStep::Checkout || s.step == SpikeStep::Recheckout || s.step
            == SpikeStep::LeasePersisted || s.step == SpikeStep::RivalCheckout || s.step
            == SpikeStep::Reattach ==> body->Lease_now < body->Lease_expires_at && body->Lease_now
            == 1_786_060_000 && body->Lease_expires_at == 4_102_444_800
            && crate::paperclip_spike::call_path(s.step) == "/v1/work-checkouts"@,
        s.step == SpikeStep::StaleRelease || s.step == SpikeStep::Release
            ==> crate::paperclip_spike::call_path(s.step) == "/v1/work-checkouts/release"@,
{
}

/// The two sources wake the same work item at the same time by one path, and differ in their name;
/// the wake is claimed by its own path, and claimed again a second later.
pub proof fn law_wakes_are_told_apart(s: SpikeScenario, body: SpikeBody)
    requires
        crate::paperclip_spike::is_body_of(body, s),
    ensures
        s.step == SpikeStep::Enqueue || s.step == SpikeStep::Coalesce ==> body is Wake
            && body->requested_at@ == "2026-08-16T00:00:00Z"@ && body->Wake_source@ == (if s.step
            == SpikeStep::Enqueue {
            "manual"@
        } else {
            "comment"@
        }) && crate::paperclip_spike::call_path(s.step) == "/v1/wakes"@,
        s.step == SpikeStep::Claim || s.step == SpikeStep::Reclaim ==> body is Claim
            && body->claimed_at@ == (if s.step == SpikeStep::Claim {
            "2026-08-16T00:00:01Z"@
        } else {
            "2026-08-16T00:00:02Z"@
        }) && crate::paperclip_spike::call_path(s.step) == "/v1/wakes/"@ + "wi_spike_fixture"@
            + "/claim"@,
{
}

/// The run is bound, finalized and queried as the scenario's own: by its name, under the version
/// that the health reply gave, after it was bound.
pub proof fn law_the_run_is_the_scenarios(s: SpikeScenario, body: SpikeBody)
    requires
        crate::paperclip_spike::is_body_of(body, s),
    ensures
        s.step == SpikeStep::BindRun ==> body is RunBinding && body->run_id == s.run_id
            && body->bound_at == 1_786_060_100 && crate::paperclip_spike::call_path(s.step)
            == "/v1/runtime/run-bindings"@,
        s.step == SpikeStep::Finalize ==> body is Finalize && body->outcome@ == "succeeded"@
            && body->observed_at == 1_786_060_200 && crate::paperclip_spike::call_path(s.step)
            == "/v1/runtime/attempts/"@ + "att_spike_1"@ + "/finalize"@,
        s.step == SpikeStep::QueryActivity ==> body is ActivityQuery
            && body->ActivityQuery_protocol_major == s.protocol_major && body->organization@
            == "spike"@ && body->component@ == "paperclip-spike"@ && body->request_id@
            == "spike-query-1"@ && body->limit == 50 && crate::paperclip_spike::call_path(s.step)
            == "/v1/protocol/commands"@,
        s.step == SpikeStep::HealthAnonymous || s.step == SpikeStep::Health ==> body is Empty
            && crate::paperclip_spike::call_path(s.step) == "/v1/health"@,
        s.step == SpikeStep::Grant || s.step == SpikeStep::Regrant ==> body is Empty
            && crate::paperclip_spike::call_path(s.step) == "/v1/registration-grants"@,
        s.step == SpikeStep::Register || s.step == SpikeStep::GrantReplay || s.step
            == SpikeStep::Reregister ==> crate::paperclip_spike::call_path(s.step)
            == "/v1/hosts/register"@,
{
}

/// The bearer is left out exactly at the first look at the health and where a grant stands for it.
pub proof fn law_the_grant_stands_for_the_bearer(s: SpikeScenario, body: SpikeBody)
    requires
        crate::paperclip_spike::is_body_of(body, s),
        crate::paperclip_spike::is_call(s.step),
    ensures
        crate::paperclip_spike::is_anonymous(s.step) <==> s.step == SpikeStep::HealthAnonymous
            || body is Registration,
{
}

/// The attempt goes through its states in order and in time: created, claimed, dispatched, running;
/// the two audit events of the run have names of their own and are correlated with it.
pub proof fn law_attempt_goes_through_its_states(s: SpikeScenario, seed: SpikeSeed)
    requires
        crate::paperclip_spike::is_seed(s.step),
        crate::paperclip_spike::is_seed_of(seed, s),
    ensures
        s.step == SpikeStep::SeedWorkItem ==> seed is WorkItem && seed->WorkItem_work_item@
            == "wi_spike_fixture"@,
        s.step == SpikeStep::CreateAttempt ==> seed is Attempt && seed->Attempt_attempt@
            == "att_spike_1"@ && seed->Attempt_work_item@ == "wi_spike_fixture"@ && seed->owner@
            == "ai_spike_host"@ && seed->profile_revision@ == "spike"@ && seed->Attempt_state
            == SeededState::Created && seed->Attempt_at == 1_786_060_050,
        s.step == SpikeStep::MarkClaimed || s.step == SpikeStep::MarkDispatched || s.step
            == SpikeStep::MarkRunning ==> seed is Transition && seed->Transition_attempt@
            == "att_spike_1"@ && seed->Transition_at > 1_786_060_100,
        s.step == SpikeStep::MarkClaimed ==> seed->Transition_state == SeededState::Claimed
            && seed->Transition_at == 1_786_060_110,
        s.step == SpikeStep::MarkDispatched ==> seed->Transition_state == SeededState::Dispatched
            && seed->Transition_at == 1_786_060_120,
        s.step == SpikeStep::MarkRunning ==> seed->Transition_state == SeededState::Running
            && seed->Transition_at == 1_786_060_130,
        s.step == SpikeStep::AppendStarted ==> seed is Activity && seed->sequence == 0
            && seed->correlation_id == s.run_id,
        s.step == SpikeStep::AppendTerminated ==> seed is Activity && seed->sequence == 1
            && seed->correlation_id == s.run_id,
        seed is Activity ==> seed->timestamp@ == "2026-08-16T00:01:00Z"@ && seed->event_id@
            == "evt_spike_"@ + "att_spike_1"@ + "_"@ + text::decimal(seed->sequence as nat),
{
}

/// A step fails in its own phase and under its own name; a probe that failed, as it failed. A
/// wrong status is told with the words of the reply, and a seeded record that was refused with the
/// refusal, but for the work item.
pub proof fn law_failures_name_their_step(
    s: SpikeScenario,
    event: SpikeEvent,
    failure: SpikeFailure,
)
    requires
        crate::paperclip_spike::answers(s, event),
        !crate::paperclip_spike::passes(s, event),
        crate::paperclip_spike::fails_as(s, event, failure),
    ensures
        event is Probed ==> event->outcome == Err::<String, SpikeFailure>(failure),
        !(event is Probed) ==> failure.phase == crate::paperclip_spike::step_phase(s.step)
            && failure.step@ == crate::paperclip_spike::step_name(s.step),
        event is Seeded && s.step != SpikeStep::SeedWorkItem ==> failure.detail@
            == event->refusal->0@,
        event is Seeded && s.step == SpikeStep::SeedWorkItem ==> failure.detail@
            == "registration rejected"@,
        event is Replied && Some(event->Replied_reply.status)
            != crate::paperclip_spike::expected_status(s.step) && s.step
            != SpikeStep::HealthAnonymous && s.step != SpikeStep::LeasePersisted ==> ends_with(
            failure.detail@,
            event->Replied_reply.status_text@ + ": "@ + event->Replied_reply.body_text@,
        ),
        event is Replied && Some(event->Replied_reply.status)
            != crate::paperclip_spike::expected_status(s.step) && s.step
            == SpikeStep::HealthAnonymous ==> ends_with(
            failure.detail@,
            event->Replied_reply.status_text@,
        ),
        event is Replied && Some(event->Replied_reply.status)
            != crate::paperclip_spike::expected_status(s.step) && s.step
            == SpikeStep::LeasePersisted ==> ends_with(
            failure.detail@,
            event->Replied_reply.status_text@ + " "@ + event->Replied_reply.body_text@,
        ),
{
    if let SpikeEvent::Replied { reply } = event {
        let words = reply.status_text@ + ": "@ + reply.body_text@;
        let told = failure.detail@;
        if Some(reply.status) != crate::paperclip_spike::expected_status(s.step) {
            if s.step == SpikeStep::HealthAnonymous {
                lemma_ends(
                    told,
                    "expected 401 without bootstrap bearer, got "@,
                    reply.status_text@,
                );
            } else if s.step == SpikeStep::LeasePersisted {
                let lead = "run "@ + text::decimal(s.run as nat)
                    + ": lease did not persist across reconnect: "@;
                let tail = reply.status_text@ + " "@ + reply.body_text@;
                assert(told =~= lead + tail);
                lemma_ends(told, lead, tail);
            } else if s.step == SpikeStep::GrantReplay {
                let lead = "expected 401 replaying consumed grant, got "@;
                assert(told =~= lead + words);
                lemma_ends(told, lead, words);
            } else if s.step == SpikeStep::Reclaim {
                let lead = "run "@ + text::decimal(s.run as nat)
                    + ": re-claim expected 409 AlreadyClaimed, got "@;
                assert(told =~= lead + words);
                lemma_ends(told, lead, words);
            } else if s.step == SpikeStep::Recheckout {
                let lead = "run "@ + text::decimal(s.run as nat)
                    + ": same-lease re-checkout expected 409, got "@;
                assert(told =~= lead + words);
                lemma_ends(told, lead, words);
            } else if s.step == SpikeStep::RivalCheckout {
                let lead = "run "@ + text::decimal(s.run as nat)
                    + ": rival lease expected 409, got "@;
                assert(told =~= lead + words);
                lemma_ends(told, lead, words);
            } else if s.step == SpikeStep::StaleRelease {
                let lead = "run "@ + text::decimal(s.run as nat)
                    + ": stale finalizer expected 409, got "@;
                assert(told =~= lead + words);
                lemma_ends(told, lead, words);
            } else {
                let lead = "expected "@ + crate::paperclip_spike::status_line(
                    crate::paperclip_spike::expected_status(s.step)->0,
                ) + ", got "@;
                assert(told =~= lead + words);
                lemma_ends(told, lead, words);
            }
        }
    }
}

/// The text ends with the other.
pub open spec fn ends_with(all: Seq<char>, tail: Seq<char>) -> bool {
    all.len() >= tail.len() && all.skip(all.len() - tail.len()) == tail
}

/// What was put together of a lead and a tail ends with the tail.
proof fn lemma_ends(all: Seq<char>, lead: Seq<char>, tail: Seq<char>)
    requires
        all == lead + tail,
    ensures
        ends_with(all, tail),
{
    assert(all.skip(all.len() - tail.len()) =~= tail);
}

/// What is not reported of the steps that pass are the looks and the transitions in between.
pub proof fn law_passed_steps_are_reported(s: SpikeScenario, event: SpikeEvent)
    requires
        crate::paperclip_spike::answers(s, event),
        crate::paperclip_spike::passes(s, event),
    ensures
        crate::paperclip_spike::report(s, event) is None <==> s.step == SpikeStep::HealthAnonymous
            || s.step == SpikeStep::CreateAttempt || s.step == SpikeStep::MarkClaimed || s.step
            == SpikeStep::MarkDispatched || s.step == SpikeStep::MarkRunning || s.step
            == SpikeStep::AppendStarted || s.step == SpikeStep::Regrant || s.step
            == SpikeStep::Reregister || s.step == SpikeStep::Reclaim || s.step
            == SpikeStep::Recheckout || s.step == SpikeStep::RivalCheckout || s.step
            == SpikeStep::StaleRelease,
{
}

/// A passed step is reported under its own name, but for the last audit event and the end of a
/// reconnect, and with what the reply said.
pub proof fn law_reports_say_what_passed(
    s: SpikeScenario,
    event: SpikeEvent,
    name: Seq<char>,
    detail: Seq<char>,
)
    requires
        crate::paperclip_spike::answers(s, event),
        crate::paperclip_spike::passes(s, event),
        crate::paperclip_spike::report(s, event) == Some((name, detail)),
    ensures
        s.step != SpikeStep::AppendTerminated && s.step != SpikeStep::LeasePersisted ==> name
            == crate::paperclip_spike::step_name(s.step),
        s.step == SpikeStep::AppendTerminated ==> name == "attempt-events"@,
        s.step == SpikeStep::LeasePersisted ==> name == "reconnect"@ && detail == "run "@
            + text::decimal(s.run as nat)
            + ": no double fire, lease intact, stale finalizer rejected"@,
        s.step == SpikeStep::Enqueue ==> detail == "wake "@ + event->Replied_reply.id->0@
            + " enqueued"@,
        s.step == SpikeStep::BindRun ==> detail == "run "@ + s.run_id@ + " bound to "@
            + "att_spike_1"@,
        s.step == SpikeStep::QueryActivity ==> detail == text::decimal(
            event->Replied_reply.correlations@.filter(is_of_run(s.run_id@)).len(),
        ) + " translated events observed over the framed wire (035)"@,
        s.step == SpikeStep::Review && s.downstream ==> detail
            == "downstream projection reached review: "@ + event->outcome->Ok_0@,
        s.step == SpikeStep::Health && event->Replied_reply.service_version is Some ==> detail
            == "service "@ + event->Replied_reply.service_version->0@ + " protocol v"@
            + text::decimal((event->Replied_reply.protocol_major->0 as u16) as nat),
{
    if let SpikeEvent::Replied { reply } = event {
        law_correlated_items_are_the_runs(reply.correlations@, s.run_id@);
    }
}

/// The review is reached by an issue that was read well, is in review and has a work product, and by
/// nothing else.
pub proof fn law_review_needs_evidence(reply: ProbeReply)
    ensures
        crate::paperclip_spike::in_review(reply) <==> reply is Read && reply->ok
            && reply->issue_status is Some && reply->issue_status->0@ == "in_review"@
            && reply->products is Some && reply->products->0 > 0,
        reply is Unreachable ==> crate::paperclip_spike::sighting(reply) == reply->reason@,
        reply is Read && reply->issue_status is Some && reply->products is Some
            ==> crate::paperclip_spike::sighting(reply) == reply->status_text@ + " status="@
            + reply->issue_status->0@ + " workProducts="@ + text::decimal(
            reply->products->0 as nat,
        ),
{
}

/// A phase is named by its own word.
pub proof fn law_phases_are_named(phase: SpikePhase)
    ensures
        crate::paperclip_spike::phase_label(phase) == (match phase {
            SpikePhase::Reconnect => "reconnect"@,
            SpikePhase::Review => "review"@,
            SpikePhase::Events => "events"@,
            SpikePhase::Attempt => "attempt"@,
            SpikePhase::Checkout => "checkout"@,
            SpikePhase::Dispatch => "dispatch"@,
            SpikePhase::Fixture => "fixture"@,
            SpikePhase::Registration => "registration"@,
            SpikePhase::Health => "health"@,
        }),
{
}

/// A reply that lacks what the step looks for is told with its body, but where only a field is
/// missing; the missing events of a run are told by their number.
pub proof fn law_lacking_replies_are_told(s: SpikeScenario, reply: Reply)
    ensures
        ({
            let told = crate::paperclip_spike::wrong_body_detail(s, reply);
            &&& s.step == SpikeStep::Register ==> told == "plane did not echo agent_instance_id: "@
                + reply.body_text@
            &&& s.step == SpikeStep::Coalesce ==> told
                == "second source did not coalesce into one wake: "@ + reply.body_text@
            &&& s.step == SpikeStep::Claim ==> told == "claim did not stamp claimed_at: "@
                + reply.body_text@
            &&& s.step == SpikeStep::Finalize ==> told
                == "attempt did not finalize as succeeded: "@ + reply.body_text@
            &&& s.step == SpikeStep::QueryActivity ==> told
                == "expected the translated run events over the wire, found "@ + text::decimal(
                reply.correlations@.filter(is_of_run(s.run_id@)).len(),
            ) + ": "@ + reply.body_text@
            &&& s.step == SpikeStep::Health ==> told == "response missing protocol_major"@
            &&& s.step == SpikeStep::Grant ==> told == "response missing token"@
            &&& s.step == SpikeStep::Regrant ==> told == "missing token"@
            &&& s.step == SpikeStep::Enqueue ==> told == "wake response missing id"@
        }),
{
    law_correlated_items_are_the_runs(reply.correlations@, s.run_id@);
}

} // verus!
