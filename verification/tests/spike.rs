use altai_control::paperclip_spike::{
    event_summary, expect, fault_failure, new_bootstrap_token, progress_line, serving_record,
    Advance, DownstreamPlane, ProbeReply, ProbeStep, Reply, ReviewProbe, SeededState, SpikeBody,
    SpikeEvent, SpikeFailure, SpikeFault, SpikeMode, SpikePhase, SpikeScenario, SpikeSeed, SpikeStep, TranslatedEvent,
    REVIEW_POLLS, SKIPPED_REVIEW,
};

fn reply(status: u16) -> Reply {
    Reply {
        status,
        status_text: status.to_string(),
        body_text: "{}".to_string(),
        protocol_major: Some(1),
        service_version: Some("0.1.0".to_string()),
        token: Some("grant-1".to_string()),
        agent_instance: Some("ai_spike_host".to_string()),
        id: Some("wake-1".to_string()),
        sources: Some(2),
        claimed: true,
        state: Some("succeeded".to_string()),
        correlations: vec![Some("run-1".to_string()), None, Some("run-1".to_string())],
    }
}

/// What a healthy plane answers to a step.
fn healthy(scenario: &SpikeScenario) -> SpikeEvent {
    match scenario.step.status() {
        Some(status) => SpikeEvent::Replied { reply: reply(status) },
        None => {
            if scenario.probes() {
                SpikeEvent::Probed { outcome: Ok("in_review".to_string()) }
            } else if scenario.skips() {
                SpikeEvent::Skipped
            } else {
                SpikeEvent::Seeded { refusal: None }
            }
        }
    }
}

fn advance_to(scenario: &mut SpikeScenario, step: SpikeStep) {
    while scenario.step != step {
        let event = healthy(scenario);
        assert!(!matches!(scenario.advance(event).unwrap(), Advance::Unexpected));
    }
}

fn live_scenario() -> SpikeScenario {
    let mode = SpikeMode::Real { bind: None, downstream: None, bootstrap_token: None };
    SpikeScenario::new(&mode, "run-1".to_string())
}

#[test]
fn phases_have_distinct_exit_codes() {
    let codes = [
        SpikePhase::Health.exit_code(),
        SpikePhase::Registration.exit_code(),
        SpikePhase::Fixture.exit_code(),
        SpikePhase::Dispatch.exit_code(),
        SpikePhase::Checkout.exit_code(),
        SpikePhase::Attempt.exit_code(),
        SpikePhase::Events.exit_code(),
        SpikePhase::Review.exit_code(),
        SpikePhase::Reconnect.exit_code(),
    ];
    let mut seen = std::collections::HashSet::new();
    for code in codes {
        assert!(code > 10, "spike codes must not collide with run codes");
        assert!(seen.insert(code), "duplicate spike exit code {code}");
    }
}

#[test]
fn a_healthy_stub_plane_is_walked_to_the_end() {
    let mut scenario = SpikeScenario::new(&SpikeMode::Stub, "run-1".to_string());
    let mut reported: Vec<String> = Vec::new();
    let mut steps: usize = 0;
    while scenario.step != SpikeStep::Complete {
        let event = healthy(&scenario);
        if let Advance::Recorded { record } = scenario.advance(event).unwrap() {
            reported.push(record.step.to_string());
        }
        steps += 1;
    }
    assert_eq!(steps, 26);
    assert_eq!(
        reported.iter().filter(|step| step.as_str() == "reconnect").count(),
        2,
        "the host reconnects twice"
    );
    assert!(!reported.iter().any(|step| step == "bind-run"));
}

#[test]
fn a_healthy_real_plane_runs_the_execution_phases() {
    let mut scenario = live_scenario();
    advance_to(&mut scenario, SpikeStep::Review);
    let event = healthy(&scenario);
    match scenario.advance(event).unwrap() {
        Advance::Recorded { record } => assert_eq!(record.detail, SKIPPED_REVIEW),
        _ => panic!("the review is reported"),
    }
    advance_to(&mut scenario, SpikeStep::Complete);
    assert!(matches!(
        scenario.advance(SpikeEvent::Seeded { refusal: None }).unwrap(),
        Advance::Unexpected
    ));
}

#[test]
fn a_wrong_status_names_the_broken_link() {
    let mut scenario = live_scenario();
    let failure =
        scenario.advance(SpikeEvent::Replied { reply: reply(200) }).err().expect("not anonymous");
    assert_eq!(
        failure.to_text(),
        "[health] health-anonymous: expected 401 without bootstrap bearer, got 200"
    );

    let mut scenario = live_scenario();
    advance_to(&mut scenario, SpikeStep::Checkout);
    let failure =
        scenario.advance(SpikeEvent::Replied { reply: reply(409) }).err().expect("no lease");
    assert_eq!(failure.to_text(), "[checkout] checkout: expected 201 Created, got 409: {}");

    let mut scenario = live_scenario();
    advance_to(&mut scenario, SpikeStep::StaleRelease);
    let failure =
        scenario.advance(SpikeEvent::Replied { reply: reply(204) }).err().expect("stale");
    assert_eq!(
        failure.to_text(),
        "[reconnect] stale-release: run 1: stale finalizer expected 409, got 204: {}"
    );
}

#[test]
fn a_reply_must_carry_what_the_step_needs() {
    let mut scenario = live_scenario();
    advance_to(&mut scenario, SpikeStep::Coalesce);
    let mut split = reply(200);
    split.sources = Some(1);
    let failure = scenario.advance(SpikeEvent::Replied { reply: split }).err().expect("split");
    assert_eq!(
        failure.to_text(),
        "[dispatch] coalesce: second source did not coalesce into one wake: {}"
    );

    let mut scenario = live_scenario();
    advance_to(&mut scenario, SpikeStep::QueryActivity);
    let mut few = reply(200);
    few.correlations = vec![Some("run-1".to_string()), Some("run-2".to_string())];
    let failure = scenario.advance(SpikeEvent::Replied { reply: few }).err().expect("too few");
    assert_eq!(
        failure.to_text(),
        "[events] query-activity: expected the translated run events over the wire, found 1: {}"
    );

    let mut scenario = live_scenario();
    advance_to(&mut scenario, SpikeStep::SeedWorkItem);
    let refused = SpikeEvent::Seeded { refusal: Some("taken".to_string()) };
    let failure = scenario.advance(refused).err().expect("refused");
    assert_eq!(failure.to_text(), "[fixture] work-item: registration rejected");
    assert_eq!(scenario.step, SpikeStep::SeedWorkItem);
}

#[test]
fn an_event_for_another_step_changes_nothing() {
    let mut scenario = live_scenario();
    assert!(matches!(
        scenario.advance(SpikeEvent::Seeded { refusal: None }).unwrap(),
        Advance::Unexpected
    ));
    assert_eq!(scenario.step, SpikeStep::HealthAnonymous);
}

#[test]
fn the_steps_call_the_wire_as_scripted() {
    let mut scenario = live_scenario();
    let call = scenario.call().unwrap();
    assert_eq!((call.post, call.path.as_str(), call.authorized), (false, "/v1/health", false));
    advance_to(&mut scenario, SpikeStep::Register);
    let call = scenario.call().unwrap();
    assert_eq!(call.path, "/v1/hosts/register");
    assert!(!call.authorized);
    assert!(matches!(
        call.body,
        SpikeBody::Registration { grant, protocol_major: 1 } if grant == "grant-1"
    ));
    advance_to(&mut scenario, SpikeStep::Claim);
    let call = scenario.call().unwrap();
    assert_eq!(call.path, "/v1/wakes/wi_spike_fixture/claim");
    assert!(call.post && call.authorized);
    advance_to(&mut scenario, SpikeStep::CreateAttempt);
    assert!(scenario.call().is_none());
    advance_to(&mut scenario, SpikeStep::Finalize);
    assert_eq!(scenario.call().unwrap().path, "/v1/runtime/attempts/att_spike_1/finalize");
}

#[test]
fn an_ordinary_success_is_expected_by_its_status() {
    assert!(expect(SpikePhase::Health, "health", 200, "200 OK", reply(200)).is_ok());
    let failure = expect(SpikePhase::Reconnect, "release", 204, "204 No Content", reply(500))
        .err()
        .unwrap();
    assert_eq!(failure.to_text(), "[reconnect] release: expected 204 No Content, got 500: {}");
}

#[test]
fn the_review_probe_needs_evidence_and_has_a_budget() {
    let plane = DownstreamPlane {
        base_url: "http://plane//".to_string(),
        issue_id: "ISS-1".to_string(),
    };
    assert_eq!(ReviewProbe::address(&plane), "http://plane/api/issues/ISS-1");
    let seen = |status: &str, products: usize| ProbeReply::Read {
        ok: true,
        status_text: "200 OK".to_string(),
        issue_status: Some(status.to_string()),
        products: Some(products),
    };
    let mut probe = ReviewProbe::new();
    assert!(matches!(probe.observe(seen("in_review", 0)), ProbeStep::Again));
    assert!(matches!(probe.observe(seen("todo", 1)), ProbeStep::Again));
    match probe.observe(seen("in_review", 1)) {
        ProbeStep::Reached { projection } => {
            assert_eq!(projection, "200 OK status=in_review workProducts=1")
        }
        _ => panic!("the projection reached review"),
    }
    let mut probe = ReviewProbe::new();
    let mut last: Option<SpikeFailure> = None;
    while probe.polls < REVIEW_POLLS {
        let unreachable = ProbeReply::Unreachable { reason: "refused".to_string() };
        if let ProbeStep::Exhausted { failure } = probe.observe(unreachable) {
            last = Some(failure);
        }
    }
    assert_eq!(
        last.unwrap().to_text(),
        "[review] projection: downstream projection never reached review with evidence: refused"
    );
}

#[test]
fn the_review_is_probed_exactly_where_a_plane_is_named() {
    let failed = || SpikeEvent::Probed {
        outcome: Err(SpikeFailure::new(SpikePhase::Review, "projection", "refused".to_string())),
    };
    let mut alone = live_scenario();
    advance_to(&mut alone, SpikeStep::Review);
    assert!(alone.skips() && !alone.probes());
    assert!(matches!(alone.advance(failed()), Ok(Advance::Unexpected)));
    assert!(matches!(
        alone.advance(SpikeEvent::Skipped),
        Ok(Advance::Recorded { record }) if record.detail == SKIPPED_REVIEW
    ));

    let downstream = DownstreamPlane {
        base_url: "http://plane".to_string(),
        issue_id: "ISS-1".to_string(),
    };
    let mode =
        SpikeMode::Real { bind: None, downstream: Some(downstream), bootstrap_token: None };
    let mut named = SpikeScenario::new(&mode, "run-1".to_string());
    assert!(!named.probes() && !named.skips());
    advance_to(&mut named, SpikeStep::Review);
    assert!(named.probes() && !named.skips());
    assert!(matches!(named.advance(SpikeEvent::Skipped), Ok(Advance::Unexpected)));
    assert!(named.advance(failed()).is_err());
    let reached = SpikeEvent::Probed { outcome: Ok("in_review".to_string()) };
    assert!(matches!(
        named.advance(reached),
        Ok(Advance::Recorded { record })
            if record.detail == "downstream projection reached review: in_review"
    ));
}

#[test]
fn the_steps_seed_what_the_wire_does_not_serve() {
    let mut scenario = live_scenario();
    assert!(scenario.seed().is_none());
    advance_to(&mut scenario, SpikeStep::SeedWorkItem);
    assert!(matches!(
        scenario.seed(),
        Some(SpikeSeed::WorkItem { work_item: "wi_spike_fixture" })
    ));
    advance_to(&mut scenario, SpikeStep::CreateAttempt);
    assert!(matches!(
        scenario.seed(),
        Some(SpikeSeed::Attempt {
            attempt: "att_spike_1",
            owner: "ai_spike_host",
            state: SeededState::Created,
            at: 1_786_060_050,
            ..
        })
    ));
    advance_to(&mut scenario, SpikeStep::MarkRunning);
    assert!(matches!(
        scenario.seed(),
        Some(SpikeSeed::Transition { state: SeededState::Running, at: 1_786_060_130, .. })
    ));
    advance_to(&mut scenario, SpikeStep::AppendTerminated);
    match scenario.seed() {
        Some(SpikeSeed::Activity { event_id, sequence, correlation_id, .. }) => {
            assert_eq!(event_id, "evt_spike_att_spike_1_1");
            assert_eq!(sequence, 1);
            assert_eq!(correlation_id, "run-1");
        }
        _ => panic!("an audit event is appended"),
    }
}

#[test]
fn the_leases_and_queries_carry_their_scripted_values() {
    let mut scenario = live_scenario();
    advance_to(&mut scenario, SpikeStep::RivalCheckout);
    assert!(matches!(
        scenario.call().unwrap().body,
        SpikeBody::Lease {
            owner: "ai_spike_rival",
            attempt: "att_spike_rival",
            expires_at: 4_102_444_800,
            now: 1_786_060_000,
        }
    ));
    let mut scenario = live_scenario();
    advance_to(&mut scenario, SpikeStep::QueryActivity);
    assert!(matches!(
        scenario.call().unwrap().body,
        SpikeBody::ActivityQuery { protocol_major: 1, organization: "spike", limit: 50, .. }
    ));
}

#[test]
fn translated_events_are_summarized() {
    let started = TranslatedEvent::RunStarted { run_id: "r1".to_string() };
    assert_eq!(event_summary(&started), "run r1 started");
    let ended = TranslatedEvent::RunTerminated {
        run_id: "r1".to_string(),
        outcome: "completed".to_string(),
    };
    assert_eq!(event_summary(&ended), "run r1 terminated: completed");
    let other = TranslatedEvent::Other { shown: "Heartbeat".to_string() };
    assert_eq!(event_summary(&other), "Heartbeat");
}

#[test]
fn faults_below_the_scenario_are_typed() {
    let failure = fault_failure(SpikeFault::AttemptsDatabase, "locked".to_string());
    assert_eq!(failure.to_text(), "[health] attempts-db: locked");
    let failure = fault_failure(SpikeFault::ProbeBody, "cut off".to_string());
    assert_eq!(failure.to_text(), "[review] probe-body: cut off");
}

#[test]
fn the_scenario_prints_its_progress_and_its_verdict() {
    let record = serving_record("127.0.0.1:4000");
    assert_eq!(
        progress_line(&record),
        "paperclip-spike: serve: control plane serving real HTTP on http://127.0.0.1:4000"
    );
    let mut scenario = live_scenario();
    assert!(scenario.verdict().is_none());
    advance_to(&mut scenario, SpikeStep::Complete);
    assert_eq!(scenario.verdict(), Some("paperclip-spike: PASS (real plane)"));
    let mut scenario = SpikeScenario::new(&SpikeMode::Stub, "run-1".to_string());
    advance_to(&mut scenario, SpikeStep::Complete);
    assert_eq!(scenario.verdict(), Some("paperclip-spike: PASS (stub plane)"));
}

#[test]
fn bootstrap_tokens_are_fresh() {
    let token = new_bootstrap_token();
    assert!(token.starts_with("bootstrap_"));
    assert_eq!(token.len(), 46);
    assert_eq!(&token[24..25], "4");
    assert_eq!(&token[18..19], "-");
    assert_ne!(token, new_bootstrap_token());
}
