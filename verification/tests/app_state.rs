use happy_wakey::app_state::{
    AppMachine, AuthPhase, Event, Lane, LanePhase, OnboardingStep, OperationToken, Provider,
    RejectReason, TransitionOutcome,
};
use std::collections::{HashSet, VecDeque};

fn ready_machine(signed_in: bool) -> AppMachine {
    let mut machine = AppMachine::new(signed_in, OnboardingStep::Welcome);
    assert_eq!(
        machine.dispatch(Event::StartupCompleted),
        TransitionOutcome::Applied(None)
    );
    machine
}

#[test]
fn stale_login_cannot_resurrect_session_after_logout() {
    let mut machine = ready_machine(false);
    let token = machine
        .dispatch(Event::LoginRequested(Provider::Google))
        .token()
        .unwrap();
    machine.dispatch(Event::LogoutRequested);
    assert_eq!(
        machine.dispatch(Event::LoginSucceeded(token)),
        TransitionOutcome::Stale
    );
    assert_eq!(machine.auth_phase(), AuthPhase::SignedOut);
    assert!(machine.check_invariants().is_ok());
}

#[test]
fn effects_and_authentication_fail_closed_before_startup() {
    let mut machine = AppMachine::new(false, OnboardingStep::Welcome);
    let initial = machine.clone();
    assert_eq!(
        machine.dispatch(Event::LoginRequested(Provider::Google)),
        TransitionOutcome::Rejected(RejectReason::AppNotReady)
    );
    assert_eq!(
        machine.dispatch(Event::LaneRequested(Lane::Weather)),
        TransitionOutcome::Rejected(RejectReason::AppNotReady)
    );
    assert_eq!(
        machine.dispatch(Event::OnboardingNext),
        TransitionOutcome::Rejected(RejectReason::AppNotReady)
    );
    assert_eq!(machine, initial);
}

#[test]
fn exhausted_generation_rejects_without_partial_mutation() {
    let mut machine = ready_machine(false);
    machine.advance_generation(u64::MAX);
    let initial = machine.clone();
    assert_eq!(
        machine.dispatch(Event::LaneRequested(Lane::Weather)),
        TransitionOutcome::Rejected(RejectReason::GenerationExhausted)
    );
    assert_eq!(machine, initial);
    assert!(machine.check_invariants().is_ok());
}

#[test]
fn stale_completion_cannot_overwrite_a_newer_same_lane_request() {
    let mut machine = ready_machine(false);
    let first = machine
        .dispatch(Event::LaneRequested(Lane::Weather))
        .token()
        .unwrap();
    assert!(machine
        .dispatch(Event::LaneSucceeded(Lane::Weather, first))
        .committed());
    let second = machine
        .dispatch(Event::LaneRequested(Lane::Weather))
        .token()
        .unwrap();

    assert_eq!(
        machine.dispatch(Event::LaneFailed(Lane::Weather, first)),
        TransitionOutcome::Stale
    );
    assert!(machine.accepts_lane_token(Lane::Weather, second));
    assert_eq!(machine.lane(Lane::Weather).phase(), LanePhase::Running);
}

#[test]
fn logout_cancels_auth_bound_lanes_and_stale_results_stutter() {
    let mut machine = ready_machine(true);
    let calendar = machine
        .dispatch(Event::LaneRequested(Lane::Calendar))
        .token()
        .unwrap();
    let weather = machine
        .dispatch(Event::LaneRequested(Lane::Weather))
        .token()
        .unwrap();
    machine.dispatch(Event::LogoutRequested);
    assert_eq!(machine.lane(Lane::Calendar).phase(), LanePhase::Idle);
    assert_eq!(machine.lane(Lane::Weather).phase(), LanePhase::Running);
    assert_eq!(
        machine.dispatch(Event::LaneSucceeded(Lane::Calendar, calendar)),
        TransitionOutcome::Stale
    );
    assert!(machine
        .dispatch(Event::LaneSucceeded(Lane::Weather, weather))
        .committed());
    assert!(machine.check_invariants().is_ok());
}

#[test]
fn onboarding_is_strict_and_completion_is_monotonic() {
    let mut machine = ready_machine(false);
    assert_eq!(
        machine.dispatch(Event::OnboardingFinish),
        TransitionOutcome::Rejected(RejectReason::InvalidOnboardingTransition)
    );
    for _ in 0..4 {
        assert!(machine.dispatch(Event::OnboardingNext).committed());
    }
    assert_eq!(machine.onboarding(), OnboardingStep::Ready);
    assert!(machine.dispatch(Event::OnboardingFinish).committed());
    assert_eq!(machine.onboarding(), OnboardingStep::Complete);
    assert_eq!(
        machine.dispatch(Event::OnboardingReconciled(OnboardingStep::Welcome)),
        TransitionOutcome::Stale
    );
    assert_eq!(machine.onboarding(), OnboardingStep::Complete);
}

#[test]
fn independent_lanes_do_not_overwrite_each_other() {
    let mut machine = ready_machine(true);
    let weather = machine
        .dispatch(Event::LaneRequested(Lane::Weather))
        .token()
        .unwrap();
    let news = machine
        .dispatch(Event::LaneRequested(Lane::News))
        .token()
        .unwrap();
    assert!(machine
        .dispatch(Event::LaneFailed(Lane::Weather, weather))
        .committed());
    assert_eq!(machine.lane(Lane::Weather).phase(), LanePhase::Failed);
    assert_eq!(machine.lane(Lane::News).phase(), LanePhase::Running);
    assert!(machine
        .dispatch(Event::LaneSucceeded(Lane::News, news))
        .committed());
    assert_eq!(machine.lane(Lane::News).phase(), LanePhase::Ready);
}

fn bounded_events(max_token: u64) -> Vec<Event> {
    let mut events = vec![
        Event::StartupCompleted,
        Event::LoginRequested(Provider::Google),
        Event::LoginRequested(Provider::Apple),
        Event::LoginRequested(Provider::Azure),
        Event::LogoutRequested,
        Event::OnboardingNext,
        Event::OnboardingPrevious,
        Event::OnboardingSkipToReady,
        Event::OnboardingFinish,
    ];
    events.extend(
        OnboardingStep::ALL
            .into_iter()
            .map(Event::OnboardingReconciled),
    );
    for raw in 0..=max_token {
        let token = OperationToken::from_raw(raw);
        events.push(Event::LoginSucceeded(token));
        events.push(Event::LoginFailed(token));
        for lane in Lane::ALL {
            events.push(Event::LaneSucceeded(lane, token));
            events.push(Event::LaneFailed(lane, token));
        }
    }
    events.extend(Lane::ALL.into_iter().map(Event::LaneRequested));
    events
}

#[test]
fn bounded_reachable_graph_is_total_deterministic_and_invariant_safe() {
    const MAX_GENERATION: u64 = 2;
    const SAFETY_CAP: usize = 50_000;

    let events = bounded_events(MAX_GENERATION);
    let mut queue = VecDeque::new();
    for signed_in in [false, true] {
        for onboarding in OnboardingStep::ALL {
            queue.push_back(AppMachine::new(signed_in, onboarding));
        }
    }
    let mut visited = HashSet::new();
    let mut auth_phases = HashSet::new();
    let mut lane_phases = HashSet::new();
    let mut onboarding_steps = HashSet::new();

    while let Some(state) = queue.pop_front() {
        if !visited.insert(state.clone()) {
            continue;
        }
        assert!(visited.len() < SAFETY_CAP, "state-space safety cap reached");
        state.check_invariants().unwrap();
        auth_phases.insert(state.auth_phase());
        onboarding_steps.insert(state.onboarding());
        for lane in Lane::ALL {
            lane_phases.insert(state.lane(lane).phase());
        }

        for event in &events {
            let mut left = state.clone();
            let mut right = state.clone();
            let left_outcome = left.dispatch(*event);
            let right_outcome = right.dispatch(*event);
            assert_eq!(left_outcome, right_outcome);
            assert_eq!(left, right);
            left.check_invariants().unwrap();
            if left.generation() <= MAX_GENERATION && !visited.contains(&left) {
                queue.push_back(left);
            }
        }
    }

    assert!(
        visited.len() > 1_000,
        "exploration was unexpectedly shallow"
    );
    assert_eq!(auth_phases.len(), 4);
    assert_eq!(lane_phases.len(), 4);
    assert_eq!(onboarding_steps.len(), OnboardingStep::ALL.len());
}
