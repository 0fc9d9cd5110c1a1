use happy_wakey::app_state::{
    AppMachine, AuthPhase, Event, Lane, LanePhase, OnboardingStep, Provider, TransitionOutcome,
};
use happy_wakey::backend::{
    auth_phase_name, begin_hydration, begin_lane, calendar_source, complete_startup, finish_lane,
    machine_for, machine_snapshot, on_login_result, on_onboarding_fetched, on_onboarding_saved,
    on_session_saved, plan_onboarding_transition, provider_named, project_onboarding, record_onboarding_step,
    rejection_message, sweep_report, sweep_succeeded, visible_email, with_session, would_commit,
    begin_sweep, commit_after_save, empty_sweep_message, mirror_access_token, plan_logout,
    CalendarSource, CommitStep, FetchedOnboarding, HydrationStep, LoginStep, ReconcileStep,
    SessionStep, SweepReport, SweepStart,
};
use happy_wakey::config::{Config, OnboardingState, SupabaseSession};

fn signed_in_config() -> Config {
    let mut cfg = Config::default();
    cfg.supabase_session = Some(SupabaseSession {
        access_token: "jwt".into(),
        email: Some("me@example.com".into()),
        provider: "google".into(),
        provider_token: Some("g-token".into()),
        ..Default::default()
    });
    cfg
}

#[test]
fn auth_phase_names_match_the_interface_states() {
    assert_eq!(auth_phase_name(AuthPhase::SignedOut), "signed_out");
    assert_eq!(auth_phase_name(AuthPhase::Authenticating), "authenticating");
    assert_eq!(auth_phase_name(AuthPhase::SignedIn), "signed_in");
    assert_eq!(auth_phase_name(AuthPhase::Failed), "failed");
}

#[test]
fn machine_for_restores_session_and_step() {
    let mut cfg = signed_in_config();
    cfg.onboarding.current_step = " backup ".into();
    let machine = machine_for(&cfg);
    assert!(machine.is_signed_in());
    assert_eq!(machine.onboarding(), OnboardingStep::Backup);
    cfg.onboarding.completed = true;
    assert_eq!(machine_for(&cfg).onboarding(), OnboardingStep::Complete);
    assert!(!machine_for(&Config::default()).is_signed_in());
}

#[test]
fn startup_is_processed_once() {
    let mut machine = AppMachine::new(false, OnboardingStep::Welcome);
    assert_eq!(complete_startup(&mut machine), None);
    assert_eq!(
        complete_startup(&mut machine),
        Some("Application startup was already processed")
    );
}

#[test]
fn snapshot_follows_the_machine() {
    let mut machine = AppMachine::new(true, OnboardingStep::Ready);
    complete_startup(&mut machine);
    let (token, message) = begin_lane(&mut machine, Lane::Weather);
    assert!(token.is_some());
    assert_eq!(message, None);
    let snapshot = machine_snapshot(&machine);
    assert!(snapshot.logged_in);
    assert!(!snapshot.auth_busy);
    assert_eq!(snapshot.auth_state, "signed_in");
    assert_eq!(snapshot.onboarding_step_index, 4);
    assert!(!snapshot.onboarding_complete);
    assert!(snapshot.weather_loading);
    assert!(!snapshot.calendar_loading);
    assert!(finish_lane(&mut machine, Lane::Weather, token.unwrap(), true));
    assert!(!machine_snapshot(&machine).weather_loading);
    assert_eq!(machine.lane(Lane::Weather).phase(), LanePhase::Ready);
}

#[test]
fn refused_operation_reports_its_reason() {
    let mut machine = AppMachine::new(false, OnboardingStep::Welcome);
    complete_startup(&mut machine);
    let (token, message) = begin_lane(&mut machine, Lane::Calendar);
    assert!(token.is_none());
    assert_eq!(message, Some("Sign in before starting this operation"));
    assert_eq!(rejection_message(TransitionOutcome::Stale), None);
}

#[test]
fn hydration_needs_sync_and_session() {
    let mut machine = AppMachine::new(true, OnboardingStep::Welcome);
    complete_startup(&mut machine);
    let before = machine.clone();
    assert_eq!(begin_hydration(&mut machine, &Config::default()), (None, None));
    assert_eq!(machine, before);
    let mut cfg = signed_in_config();
    cfg.supabase_sync_enabled = false;
    assert_eq!(begin_hydration(&mut machine, &cfg), (None, None));
    let (token, _) = begin_hydration(&mut machine, &signed_in_config());
    assert!(token.is_some());
    assert!(machine.lane(Lane::OnboardingHydration).is_running());
}

#[test]
fn remote_completion_is_persisted_then_applied() {
    let mut machine = AppMachine::new(true, OnboardingStep::Account);
    complete_startup(&mut machine);
    let (token, _) = begin_hydration(&mut machine, &signed_in_config());
    let token = token.unwrap();
    let local = OnboardingState::default();
    let remote = OnboardingState {
        completed: true,
        current_step: "complete".into(),
        step_index: 4,
        updated_at: None,
    };
    let step = match on_onboarding_fetched(&mut machine, token, &local, FetchedOnboarding::Found(remote)) {
        HydrationStep::Persist { merged, step } => {
            assert!(merged.completed);
            step
        }
        _ => panic!("a remote completion must be persisted"),
    };
    assert_eq!(step, OnboardingStep::Complete);
    assert_eq!(machine.onboarding(), OnboardingStep::Account);
    assert!(matches!(
        on_onboarding_saved(&mut machine, token, step, true),
        ReconcileStep::Apply
    ));
    assert_eq!(machine.onboarding(), OnboardingStep::Complete);
    assert!(!machine.lane(Lane::OnboardingHydration).is_running());
}

#[test]
fn hydration_results_after_logout_are_ignored() {
    let mut machine = AppMachine::new(true, OnboardingStep::Welcome);
    complete_startup(&mut machine);
    let (token, _) = begin_hydration(&mut machine, &signed_in_config());
    machine.dispatch(Event::LogoutRequested);
    let before = machine.clone();
    assert!(matches!(
        on_onboarding_fetched(
            &mut machine,
            token.unwrap(),
            &OnboardingState::default(),
            FetchedOnboarding::Failed
        ),
        HydrationStep::Ignore
    ));
    assert_eq!(machine, before);
}

#[test]
fn failed_hydration_save_fails_the_lane() {
    let mut machine = AppMachine::new(true, OnboardingStep::Welcome);
    complete_startup(&mut machine);
    let (token, _) = begin_hydration(&mut machine, &signed_in_config());
    assert!(matches!(
        on_onboarding_saved(&mut machine, token.unwrap(), OnboardingStep::Backup, false),
        ReconcileStep::ReportSaveFailure
    ));
    assert_eq!(
        machine.lane(Lane::OnboardingHydration).phase(),
        LanePhase::Failed
    );
    assert_eq!(machine.onboarding(), OnboardingStep::Welcome);
}

#[test]
fn missing_remote_record_mirrors_the_local_one() {
    let mut machine = AppMachine::new(true, OnboardingStep::Welcome);
    complete_startup(&mut machine);
    let (token, _) = begin_hydration(&mut machine, &signed_in_config());
    assert!(matches!(
        on_onboarding_fetched(
            &mut machine,
            token.unwrap(),
            &OnboardingState::default(),
            FetchedOnboarding::Missing
        ),
        HydrationStep::MirrorLocal
    ));
    assert_eq!(
        machine.lane(Lane::OnboardingHydration).phase(),
        LanePhase::Ready
    );
}

#[test]
fn login_is_committed_only_after_the_session_is_saved() {
    let mut machine = AppMachine::new(false, OnboardingStep::Welcome);
    complete_startup(&mut machine);
    let token = machine
        .dispatch(Event::LoginRequested(Provider::Google))
        .token()
        .unwrap();
    assert!(matches!(
        on_login_result(&mut machine, token, true),
        LoginStep::PersistSession
    ));
    assert_eq!(machine.auth_phase(), AuthPhase::Authenticating);
    assert!(matches!(
        on_session_saved(&mut machine, token, true),
        SessionStep::SignedIn
    ));
    assert!(machine.is_signed_in());
}

#[test]
fn unsaved_session_fails_the_login_closed() {
    let mut machine = AppMachine::new(false, OnboardingStep::Welcome);
    complete_startup(&mut machine);
    let token = machine
        .dispatch(Event::LoginRequested(Provider::Apple))
        .token()
        .unwrap();
    assert!(matches!(
        on_session_saved(&mut machine, token, false),
        SessionStep::ReportSaveFailure
    ));
    assert_eq!(machine.auth_phase(), AuthPhase::Failed);
    assert!(matches!(
        on_login_result(&mut machine, token, false),
        LoginStep::Ignore
    ));
}

#[test]
fn failed_login_is_reported() {
    let mut machine = AppMachine::new(false, OnboardingStep::Welcome);
    complete_startup(&mut machine);
    let token = machine
        .dispatch(Event::LoginRequested(Provider::Azure))
        .token()
        .unwrap();
    assert!(matches!(
        on_login_result(&mut machine, token, false),
        LoginStep::ReportFailure
    ));
    assert_eq!(machine.auth_phase(), AuthPhase::Failed);
}

#[test]
fn new_session_sets_the_user_id() {
    let session = SupabaseSession {
        user_id: "u-1".into(),
        access_token: "jwt".into(),
        ..Default::default()
    };
    let cfg = with_session(Config::default(), session);
    assert_eq!(cfg.user_id, "u-1");
    assert_eq!(cfg.supabase_session.unwrap().access_token, "jwt");
}

#[test]
fn onboarding_transition_is_planned_on_a_copy() {
    let mut machine = AppMachine::new(false, OnboardingStep::Welcome);
    complete_startup(&mut machine);
    assert_eq!(
        plan_onboarding_transition(&machine, Event::OnboardingNext),
        Ok(OnboardingStep::Account)
    );
    assert_eq!(machine.onboarding(), OnboardingStep::Welcome);
    assert_eq!(
        plan_onboarding_transition(&machine, Event::OnboardingPrevious),
        Err(Some("That onboarding transition is not allowed"))
    );
    assert!(would_commit(&machine, Event::OnboardingSkipToReady));
    assert!(!would_commit(&machine, Event::OnboardingFinish));
}

#[test]
fn recorded_step_is_stamped_and_projected() {
    let cfg = record_onboarding_step(Config::default(), OnboardingStep::Essentials);
    assert_eq!(cfg.onboarding.current_step, "essentials");
    assert_eq!(cfg.onboarding.step_index, 3);
    assert!(!cfg.onboarding.completed);
    assert!(cfg.onboarding.updated_at.is_some());

    let machine = AppMachine::new(true, OnboardingStep::Complete);
    let projected = project_onboarding(cfg, &machine);
    assert!(projected.onboarding.completed);
    assert_eq!(projected.onboarding.current_step, "complete");
    assert_eq!(projected.onboarding.step_index, 4);
}

#[test]
fn email_is_shown_only_while_signed_in() {
    let cfg = signed_in_config();
    let signed_in = AppMachine::new(true, OnboardingStep::Welcome);
    let signed_out = AppMachine::new(false, OnboardingStep::Welcome);
    assert_eq!(visible_email(&cfg, &signed_in), "me@example.com");
    assert_eq!(visible_email(&cfg, &signed_out), "");
}

#[test]
fn calendar_source_follows_the_sign_in_provider() {
    assert!(matches!(calendar_source(&None), CalendarSource::NotSignedIn));
    let mut session = signed_in_config().supabase_session.unwrap();
    assert!(matches!(
        calendar_source(&Some(session.clone())),
        CalendarSource::Google(token) if token == "g-token"
    ));
    session.provider = "azure".into();
    assert!(matches!(
        calendar_source(&Some(session.clone())),
        CalendarSource::Outlook(_)
    ));
    session.provider = "apple".into();
    assert!(matches!(
        calendar_source(&Some(session.clone())),
        CalendarSource::AppleUnsupported
    ));
    session.provider = "github".into();
    assert!(matches!(
        calendar_source(&Some(session.clone())),
        CalendarSource::Unsupported(name) if name == "github"
    ));
    session.provider_token = Some("   ".into());
    assert!(matches!(
        calendar_source(&Some(session.clone())),
        CalendarSource::NoCalendarAccess
    ));
    session.provider_token = None;
    assert!(matches!(
        calendar_source(&Some(session)),
        CalendarSource::NoCalendarAccess
    ));
}

#[test]
fn sweeps_fail_only_when_everything_failed() {
    assert!(sweep_succeeded(0, 0));
    assert!(sweep_succeeded(2, 1));
    assert!(!sweep_succeeded(0, 3));
    assert_eq!(sweep_report(3, 0), SweepReport::AllUpdated);
    assert_eq!(sweep_report(0, 2), SweepReport::AllFailed);
    assert_eq!(sweep_report(1, 2), SweepReport::Partial);
}

#[test]
fn provider_names_map_to_providers() {
    assert_eq!(provider_named("google"), Some(Provider::Google));
    assert_eq!(provider_named("apple"), Some(Provider::Apple));
    assert_eq!(provider_named("azure"), Some(Provider::Azure));
    assert_eq!(provider_named("Google"), None);
    assert_eq!(provider_named("github"), None);
}

#[test]
fn empty_sweeps_fail_the_lane_at_once() {
    let mut machine = AppMachine::new(false, OnboardingStep::Ready);
    complete_startup(&mut machine);
    assert_eq!(
        begin_sweep(&mut machine, Lane::Weather, 0),
        SweepStart::Empty("Add a weather location in Settings")
    );
    assert_eq!(machine.lane(Lane::Weather).phase(), LanePhase::Failed);
    assert_eq!(
        begin_sweep(&mut machine, Lane::Stocks, 0),
        SweepStart::Empty("Add a stock symbol in Settings")
    );
    assert_eq!(machine.lane(Lane::Stocks).phase(), LanePhase::Failed);
    // A news sweep needs no items.
    assert!(matches!(begin_sweep(&mut machine, Lane::News, 0), SweepStart::Run(_)));
    assert!(machine.lane(Lane::News).is_running());
    assert_eq!(empty_sweep_message(Lane::News), None);
}

#[test]
fn sweeps_with_items_run_and_overlapping_ones_are_refused() {
    let mut machine = AppMachine::new(false, OnboardingStep::Ready);
    assert!(matches!(
        begin_sweep(&mut machine, Lane::Weather, 2),
        SweepStart::Refused(Some(_))
    ));
    complete_startup(&mut machine);
    let token = match begin_sweep(&mut machine, Lane::Weather, 2) {
        SweepStart::Run(token) => token,
        other => panic!("sweep did not start: {other:?}"),
    };
    assert_eq!(token.get(), machine.generation());
    assert!(machine.lane(Lane::Weather).is_running());
    assert!(matches!(begin_sweep(&mut machine, Lane::Weather, 2), SweepStart::Refused(_)));
    assert!(finish_lane(&mut machine, Lane::Weather, token, true));
    assert_eq!(machine.lane(Lane::Weather).phase(), LanePhase::Ready);
}

#[test]
fn stored_requests_commit_only_after_saving() {
    let mut machine = AppMachine::new(true, OnboardingStep::Ready);
    complete_startup(&mut machine);
    let before = machine;
    assert_eq!(
        commit_after_save(&mut machine, Event::LogoutRequested, false),
        CommitStep::SaveFailed
    );
    assert_eq!(machine, before);
    assert_eq!(
        commit_after_save(&mut machine, Event::LogoutRequested, true),
        CommitStep::Committed
    );
    assert!(!machine.is_signed_in());
    // Startup was processed while the new state was being stored.
    let after = machine;
    assert_eq!(
        commit_after_save(&mut machine, Event::StartupCompleted, true),
        CommitStep::Changed
    );
    assert_eq!(machine, after);
}

#[test]
fn logout_removes_the_session_only_when_it_would_commit() {
    let mut machine = AppMachine::new(true, OnboardingStep::Ready);
    complete_startup(&mut machine);
    let planned = plan_logout(&machine, signed_in_config()).expect("logout should commit");
    assert!(planned.supabase_session.is_none());
    assert_eq!(planned.onboarding.current_step, signed_in_config().onboarding.current_step);
    assert_eq!(planned.user_id, signed_in_config().user_id);
    let signed_out = AppMachine::new(false, OnboardingStep::Ready);
    assert!(plan_logout(&signed_out, signed_in_config()).is_none());
}

#[test]
fn configuration_is_mirrored_only_with_sync_and_session() {
    let mut cfg = signed_in_config();
    cfg.supabase_sync_enabled = true;
    assert_eq!(mirror_access_token(&cfg), Some("jwt".to_string()));
    cfg.supabase_sync_enabled = false;
    assert_eq!(mirror_access_token(&cfg), None);
    let mut no_session = Config::default();
    no_session.supabase_sync_enabled = true;
    assert_eq!(mirror_access_token(&no_session), None);
}

#[test]
fn machine_accessors_expose_every_field() {
    let mut machine = AppMachine::new(false, OnboardingStep::Complete);
    assert!(machine.onboarding_completed_once());
    complete_startup(&mut machine);
    let (token, _) = begin_operation_for_login(&mut machine);
    let auth = machine.auth();
    assert_eq!(auth.phase(), AuthPhase::Authenticating);
    assert_eq!(auth.provider(), Some(Provider::Google));
    assert_eq!(auth.generation(), token);
    assert_eq!(auth.active_token(), token);
    let lane = machine.lane(Lane::Calendar);
    assert_eq!((lane.generation(), lane.active_token()), (0, 0));
}

fn begin_operation_for_login(machine: &mut AppMachine) -> (u64, bool) {
    let outcome = machine.dispatch(Event::LoginRequested(Provider::Google));
    (outcome.token().expect("login starts").get(), outcome.committed())
}
