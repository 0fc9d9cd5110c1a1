use happy_wakey::app_state::{
    AppMachine, AuthPhase, Event, Lane, LanePhase, OnboardingStep, OperationToken, Provider,
    RejectReason, TransitionOutcome,
};
use happy_wakey::config::{
    merge_editable_config, merge_onboarding, sanitize, sanitize_onboarding_state,
    sanitize_reminder_settings, sync_safe_config, Bookmark, CalendarProvider, Config,
    OnboardingState, ReminderSettings, SupabaseSession, WeatherLocation,
};
use happy_wakey::text::clean_text;
use happy_wakey::timestamp::parse_timestamp;
use happy_wakey::weburl::{normalize_http_url, safe_external_url};
use happy_wakey::backend::{machine_for, project_onboarding, record_onboarding_step};

fn ready(signed_in: bool, step: OnboardingStep) -> AppMachine {
    let mut machine = AppMachine::new(signed_in, step);
    assert!(machine.dispatch(Event::StartupCompleted).committed());
    machine
}

#[test]
fn every_persisted_start_is_sound() {
    for signed_in in [false, true] {
        for step in OnboardingStep::ALL {
            assert!(AppMachine::new(signed_in, step).check_invariants().is_ok());
        }
    }
}

#[test]
fn persisted_step_names_round_trip() {
    for step in OnboardingStep::ALL {
        assert_eq!(
            OnboardingStep::from_persisted(step.as_str(), step == OnboardingStep::Complete),
            step
        );
    }
    assert_eq!(
        OnboardingStep::from_persisted("\u{3000}ready\t", false),
        OnboardingStep::Ready
    );
    assert_eq!(
        OnboardingStep::from_persisted("Ready", false),
        OnboardingStep::Welcome
    );
}

#[test]
fn nothing_but_startup_is_accepted_while_booting() {
    let mut machine = AppMachine::new(true, OnboardingStep::Ready);
    let before = machine.clone();
    for event in [
        Event::LaneRequested(Lane::News),
        Event::LogoutRequested,
        Event::OnboardingFinish,
        Event::LoginSucceeded(OperationToken::from_raw(1)),
    ] {
        assert_eq!(
            machine.dispatch(event),
            TransitionOutcome::Rejected(RejectReason::AppNotReady)
        );
        assert_eq!(machine, before);
    }
}

#[test]
fn tokens_are_fresh_and_generations_never_go_back() {
    let mut machine = ready(true, OnboardingStep::Welcome);
    let a = machine
        .dispatch(Event::LaneRequested(Lane::News))
        .token()
        .unwrap();
    let b = machine
        .dispatch(Event::LaneRequested(Lane::Stocks))
        .token()
        .unwrap();
    assert_eq!(a.get(), 1);
    assert_eq!(b.get(), 2);
    assert_eq!(machine.generation(), 2);
    machine.advance_generation(1);
    assert_eq!(machine.generation(), 2);
    machine.advance_generation(10);
    let c = machine
        .dispatch(Event::LaneRequested(Lane::Weather))
        .token()
        .unwrap();
    assert_eq!(c.get(), 11);
}

#[test]
fn logout_leaves_no_authenticated_work() {
    let mut machine = ready(true, OnboardingStep::Welcome);
    let hydration = machine
        .dispatch(Event::LaneRequested(Lane::OnboardingHydration))
        .token()
        .unwrap();
    let sync = machine
        .dispatch(Event::LaneRequested(Lane::CloudReminderSync))
        .token()
        .unwrap();
    let stocks = machine
        .dispatch(Event::LaneRequested(Lane::Stocks))
        .token()
        .unwrap();
    assert_eq!(
        machine.dispatch(Event::LogoutRequested),
        TransitionOutcome::Applied(None)
    );
    assert_eq!(machine.auth_phase(), AuthPhase::SignedOut);
    for lane in Lane::ALL {
        if lane.requires_auth() {
            assert_eq!(machine.lane(lane).phase(), LanePhase::Idle);
        }
    }
    assert!(!machine.accepts_lane_token(Lane::OnboardingHydration, hydration));
    assert!(!machine.accepts_lane_token(Lane::CloudReminderSync, sync));
    assert!(machine.accepts_lane_token(Lane::Stocks, stocks));
}

#[test]
fn completed_onboarding_survives_every_event() {
    let events = [
        Event::OnboardingNext,
        Event::OnboardingPrevious,
        Event::OnboardingSkipToReady,
        Event::OnboardingFinish,
        Event::OnboardingReconciled(OnboardingStep::Account),
        Event::LogoutRequested,
        Event::LoginRequested(Provider::Google),
    ];
    let mut machine = ready(true, OnboardingStep::Complete);
    for event in events {
        machine.dispatch(event);
        assert_eq!(machine.onboarding(), OnboardingStep::Complete);
        assert!(machine.onboarding_completed_once());
    }
}

#[test]
fn completion_witness_is_set_by_finishing_and_kept() {
    let mut machine = ready(false, OnboardingStep::Ready);
    assert!(!machine.onboarding_completed_once());
    assert!(machine.dispatch(Event::OnboardingFinish).committed());
    assert!(machine.onboarding_completed_once());
    assert_eq!(
        machine.dispatch(Event::OnboardingReconciled(OnboardingStep::Welcome)),
        TransitionOutcome::Stale
    );
    assert!(machine.onboarding_completed_once());
    machine.advance_generation(40);
    assert!(machine.check_invariants().is_ok());
    assert!(machine.onboarding_completed_once());
}

#[test]
fn refused_and_stale_events_change_nothing() {
    let mut machine = ready(false, OnboardingStep::Welcome);
    let before = machine.clone();
    assert!(!machine.dispatch(Event::OnboardingPrevious).committed());
    assert!(!machine
        .dispatch(Event::LaneSucceeded(Lane::News, OperationToken::from_raw(7)))
        .committed());
    assert!(!machine
        .dispatch(Event::LoginFailed(OperationToken::from_raw(0)))
        .committed());
    assert_eq!(machine, before);
}

#[test]
fn lanes_are_independent() {
    let mut machine = ready(false, OnboardingStep::Welcome);
    let news = machine
        .dispatch(Event::LaneRequested(Lane::News))
        .token()
        .unwrap();
    let stocks_before = machine.lane(Lane::Stocks);
    machine.dispatch(Event::LaneRequested(Lane::Weather));
    machine.dispatch(Event::LaneSucceeded(Lane::News, news));
    assert_eq!(machine.lane(Lane::Stocks), stocks_before);
}

#[test]
fn sanitized_config_is_within_limits() {
    let mut cfg = Config::default();
    cfg.user_id = "u".repeat(300);
    cfg.news_keywords = vec!["a\u{7}b".into(), "x".repeat(100)];
    cfg.browser_bookmarks = (0..60)
        .map(|i| Bookmark {
            id: format!("{i}"),
            title: String::new(),
            url: format!("site{i}.example"),
        })
        .collect();
    cfg.onboarding.step_index = 9;
    let s = sanitize(cfg);
    assert_eq!(s.version, happy_wakey::config::APP_VERSION);
    assert_eq!(s.user_id.chars().count(), 128);
    assert_eq!(s.news_keywords[0], "ab");
    assert_eq!(s.news_keywords[1].chars().count(), 64);
    assert_eq!(s.browser_bookmarks.len(), 50);
    assert_eq!(s.browser_bookmarks[0].title, "https://site0.example/");
    assert_eq!(s.onboarding.step_index, 4);
}

#[test]
fn sanitize_keeps_calendar_tokens_and_sync_safe_drops_them() {
    let mut cfg = Config::default();
    cfg.calendar_providers = vec![CalendarProvider {
        provider: " google\n".into(),
        email: " me@example.com ".into(),
        access_token: "  tok ".into(),
        refresh_token: "r".into(),
        expires_at: 5,
    }];
    cfg.supabase_session = Some(SupabaseSession {
        refresh_token: " keep ".into(),
        ..Default::default()
    });
    let s = sanitize(cfg.clone());
    assert_eq!(s.calendar_providers[0].provider, "google");
    assert_eq!(s.calendar_providers[0].email, "me@example.com");
    assert_eq!(s.calendar_providers[0].access_token, "  tok ");
    assert_eq!(s.supabase_session.unwrap().refresh_token, " keep ");
    let safe = sync_safe_config(&cfg);
    assert!(safe.supabase_session.is_none());
    assert_eq!(safe.calendar_providers[0].access_token, "");
    assert_eq!(safe.calendar_providers[0].refresh_token, "");
    assert_eq!(safe.calendar_providers[0].expires_at, 5);
}

#[test]
fn editing_cannot_touch_control_state() {
    let mut current = Config::default();
    current.onboarding.current_step = "backup".into();
    current.calendar_providers = vec![CalendarProvider {
        provider: "google".into(),
        ..Default::default()
    }];
    let mut incoming = Config::default();
    incoming.calendar_providers = Vec::new();
    incoming.git_repo_path = Some("  ".into());
    incoming.supabase_sync_enabled = false;
    let merged = merge_editable_config(current, incoming);
    assert_eq!(merged.onboarding.current_step, "backup");
    assert_eq!(merged.calendar_providers.len(), 1);
    assert_eq!(merged.git_repo_path, None);
    assert!(!merged.supabase_sync_enabled);
}

#[test]
fn reminder_offsets_keep_the_latest_distinct() {
    let cleaned = sanitize_reminder_settings(ReminderSettings {
        enabled: false,
        cloud_email_enabled: true,
        offsets_minutes: vec![1440, 1, 1440, 65535, 2, 3],
    });
    assert_eq!(cleaned.offsets_minutes, vec![1440, 3, 2, 1]);
    assert!(!cleaned.enabled);
    assert!(cleaned.cloud_email_enabled);
    let empty = sanitize_reminder_settings(ReminderSettings {
        enabled: true,
        cloud_email_enabled: false,
        offsets_minutes: vec![0, 2000],
    });
    assert!(empty.offsets_minutes.is_empty());
}

#[test]
fn reminder_sanitizing_twice_changes_nothing() {
    let once = sanitize_reminder_settings(ReminderSettings {
        enabled: true,
        cloud_email_enabled: true,
        offsets_minutes: vec![5, 30, 1440, 0, 30, 60, 120, 15, 9999],
    });
    assert_eq!(once.offsets_minutes, vec![1440, 120, 60, 30, 15]);
    let twice = sanitize_reminder_settings(once.clone());
    assert_eq!(twice.offsets_minutes, once.offsets_minutes);
    assert_eq!(twice.enabled, once.enabled);
    assert_eq!(twice.cloud_email_enabled, once.cloud_email_enabled);
}

#[test]
fn onboarding_merge_prefers_completion_then_timestamps() {
    let stamped = |step: &str, completed: bool, at: Option<&str>| OnboardingState {
        completed,
        current_step: step.into(),
        step_index: 0,
        updated_at: at.map(|t| t.to_string()),
    };
    let local = stamped("ready", false, None);
    let remote = stamped("backup", false, Some("2026-01-01T00:00:00Z"));
    assert_eq!(merge_onboarding(&local, &remote).current_step, "backup");
    let local_done = stamped("complete", true, Some("2026-01-01T00:00:00Z"));
    let remote_same = stamped("account", false, Some("2026-01-01T00:00:00Z"));
    assert!(merge_onboarding(&local_done, &remote_same).completed);
    let remote_later = stamped("account", false, Some("2026-01-01T00:00:00.5Z"));
    assert!(!merge_onboarding(&local_done, &remote_later).completed);
}

#[test]
fn onboarding_sanitize_is_idempotent() {
    let state = OnboardingState {
        completed: false,
        current_step: " essentials\n".into(),
        step_index: 77,
        updated_at: Some("2026-02-30T00:00:00Z".into()),
    };
    let once = sanitize_onboarding_state(state);
    let twice = sanitize_onboarding_state(once.clone());
    assert_eq!(once.current_step, twice.current_step);
    assert_eq!(once.step_index, twice.step_index);
    assert_eq!(once.updated_at, twice.updated_at);
    assert_eq!(once.current_step, "essentials");
    assert_eq!(once.updated_at, None);
}

#[test]
fn timestamps_compare_as_instants() {
    let a = parse_timestamp("2026-01-01T01:00:00+01:00").unwrap();
    let b = parse_timestamp("2026-01-01T00:00:00Z").unwrap();
    assert_eq!(a, b);
    assert_eq!(parse_timestamp("yesterday"), None);
}

#[test]
fn weather_coordinates_are_checked_on_their_bits() {
    let inside = WeatherLocation {
        name: "Pole".into(),
        lat_bits: (-90.0f64).to_bits(),
        lon_bits: 180.0f64.to_bits(),
    };
    let outside = WeatherLocation {
        name: "Far".into(),
        lat_bits: 90.000001f64.to_bits(),
        lon_bits: 0.0f64.to_bits(),
    };
    let infinite = WeatherLocation {
        name: "Inf".into(),
        lat_bits: 0.0f64.to_bits(),
        lon_bits: f64::NEG_INFINITY.to_bits(),
    };
    let mut cfg = Config::default();
    cfg.weather_locations = vec![inside, outside, infinite];
    let s = sanitize(cfg);
    assert_eq!(s.weather_locations.len(), 1);
    assert_eq!(s.weather_locations[0].name, "Pole");
}

#[test]
fn clean_text_drops_controls_inside_and_trims_unicode_space() {
    assert_eq!(clean_text("\u{2003}a\u{0}b\u{9f}c\u{3000}", 10), "abc");
    assert_eq!(clean_text("", 5), "");
    assert_eq!(clean_text("abc", 0), "");
    // The control range ends at U+001F and at U+009F; U+00A0 is kept.
    assert_eq!(clean_text("a\u{1f}b\u{20}c\u{7f}d\u{a0}e", 10), "ab cd\u{a0}e");
}

#[test]
fn opened_and_stored_addresses_agree() {
    for raw in ["example.com", " http://a.example/x ", "ftp://example.com", "mailto:me@x", ""] {
        assert_eq!(normalize_http_url(raw), safe_external_url(raw).ok());
    }
}

#[test]
fn recorded_and_projected_steps_are_restored() {
    for step in OnboardingStep::ALL {
        let cfg = record_onboarding_step(Config::default(), step);
        assert_eq!(machine_for(&cfg).onboarding(), step);
        let machine = AppMachine::new(false, step);
        let shown = project_onboarding(Config::default(), &machine);
        assert_eq!(machine_for(&shown).onboarding(), step);
    }
}
