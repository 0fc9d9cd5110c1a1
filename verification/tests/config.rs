use happy_wakey::config::{
    merge_editable_config, merge_onboarding, sanitize, sanitize_onboarding_state,
    sanitize_reminder_settings, sanitize_symbol, sanitize_weather_location, set_onboarding_state,
    sync_safe_config, CalendarProvider, Config, OnboardingState, ReminderSettings,
    SupabaseSession, WeatherLocation, ONBOARDING_STEP_ACCOUNT, ONBOARDING_STEP_BACKUP,
    ONBOARDING_STEP_COMPLETE, ONBOARDING_STEP_ESSENTIALS, ONBOARDING_STEP_WELCOME,
};
use happy_wakey::text::clean_text;
use happy_wakey::weburl::normalize_http_url;

fn location(name: &str, lat: f64, lon: f64) -> WeatherLocation {
    WeatherLocation {
        name: name.into(),
        lat_bits: lat.to_bits(),
        lon_bits: lon.to_bits(),
    }
}

#[test]
fn sanitize_symbol_normalizes_and_validates() {
    assert_eq!(sanitize_symbol(" aapl "), Some("AAPL".to_string()));
    assert_eq!(sanitize_symbol("brk.b"), Some("BRK.B".to_string()));
    assert_eq!(sanitize_symbol("btc-usd"), Some("BTC-USD".to_string()));
    assert_eq!(sanitize_symbol(""), None);
    assert_eq!(sanitize_symbol("has space"), None);
    assert_eq!(sanitize_symbol("bad$"), None);
    assert_eq!(sanitize_symbol(&"A".repeat(25)), None);
}

#[test]
fn clean_text_strips_controls_trims_and_truncates() {
    assert_eq!(clean_text("  hi\nthere\t ", 100), "hithere");
    assert_eq!(clean_text("abcdef", 3), "abc");
    // truncation is by characters, not bytes
    assert_eq!(clean_text("héllo", 2), "hé");
}

#[test]
fn sanitize_clamps_collection_sizes() {
    let mut cfg = Config::default();
    cfg.stock_symbols = (0..50).map(|i| format!("SYM{i}")).collect();
    cfg.news_keywords = (0..50).map(|i| format!("kw{i}")).collect();
    cfg.weather_locations = (0..20)
        .map(|i| location(&format!("L{i}"), 1.0, 2.0))
        .collect();
    let cfg = sanitize(cfg);
    assert_eq!(cfg.stock_symbols.len(), 20);
    assert_eq!(cfg.news_keywords.len(), 20);
    assert_eq!(cfg.weather_locations.len(), 5);
}

#[test]
fn sanitize_drops_empty_news_keywords() {
    let mut cfg = Config::default();
    cfg.news_keywords = vec!["  ".into(), "tech".into(), "".into()];
    let cfg = sanitize(cfg);
    assert_eq!(cfg.news_keywords, vec!["tech".to_string()]);
}

#[test]
fn sanitize_weather_location_rejects_out_of_range() {
    assert!(sanitize_weather_location(location("x", 91.0, 0.0)).is_none());
    assert!(sanitize_weather_location(location("x", 0.0, 181.0)).is_none());
    assert!(sanitize_weather_location(location("x", f64::NAN, 0.0)).is_none());
    assert!(sanitize_weather_location(location("  ", 0.0, 0.0)).is_none());
    assert!(sanitize_weather_location(location(" Chicago ", 41.88, -87.63)).is_some());
}

#[test]
fn normalize_http_url_behaviour() {
    assert_eq!(
        normalize_http_url("example.com").as_deref(),
        Some("https://example.com/")
    );
    assert!(normalize_http_url("http://example.com").is_some());
    assert!(normalize_http_url("ftp://example.com").is_none());
    assert!(normalize_http_url("javascript:alert(1)").is_none());
    assert!(normalize_http_url("   ").is_none());
    assert!(normalize_http_url(&format!("https://{}", "a".repeat(3000))).is_none());
}

#[test]
fn merge_editable_config_preserves_identity_and_session() {
    let mut current = Config::default();
    current.user_id = "user-123".into();
    current.supabase_session = Some(SupabaseSession {
        access_token: "keep-me".into(),
        provider: "google".into(),
        provider_token: Some("g-token".into()),
        ..Default::default()
    });

    let mut incoming = Config::default();
    // A malicious/stale client tries to overwrite identity + inject a session.
    incoming.user_id = "attacker".into();
    incoming.supabase_session = Some(SupabaseSession {
        access_token: "evil".into(),
        ..Default::default()
    });
    incoming.stock_symbols = vec!["TSLA".into()];
    incoming.onboarding = OnboardingState {
        completed: true,
        current_step: ONBOARDING_STEP_COMPLETE.into(),
        step_index: 4,
        updated_at: Some("2099-01-01T00:00:00Z".into()),
    };

    let merged = merge_editable_config(current, incoming);
    assert_eq!(merged.user_id, "user-123");
    let session = merged.supabase_session.expect("session preserved");
    assert_eq!(session.access_token, "keep-me");
    assert_eq!(session.provider_token.as_deref(), Some("g-token"));
    assert_eq!(merged.stock_symbols, vec!["TSLA".to_string()]);
    assert!(!merged.onboarding.completed);
    assert_eq!(merged.onboarding.current_step, ONBOARDING_STEP_WELCOME);
}

#[test]
fn sync_safe_config_strips_secrets() {
    let mut cfg = Config::default();
    cfg.supabase_session = Some(SupabaseSession {
        access_token: "secret".into(),
        provider_token: Some("provider-secret".into()),
        ..Default::default()
    });
    cfg.calendar_providers = vec![CalendarProvider {
        provider: "google".into(),
        access_token: "cal-token".into(),
        refresh_token: "cal-refresh".into(),
        ..Default::default()
    }];
    let safe = sync_safe_config(&cfg);
    assert!(safe.supabase_session.is_none());
    assert!(safe.calendar_providers[0].access_token.is_empty());
    assert!(safe.calendar_providers[0].refresh_token.is_empty());
}

#[test]
fn set_onboarding_state_completed_and_clamped() {
    let done = set_onboarding_state(Config::default(), "essentials", 9, true);
    assert!(done.onboarding.completed);
    assert_eq!(done.onboarding.current_step, ONBOARDING_STEP_COMPLETE);
    assert_eq!(done.onboarding.step_index, 4);
    assert!(done.onboarding.updated_at.is_some());

    let mid = set_onboarding_state(Config::default(), "backup", 2, false);
    assert!(!mid.onboarding.completed);
    assert_eq!(mid.onboarding.current_step, ONBOARDING_STEP_BACKUP);
    assert_eq!(mid.onboarding.step_index, 2);

    let unknown = set_onboarding_state(Config::default(), "bogus", -3, false);
    assert_eq!(unknown.onboarding.current_step, ONBOARDING_STEP_WELCOME);
    assert_eq!(unknown.onboarding.step_index, 0);
}

#[test]
fn merge_onboarding_prefers_completion_and_recency() {
    let local = OnboardingState {
        completed: false,
        current_step: ONBOARDING_STEP_ACCOUNT.into(),
        step_index: 1,
        updated_at: Some("2026-01-01T00:00:00Z".into()),
    };
    let remote_done = OnboardingState {
        completed: true,
        current_step: ONBOARDING_STEP_COMPLETE.into(),
        step_index: 4,
        updated_at: Some("2025-01-01T00:00:00Z".into()),
    };
    // Completion wins even though it's older.
    assert!(merge_onboarding(&local, &remote_done).completed);

    let remote_newer = OnboardingState {
        completed: false,
        current_step: ONBOARDING_STEP_BACKUP.into(),
        step_index: 2,
        updated_at: Some("2026-06-01T00:00:00Z".into()),
    };
    assert_eq!(
        merge_onboarding(&local, &remote_newer).current_step,
        ONBOARDING_STEP_BACKUP
    );

    let remote_older = OnboardingState {
        updated_at: Some("2020-01-01T00:00:00Z".into()),
        ..remote_newer.clone()
    };
    // Local is newer, so local wins.
    assert_eq!(
        merge_onboarding(&local, &remote_older).current_step,
        ONBOARDING_STEP_ACCOUNT
    );
}

#[test]
fn sanitize_onboarding_drops_bad_timestamp_and_clamps() {
    let state = OnboardingState {
        completed: false,
        current_step: "essentials".into(),
        step_index: 200,
        updated_at: Some("not-a-date".into()),
    };
    let cleaned = sanitize_onboarding_state(state);
    assert_eq!(cleaned.step_index, 4);
    assert!(cleaned.updated_at.is_none());
    assert_eq!(cleaned.current_step, ONBOARDING_STEP_ESSENTIALS);
}

#[test]
fn sanitize_reminder_offsets_sorts_deduplicates_and_clamps() {
    let cleaned = sanitize_reminder_settings(ReminderSettings {
        enabled: true,
        cloud_email_enabled: false,
        offsets_minutes: vec![10, 30, 10, 0, 1441, 5, 120, 60, 15],
    });
    assert_eq!(cleaned.offsets_minutes, vec![120, 60, 30, 15, 10]);
}

#[test]
fn sanitize_keeps_session_tokens_but_cleans_provider() {
    let mut cfg = Config::default();
    let long_token = "a.b-c_".repeat(100);
    cfg.supabase_session = Some(SupabaseSession {
        access_token: long_token.clone(),
        provider: "  google  ".into(),
        provider_token: Some(long_token.clone()),
        ..Default::default()
    });
    let cfg = sanitize(cfg);
    let session = cfg.supabase_session.unwrap();
    assert_eq!(
        session.access_token, long_token,
        "tokens must not be truncated"
    );
    assert_eq!(session.provider, "google");
}
