//! The persisted configuration and the rules that keep it clean: every
//! field is trimmed, stripped of control characters and clamped before it
//! is stored, mirrored or shown.
use vstd::prelude::*;
use vstd::string::StringExecFns;
use crate::app_state::{OnboardingStep, step_from_name, step_name};
use crate::text::{at_most, clean_text, clean_text_spec, copy_optional_text, copy_texts, trimmed, uppercase, utf8_len};
use crate::timestamp::{FIRST_SECOND_OF_YEAR_10000, is_stamp_of, later_than, rfc3339_instant};
use crate::weburl::web_url;

verus! {

pub const ONBOARDING_STEP_WELCOME: &'static str = "welcome";
pub const ONBOARDING_STEP_ACCOUNT: &'static str = "account";
pub const ONBOARDING_STEP_BACKUP: &'static str = "backup";
pub const ONBOARDING_STEP_ESSENTIALS: &'static str = "essentials";
pub const ONBOARDING_STEP_READY: &'static str = "ready";
pub const ONBOARDING_STEP_COMPLETE: &'static str = "complete";

/// The version written into every sanitized configuration.
pub const APP_VERSION: &'static str = "0.1.0";

pub const MAX_WEATHER_LOCATIONS: usize = 5;
pub const MAX_STOCK_SYMBOLS: usize = 20;
pub const MAX_NEWS_KEYWORDS: usize = 20;
pub const MAX_BOOKMARKS: usize = 50;
pub const MAX_REMINDER_OFFSETS: usize = 5;
/// Longest reminder offset, in minutes: one day.
pub const MAX_REMINDER_MINUTES: u16 = 1440;

#[derive(Debug, Clone, Default)]
pub struct SupabaseSession {
    pub access_token: String,
    pub refresh_token: String,
    pub expires_at: i64,
    pub user_id: String,
    pub email: Option<String>,
    pub provider: String,
    pub provider_token: Option<String>,
    pub provider_refresh_token: Option<String>,
}

pub struct SessionView {
    pub access_token: Seq<char>,
    pub refresh_token: Seq<char>,
    pub expires_at: i64,
    pub user_id: Seq<char>,
    pub email: Option<Seq<char>>,
    pub provider: Seq<char>,
    pub provider_token: Option<Seq<char>>,
    pub provider_refresh_token: Option<Seq<char>>,
}

impl View for SupabaseSession {
    type V = SessionView;

    open spec fn view(&self) -> SessionView {
        SessionView {
            access_token: self.access_token@,
            refresh_token: self.refresh_token@,
            expires_at: self.expires_at,
            user_id: self.user_id@,
            email: self.email.deep_view(),
            provider: self.provider@,
            provider_token: self.provider_token.deep_view(),
            provider_refresh_token: self.provider_refresh_token.deep_view(),
        }
    }
}

#[derive(Debug, Clone, Default)]
pub struct CalendarProvider {
    pub provider: String,
    pub email: String,
    pub access_token: String,
    pub refresh_token: String,
    pub expires_at: i64,
}

pub struct CalendarProviderView {
    pub provider: Seq<char>,
    pub email: Seq<char>,
    pub access_token: Seq<char>,
    pub refresh_token: Seq<char>,
    pub expires_at: i64,
}

impl View for CalendarProvider {
    type V = CalendarProviderView;

    open spec fn view(&self) -> CalendarProviderView {
        CalendarProviderView {
            provider: self.provider@,
            email: self.email@,
            access_token: self.access_token@,
            refresh_token: self.refresh_token@,
            expires_at: self.expires_at,
        }
    }
}

/// A weather location. Its coordinates are kept as the IEEE-754 bit
/// patterns of the degrees (`f64::to_bits`), so that they pass through
/// unchanged.
#[derive(Debug, Clone)]
pub struct WeatherLocation {
    pub name: String,
    pub lat_bits: u64,
    pub lon_bits: u64,
}

pub struct WeatherLocationView {
    pub name: Seq<char>,
    pub lat_bits: u64,
    pub lon_bits: u64,
}

impl View for WeatherLocation {
    type V = WeatherLocationView;

    open spec fn view(&self) -> WeatherLocationView {
        WeatherLocationView { name: self.name@, lat_bits: self.lat_bits, lon_bits: self.lon_bits }
    }
}

#[derive(Debug, Clone)]
pub struct Bookmark {
    pub id: String,
    pub title: String,
    pub url: String,
}

pub struct BookmarkView {
    pub id: Seq<char>,
    pub title: Seq<char>,
    pub url: Seq<char>,
}

impl View for Bookmark {
    type V = BookmarkView;

    open spec fn view(&self) -> BookmarkView {
        BookmarkView { id: self.id@, title: self.title@, url: self.url@ }
    }
}

#[derive(Debug, Clone)]
pub struct OnboardingState {
    pub completed: bool,
    pub current_step: String,
    pub step_index: u8,
    pub updated_at: Option<String>,
}

pub struct OnboardingStateView {
    pub completed: bool,
    pub current_step: Seq<char>,
    pub step_index: u8,
    pub updated_at: Option<Seq<char>>,
}

impl View for OnboardingState {
    type V = OnboardingStateView;

    open spec fn view(&self) -> OnboardingStateView {
        OnboardingStateView {
            completed: self.completed,
            current_step: self.current_step@,
            step_index: self.step_index,
            updated_at: self.updated_at.deep_view(),
        }
    }
}

#[derive(Debug, Clone)]
pub struct ReminderSettings {
    pub enabled: bool,
    pub cloud_email_enabled: bool,
    pub offsets_minutes: Vec<u16>,
}

pub struct ReminderSettingsView {
    pub enabled: bool,
    pub cloud_email_enabled: bool,
    pub offsets_minutes: Seq<u16>,
}

impl View for ReminderSettings {
    type V = ReminderSettingsView;

    open spec fn view(&self) -> ReminderSettingsView {
        ReminderSettingsView {
            enabled: self.enabled,
            cloud_email_enabled: self.cloud_email_enabled,
            offsets_minutes: self.offsets_minutes@,
        }
    }
}

#[derive(Debug, Clone)]
pub struct Config {
    pub version: String,
    pub user_id: String,
    pub supabase_session: Option<SupabaseSession>,
    pub calendar_providers: Vec<CalendarProvider>,
    pub weather_locations: Vec<WeatherLocation>,
    pub stock_symbols: Vec<String>,
    pub news_keywords: Vec<String>,
    pub browser_bookmarks: Vec<Bookmark>,
    pub git_repo_path: Option<String>,
    pub supabase_sync_enabled: bool,
    pub onboarding: OnboardingState,
    pub reminder_settings: ReminderSettings,
}

pub struct ConfigView {
    pub version: Seq<char>,
    pub user_id: Seq<char>,
    pub supabase_session: Option<SessionView>,
    pub calendar_providers: Seq<CalendarProviderView>,
    pub weather_locations: Seq<WeatherLocationView>,
    pub stock_symbols: Seq<Seq<char>>,
    pub news_keywords: Seq<Seq<char>>,
    pub browser_bookmarks: Seq<BookmarkView>,
    pub git_repo_path: Option<Seq<char>>,
    pub supabase_sync_enabled: bool,
    pub onboarding: OnboardingStateView,
    pub reminder_settings: ReminderSettingsView,
}

pub open spec fn session_view(session: Option<SupabaseSession>) -> Option<SessionView> {
    match session {
        Some(s) => Some(s@),
        None => None,
    }
}

impl View for Config {
    type V = ConfigView;

    open spec fn view(&self) -> ConfigView {
        ConfigView {
            version: self.version@,
            user_id: self.user_id@,
            supabase_session: session_view(self.supabase_session),
            calendar_providers: self.calendar_providers@.map_values(|p: CalendarProvider| p@),
            weather_locations: self.weather_locations@.map_values(|l: WeatherLocation| l@),
            stock_symbols: self.stock_symbols.deep_view(),
            news_keywords: self.news_keywords.deep_view(),
            browser_bookmarks: self.browser_bookmarks@.map_values(|b: Bookmark| b@),
            git_repo_path: self.git_repo_path.deep_view(),
            supabase_sync_enabled: self.supabase_sync_enabled,
            onboarding: self.onboarding@,
            reminder_settings: self.reminder_settings@,
        }
    }
}

/// `Some(s)` unless `s` is empty.
pub open spec fn nonempty(s: Seq<char>) -> Option<Seq<char>> {
    if s.len() == 0 {
        None
    } else {
        Some(s)
    }
}

/// Characters a ticker symbol may hold: ASCII letters and digits, `.`,
/// `-`, `_` and `=`.
pub open spec fn is_symbol_char(c: char) -> bool {
    let v = c as u32;
    ||| 0x41 <= v <= 0x5A
    ||| 0x61 <= v <= 0x7A
    ||| 0x30 <= v <= 0x39
    ||| v == 0x2E
    ||| v == 0x2D
    ||| v == 0x5F
    ||| v == 0x3D
}

/// Longest symbol, in UTF-8 bytes.
pub const MAX_SYMBOL_BYTES: usize = 24;

/// A ticker symbol, trimmed and upper-cased, if what remains is a non-empty
/// run of at most 24 bytes of symbol characters.
pub open spec fn symbol_spec(raw: Seq<char>) -> Option<Seq<char>> {
    let s = uppercase(trimmed(raw));
    if s.len() == 0 || utf8_len(s) > MAX_SYMBOL_BYTES || !(forall|i: int|
        0 <= i < s.len() ==> is_symbol_char(#[trigger] s[i])) {
        None
    } else {
        Some(s)
    }
}

/// Clears the sign bit of an IEEE-754 double's bit pattern.
pub const MAGNITUDE_MASK: u64 = 0x7FFF_FFFF_FFFF_FFFF;
/// Bit pattern of 90.0.
pub const MAX_LATITUDE_BITS: u64 = 0x4056_8000_0000_0000;
/// Bit pattern of 180.0.
pub const MAX_LONGITUDE_BITS: u64 = 0x4066_8000_0000_0000;

/// Whether a latitude and longitude, given as bit patterns, are finite and
/// within [-90, 90] and [-180, 180]. For a double that is not NaN, the
/// magnitude bits order as the magnitudes do, and NaN and the infinities
/// have magnitude bits above every finite value, so one comparison of the
/// magnitude bits decides both finiteness and range.
pub open spec fn coordinates_in_range(lat_bits: u64, lon_bits: u64) -> bool {
    (lat_bits & MAGNITUDE_MASK) <= MAX_LATITUDE_BITS && (lon_bits & MAGNITUDE_MASK)
        <= MAX_LONGITUDE_BITS
}

pub open spec fn sanitized_location(location: WeatherLocationView) -> Option<WeatherLocationView> {
    let name = clean_text_spec(location.name, 80);
    if name.len() == 0 || !coordinates_in_range(location.lat_bits, location.lon_bits) {
        None
    } else {
        Some(WeatherLocationView { name, ..location })
    }
}

pub open spec fn sanitized_bookmark(bookmark: BookmarkView) -> Option<BookmarkView> {
    match web_url(bookmark.url) {
        None => None,
        Some(url) => {
            let title = clean_text_spec(bookmark.title, 120);
            Some(
                BookmarkView {
                    id: clean_text_spec(bookmark.id, 64),
                    title: if title.len() == 0 {
                        url
                    } else {
                        title
                    },
                    url,
                },
            )
        },
    }
}

pub open spec fn sanitized_keyword(keyword: Seq<char>) -> Option<Seq<char>> {
    nonempty(clean_text_spec(keyword, 64))
}

pub open spec fn sanitized_provider(provider: CalendarProviderView) -> CalendarProviderView {
    CalendarProviderView {
        provider: clean_text_spec(provider.provider, 64),
        email: clean_text_spec(provider.email, 254),
        ..provider
    }
}

/// Session text fields are cleaned; tokens are opaque and left untouched.
pub open spec fn sanitized_session(session: SessionView) -> SessionView {
    SessionView {
        user_id: clean_text_spec(session.user_id, 128),
        email: match session.email {
            Some(email) => Some(clean_text_spec(email, 254)),
            None => None,
        },
        provider: clean_text_spec(session.provider, 32),
        ..session
    }
}

/// The persisted name of the step that `step` and `completed` stand for.
pub open spec fn normalized_step_name(step: Seq<char>, completed: bool) -> Seq<char> {
    step_name(
        if completed {
            OnboardingStep::Complete
        } else {
            step_from_name(trimmed(step))
        },
    )@
}

/// A timestamp survives only if it parses as RFC 3339.
pub open spec fn valid_timestamp(timestamp: Option<Seq<char>>) -> Option<Seq<char>> {
    match timestamp {
        Some(t) => if rfc3339_instant(t) is Some {
            Some(t)
        } else {
            None
        },
        None => None,
    }
}

pub open spec fn sanitized_onboarding(state: OnboardingStateView) -> OnboardingStateView {
    OnboardingStateView {
        completed: state.completed,
        current_step: normalized_step_name(state.current_step, state.completed),
        step_index: if state.step_index > 4 {
            4
        } else {
            state.step_index
        },
        updated_at: valid_timestamp(state.updated_at),
    }
}

/// A reminder offset that may be kept: one minute to one day.
pub open spec fn offset_in_range(minutes: u16) -> bool {
    1 <= minutes <= MAX_REMINDER_MINUTES
}

/// The largest in-range offset of `offsets` that is below `bound`.
pub open spec fn largest_offset_below(offsets: Seq<u16>, bound: int) -> Option<u16>
    decreases offsets.len(),
{
    if offsets.len() == 0 {
        None
    } else {
        let rest = largest_offset_below(offsets.drop_last(), bound);
        let x = offsets.last();
        if offset_in_range(x) && x < bound {
            match rest {
                Some(m) => if x > m {
                    Some(x)
                } else {
                    Some(m)
                },
                None => Some(x),
            }
        } else {
            rest
        }
    }
}

/// The `count` largest distinct in-range offsets below `bound`, largest
/// first.
pub open spec fn top_offsets(offsets: Seq<u16>, bound: int, count: nat) -> Seq<u16>
    decreases count,
{
    if count == 0 {
        Seq::empty()
    } else {
        match largest_offset_below(offsets, bound) {
            None => Seq::empty(),
            Some(m) => seq![m] + top_offsets(offsets, m as int, (count - 1) as nat),
        }
    }
}

/// Reminder offsets: those from one minute to one day, without repeats,
/// latest first, at most five of them.
pub open spec fn sanitized_reminders(settings: ReminderSettingsView) -> ReminderSettingsView {
    ReminderSettingsView {
        offsets_minutes: top_offsets(
            settings.offsets_minutes,
            0x10000,
            MAX_REMINDER_OFFSETS as nat,
        ),
        ..settings
    }
}

/// What `sanitize` makes of a configuration.
pub open spec fn sanitized(config: ConfigView) -> ConfigView {
    ConfigView {
        version: APP_VERSION@,
        user_id: clean_text_spec(config.user_id, 128),
        weather_locations: at_most(
            config.weather_locations.filter_map(|l: WeatherLocationView| sanitized_location(l)),
            MAX_WEATHER_LOCATIONS as nat,
        ),
        stock_symbols: at_most(
            config.stock_symbols.filter_map(|s: Seq<char>| symbol_spec(s)),
            MAX_STOCK_SYMBOLS as nat,
        ),
        news_keywords: at_most(
            config.news_keywords.filter_map(|k: Seq<char>| sanitized_keyword(k)),
            MAX_NEWS_KEYWORDS as nat,
        ),
        browser_bookmarks: at_most(
            config.browser_bookmarks.filter_map(|b: BookmarkView| sanitized_bookmark(b)),
            MAX_BOOKMARKS as nat,
        ),
        git_repo_path: match config.git_repo_path {
            Some(path) => nonempty(clean_text_spec(path, 512)),
            None => None,
        },
        calendar_providers: config.calendar_providers.map_values(
            |p: CalendarProviderView| sanitized_provider(p),
        ),
        supabase_session: match config.supabase_session {
            Some(session) => Some(sanitized_session(session)),
            None => None,
        },
        onboarding: sanitized_onboarding(config.onboarding),
        reminder_settings: sanitized_reminders(config.reminder_settings),
        ..config
    }
}

/// The configuration as it may leave the machine: sanitized, without the
/// session, and with every calendar token blanked.
pub open spec fn sync_safe(config: ConfigView) -> ConfigView {
    let safe = sanitized(config);
    ConfigView {
        supabase_session: None,
        calendar_providers: safe.calendar_providers.map_values(
            |p: CalendarProviderView|
                CalendarProviderView { access_token: Seq::empty(), refresh_token: Seq::empty(), ..p },
        ),
        ..safe
    }
}

/// The user-editable fields of `incoming`, sanitized, over `current`; the
/// identity, session, calendar accounts and onboarding of `current` stay.
pub open spec fn merged_editable(current: ConfigView, incoming: ConfigView) -> ConfigView {
    let incoming = sanitized(incoming);
    sanitized(
        ConfigView {
            weather_locations: incoming.weather_locations,
            stock_symbols: incoming.stock_symbols,
            news_keywords: incoming.news_keywords,
            browser_bookmarks: incoming.browser_bookmarks,
            git_repo_path: incoming.git_repo_path,
            supabase_sync_enabled: incoming.supabase_sync_enabled,
            reminder_settings: incoming.reminder_settings,
            ..current
        },
    )
}

/// `index` clamped to the step indices 0 ..= 4.
pub open spec fn clamped_step_index(index: i32) -> u8 {
    if index < 0 {
        0
    } else if index > 4 {
        4
    } else {
        index as u8
    }
}

/// The configuration with its onboarding record replaced, stamped with
/// `updated_at`, then sanitized.
pub open spec fn with_onboarding_state(
    config: ConfigView,
    step: Seq<char>,
    index: i32,
    completed: bool,
    updated_at: Option<Seq<char>>,
) -> ConfigView {
    sanitized(
        ConfigView {
            onboarding: OnboardingStateView {
                completed,
                current_step: normalized_step_name(step, completed),
                step_index: clamped_step_index(index),
                updated_at,
            },
            ..config
        },
    )
}

/// `result` is `config` with the onboarding record replaced and stamped
/// with a clock reading; without a stamp when the clock could not be read.
/// A reading before the year 10000 survives sanitizing as the stamp.
pub open spec fn stamped_onboarding(
    result: ConfigView,
    config: ConfigView,
    step: Seq<char>,
    index: i32,
    completed: bool,
) -> bool {
    ||| exists|now: Seq<char>, seconds: i64, nanos: u32|
        #[trigger] is_stamp_of(now, seconds, nanos) && result == with_onboarding_state(
            config,
            step,
            index,
            completed,
            Some(now),
        ) && (seconds < FIRST_SECOND_OF_YEAR_10000 ==> result.onboarding.updated_at == Some(now))
    ||| result == with_onboarding_state(config, step, index, completed, None)
}

/// The instant a record was last updated, if it carries a readable one.
pub open spec fn updated_instant(state: OnboardingStateView) -> Option<(i64, u32)> {
    match state.updated_at {
        Some(t) => rfc3339_instant(t),
        None => None,
    }
}

/// Whether the remote onboarding record wins over the local one: a remote
/// completion always does; otherwise the one updated later does, and a
/// timestamp beats none.
pub open spec fn remote_onboarding_wins(local: OnboardingStateView, remote: OnboardingStateView) -> bool {
    if remote.completed && !local.completed {
        true
    } else {
        match (updated_instant(local), updated_instant(remote)) {
            (Some(l), Some(r)) => later_than(r, l),
            (None, Some(_)) => true,
            _ => false,
        }
    }
}

pub open spec fn merged_onboarding(local: OnboardingStateView, remote: OnboardingStateView) -> OnboardingStateView {
    if remote_onboarding_wins(local, remote) {
        sanitized_onboarding(remote)
    } else {
        sanitized_onboarding(local)
    }
}

fn is_symbol_character(c: char) -> (r: bool)
    ensures
        r == is_symbol_char(c),
{
    let v = c as u32;
    (0x41 <= v && v <= 0x5A) || (0x61 <= v && v <= 0x7A) || (0x30 <= v && v <= 0x39) || v == 0x2E
        || v == 0x2D || v == 0x5F || v == 0x3D
}

/// Keeps an upper-cased symbol if it is a non-empty run of at most 24 bytes
/// of symbol characters.
pub fn accept_symbol(upper: String) -> (r: Option<String>)
    ensures
        match r {
            Some(s) => s@ == upper@ && upper@.len() != 0 && utf8_len(upper@) <= MAX_SYMBOL_BYTES
                && forall|i: int| 0 <= i < upper@.len() ==> is_symbol_char(#[trigger] upper@[i]),
            None => !(upper@.len() != 0 && utf8_len(upper@) <= MAX_SYMBOL_BYTES && forall|i: int|
                0 <= i < upper@.len() ==> is_symbol_char(#[trigger] upper@[i])),
        },
{
    let text = upper.as_str();
    let n = text.unicode_len();
    proof {
        crate::text::lemma_utf8_len_bounds(upper@);
    }
    if n == 0 || n > MAX_SYMBOL_BYTES || text.len() > MAX_SYMBOL_BYTES {
        return None;
    }
    let chars = crate::text::chars_of(text);
    let mut i: usize = 0;
    while i < chars.len()
        invariant
            chars@ == upper@,
            i <= chars.len(),
            forall|j: int| 0 <= j < i ==> is_symbol_char(#[trigger] chars@[j]),
        decreases chars.len() - i,
    {
        if !is_symbol_character(chars[i]) {
            return None;
        }
        i = i + 1;
    }
    Some(upper)
}

/// Trims and upper-cases a ticker symbol; refuses it unless it is a
/// non-empty run of at most 24 bytes of ASCII letters, digits, `.`, `-`,
/// `_` and `=`.
pub fn sanitize_symbol(symbol: &str) -> (r: Option<String>)
    ensures
        match r {
            Some(s) => symbol_spec(symbol@) == Some(s@),
            None => symbol_spec(symbol@) is None,
        },
{
    accept_symbol(crate::text::to_uppercase(crate::text::trim(symbol)))
}

/// Keeps a weather location whose cleaned name is not empty and whose
/// coordinates are finite and in range.
pub fn sanitize_weather_location(location: WeatherLocation) -> (r: Option<WeatherLocation>)
    ensures
        match r {
            Some(l) => sanitized_location(location@) == Some(l@),
            None => sanitized_location(location@) is None,
        },
{
    let name = clean_text(location.name.as_str(), 80);
    if name.as_str().is_empty() || (location.lat_bits & MAGNITUDE_MASK) > MAX_LATITUDE_BITS || (
    location.lon_bits & MAGNITUDE_MASK) > MAX_LONGITUDE_BITS {
        return None;
    }
    Some(WeatherLocation { name, lat_bits: location.lat_bits, lon_bits: location.lon_bits })
}

/// Keeps a bookmark whose address is an http(s) URL; cleans its id and
/// title, and titles it with its address when the title is blank.
pub fn sanitize_bookmark(bookmark: Bookmark) -> (r: Option<Bookmark>)
    ensures
        match r {
            Some(b) => sanitized_bookmark(bookmark@) == Some(b@),
            None => sanitized_bookmark(bookmark@) is None,
        },
{
    let url = match crate::weburl::normalize_http_url(bookmark.url.as_str()) {
        Some(url) => url,
        None => {
            return None;
        },
    };
    let title = clean_text(bookmark.title.as_str(), 120);
    let title = if title.as_str().is_empty() {
        url.clone()
    } else {
        title
    };
    Some(Bookmark { id: clean_text(bookmark.id.as_str(), 64), title, url })
}

/// Cleans a calendar account's provider name and e-mail; its tokens stay.
pub fn sanitize_calendar_provider(provider: CalendarProvider) -> (r: CalendarProvider)
    ensures
        r@ == sanitized_provider(provider@),
{
    let CalendarProvider { provider: name, email, access_token, refresh_token, expires_at } =
        provider;
    CalendarProvider {
        provider: clean_text(name.as_str(), 64),
        email: clean_text(email.as_str(), 254),
        access_token,
        refresh_token,
        expires_at,
    }
}

/// The persisted name of the step that `step` and `completed` stand for.
pub fn normalize_onboarding_step(step: &str, completed: bool) -> (r: String)
    ensures
        r@ == normalized_step_name(step@, completed),
{
    String::from_str(OnboardingStep::from_persisted(step, completed).as_str())
}

/// Clamps the step index, normalises the step name, and drops a timestamp
/// that does not parse.
pub fn sanitize_onboarding_state(state: OnboardingState) -> (r: OnboardingState)
    ensures
        r@ == sanitized_onboarding(state@),
{
    let OnboardingState { completed, current_step, step_index, updated_at } = state;
    let updated_at = match updated_at {
        Some(t) => if crate::timestamp::parse_timestamp(t.as_str()).is_some() {
            Some(t)
        } else {
            None
        },
        None => None,
    };
    OnboardingState {
        completed,
        current_step: normalize_onboarding_step(current_step.as_str(), completed),
        step_index: if step_index > 4 {
            4
        } else {
            step_index
        },
        updated_at,
    }
}

fn largest_offset(offsets: &Vec<u16>, bound: u32) -> (r: Option<u16>)
    ensures
        r == largest_offset_below(offsets@, bound as int),
{
    let mut best: Option<u16> = None;
    let mut i: usize = 0;
    while i < offsets.len()
        invariant
            i <= offsets.len(),
            best == largest_offset_below(offsets@.take(i as int), bound as int),
        decreases offsets.len() - i,
    {
        let x = offsets[i];
        assert(offsets@.take(i as int + 1).drop_last() =~= offsets@.take(i as int));
        if 1 <= x && x <= MAX_REMINDER_MINUTES && (x as u32) < bound {
            best = match best {
                Some(m) => if x > m {
                    Some(x)
                } else {
                    Some(m)
                },
                None => Some(x),
            };
        }
        i = i + 1;
    }
    assert(offsets@.take(offsets@.len() as int) =~= offsets@);
    best
}

/// Keeps the offsets from one minute to one day, latest first, without
/// repeats, at most five of them.
pub fn sanitize_reminder_settings(settings: ReminderSettings) -> (r: ReminderSettings)
    ensures
        r@ == sanitized_reminders(settings@),
{
    let ReminderSettings { enabled, cloud_email_enabled, offsets_minutes } = settings;
    let ghost all = top_offsets(offsets_minutes@, 0x10000, MAX_REMINDER_OFFSETS as nat);
    let mut kept: Vec<u16> = Vec::new();
    let mut bound: u32 = 0x10000;
    let mut count: usize = 0;
    let mut done = false;
    assert(kept@ + all =~= all);
    while count < MAX_REMINDER_OFFSETS && !done
        invariant
            count <= MAX_REMINDER_OFFSETS,
            bound <= 0x10000,
            kept@ + top_offsets(offsets_minutes@, bound as int, (MAX_REMINDER_OFFSETS - count) as nat)
                == all,
            done ==> top_offsets(
                offsets_minutes@,
                bound as int,
                (MAX_REMINDER_OFFSETS - count) as nat,
            ) =~= Seq::<u16>::empty(),
        decreases 2 * (MAX_REMINDER_OFFSETS - count) + if done {
            0int
        } else {
            1int
        },
    {
        let ghost rest = top_offsets(offsets_minutes@, bound as int, (MAX_REMINDER_OFFSETS - count) as nat);
        match largest_offset(&offsets_minutes, bound) {
            None => {
                done = true;
            },
            Some(m) => {
                let ghost after = top_offsets(
                    offsets_minutes@,
                    m as int,
                    (MAX_REMINDER_OFFSETS - count - 1) as nat,
                );
                assert(rest == seq![m] + after);
                assert(kept@.push(m) + after =~= kept@ + (seq![m] + after));
                kept.push(m);
                bound = m as u32;
                count = count + 1;
            },
        }
    }
    if !done {
        assert(top_offsets(offsets_minutes@, bound as int, 0) =~= Seq::<u16>::empty());
    }
    assert(kept@ =~= all);
    ReminderSettings { enabled, cloud_email_enabled, offsets_minutes: kept }
}

impl WeatherLocation {
    pub fn duplicate(&self) -> (r: WeatherLocation)
        ensures
            r@ == self@,
    {
        WeatherLocation { name: self.name.clone(), lat_bits: self.lat_bits, lon_bits: self.lon_bits }
    }
}

impl Bookmark {
    pub fn duplicate(&self) -> (r: Bookmark)
        ensures
            r@ == self@,
    {
        Bookmark { id: self.id.clone(), title: self.title.clone(), url: self.url.clone() }
    }
}

impl CalendarProvider {
    pub fn duplicate(&self) -> (r: CalendarProvider)
        ensures
            r@ == self@,
    {
        CalendarProvider {
            provider: self.provider.clone(),
            email: self.email.clone(),
            access_token: self.access_token.clone(),
            refresh_token: self.refresh_token.clone(),
            expires_at: self.expires_at,
        }
    }
}

impl SupabaseSession {
    pub fn duplicate(&self) -> (r: SupabaseSession)
        ensures
            r@ == self@,
    {
        SupabaseSession {
            access_token: self.access_token.clone(),
            refresh_token: self.refresh_token.clone(),
            expires_at: self.expires_at,
            user_id: self.user_id.clone(),
            email: copy_optional_text(&self.email),
            provider: self.provider.clone(),
            provider_token: copy_optional_text(&self.provider_token),
            provider_refresh_token: copy_optional_text(&self.provider_refresh_token),
        }
    }
}

impl OnboardingState {
    pub fn duplicate(&self) -> (r: OnboardingState)
        ensures
            r@ == self@,
    {
        OnboardingState {
            completed: self.completed,
            current_step: self.current_step.clone(),
            step_index: self.step_index,
            updated_at: copy_optional_text(&self.updated_at),
        }
    }
}

fn copy_offsets(v: &Vec<u16>) -> (r: Vec<u16>)
    ensures
        r@ == v@,
{
    let mut r: Vec<u16> = Vec::new();
    let mut i: usize = 0;
    while i < v.len()
        invariant
            i <= v.len(),
            r@ == v@.take(i as int),
        decreases v.len() - i,
    {
        r.push(v[i]);
        assert(r@ =~= v@.take(i + 1));
        i = i + 1;
    }
    assert(v@.take(v.len() as int) =~= v@);
    r
}

impl ReminderSettings {
    pub fn duplicate(&self) -> (r: ReminderSettings)
        ensures
            r@ == self@,
    {
        ReminderSettings {
            enabled: self.enabled,
            cloud_email_enabled: self.cloud_email_enabled,
            offsets_minutes: copy_offsets(&self.offsets_minutes),
        }
    }
}

fn copy_locations(v: &Vec<WeatherLocation>) -> (r: Vec<WeatherLocation>)
    ensures
        r@.map_values(|l: WeatherLocation| l@) == v@.map_values(|l: WeatherLocation| l@),
{
    let mut r: Vec<WeatherLocation> = Vec::new();
    let mut i: usize = 0;
    while i < v.len()
        invariant
            i <= v.len(),
            r@.len() == i,
            forall|j: int| 0 <= j < i ==> (#[trigger] r@[j])@ == v@[j]@,
        decreases v.len() - i,
    {
        r.push(v[i].duplicate());
        i = i + 1;
    }
    assert(r@.map_values(|l: WeatherLocation| l@) =~= v@.map_values(|l: WeatherLocation| l@));
    r
}

fn copy_bookmarks(v: &Vec<Bookmark>) -> (r: Vec<Bookmark>)
    ensures
        r@.map_values(|b: Bookmark| b@) == v@.map_values(|b: Bookmark| b@),
{
    let mut r: Vec<Bookmark> = Vec::new();
    let mut i: usize = 0;
    while i < v.len()
        invariant
            i <= v.len(),
            r@.len() == i,
            forall|j: int| 0 <= j < i ==> (#[trigger] r@[j])@ == v@[j]@,
        decreases v.len() - i,
    {
        r.push(v[i].duplicate());
        i = i + 1;
    }
    assert(r@.map_values(|b: Bookmark| b@) =~= v@.map_values(|b: Bookmark| b@));
    r
}

fn copy_providers(v: &Vec<CalendarProvider>) -> (r: Vec<CalendarProvider>)
    ensures
        r@.map_values(|p: CalendarProvider| p@) == v@.map_values(|p: CalendarProvider| p@),
{
    let mut r: Vec<CalendarProvider> = Vec::new();
    let mut i: usize = 0;
    while i < v.len()
        invariant
            i <= v.len(),
            r@.len() == i,
            forall|j: int| 0 <= j < i ==> (#[trigger] r@[j])@ == v@[j]@,
        decreases v.len() - i,
    {
        r.push(v[i].duplicate());
        i = i + 1;
    }
    assert(r@.map_values(|p: CalendarProvider| p@) =~= v@.map_values(|p: CalendarProvider| p@));
    r
}

impl Config {
    pub fn duplicate(&self) -> (r: Config)
        ensures
            r@ == self@,
    {
        let supabase_session = match &self.supabase_session {
            Some(s) => Some(s.duplicate()),
            None => None,
        };
        Config {
            version: self.version.clone(),
            user_id: self.user_id.clone(),
            supabase_session,
            calendar_providers: copy_providers(&self.calendar_providers),
            weather_locations: copy_locations(&self.weather_locations),
            stock_symbols: copy_texts(&self.stock_symbols),
            news_keywords: copy_texts(&self.news_keywords),
            browser_bookmarks: copy_bookmarks(&self.browser_bookmarks),
            git_repo_path: copy_optional_text(&self.git_repo_path),
            supabase_sync_enabled: self.supabase_sync_enabled,
            onboarding: self.onboarding.duplicate(),
            reminder_settings: self.reminder_settings.duplicate(),
        }
    }
}

/// The first five sound weather locations, each sanitized.
pub fn sanitize_weather_locations(v: &Vec<WeatherLocation>) -> (r: Vec<WeatherLocation>)
    ensures
        r@.map_values(|l: WeatherLocation| l@) == at_most(
            v@.map_values(|l: WeatherLocation| l@).filter_map(
                |l: WeatherLocationView| sanitized_location(l),
            ),
            MAX_WEATHER_LOCATIONS as nat,
        ),
{
    let ghost input = v@.map_values(|l: WeatherLocation| l@);
    let ghost f = |l: WeatherLocationView| sanitized_location(l);
    let mut r: Vec<WeatherLocation> = Vec::new();
    let mut i: usize = 0;
    while i < v.len()
        invariant
            i <= v.len(),
            input == v@.map_values(|l: WeatherLocation| l@),
            f == (|l: WeatherLocationView| sanitized_location(l)),
            r@.map_values(|l: WeatherLocation| l@) == at_most(
                input.take(i as int).filter_map(f),
                MAX_WEATHER_LOCATIONS as nat,
            ),
        decreases v.len() - i,
    {
        proof {
            crate::text::lemma_filter_map_take(input, f, i as int);
        }
        let ghost before = r@;
        if r.len() < MAX_WEATHER_LOCATIONS {
            match sanitize_weather_location(v[i].duplicate()) {
                Some(l) => {
                    proof {
                        crate::text::lemma_at_most_push(
                            input.take(i as int).filter_map(f),
                            l@,
                            MAX_WEATHER_LOCATIONS as nat,
                        );
                    }
                    r.push(l);
                    assert(r@.map_values(|l: WeatherLocation| l@) =~= before.map_values(
                        |l: WeatherLocation| l@,
                    ).push(l@));
                },
                None => {},
            }
        } else {
            proof {
                if let Some(x) = f(input[i as int]) {
                    crate::text::lemma_at_most_push(
                        input.take(i as int).filter_map(f),
                        x,
                        MAX_WEATHER_LOCATIONS as nat,
                    );
                }
            }
        }
        i = i + 1;
    }
    assert(input.take(v.len() as int) =~= input);
    r
}

/// The first twenty valid ticker symbols, each normalised.
pub fn sanitize_symbols(v: &Vec<String>) -> (r: Vec<String>)
    ensures
        r.deep_view() == at_most(
            v.deep_view().filter_map(|s: Seq<char>| symbol_spec(s)),
            MAX_STOCK_SYMBOLS as nat,
        ),
{
    let ghost input = v.deep_view();
    let ghost f = |s: Seq<char>| symbol_spec(s);
    let mut r: Vec<String> = Vec::new();
    let mut i: usize = 0;
    while i < v.len()
        invariant
            i <= v.len(),
            input == v.deep_view(),
            f == (|s: Seq<char>| symbol_spec(s)),
            r.deep_view() == at_most(input.take(i as int).filter_map(f), MAX_STOCK_SYMBOLS as nat),
        decreases v.len() - i,
    {
        proof {
            crate::text::lemma_filter_map_take(input, f, i as int);
            if let Some(x) = f(input[i as int]) {
                crate::text::lemma_at_most_push(
                    input.take(i as int).filter_map(f),
                    x,
                    MAX_STOCK_SYMBOLS as nat,
                );
            }
        }
        let ghost before = r;
        if r.len() < MAX_STOCK_SYMBOLS {
            match sanitize_symbol(v[i].as_str()) {
                Some(s) => {
                    r.push(s);
                    proof {
                        crate::text::lemma_texts_push(before, r, s);
                    }
                },
                None => {},
            }
        }
        i = i + 1;
    }
    assert(input.take(v.len() as int) =~= input);
    r
}

/// The first twenty keywords that are not blank once cleaned.
pub fn sanitize_news_keywords(v: &Vec<String>) -> (r: Vec<String>)
    ensures
        r.deep_view() == at_most(
            v.deep_view().filter_map(|k: Seq<char>| sanitized_keyword(k)),
            MAX_NEWS_KEYWORDS as nat,
        ),
{
    let ghost input = v.deep_view();
    let ghost f = |k: Seq<char>| sanitized_keyword(k);
    let mut r: Vec<String> = Vec::new();
    let mut i: usize = 0;
    while i < v.len()
        invariant
            i <= v.len(),
            input == v.deep_view(),
            f == (|k: Seq<char>| sanitized_keyword(k)),
            r.deep_view() == at_most(input.take(i as int).filter_map(f), MAX_NEWS_KEYWORDS as nat),
        decreases v.len() - i,
    {
        proof {
            crate::text::lemma_filter_map_take(input, f, i as int);
            if let Some(x) = f(input[i as int]) {
                crate::text::lemma_at_most_push(
                    input.take(i as int).filter_map(f),
                    x,
                    MAX_NEWS_KEYWORDS as nat,
                );
            }
        }
        let ghost before = r;
        if r.len() < MAX_NEWS_KEYWORDS {
            let keyword = clean_text(v[i].as_str(), 64);
            if !keyword.as_str().is_empty() {
                r.push(keyword);
                proof {
                    crate::text::lemma_texts_push(before, r, keyword);
                }
            }
        }
        i = i + 1;
    }
    assert(input.take(v.len() as int) =~= input);
    r
}

/// The first fifty bookmarks with usable addresses, each sanitized.
pub fn sanitize_bookmarks(v: &Vec<Bookmark>) -> (r: Vec<Bookmark>)
    ensures
        r@.map_values(|b: Bookmark| b@) == at_most(
            v@.map_values(|b: Bookmark| b@).filter_map(|b: BookmarkView| sanitized_bookmark(b)),
            MAX_BOOKMARKS as nat,
        ),
{
    let ghost input = v@.map_values(|b: Bookmark| b@);
    let ghost f = |b: BookmarkView| sanitized_bookmark(b);
    let mut r: Vec<Bookmark> = Vec::new();
    let mut i: usize = 0;
    while i < v.len()
        invariant
            i <= v.len(),
            input == v@.map_values(|b: Bookmark| b@),
            f == (|b: BookmarkView| sanitized_bookmark(b)),
            r@.map_values(|b: Bookmark| b@) == at_most(
                input.take(i as int).filter_map(f),
                MAX_BOOKMARKS as nat,
            ),
        decreases v.len() - i,
    {
        proof {
            crate::text::lemma_filter_map_take(input, f, i as int);
            if let Some(x) = f(input[i as int]) {
                crate::text::lemma_at_most_push(
                    input.take(i as int).filter_map(f),
                    x,
                    MAX_BOOKMARKS as nat,
                );
            }
        }
        let ghost before = r@;
        if r.len() < MAX_BOOKMARKS {
            match sanitize_bookmark(v[i].duplicate()) {
                Some(b) => {
                    r.push(b);
                    assert(r@.map_values(|b: Bookmark| b@) =~= before.map_values(|b: Bookmark| b@).push(
                        b@,
                    ));
                },
                None => {},
            }
        }
        i = i + 1;
    }
    assert(input.take(v.len() as int) =~= input);
    r
}

/// Every calendar account, with its provider name and e-mail cleaned.
pub fn sanitize_calendar_providers(v: Vec<CalendarProvider>) -> (r: Vec<CalendarProvider>)
    ensures
        r@.map_values(|p: CalendarProvider| p@) == v@.map_values(|p: CalendarProvider| p@).map_values(
            |p: CalendarProviderView| sanitized_provider(p),
        ),
{
    let mut r: Vec<CalendarProvider> = Vec::new();
    let mut i: usize = 0;
    while i < v.len()
        invariant
            i <= v.len(),
            r@.len() == i,
            forall|j: int| 0 <= j < i ==> (#[trigger] r@[j])@ == sanitized_provider(v@[j]@),
        decreases v.len() - i,
    {
        r.push(sanitize_calendar_provider(v[i].duplicate()));
        i = i + 1;
    }
    assert(r@.map_values(|p: CalendarProvider| p@) =~= v@.map_values(|p: CalendarProvider| p@).map_values(
        |p: CalendarProviderView| sanitized_provider(p),
    ));
    r
}

/// Cleans the session's user id, e-mail and provider name; the tokens are
/// opaque and stay exactly as they are.
pub fn sanitize_session(session: SupabaseSession) -> (r: SupabaseSession)
    ensures
        r@ == sanitized_session(session@),
{
    let SupabaseSession {
        access_token,
        refresh_token,
        expires_at,
        user_id,
        email,
        provider,
        provider_token,
        provider_refresh_token,
    } = session;
    let email = match email {
        Some(e) => Some(clean_text(e.as_str(), 254)),
        None => None,
    };
    SupabaseSession {
        access_token,
        refresh_token,
        expires_at,
        user_id: clean_text(user_id.as_str(), 128),
        email,
        provider: clean_text(provider.as_str(), 32),
        provider_token,
        provider_refresh_token,
    }
}

/// Returns a copy of `config` with every field cleaned and clamped:
/// identifiers and names trimmed, stripped of control characters and cut to
/// length; symbols, bookmarks and locations validated; lists capped;
/// onboarding and reminder settings normalised; the version stamped.
pub fn sanitize(config: Config) -> (r: Config)
    ensures
        r@ == sanitized(config@),
{
    let Config {
        version: _,
        user_id,
        supabase_session,
        calendar_providers,
        weather_locations,
        stock_symbols,
        news_keywords,
        browser_bookmarks,
        git_repo_path,
        supabase_sync_enabled,
        onboarding,
        reminder_settings,
    } = config;
    let git_repo_path = match git_repo_path {
        Some(path) => {
            let path = clean_text(path.as_str(), 512);
            if path.as_str().is_empty() {
                None
            } else {
                Some(path)
            }
        },
        None => None,
    };
    let supabase_session = match supabase_session {
        Some(session) => Some(sanitize_session(session)),
        None => None,
    };
    Config {
        version: String::from_str(APP_VERSION),
        user_id: clean_text(user_id.as_str(), 128),
        supabase_session,
        calendar_providers: sanitize_calendar_providers(calendar_providers),
        weather_locations: sanitize_weather_locations(&weather_locations),
        stock_symbols: sanitize_symbols(&stock_symbols),
        news_keywords: sanitize_news_keywords(&news_keywords),
        browser_bookmarks: sanitize_bookmarks(&browser_bookmarks),
        git_repo_path,
        supabase_sync_enabled,
        onboarding: sanitize_onboarding_state(onboarding),
        reminder_settings: sanitize_reminder_settings(reminder_settings),
    }
}

/// The configuration as it may be shown or mirrored: sanitized, without the
/// session, and with every calendar token cleared.
pub fn sync_safe_config(config: &Config) -> (r: Config)
    ensures
        r@ == sync_safe(config@),
{
    let mut safe = sanitize(config.duplicate());
    safe.supabase_session = None;
    let ghost sanitized_providers = safe.calendar_providers@.map_values(|p: CalendarProvider| p@);
    let providers = &safe.calendar_providers;
    let mut cleared: Vec<CalendarProvider> = Vec::new();
    let mut i: usize = 0;
    while i < providers.len()
        invariant
            i <= providers.len(),
            providers@.map_values(|p: CalendarProvider| p@) == sanitized_providers,
            cleared@.len() == i,
            forall|j: int|
                0 <= j < i ==> (#[trigger] cleared@[j])@ == (CalendarProviderView {
                    access_token: Seq::empty(),
                    refresh_token: Seq::empty(),
                    ..providers@[j]@
                }),
        decreases providers.len() - i,
    {
        let p = &providers[i];
        cleared.push(
            CalendarProvider {
                provider: p.provider.clone(),
                email: p.email.clone(),
                access_token: String::new(),
                refresh_token: String::new(),
                expires_at: p.expires_at,
            },
        );
        i = i + 1;
    }
    safe.calendar_providers = cleared;
    assert(safe@.calendar_providers =~= sync_safe(config@).calendar_providers);
    safe
}

/// Takes the user-editable settings from `incoming` (sanitized) and keeps
/// everything else of `current`: identity, session, calendar accounts and
/// onboarding are control state and cannot be set through an edited blob.
pub fn merge_editable_config(current: Config, incoming: Config) -> (r: Config)
    ensures
        r@ == merged_editable(current@, incoming@),
{
    let incoming = sanitize(incoming);
    let mut current = current;
    current.weather_locations = incoming.weather_locations;
    current.stock_symbols = incoming.stock_symbols;
    current.news_keywords = incoming.news_keywords;
    current.browser_bookmarks = incoming.browser_bookmarks;
    current.git_repo_path = incoming.git_repo_path;
    current.supabase_sync_enabled = incoming.supabase_sync_enabled;
    current.reminder_settings = incoming.reminder_settings;
    sanitize(current)
}

/// Clamps a step index to 0 ..= 4.
fn clamp_step_index(index: i32) -> (r: u8)
    ensures
        r == clamped_step_index(index),
{
    if index < 0 {
        0
    } else if index > 4 {
        4
    } else {
        index as u8
    }
}

/// Records an onboarding position stamped with `updated_at`, then
/// sanitizes the configuration.
pub fn set_onboarding_state_at(
    config: Config,
    current_step: &str,
    step_index: i32,
    completed: bool,
    updated_at: Option<String>,
) -> (r: Config)
    ensures
        r@ == with_onboarding_state(
            config@,
            current_step@,
            step_index,
            completed,
            updated_at.deep_view(),
        ),
{
    let mut config = config;
    config.onboarding = OnboardingState {
        completed,
        current_step: normalize_onboarding_step(current_step, completed),
        step_index: clamp_step_index(step_index),
        updated_at,
    };
    sanitize(config)
}

/// Records an onboarding position stamped with the current time, then
/// sanitizes the configuration. When the clock reads before the Unix epoch
/// the record is written without a stamp.
pub fn set_onboarding_state(config: Config, current_step: &str, step_index: i32, completed: bool) -> (r:
    Config)
    ensures
        stamped_onboarding(r@, config@, current_step@, step_index, completed),
{
    let ghost before = config@;
    match crate::timestamp::now_utc() {
        Some((seconds, nanos, now)) => {
            let ghost stamp = now@;
            let r = set_onboarding_state_at(config, current_step, step_index, completed, Some(now));
            assert(is_stamp_of(stamp, seconds, nanos));
            r
        },
        None => set_onboarding_state_at(config, current_step, step_index, completed, None),
    }
}

/// Whether the remote onboarding record wins, given the instants read from
/// the two records' timestamps.
pub fn remote_onboarding_preferred(
    local: &OnboardingState,
    remote: &OnboardingState,
    local_time: Option<(i64, u32)>,
    remote_time: Option<(i64, u32)>,
) -> (r: bool)
    ensures
        r == (if remote@.completed && !local@.completed {
            true
        } else {
            match (local_time, remote_time) {
                (Some(l), Some(t)) => later_than(t, l),
                (None, Some(_)) => true,
                _ => false,
            }
        }),
{
    if remote.completed && !local.completed {
        return true;
    }
    match (local_time, remote_time) {
        (Some(l), Some(t)) => crate::timestamp::is_later(t, l),
        (None, Some(_)) => true,
        _ => false,
    }
}

fn read_update_time(state: &OnboardingState) -> (r: Option<(i64, u32)>)
    ensures
        r == updated_instant(state@),
{
    match &state.updated_at {
        Some(t) => crate::timestamp::parse_timestamp(t.as_str()),
        None => None,
    }
}

/// Reconciles the local and remote onboarding records: a remote completion
/// always wins, otherwise the more recently updated record does. The winner
/// is sanitized.
pub fn merge_onboarding(local: &OnboardingState, remote: &OnboardingState) -> (r: OnboardingState)
    ensures
        r@ == merged_onboarding(local@, remote@),
{
    let local_time = read_update_time(local);
    let remote_time = read_update_time(remote);
    if remote_onboarding_preferred(local, remote, local_time, remote_time) {
        sanitize_onboarding_state(remote.duplicate())
    } else {
        sanitize_onboarding_state(local.duplicate())
    }
}

pub open spec fn default_reminder_settings() -> ReminderSettingsView {
    ReminderSettingsView { enabled: true, cloud_email_enabled: false, offsets_minutes: seq![30u16, 10u16] }
}

pub open spec fn default_onboarding_state() -> OnboardingStateView {
    OnboardingStateView {
        completed: false,
        current_step: ONBOARDING_STEP_WELCOME@,
        step_index: 0,
        updated_at: None,
    }
}

/// The starter watchlist: US equities and ETFs that a free quote endpoint
/// prices.
pub open spec fn default_stock_symbols() -> Seq<Seq<char>> {
    seq![
        "AAPL"@, "GOOGL"@, "MSFT"@, "AMZN"@, "NVDA"@, "META"@, "TSLA"@, "SPY"@, "QQQ"@, "GLD"@,
        "AMD"@, "WMT"@, "JPM"@, "V"@, "KO"@, "DIS"@, "NFLX"@, "BA"@, "XOM"@, "PG"@,
    ]
}

pub open spec fn default_config() -> ConfigView {
    ConfigView {
        version: APP_VERSION@,
        user_id: Seq::empty(),
        supabase_session: None,
        calendar_providers: Seq::empty(),
        weather_locations: Seq::empty(),
        stock_symbols: default_stock_symbols(),
        news_keywords: seq!["technology"@, "AI"@, "markets"@],
        browser_bookmarks: Seq::empty(),
        git_repo_path: None,
        supabase_sync_enabled: true,
        onboarding: default_onboarding_state(),
        reminder_settings: default_reminder_settings(),
    }
}

impl Default for ReminderSettings {
    fn default() -> (r: ReminderSettings)
        ensures
            r@ == default_reminder_settings(),
    {
        let mut offsets_minutes: Vec<u16> = Vec::new();
        offsets_minutes.push(30);
        offsets_minutes.push(10);
        assert(offsets_minutes@ =~= seq![30u16, 10u16]);
        ReminderSettings { enabled: true, cloud_email_enabled: false, offsets_minutes }
    }
}

impl Default for OnboardingState {
    fn default() -> (r: OnboardingState)
        ensures
            r@ == default_onboarding_state(),
    {
        OnboardingState {
            completed: false,
            current_step: String::from_str(ONBOARDING_STEP_WELCOME),
            step_index: 0,
            updated_at: None,
        }
    }
}

fn texts_from(items: &[&'static str]) -> (r: Vec<String>)
    ensures
        r.deep_view() == items@.map_values(|s: &'static str| s@),
{
    let mut r: Vec<String> = Vec::new();
    let mut i: usize = 0;
    while i < items.len()
        invariant
            i <= items.len(),
            r@.len() == i,
            forall|j: int| 0 <= j < i ==> (#[trigger] r@[j])@ == items@[j]@,
        decreases items.len() - i,
    {
        r.push(String::from_str(items[i]));
        i = i + 1;
    }
    assert(r.deep_view() =~= items@.map_values(|s: &'static str| s@));
    r
}

impl Default for Config {
    fn default() -> (r: Config)
        ensures
            r@ == default_config(),
    {
        let symbols: [&'static str; 20] = [
            "AAPL", "GOOGL", "MSFT", "AMZN", "NVDA", "META", "TSLA", "SPY", "QQQ", "GLD", "AMD",
            "WMT", "JPM", "V", "KO", "DIS", "NFLX", "BA", "XOM", "PG",
        ];
        let keywords: [&'static str; 3] = ["technology", "AI", "markets"];
        let stock_symbols = texts_from(&symbols);
        let news_keywords = texts_from(&keywords);
        assert(symbols@.map_values(|s: &'static str| s@) =~= default_stock_symbols());
        assert(keywords@.map_values(|s: &'static str| s@) =~= seq!["technology"@, "AI"@, "markets"@]);
        let r = Config {
            version: String::from_str(APP_VERSION),
            user_id: String::new(),
            supabase_session: None,
            calendar_providers: Vec::new(),
            weather_locations: Vec::new(),
            stock_symbols,
            news_keywords,
            browser_bookmarks: Vec::new(),
            git_repo_path: None,
            supabase_sync_enabled: true,
            onboarding: OnboardingState::default(),
            reminder_settings: ReminderSettings::default(),
        };
        assert(r@.calendar_providers =~= Seq::empty());
        assert(r@.weather_locations =~= Seq::empty());
        assert(r@.browser_bookmarks =~= Seq::empty());
        r
    }
}

} // verus!
