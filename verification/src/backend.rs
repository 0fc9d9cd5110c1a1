//! The decisions of the desktop backend around the state machine: what a
//! user action or a finished background task does to the machine, and what
//! the shell must do next (persist, report, mirror, or nothing). The shell
//! performs the effects and hands the results back.
use vstd::prelude::*;
use vstd::string::StringExecFns;
use crate::app_state::{
    AppMachine, AuthPhase, Event, Lane, OnboardingStep, OperationToken, Provider,
    TransitionOutcome, initial_machine, outcome_token, reject_message, step_from_name, step_index,
    step_name,
};
use crate::config::{
    Config, ConfigView, OnboardingState, OnboardingStateView, SessionView, SupabaseSession,
    merged_onboarding, stamped_onboarding, with_onboarding_state,
};
use crate::text::trimmed;

verus! {

pub open spec fn auth_phase_label(phase: AuthPhase) -> &'static str {
    match phase {
        AuthPhase::SignedOut => "signed_out",
        AuthPhase::Authenticating => "authenticating",
        AuthPhase::SignedIn => "signed_in",
        AuthPhase::Failed => "failed",
    }
}

/// The name under which an authentication phase is shown.
pub fn auth_phase_name(phase: AuthPhase) -> (r: &'static str)
    ensures
        r == auth_phase_label(phase),
{
    match phase {
        AuthPhase::SignedOut => "signed_out",
        AuthPhase::Authenticating => "authenticating",
        AuthPhase::SignedIn => "signed_in",
        AuthPhase::Failed => "failed",
    }
}

pub open spec fn provider_of_name(name: Seq<char>) -> Option<Provider> {
    if name == "google"@ {
        Some(Provider::Google)
    } else if name == "apple"@ {
        Some(Provider::Apple)
    } else if name == "azure"@ {
        Some(Provider::Azure)
    } else {
        None
    }
}

/// The sign-in provider a normalised provider name stands for.
pub fn provider_named(name: &str) -> (r: Option<Provider>)
    ensures
        r == provider_of_name(name@),
{
    if crate::text::same_text(name, "google") {
        Some(Provider::Google)
    } else if crate::text::same_text(name, "apple") {
        Some(Provider::Apple)
    } else if crate::text::same_text(name, "azure") {
        Some(Provider::Azure)
    } else {
        None
    }
}

/// What the interface shows of the machine.
pub struct MachineSnapshot {
    pub logged_in: bool,
    pub auth_busy: bool,
    pub auth_state: &'static str,
    pub onboarding_step_index: i32,
    pub onboarding_complete: bool,
    pub calendar_loading: bool,
    pub weather_loading: bool,
    pub stocks_loading: bool,
    pub news_loading: bool,
}

/// Derives every interface flag from the machine, so that none is kept by
/// hand.
pub fn machine_snapshot(machine: &AppMachine) -> (r: MachineSnapshot)
    ensures
        r.logged_in == machine@.signed_in(),
        r.auth_busy == (machine@.auth.phase == AuthPhase::Authenticating),
        r.auth_state == auth_phase_label(machine@.auth.phase),
        r.onboarding_step_index == step_index(machine@.onboarding) as i32,
        r.onboarding_complete == (machine@.onboarding == OnboardingStep::Complete),
        r.calendar_loading == (machine@.lane(Lane::Calendar).phase == crate::app_state::LanePhase::Running),
        r.weather_loading == (machine@.lane(Lane::Weather).phase == crate::app_state::LanePhase::Running),
        r.stocks_loading == (machine@.lane(Lane::Stocks).phase == crate::app_state::LanePhase::Running),
        r.news_loading == (machine@.lane(Lane::News).phase == crate::app_state::LanePhase::Running),
{
    MachineSnapshot {
        logged_in: machine.is_signed_in(),
        auth_busy: machine.authentication_in_progress(),
        auth_state: auth_phase_name(machine.auth_phase()),
        onboarding_step_index: machine.onboarding().index() as i32,
        onboarding_complete: machine.onboarding() == OnboardingStep::Complete,
        calendar_loading: machine.lane(Lane::Calendar).is_running(),
        weather_loading: machine.lane(Lane::Weather).is_running(),
        stocks_loading: machine.lane(Lane::Stocks).is_running(),
        news_loading: machine.lane(Lane::News).is_running(),
    }
}

/// The message for a refused request; nothing for other outcomes.
pub open spec fn rejection_of(outcome: TransitionOutcome) -> Option<&'static str> {
    match outcome {
        TransitionOutcome::Rejected(reason) => Some(reject_message(reason)),
        _ => None,
    }
}

pub fn rejection_message(outcome: TransitionOutcome) -> (r: Option<&'static str>)
    ensures
        r == rejection_of(outcome),
{
    match outcome {
        TransitionOutcome::Rejected(reason) => Some(reason.message()),
        _ => None,
    }
}

/// Dispatches a request that starts an operation. Gives its token, or the
/// message to show when it was refused.
pub fn begin_operation(machine: &mut AppMachine, event: Event) -> (r: (
    Option<OperationToken>,
    Option<&'static str>,
))
    ensures
        final(machine)@ == old(machine)@.dispatch(event).0,
        r.0 == outcome_token(old(machine)@.dispatch(event).1),
        r.1 == (if r.0 is None {
            rejection_of(old(machine)@.dispatch(event).1)
        } else {
            None
        }),
{
    let outcome = machine.dispatch(event);
    let token = outcome.token();
    if token.is_none() {
        (token, rejection_message(outcome))
    } else {
        (token, None)
    }
}

/// Starts an operation on `lane`.
pub fn begin_lane(machine: &mut AppMachine, lane: Lane) -> (r: (
    Option<OperationToken>,
    Option<&'static str>,
))
    ensures
        final(machine)@ == old(machine)@.dispatch(Event::LaneRequested(lane)).0,
        r.0 == outcome_token(old(machine)@.dispatch(Event::LaneRequested(lane)).1),
        r.1 == (if r.0 is None {
            rejection_of(old(machine)@.dispatch(Event::LaneRequested(lane)).1)
        } else {
            None
        }),
{
    begin_operation(machine, Event::LaneRequested(lane))
}

pub open spec fn lane_result(lane: Lane, token: OperationToken, succeeded: bool) -> Event {
    if succeeded {
        Event::LaneSucceeded(lane, token)
    } else {
        Event::LaneFailed(lane, token)
    }
}

/// Reports the end of an operation on `lane`; true when the result was
/// current and committed.
pub fn finish_lane(machine: &mut AppMachine, lane: Lane, token: OperationToken, succeeded: bool) -> (r:
    bool)
    ensures
        final(machine)@ == old(machine)@.dispatch(lane_result(lane, token, succeeded)).0,
        r == (old(machine)@.dispatch(lane_result(lane, token, succeeded)).1 is Applied),
{
    let event = if succeeded {
        Event::LaneSucceeded(lane, token)
    } else {
        Event::LaneFailed(lane, token)
    };
    machine.dispatch(event).committed()
}

/// Whether `event` would commit now, without changing the machine.
pub fn would_commit(machine: &AppMachine, event: Event) -> (r: bool)
    ensures
        r == (machine@.dispatch(event).1 is Applied),
{
    let mut candidate = *machine;
    candidate.dispatch(event).committed()
}

/// What became of a request whose new state had to be stored first.
#[derive(Clone, Copy, Debug, PartialEq, Eq, Structural)]
pub enum CommitStep {
    /// Storing failed; the machine was left as it was.
    SaveFailed,
    /// Stored, but the request no longer commits: the machine changed while
    /// the state was being stored.
    Changed,
    /// Stored and committed.
    Committed,
}

/// Dispatches `event` once its new state was stored (`saved`); when storing
/// failed the request fails closed and the machine is untouched.
pub fn commit_after_save(machine: &mut AppMachine, event: Event, saved: bool) -> (r: CommitStep)
    ensures
        !saved ==> r == CommitStep::SaveFailed && final(machine)@ == old(machine)@,
        saved ==> final(machine)@ == old(machine)@.dispatch(event).0 && r == (if old(
            machine,
        )@.dispatch(event).1 is Applied {
            CommitStep::Committed
        } else {
            CommitStep::Changed
        }),
{
    if !saved {
        return CommitStep::SaveFailed;
    }
    if machine.dispatch(event).committed() {
        CommitStep::Committed
    } else {
        CommitStep::Changed
    }
}

/// Checks a logout against a copy of the machine: gives the configuration
/// to store first, without the session, or nothing when the logout would
/// not commit.
pub fn plan_logout(machine: &AppMachine, config: Config) -> (r: Option<Config>)
    ensures
        r is Some <==> machine@.dispatch(Event::LogoutRequested).1 is Applied,
        r matches Some(c) ==> c@ == (ConfigView { supabase_session: None, ..config@ }),
{
    if !would_commit(machine, Event::LogoutRequested) {
        return None;
    }
    let mut config = config;
    config.supabase_session = None;
    Some(config)
}

/// The access token under which a stored configuration is mirrored to the
/// cloud: only when sync is enabled and a session exists.
pub fn mirror_access_token(config: &Config) -> (r: Option<String>)
    ensures
        r is Some <==> config@.supabase_sync_enabled && config@.supabase_session is Some,
        r matches Some(t) ==> t@ == config@.supabase_session->0.access_token,
{
    if !config.supabase_sync_enabled {
        return None;
    }
    match &config.supabase_session {
        Some(session) => Some(session.access_token.clone()),
        None => None,
    }
}

/// The step a persisted onboarding record stands for.
pub open spec fn persisted_step(state: OnboardingStateView) -> OnboardingStep {
    if state.completed {
        OnboardingStep::Complete
    } else {
        step_from_name(trimmed(state.current_step))
    }
}

/// The machine for a loaded configuration: signed in exactly when a session
/// is stored, at the persisted onboarding step.
pub fn machine_for(config: &Config) -> (r: AppMachine)
    ensures
        r@ == initial_machine(config@.supabase_session is Some, persisted_step(config@.onboarding)),
{
    let step = OnboardingStep::from_persisted(
        config.onboarding.current_step.as_str(),
        config.onboarding.completed,
    );
    AppMachine::new(config.supabase_session.is_some(), step)
}

/// Marks startup as done; gives the message to show when it already was.
pub fn complete_startup(machine: &mut AppMachine) -> (r: Option<&'static str>)
    ensures
        final(machine)@ == old(machine)@.dispatch(Event::StartupCompleted).0,
        r == (if old(machine)@.dispatch(Event::StartupCompleted).1 is Applied {
            None::<&'static str>
        } else {
            Some("Application startup was already processed")
        }),
{
    if machine.dispatch(Event::StartupCompleted).committed() {
        None
    } else {
        Some("Application startup was already processed")
    }
}

/// Starts fetching the remote onboarding record, when mirroring is on and a
/// session exists; otherwise does nothing.
pub fn begin_hydration(machine: &mut AppMachine, config: &Config) -> (r: (
    Option<OperationToken>,
    Option<&'static str>,
))
    ensures
        !config@.supabase_sync_enabled || config@.supabase_session is None ==> final(machine)@
            == old(machine)@ && r == (None::<OperationToken>, None::<&'static str>),
        config@.supabase_sync_enabled && config@.supabase_session is Some ==> {
            let (next, outcome) = old(machine)@.dispatch(
                Event::LaneRequested(Lane::OnboardingHydration),
            );
            &&& final(machine)@ == next
            &&& r.0 == outcome_token(outcome)
            &&& r.1 == (if r.0 is None {
                rejection_of(outcome)
            } else {
                None
            })
        },
{
    if !config.supabase_sync_enabled || config.supabase_session.is_none() {
        return (None, None);
    }
    begin_lane(machine, Lane::OnboardingHydration)
}

/// What a fetch of the remote onboarding record brought back.
pub enum FetchedOnboarding {
    Found(OnboardingState),
    Missing,
    Failed,
}

/// What the shell does after the remote onboarding record arrived.
pub enum HydrationStep {
    /// The result is obsolete, or nothing is left to do.
    Ignore,
    /// Store `merged` as the local record; then call `on_onboarding_saved`
    /// with `step`.
    Persist { merged: OnboardingState, step: OnboardingStep },
    /// No remote record exists: mirror the local one.
    MirrorLocal,
    /// The fetch failed: say so.
    ReportFetchFailure,
}

/// Handles the arrival of the remote onboarding record fetched under
/// `token`. A stale result is ignored. A remote record is merged with the
/// local one; if the machine would not accept the merged step the lane ends
/// there, otherwise the shell must persist it first.
pub fn on_onboarding_fetched(
    machine: &mut AppMachine,
    token: OperationToken,
    local: &OnboardingState,
    fetched: FetchedOnboarding,
) -> (r: HydrationStep)
    ensures
        !old(machine)@.accepts_lane_token(Lane::OnboardingHydration, token@) ==> final(machine)@
            == old(machine)@ && r is Ignore,
        old(machine)@.accepts_lane_token(Lane::OnboardingHydration, token@) ==> match fetched {
            FetchedOnboarding::Found(remote) => {
                let merged = merged_onboarding(local@, remote@);
                let step = persisted_step(merged);
                if old(machine)@.dispatch(Event::OnboardingReconciled(step)).1 is Applied {
                    &&& final(machine)@ == old(machine)@
                    &&& r matches HydrationStep::Persist { merged: m, step: s }
                    &&& m@ == merged
                    &&& s == step
                } else {
                    &&& final(machine)@ == old(machine)@.dispatch(
                        Event::LaneSucceeded(Lane::OnboardingHydration, token),
                    ).0
                    &&& r is Ignore
                }
            },
            FetchedOnboarding::Missing => {
                let (next, outcome) = old(machine)@.dispatch(
                    Event::LaneSucceeded(Lane::OnboardingHydration, token),
                );
                &&& final(machine)@ == next
                &&& if outcome is Applied {
                    r is MirrorLocal
                } else {
                    r is Ignore
                }
            },
            FetchedOnboarding::Failed => {
                let (next, outcome) = old(machine)@.dispatch(
                    Event::LaneFailed(Lane::OnboardingHydration, token),
                );
                &&& final(machine)@ == next
                &&& if outcome is Applied {
                    r is ReportFetchFailure
                } else {
                    r is Ignore
                }
            },
        },
{
    if !machine.accepts_lane_token(Lane::OnboardingHydration, token) {
        return HydrationStep::Ignore;
    }
    match fetched {
        FetchedOnboarding::Found(remote) => {
            let merged = crate::config::merge_onboarding(local, &remote);
            let step = OnboardingStep::from_persisted(merged.current_step.as_str(), merged.completed);
            if !would_commit(machine, Event::OnboardingReconciled(step)) {
                finish_lane(machine, Lane::OnboardingHydration, token, true);
                return HydrationStep::Ignore;
            }
            HydrationStep::Persist { merged, step }
        },
        FetchedOnboarding::Missing => {
            if finish_lane(machine, Lane::OnboardingHydration, token, true) {
                HydrationStep::MirrorLocal
            } else {
                HydrationStep::Ignore
            }
        },
        FetchedOnboarding::Failed => {
            if finish_lane(machine, Lane::OnboardingHydration, token, false) {
                HydrationStep::ReportFetchFailure
            } else {
                HydrationStep::Ignore
            }
        },
    }
}

/// What the shell does once the merged onboarding record was (or could not
/// be) stored.
pub enum ReconcileStep {
    /// Storing failed: say so.
    ReportSaveFailure,
    /// The result went stale meanwhile: nothing to do.
    Ignore,
    /// The machine moved on before the step could be applied: say so.
    ReportStale,
    /// The step is applied: refresh the view and mirror the record.
    Apply,
}

/// Ends the hydration lane after the merged record was stored (`saved`) or
/// not, then moves the machine to the merged step.
pub fn on_onboarding_saved(
    machine: &mut AppMachine,
    token: OperationToken,
    step: OnboardingStep,
    saved: bool,
) -> (r: ReconcileStep)
    ensures
        !saved ==> final(machine)@ == old(machine)@.dispatch(
            Event::LaneFailed(Lane::OnboardingHydration, token),
        ).0 && r is ReportSaveFailure,
        saved ==> {
            let (finished, outcome) = old(machine)@.dispatch(
                Event::LaneSucceeded(Lane::OnboardingHydration, token),
            );
            if !(outcome is Applied) {
                final(machine)@ == finished && r is Ignore
            } else {
                let (reconciled, applied) = finished.dispatch(Event::OnboardingReconciled(step));
                &&& final(machine)@ == reconciled
                &&& if applied is Applied {
                    r is Apply
                } else {
                    r is ReportStale
                }
            }
        },
{
    if !saved {
        finish_lane(machine, Lane::OnboardingHydration, token, false);
        return ReconcileStep::ReportSaveFailure;
    }
    if !finish_lane(machine, Lane::OnboardingHydration, token, true) {
        return ReconcileStep::Ignore;
    }
    if machine.dispatch(Event::OnboardingReconciled(step)).committed() {
        ReconcileStep::Apply
    } else {
        ReconcileStep::ReportStale
    }
}

/// What the shell does when a login attempt returns.
pub enum LoginStep {
    /// The result is obsolete, or there is nothing to report.
    Ignore,
    /// The sign-in succeeded: store the session, then call
    /// `on_session_saved`.
    PersistSession,
    /// The sign-in failed: say so.
    ReportFailure,
}

/// Handles the result of the login started under `token`.
pub fn on_login_result(machine: &mut AppMachine, token: OperationToken, succeeded: bool) -> (r:
    LoginStep)
    ensures
        !old(machine)@.accepts_auth_token(token@) ==> final(machine)@ == old(machine)@ && r is Ignore,
        old(machine)@.accepts_auth_token(token@) && succeeded ==> final(machine)@ == old(machine)@
            && r is PersistSession,
        old(machine)@.accepts_auth_token(token@) && !succeeded ==> {
            let (next, outcome) = old(machine)@.dispatch(Event::LoginFailed(token));
            &&& final(machine)@ == next
            &&& if outcome is Applied {
                r is ReportFailure
            } else {
                r is Ignore
            }
        },
{
    if !machine.accepts_auth_token(token) {
        return LoginStep::Ignore;
    }
    if succeeded {
        return LoginStep::PersistSession;
    }
    if machine.dispatch(Event::LoginFailed(token)).committed() {
        LoginStep::ReportFailure
    } else {
        LoginStep::Ignore
    }
}

/// What the shell does once the new session was (or could not be) stored.
pub enum SessionStep {
    /// The session could not be stored, so the login failed closed: say so.
    ReportSaveFailure,
    /// The login went stale meanwhile: nothing to do.
    Ignore,
    /// Signed in: mirror the configuration, refresh the view, fetch the
    /// remote onboarding record.
    SignedIn,
}

/// Completes the login started under `token` after its session was stored
/// (`saved`) or not. A session that cannot be stored fails the login.
pub fn on_session_saved(machine: &mut AppMachine, token: OperationToken, saved: bool) -> (r:
    SessionStep)
    ensures
        !saved ==> final(machine)@ == old(machine)@.dispatch(Event::LoginFailed(token)).0
            && r is ReportSaveFailure,
        saved ==> {
            let (next, outcome) = old(machine)@.dispatch(Event::LoginSucceeded(token));
            &&& final(machine)@ == next
            &&& if outcome is Applied {
                r is SignedIn
            } else {
                r is Ignore
            }
        },
{
    if !saved {
        machine.dispatch(Event::LoginFailed(token));
        return SessionStep::ReportSaveFailure;
    }
    if machine.dispatch(Event::LoginSucceeded(token)).committed() {
        SessionStep::SignedIn
    } else {
        SessionStep::Ignore
    }
}

/// The configuration with a new session: the session is stored and the
/// user id is taken from it.
pub fn with_session(config: Config, session: SupabaseSession) -> (r: Config)
    ensures
        r@ == (ConfigView { user_id: session@.user_id, supabase_session: Some(session@), ..config@ }),
{
    let mut config = config;
    config.user_id = session.user_id.clone();
    config.supabase_session = Some(session);
    config
}

/// Checks an onboarding request against a copy of the machine: gives the
/// step it leads to, which must be stored before the request is dispatched,
/// or the message for a refusal.
pub fn plan_onboarding_transition(machine: &AppMachine, event: Event) -> (r: Result<
    OnboardingStep,
    Option<&'static str>,
>)
    ensures
        ({
            let (next, outcome) = machine@.dispatch(event);
            if outcome is Applied {
                r == Ok::<OnboardingStep, Option<&'static str>>(next.onboarding)
            } else {
                r == Err::<OnboardingStep, Option<&'static str>>(rejection_of(outcome))
            }
        }),
{
    let mut candidate = *machine;
    let preview = candidate.dispatch(event);
    if !preview.committed() {
        return Err(rejection_message(preview));
    }
    Ok(candidate.onboarding())
}

pub open spec fn is_final_step(step: OnboardingStep) -> bool {
    step == OnboardingStep::Complete
}

/// Records `step` in the configuration, stamped with the current time.
pub fn record_onboarding_step(config: Config, step: OnboardingStep) -> (r: Config)
    ensures
        stamped_onboarding(
            r@,
            config@,
            step_name(step)@,
            step_index(step) as i32,
            is_final_step(step),
        ),
{
    crate::config::set_onboarding_state(
        config,
        step.as_str(),
        step.index() as i32,
        step == OnboardingStep::Complete,
    )
}

/// The configuration as shown: its onboarding record is the machine's step.
pub fn project_onboarding(config: Config, machine: &AppMachine) -> (r: Config)
    ensures
        r@ == (ConfigView {
            onboarding: OnboardingStateView {
                completed: machine@.onboarding == OnboardingStep::Complete,
                current_step: step_name(machine@.onboarding)@,
                step_index: step_index(machine@.onboarding),
                ..config@.onboarding
            },
            ..config@
        }),
{
    let step = machine.onboarding();
    let mut config = config;
    config.onboarding.completed = step == OnboardingStep::Complete;
    config.onboarding.current_step = String::from_str(step.as_str());
    config.onboarding.step_index = step.index();
    config
}

/// The e-mail shown for the account: the session's, while signed in.
pub fn visible_email(config: &Config, machine: &AppMachine) -> (r: String)
    ensures
        r@ == (if machine@.signed_in() {
            match config@.supabase_session {
                Some(session) => match session.email {
                    Some(email) => email,
                    None => Seq::empty(),
                },
                None => Seq::empty(),
            }
        } else {
            Seq::empty()
        }),
{
    if !machine.is_signed_in() {
        return String::new();
    }
    match &config.supabase_session {
        Some(session) => match &session.email {
            Some(email) => email.clone(),
            None => String::new(),
        },
        None => String::new(),
    }
}

/// Where a calendar refresh reads from.
pub enum CalendarSource {
    /// No session is stored.
    NotSignedIn,
    /// The session carries no calendar token: calendar access was not
    /// granted at sign-in.
    NoCalendarAccess,
    /// Google Calendar, with this provider token.
    Google(String),
    /// Microsoft Outlook, with this provider token.
    Outlook(String),
    /// Apple sign-in gives no calendar API.
    AppleUnsupported,
    /// A sign-in provider without calendar support, by name.
    Unsupported(String),
}

pub open spec fn calendar_source_of(session: Option<SessionView>) -> CalendarSourceView {
    match session {
        None => CalendarSourceView::NotSignedIn,
        Some(s) => match s.provider_token {
            None => CalendarSourceView::NoCalendarAccess,
            Some(token) => if trimmed(token).len() == 0 {
                CalendarSourceView::NoCalendarAccess
            } else if s.provider == "google"@ {
                CalendarSourceView::Google(token)
            } else if s.provider == "azure"@ {
                CalendarSourceView::Outlook(token)
            } else if s.provider == "apple"@ {
                CalendarSourceView::AppleUnsupported
            } else {
                CalendarSourceView::Unsupported(s.provider)
            },
        },
    }
}

pub enum CalendarSourceView {
    NotSignedIn,
    NoCalendarAccess,
    Google(Seq<char>),
    Outlook(Seq<char>),
    AppleUnsupported,
    Unsupported(Seq<char>),
}

impl View for CalendarSource {
    type V = CalendarSourceView;

    open spec fn view(&self) -> CalendarSourceView {
        match self {
            CalendarSource::NotSignedIn => CalendarSourceView::NotSignedIn,
            CalendarSource::NoCalendarAccess => CalendarSourceView::NoCalendarAccess,
            CalendarSource::Google(t) => CalendarSourceView::Google(t@),
            CalendarSource::Outlook(t) => CalendarSourceView::Outlook(t@),
            CalendarSource::AppleUnsupported => CalendarSourceView::AppleUnsupported,
            CalendarSource::Unsupported(p) => CalendarSourceView::Unsupported(p@),
        }
    }
}

/// Decides where the calendar is read from, from the stored session: the
/// provider's own token is needed, and only Google and Microsoft (Azure)
/// sign-ins give a calendar.
pub fn calendar_source(session: &Option<SupabaseSession>) -> (r: CalendarSource)
    ensures
        r@ == calendar_source_of(crate::config::session_view(*session)),
{
    let s = match session {
        None => {
            return CalendarSource::NotSignedIn;
        },
        Some(s) => s,
    };
    let token = match &s.provider_token {
        None => {
            return CalendarSource::NoCalendarAccess;
        },
        Some(token) => token,
    };
    if crate::text::trim(token.as_str()).unicode_len() == 0 {
        return CalendarSource::NoCalendarAccess;
    }
    let provider = s.provider.as_str();
    if crate::text::same_text(provider, "google") {
        CalendarSource::Google(token.clone())
    } else if crate::text::same_text(provider, "azure") {
        CalendarSource::Outlook(token.clone())
    } else if crate::text::same_text(provider, "apple") {
        CalendarSource::AppleUnsupported
    } else {
        CalendarSource::Unsupported(s.provider.clone())
    }
}

/// The status shown when a sweep over `lane` has nothing to fetch, for the
/// lanes whose sweep needs items.
pub open spec fn empty_sweep_note(lane: Lane) -> Option<&'static str> {
    match lane {
        Lane::Weather => Some("Add a weather location in Settings"),
        Lane::Stocks => Some("Add a stock symbol in Settings"),
        _ => None,
    }
}

pub fn empty_sweep_message(lane: Lane) -> (r: Option<&'static str>)
    ensures
        r == empty_sweep_note(lane),
{
    match lane {
        Lane::Weather => Some("Add a weather location in Settings"),
        Lane::Stocks => Some("Add a stock symbol in Settings"),
        _ => None,
    }
}

/// How the start of a sweep went.
#[derive(Clone, Copy, Debug, PartialEq, Eq)]
pub enum SweepStart {
    /// The machine refused to start the lane; the message, where there is
    /// one, says why.
    Refused(Option<&'static str>),
    /// There was nothing to fetch: the lane was started and failed at once;
    /// the message tells the user what to add.
    Empty(&'static str),
    /// Fetch the items under this token.
    Run(OperationToken),
}

/// Starts a sweep over `items` items on `lane`. A lane whose sweep needs
/// items and has none fails at once instead of running.
pub fn begin_sweep(machine: &mut AppMachine, lane: Lane, items: usize) -> (r: SweepStart)
    ensures
        ({
            let started = old(machine)@.dispatch(Event::LaneRequested(lane));
            match outcome_token(started.1) {
                None => r == SweepStart::Refused(rejection_of(started.1)) && final(machine)@
                    == started.0,
                Some(t) => if items == 0 && empty_sweep_note(lane) is Some {
                    &&& r == SweepStart::Empty(empty_sweep_note(lane)->0)
                    &&& final(machine)@ == started.0.dispatch(Event::LaneFailed(lane, t)).0
                } else {
                    r == SweepStart::Run(t) && final(machine)@ == started.0
                },
            }
        }),
{
    let (token, refusal) = begin_lane(machine, lane);
    match token {
        None => SweepStart::Refused(refusal),
        Some(t) => {
            if items == 0 {
                if let Some(note) = empty_sweep_message(lane) {
                    finish_lane(machine, lane, t, false);
                    return SweepStart::Empty(note);
                }
            }
            SweepStart::Run(t)
        },
    }
}

/// How a refresh over several items (locations, symbols) went.
#[derive(Clone, Copy, Debug, PartialEq, Eq, Structural)]
pub enum SweepReport {
    /// Every item was fetched.
    AllUpdated,
    /// No item was fetched.
    AllFailed,
    /// Some items were fetched and some failed.
    Partial,
}

pub open spec fn sweep_report_of(fetched: nat, failed: nat) -> SweepReport {
    if failed == 0 {
        SweepReport::AllUpdated
    } else if fetched == 0 {
        SweepReport::AllFailed
    } else {
        SweepReport::Partial
    }
}

/// A sweep counts as a success unless every item failed.
pub fn sweep_succeeded(fetched: usize, failed: usize) -> (r: bool)
    ensures
        r == (fetched > 0 || failed == 0),
{
    fetched > 0 || failed == 0
}

/// Which report a sweep gets.
pub fn sweep_report(fetched: usize, failed: usize) -> (r: SweepReport)
    ensures
        r == sweep_report_of(fetched as nat, failed as nat),
{
    if failed == 0 {
        SweepReport::AllUpdated
    } else if fetched == 0 {
        SweepReport::AllFailed
    } else {
        SweepReport::Partial
    }
}

/// The onboarding record shown for a machine restores the machine's step
/// when the configuration is loaded again.
pub proof fn law_projected_onboarding_restores_the_step(config: ConfigView, step: OnboardingStep)
    ensures
        persisted_step(
            OnboardingStateView {
                completed: step == OnboardingStep::Complete,
                current_step: step_name(step)@,
                step_index: step_index(step),
                ..config.onboarding
            },
        ) == step,
{
    crate::app_state::law_persisted_step_round_trip(step);
}

/// A step recorded in the configuration is the step restored on the next
/// start, whenever it was recorded.
pub proof fn law_recorded_step_is_restored(
    config: ConfigView,
    step: OnboardingStep,
    now: Option<Seq<char>>,
)
    ensures
        persisted_step(
            with_onboarding_state(
                config,
                step_name(step)@,
                step_index(step) as i32,
                is_final_step(step),
                now,
            ).onboarding,
        ) == step,
{
    crate::app_state::law_persisted_step_round_trip(step);
    if step != OnboardingStep::Complete {
        crate::app_state::law_persisted_step_round_trip(step_from_name(trimmed(step_name(step)@)));
    }
}

} // verus!
