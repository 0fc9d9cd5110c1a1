//! Total application control-state machine.
//!
//! All fields are private. Phases, the onboarding step and the tokens in
//! flight change only through `dispatch`, which computes a candidate state,
//! validates every invariant, and commits the candidate atomically. The one
//! other mutator, `advance_generation`, touches nothing but the token counter
//! and only ever raises it. Unsupported events fail closed; late
//! asynchronous results are classified as stale and stutter.
use vstd::prelude::*;
use crate::text::{trim, same_text, trimmed};

verus! {

pub const LANE_COUNT: usize = 8;

#[derive(Clone, Copy, Debug, PartialEq, Eq, Hash, Structural)]
pub enum AppPhase {
    Booting,
    Ready,
}

#[derive(Clone, Copy, Debug, PartialEq, Eq, Hash, Structural)]
pub enum AuthPhase {
    SignedOut,
    Authenticating,
    SignedIn,
    Failed,
}

#[derive(Clone, Copy, Debug, PartialEq, Eq, Hash, Structural)]
pub enum Provider {
    Google,
    Apple,
    Azure,
}

#[derive(Clone, Copy, Debug, PartialEq, Eq, Hash, Structural)]
pub enum OnboardingStep {
    Welcome,
    Account,
    Backup,
    Essentials,
    Ready,
    Complete,
}

/// The persisted name of an onboarding step.
pub open spec fn step_name(step: OnboardingStep) -> &'static str {
    match step {
        OnboardingStep::Welcome => "welcome",
        OnboardingStep::Account => "account",
        OnboardingStep::Backup => "backup",
        OnboardingStep::Essentials => "essentials",
        OnboardingStep::Ready => "ready",
        OnboardingStep::Complete => "complete",
    }
}

/// The step that a persisted (already trimmed) name stands for, when the
/// flow is not completed. Unknown names fall back to the first step.
pub open spec fn step_from_name(name: Seq<char>) -> OnboardingStep {
    if name == "account"@ {
        OnboardingStep::Account
    } else if name == "backup"@ {
        OnboardingStep::Backup
    } else if name == "essentials"@ {
        OnboardingStep::Essentials
    } else if name == "ready"@ {
        OnboardingStep::Ready
    } else {
        OnboardingStep::Welcome
    }
}

pub open spec fn step_index(step: OnboardingStep) -> u8 {
    match step {
        OnboardingStep::Welcome => 0,
        OnboardingStep::Account => 1,
        OnboardingStep::Backup => 2,
        OnboardingStep::Essentials => 3,
        OnboardingStep::Ready | OnboardingStep::Complete => 4,
    }
}

pub open spec fn next_step(step: OnboardingStep) -> Option<OnboardingStep> {
    match step {
        OnboardingStep::Welcome => Some(OnboardingStep::Account),
        OnboardingStep::Account => Some(OnboardingStep::Backup),
        OnboardingStep::Backup => Some(OnboardingStep::Essentials),
        OnboardingStep::Essentials => Some(OnboardingStep::Ready),
        OnboardingStep::Ready | OnboardingStep::Complete => None,
    }
}

pub open spec fn previous_step(step: OnboardingStep) -> Option<OnboardingStep> {
    match step {
        OnboardingStep::Account => Some(OnboardingStep::Welcome),
        OnboardingStep::Backup => Some(OnboardingStep::Account),
        OnboardingStep::Essentials => Some(OnboardingStep::Backup),
        OnboardingStep::Ready => Some(OnboardingStep::Essentials),
        OnboardingStep::Welcome | OnboardingStep::Complete => None,
    }
}

impl OnboardingStep {
    /// Every step, in flow order.
    pub const ALL: [OnboardingStep; 6] = [
        OnboardingStep::Welcome,
        OnboardingStep::Account,
        OnboardingStep::Backup,
        OnboardingStep::Essentials,
        OnboardingStep::Ready,
        OnboardingStep::Complete,
    ];

    /// Restores a step from its persisted name and completion flag.
    pub fn from_persisted(step: &str, completed: bool) -> (r: OnboardingStep)
        ensures
            r == (if completed {
                OnboardingStep::Complete
            } else {
                step_from_name(trimmed(step@))
            }),
    {
        if completed {
            return OnboardingStep::Complete;
        }
        let name = trim(step);
        if same_text(name, "account") {
            OnboardingStep::Account
        } else if same_text(name, "backup") {
            OnboardingStep::Backup
        } else if same_text(name, "essentials") {
            OnboardingStep::Essentials
        } else if same_text(name, "ready") {
            OnboardingStep::Ready
        } else {
            OnboardingStep::Welcome
        }
    }

    pub fn as_str(self) -> (r: &'static str)
        ensures
            r == step_name(self),
    {
        match self {
            OnboardingStep::Welcome => "welcome",
            OnboardingStep::Account => "account",
            OnboardingStep::Backup => "backup",
            OnboardingStep::Essentials => "essentials",
            OnboardingStep::Ready => "ready",
            OnboardingStep::Complete => "complete",
        }
    }

    pub fn index(self) -> (r: u8)
        ensures
            r == step_index(self),
    {
        match self {
            OnboardingStep::Welcome => 0,
            OnboardingStep::Account => 1,
            OnboardingStep::Backup => 2,
            OnboardingStep::Essentials => 3,
            OnboardingStep::Ready | OnboardingStep::Complete => 4,
        }
    }

    fn next(self) -> (r: Option<OnboardingStep>)
        ensures
            r == next_step(self),
    {
        match self {
            OnboardingStep::Welcome => Some(OnboardingStep::Account),
            OnboardingStep::Account => Some(OnboardingStep::Backup),
            OnboardingStep::Backup => Some(OnboardingStep::Essentials),
            OnboardingStep::Essentials => Some(OnboardingStep::Ready),
            OnboardingStep::Ready | OnboardingStep::Complete => None,
        }
    }

    fn previous(self) -> (r: Option<OnboardingStep>)
        ensures
            r == previous_step(self),
    {
        match self {
            OnboardingStep::Account => Some(OnboardingStep::Welcome),
            OnboardingStep::Backup => Some(OnboardingStep::Account),
            OnboardingStep::Essentials => Some(OnboardingStep::Backup),
            OnboardingStep::Ready => Some(OnboardingStep::Essentials),
            OnboardingStep::Welcome | OnboardingStep::Complete => None,
        }
    }
}

#[derive(Clone, Copy, Debug, PartialEq, Eq, Hash, Structural)]
pub enum Lane {
    Calendar,
    Weather,
    Stocks,
    News,
    OnboardingHydration,
    DesktopNotification,
    CloudNotification,
    CloudReminderSync,
}

/// The slot of a lane in the machine's lane table.
pub open spec fn lane_slot(lane: Lane) -> int {
    match lane {
        Lane::Calendar => 0,
        Lane::Weather => 1,
        Lane::Stocks => 2,
        Lane::News => 3,
        Lane::OnboardingHydration => 4,
        Lane::DesktopNotification => 5,
        Lane::CloudNotification => 6,
        Lane::CloudReminderSync => 7,
    }
}

/// The lane kept in slot `i` (`0 <= i < LANE_COUNT`).
pub open spec fn lane_at(i: int) -> Lane {
    if i == 0 {
        Lane::Calendar
    } else if i == 1 {
        Lane::Weather
    } else if i == 2 {
        Lane::Stocks
    } else if i == 3 {
        Lane::News
    } else if i == 4 {
        Lane::OnboardingHydration
    } else if i == 5 {
        Lane::DesktopNotification
    } else if i == 6 {
        Lane::CloudNotification
    } else {
        Lane::CloudReminderSync
    }
}

/// Lanes whose work belongs to the signed-in user.
pub open spec fn lane_requires_auth(lane: Lane) -> bool {
    match lane {
        Lane::Calendar | Lane::OnboardingHydration | Lane::CloudNotification
        | Lane::CloudReminderSync => true,
        _ => false,
    }
}

impl Lane {
    /// Every lane, in slot order.
    pub const ALL: [Lane; LANE_COUNT] = [
        Lane::Calendar,
        Lane::Weather,
        Lane::Stocks,
        Lane::News,
        Lane::OnboardingHydration,
        Lane::DesktopNotification,
        Lane::CloudNotification,
        Lane::CloudReminderSync,
    ];

    pub fn requires_auth(self) -> (r: bool)
        ensures
            r == lane_requires_auth(self),
    {
        match self {
            Lane::Calendar | Lane::OnboardingHydration | Lane::CloudNotification
            | Lane::CloudReminderSync => true,
            _ => false,
        }
    }

    fn slot(self) -> (r: usize)
        ensures
            r == lane_slot(self),
            r < LANE_COUNT,
    {
        match self {
            Lane::Calendar => 0,
            Lane::Weather => 1,
            Lane::Stocks => 2,
            Lane::News => 3,
            Lane::OnboardingHydration => 4,
            Lane::DesktopNotification => 5,
            Lane::CloudNotification => 6,
            Lane::CloudReminderSync => 7,
        }
    }

    fn in_slot(i: usize) -> (r: Lane)
        requires
            i < LANE_COUNT,
        ensures
            r == lane_at(i as int),
            lane_slot(r) == i,
    {
        if i == 0 {
            Lane::Calendar
        } else if i == 1 {
            Lane::Weather
        } else if i == 2 {
            Lane::Stocks
        } else if i == 3 {
            Lane::News
        } else if i == 4 {
            Lane::OnboardingHydration
        } else if i == 5 {
            Lane::DesktopNotification
        } else if i == 6 {
            Lane::CloudNotification
        } else {
            Lane::CloudReminderSync
        }
    }
}

#[derive(Clone, Copy, Debug, PartialEq, Eq, Hash, Structural)]
pub enum LanePhase {
    Idle,
    Running,
    Ready,
    Failed,
}

/// What a lane holds: its phase, the generation of its latest operation, and
/// the token of the operation still running (0 when none is).
pub struct LaneView {
    pub phase: LanePhase,
    pub generation: u64,
    pub active_token: u64,
}

#[derive(Clone, Copy, Debug, PartialEq, Eq, Hash)]
pub struct LaneState {
    phase: LanePhase,
    generation: u64,
    active_token: u64,
}

impl View for LaneState {
    type V = LaneView;

    closed spec fn view(&self) -> LaneView {
        LaneView { phase: self.phase, generation: self.generation, active_token: self.active_token }
    }
}

pub open spec fn idle_lane() -> LaneView {
    LaneView { phase: LanePhase::Idle, generation: 0, active_token: 0 }
}

impl Default for LaneState {
    fn default() -> (r: LaneState)
        ensures
            r@ == idle_lane(),
    {
        LaneState { phase: LanePhase::Idle, generation: 0, active_token: 0 }
    }
}

impl LaneState {
    pub fn phase(self) -> (r: LanePhase)
        ensures
            r == self@.phase,
    {
        self.phase
    }

    pub fn is_running(self) -> (r: bool)
        ensures
            r == (self@.phase == LanePhase::Running),
    {
        self.phase == LanePhase::Running
    }

    /// The generation at which the lane last started.
    pub fn generation(self) -> (r: u64)
        ensures
            r == self@.generation,
    {
        self.generation
    }

    /// The token of the lane's operation in flight, or of its last one.
    pub fn active_token(self) -> (r: u64)
        ensures
            r == self@.active_token,
    {
        self.active_token
    }
}

/// What the authentication state holds.
pub struct AuthView {
    pub phase: AuthPhase,
    pub provider: Option<Provider>,
    pub generation: u64,
    pub active_token: u64,
}

#[derive(Clone, Copy, Debug, PartialEq, Eq, Hash)]
pub struct AuthState {
    phase: AuthPhase,
    provider: Option<Provider>,
    generation: u64,
    active_token: u64,
}

impl View for AuthState {
    type V = AuthView;

    closed spec fn view(&self) -> AuthView {
        AuthView {
            phase: self.phase,
            provider: self.provider,
            generation: self.generation,
            active_token: self.active_token,
        }
    }
}

pub open spec fn initial_auth(signed_in: bool) -> AuthView {
    AuthView {
        phase: if signed_in {
            AuthPhase::SignedIn
        } else {
            AuthPhase::SignedOut
        },
        provider: None,
        generation: 0,
        active_token: 0,
    }
}

impl AuthState {
    fn initial(signed_in: bool) -> (r: AuthState)
        ensures
            r@ == initial_auth(signed_in),
    {
        AuthState {
            phase: if signed_in {
                AuthPhase::SignedIn
            } else {
                AuthPhase::SignedOut
            },
            provider: None,
            generation: 0,
            active_token: 0,
        }
    }

    pub fn phase(self) -> (r: AuthPhase)
        ensures
            r == self@.phase,
    {
        self.phase
    }

    pub fn provider(self) -> (r: Option<Provider>)
        ensures
            r == self@.provider,
    {
        self.provider
    }

    /// The generation at which the latest sign-in started.
    pub fn generation(self) -> (r: u64)
        ensures
            r == self@.generation,
    {
        self.generation
    }

    /// The token of the sign-in in flight, or of the last one.
    pub fn active_token(self) -> (r: u64)
        ensures
            r == self@.active_token,
    {
        self.active_token
    }
}

/// A capability that names one asynchronous operation. Its value is the
/// generation at which the operation started.
#[derive(Clone, Copy, Debug, PartialEq, Eq, Hash)]
pub struct OperationToken(u64);

impl View for OperationToken {
    type V = u64;

    closed spec fn view(&self) -> u64 {
        self.0
    }
}

impl OperationToken {
    /// The token whose value is `value`.
    pub closed spec fn with_value(value: u64) -> OperationToken {
        OperationToken(value)
    }

    pub fn get(self) -> (r: u64)
        ensures
            r == self@,
    {
        self.0
    }

    pub fn from_raw(value: u64) -> (r: OperationToken)
        ensures
            r == OperationToken::with_value(value),
            r@ == value,
    {
        OperationToken(value)
    }
}

/// A token is its value.
pub broadcast proof fn lemma_token_value(value: u64)
    ensures
        #[trigger] OperationToken::with_value(value)@ == value,
{
}

#[derive(Clone, Copy, Debug, PartialEq, Eq, Hash)]
pub enum Event {
    StartupCompleted,
    LoginRequested(Provider),
    LoginSucceeded(OperationToken),
    LoginFailed(OperationToken),
    LogoutRequested,
    LaneRequested(Lane),
    LaneSucceeded(Lane, OperationToken),
    LaneFailed(Lane, OperationToken),
    OnboardingNext,
    OnboardingPrevious,
    OnboardingSkipToReady,
    OnboardingFinish,
    OnboardingReconciled(OnboardingStep),
}

#[derive(Clone, Copy, Debug, PartialEq, Eq, Structural)]
pub enum RejectReason {
    AppNotReady,
    AlreadyReady,
    AuthRequired,
    AuthenticationInProgress,
    AlreadySignedIn,
    OperationInProgress,
    InvalidOnboardingTransition,
    GenerationExhausted,
    InvariantViolation,
}

pub open spec fn reject_message(reason: RejectReason) -> &'static str {
    match reason {
        RejectReason::AppNotReady => "The application is not ready",
        RejectReason::AlreadyReady => "The application has already started",
        RejectReason::AuthRequired => "Sign in before starting this operation",
        RejectReason::AuthenticationInProgress => "A sign-in operation is already in progress",
        RejectReason::AlreadySignedIn => "Sign out before starting another sign-in",
        RejectReason::OperationInProgress => "This operation is already in progress",
        RejectReason::InvalidOnboardingTransition => "That onboarding transition is not allowed",
        RejectReason::GenerationExhausted => "The operation generation counter is exhausted",
        RejectReason::InvariantViolation => "The requested transition would violate application invariants",
    }
}

impl RejectReason {
    pub fn message(self) -> (r: &'static str)
        ensures
            r == reject_message(self),
    {
        match self {
            RejectReason::AppNotReady => "The application is not ready",
            RejectReason::AlreadyReady => "The application has already started",
            RejectReason::AuthRequired => "Sign in before starting this operation",
            RejectReason::AuthenticationInProgress => "A sign-in operation is already in progress",
            RejectReason::AlreadySignedIn => "Sign out before starting another sign-in",
            RejectReason::OperationInProgress => "This operation is already in progress",
            RejectReason::InvalidOnboardingTransition => "That onboarding transition is not allowed",
            RejectReason::GenerationExhausted => "The operation generation counter is exhausted",
            RejectReason::InvariantViolation => "The requested transition would violate application invariants",
        }
    }
}

/// The disposition of one event: committed (with the token of the operation
/// it started, if any), an obsolete completion that changed nothing, or a
/// refused request that changed nothing.
#[derive(Clone, Copy, Debug, PartialEq, Eq)]
pub enum TransitionOutcome {
    Applied(Option<OperationToken>),
    Stale,
    Rejected(RejectReason),
}

pub open spec fn outcome_token(outcome: TransitionOutcome) -> Option<OperationToken> {
    match outcome {
        TransitionOutcome::Applied(token) => token,
        _ => None,
    }
}

impl TransitionOutcome {
    pub fn token(self) -> (r: Option<OperationToken>)
        ensures
            r == outcome_token(self),
    {
        match self {
            TransitionOutcome::Applied(token) => token,
            TransitionOutcome::Stale | TransitionOutcome::Rejected(_) => None,
        }
    }

    pub fn committed(self) -> (r: bool)
        ensures
            r == (self is Applied),
    {
        match self {
            TransitionOutcome::Applied(_) => true,
            _ => false,
        }
    }
}

/// What the machine holds, as plain values.
pub struct MachineView {
    pub app_phase: AppPhase,
    pub auth: AuthView,
    pub onboarding: OnboardingStep,
    pub onboarding_completed_once: bool,
    pub generation: u64,
    pub lanes: Seq<LaneView>,
}

pub open spec fn running_lane(generation: u64) -> LaneView {
    LaneView { phase: LanePhase::Running, generation, active_token: generation }
}

/// A lane whose operation is dropped: idle, no active token.
pub open spec fn cancelled_lane(lane: LaneView) -> LaneView {
    LaneView { phase: LanePhase::Idle, active_token: 0, ..lane }
}

/// A lane whose running operation has finished.
pub open spec fn finished_lane(lane: LaneView, succeeded: bool) -> LaneView {
    LaneView {
        phase: if succeeded {
            LanePhase::Ready
        } else {
            LanePhase::Failed
        },
        active_token: 0,
        ..lane
    }
}

impl MachineView {
    pub open spec fn lane(self, lane: Lane) -> LaneView {
        self.lanes[lane_slot(lane)]
    }

    pub open spec fn signed_in(self) -> bool {
        self.auth.phase == AuthPhase::SignedIn
    }

    pub open spec fn accepts_auth_token(self, token: u64) -> bool {
        self.auth.phase == AuthPhase::Authenticating && self.auth.active_token == token
    }

    pub open spec fn accepts_lane_token(self, lane: Lane, token: u64) -> bool {
        self.lane(lane).phase == LanePhase::Running && self.lane(lane).active_token == token
    }

    pub open spec fn any_lane_running(self) -> bool {
        exists|lane: Lane| #[trigger] self.lane(lane).phase == LanePhase::Running
    }

    /// A lane runs exactly while it holds a token; that token is its latest
    /// generation and was issued by the machine; auth-bound lanes run only
    /// while signed in.
    pub open spec fn lane_sound(self, lane: Lane) -> bool {
        let state = self.lane(lane);
        &&& (state.active_token != 0) == (state.phase == LanePhase::Running)
        &&& state.active_token != 0 ==> state.active_token == state.generation
            && state.active_token <= self.generation
        &&& lane_requires_auth(lane) && state.active_token != 0 ==> self.signed_in()
    }

    /// The machine's invariants.
    pub open spec fn well_formed(self) -> bool {
        &&& self.lanes.len() == LANE_COUNT
        &&& (self.auth.active_token != 0) == (self.auth.phase == AuthPhase::Authenticating)
        &&& self.auth.active_token != 0 ==> self.auth.active_token == self.auth.generation
            && self.auth.active_token <= self.generation
        &&& (self.auth.provider is Some) == (self.auth.active_token != 0)
        &&& self.onboarding_completed_once == (self.onboarding == OnboardingStep::Complete)
        &&& forall|lane: Lane| #[trigger] self.lane_sound(lane)
        &&& self.app_phase == AppPhase::Booting ==> !self.any_lane_running()
    }

    /// Which of its checks a lane fails first, if any.
    pub open spec fn lane_violation(self, lane: Lane) -> Option<&'static str> {
        let state = self.lane(lane);
        let active = state.active_token != 0;
        if active != (state.phase == LanePhase::Running) {
            Some("lane phase/token mismatch")
        } else if active && (state.active_token != state.generation || state.active_token
            > self.generation) {
            Some("lane token is not the current generation")
        } else if lane_requires_auth(lane) && active && !self.signed_in() {
            Some("auth-bound lane is active while signed out")
        } else {
            None
        }
    }

    /// The first violation among the lanes in slots `0 .. n`.
    pub open spec fn lanes_violation(self, n: nat) -> Option<&'static str>
        decreases n,
    {
        if n == 0 {
            None
        } else {
            match self.lanes_violation((n - 1) as nat) {
                Some(message) => Some(message),
                None => self.lane_violation(lane_at(n - 1)),
            }
        }
    }

    /// The first invariant that fails, in the order the machine checks them.
    pub open spec fn first_violation(self) -> Option<&'static str> {
        let auth_is_active = self.auth.active_token != 0;
        if auth_is_active != (self.auth.phase == AuthPhase::Authenticating) {
            Some("authentication phase/token mismatch")
        } else if auth_is_active && (self.auth.active_token != self.auth.generation
            || self.auth.active_token > self.generation) {
            Some("authentication token is not the current generation")
        } else if (self.auth.provider is Some) != auth_is_active {
            Some("authentication provider exists outside an active login")
        } else if self.onboarding_completed_once != (self.onboarding == OnboardingStep::Complete) {
            Some("completed onboarding regressed or lost its completion witness")
        } else if self.lanes_violation(LANE_COUNT as nat) is Some {
            self.lanes_violation(LANE_COUNT as nat)
        } else if self.app_phase == AppPhase::Booting && self.any_lane_running() {
            Some("operation started before application readiness")
        } else {
            None
        }
    }

    /// The state after a sign-out: no session, no login, and every auth-bound
    /// lane cancelled.
    pub open spec fn signed_out(self) -> MachineView {
        MachineView {
            auth: AuthView {
                phase: AuthPhase::SignedOut,
                provider: None,
                generation: self.auth.generation,
                active_token: 0,
            },
            lanes: Seq::new(
                self.lanes.len(),
                |i: int|
                    if lane_requires_auth(lane_at(i)) {
                        cancelled_lane(self.lanes[i])
                    } else {
                        self.lanes[i]
                    },
            ),
            ..self
        }
    }

    pub open spec fn begin_login(self, provider: Provider) -> (MachineView, TransitionOutcome) {
        if self.auth.phase == AuthPhase::Authenticating {
            (self, TransitionOutcome::Rejected(RejectReason::AuthenticationInProgress))
        } else if self.auth.phase == AuthPhase::SignedIn {
            (self, TransitionOutcome::Rejected(RejectReason::AlreadySignedIn))
        } else if self.generation == u64::MAX {
            (self, TransitionOutcome::Rejected(RejectReason::GenerationExhausted))
        } else {
            let g = (self.generation + 1) as u64;
            (
                MachineView {
                    generation: g,
                    auth: AuthView {
                        phase: AuthPhase::Authenticating,
                        provider: Some(provider),
                        generation: g,
                        active_token: g,
                    },
                    ..self
                },
                TransitionOutcome::Applied(Some(OperationToken::with_value(g))),
            )
        }
    }

    pub open spec fn complete_login(self, token: OperationToken, succeeded: bool) -> (
        MachineView,
        TransitionOutcome,
    ) {
        if !self.accepts_auth_token(token@) {
            (self, TransitionOutcome::Stale)
        } else {
            (
                MachineView {
                    auth: AuthView {
                        phase: if succeeded {
                            AuthPhase::SignedIn
                        } else {
                            AuthPhase::Failed
                        },
                        provider: None,
                        active_token: 0,
                        ..self.auth
                    },
                    ..self
                },
                TransitionOutcome::Applied(None),
            )
        }
    }

    pub open spec fn begin_lane(self, lane: Lane) -> (MachineView, TransitionOutcome) {
        if lane_requires_auth(lane) && !self.signed_in() {
            (self, TransitionOutcome::Rejected(RejectReason::AuthRequired))
        } else if self.lane(lane).phase == LanePhase::Running {
            (self, TransitionOutcome::Rejected(RejectReason::OperationInProgress))
        } else if self.generation == u64::MAX {
            (self, TransitionOutcome::Rejected(RejectReason::GenerationExhausted))
        } else {
            let g = (self.generation + 1) as u64;
            (
                MachineView {
                    generation: g,
                    lanes: self.lanes.update(lane_slot(lane), running_lane(g)),
                    ..self
                },
                TransitionOutcome::Applied(Some(OperationToken::with_value(g))),
            )
        }
    }

    pub open spec fn complete_lane(self, lane: Lane, token: OperationToken, succeeded: bool) -> (
        MachineView,
        TransitionOutcome,
    ) {
        if !self.accepts_lane_token(lane, token@) {
            (self, TransitionOutcome::Stale)
        } else {
            (
                MachineView {
                    lanes: self.lanes.update(
                        lane_slot(lane),
                        finished_lane(self.lane(lane), succeeded),
                    ),
                    ..self
                },
                TransitionOutcome::Applied(None),
            )
        }
    }

    pub open spec fn with_onboarding(self, step: OnboardingStep) -> MachineView {
        MachineView { onboarding: step, ..self }
    }

    /// The candidate state and outcome of one event, before the invariants
    /// are checked.
    pub open spec fn apply(self, event: Event) -> (MachineView, TransitionOutcome) {
        if !(event is StartupCompleted) && self.app_phase != AppPhase::Ready {
            (self, TransitionOutcome::Rejected(RejectReason::AppNotReady))
        } else {
            match event {
                Event::StartupCompleted => if self.app_phase == AppPhase::Ready {
                    (self, TransitionOutcome::Rejected(RejectReason::AlreadyReady))
                } else {
                    (MachineView { app_phase: AppPhase::Ready, ..self }, TransitionOutcome::Applied(None))
                },
                Event::LoginRequested(provider) => self.begin_login(provider),
                Event::LoginSucceeded(token) => self.complete_login(token, true),
                Event::LoginFailed(token) => self.complete_login(token, false),
                Event::LogoutRequested => (self.signed_out(), TransitionOutcome::Applied(None)),
                Event::LaneRequested(lane) => self.begin_lane(lane),
                Event::LaneSucceeded(lane, token) => self.complete_lane(lane, token, true),
                Event::LaneFailed(lane, token) => self.complete_lane(lane, token, false),
                Event::OnboardingNext => match next_step(self.onboarding) {
                    Some(next) => (self.with_onboarding(next), TransitionOutcome::Applied(None)),
                    None => (self, TransitionOutcome::Rejected(RejectReason::InvalidOnboardingTransition)),
                },
                Event::OnboardingPrevious => match previous_step(self.onboarding) {
                    Some(previous) => (self.with_onboarding(previous), TransitionOutcome::Applied(None)),
                    None => (self, TransitionOutcome::Rejected(RejectReason::InvalidOnboardingTransition)),
                },
                Event::OnboardingSkipToReady => if self.onboarding == OnboardingStep::Complete {
                    (self, TransitionOutcome::Rejected(RejectReason::InvalidOnboardingTransition))
                } else {
                    (self.with_onboarding(OnboardingStep::Ready), TransitionOutcome::Applied(None))
                },
                Event::OnboardingFinish => if self.onboarding == OnboardingStep::Ready {
                    (
                        MachineView {
                            onboarding: OnboardingStep::Complete,
                            onboarding_completed_once: true,
                            ..self
                        },
                        TransitionOutcome::Applied(None),
                    )
                } else {
                    (self, TransitionOutcome::Rejected(RejectReason::InvalidOnboardingTransition))
                },
                Event::OnboardingReconciled(step) => if self.onboarding == OnboardingStep::Complete
                    && step != OnboardingStep::Complete {
                    (self, TransitionOutcome::Stale)
                } else {
                    (
                        MachineView {
                            onboarding: step,
                            onboarding_completed_once: if step == OnboardingStep::Complete {
                                true
                            } else {
                                self.onboarding_completed_once
                            },
                            ..self
                        },
                        TransitionOutcome::Applied(None),
                    )
                },
            }
        }
    }

    /// What `dispatch` does: nothing moves unless the state is sound, the
    /// event commits, and the candidate is sound too.
    pub open spec fn dispatch(self, event: Event) -> (MachineView, TransitionOutcome) {
        if !self.well_formed() {
            (self, TransitionOutcome::Rejected(RejectReason::InvariantViolation))
        } else {
            let (candidate, outcome) = self.apply(event);
            if !(outcome is Applied) {
                (self, outcome)
            } else if !candidate.well_formed() {
                (self, TransitionOutcome::Rejected(RejectReason::InvariantViolation))
            } else {
                (candidate, outcome)
            }
        }
    }
}

/// The state of a machine that has just been created.
pub open spec fn initial_machine(signed_in: bool, onboarding: OnboardingStep) -> MachineView {
    MachineView {
        app_phase: AppPhase::Booting,
        auth: initial_auth(signed_in),
        onboarding,
        onboarding_completed_once: onboarding == OnboardingStep::Complete,
        generation: 0,
        lanes: Seq::new(LANE_COUNT as nat, |i: int| idle_lane()),
    }
}

#[derive(Clone, Copy, Debug, PartialEq, Eq, Hash)]
pub struct AppMachine {
    app_phase: AppPhase,
    auth: AuthState,
    onboarding: OnboardingStep,
    onboarding_completed_once: bool,
    generation: u64,
    lanes: [LaneState; LANE_COUNT],
}

impl View for AppMachine {
    type V = MachineView;

    closed spec fn view(&self) -> MachineView {
        MachineView {
            app_phase: self.app_phase,
            auth: self.auth@,
            onboarding: self.onboarding,
            onboarding_completed_once: self.onboarding_completed_once,
            generation: self.generation,
            lanes: self.lanes@.map_values(|lane: LaneState| lane@),
        }
    }
}

impl AppMachine {
    /// Every machine has one lane state per lane: its lane table has
    /// `LANE_COUNT` entries.
    pub proof fn lemma_lane_table(self)
        ensures
            self@.lanes.len() == LANE_COUNT,
    {
    }

    pub fn new(signed_in: bool, onboarding: OnboardingStep) -> (r: AppMachine)
        ensures
            r@ == initial_machine(signed_in, onboarding),
            r@.well_formed(),
    {
        proof {
            law_initial_state_is_sound(signed_in, onboarding);
        }
        let idle = LaneState::default();
        let r = AppMachine {
            app_phase: AppPhase::Booting,
            auth: AuthState::initial(signed_in),
            onboarding,
            onboarding_completed_once: onboarding == OnboardingStep::Complete,
            generation: 0,
            lanes: [idle, idle, idle, idle, idle, idle, idle, idle],
        };
        assert(r@.lanes =~= initial_machine(signed_in, onboarding).lanes);
        r
    }

    pub fn app_phase(&self) -> (r: AppPhase)
        ensures
            r == self@.app_phase,
    {
        self.app_phase
    }

    pub fn auth_phase(&self) -> (r: AuthPhase)
        ensures
            r == self@.auth.phase,
    {
        self.auth.phase()
    }

    pub fn is_signed_in(&self) -> (r: bool)
        ensures
            r == self@.signed_in(),
    {
        self.auth.phase == AuthPhase::SignedIn
    }

    pub fn authentication_in_progress(&self) -> (r: bool)
        ensures
            r == (self@.auth.phase == AuthPhase::Authenticating),
    {
        self.auth.phase == AuthPhase::Authenticating
    }

    pub fn onboarding(&self) -> (r: OnboardingStep)
        ensures
            r == self@.onboarding,
    {
        self.onboarding
    }

    /// Whether onboarding has reached its last step at some point.
    pub fn onboarding_completed_once(&self) -> (r: bool)
        ensures
            r == self@.onboarding_completed_once,
    {
        self.onboarding_completed_once
    }

    pub fn auth(&self) -> (r: AuthState)
        ensures
            r@ == self@.auth,
    {
        self.auth
    }

    /// The generation counter: the value of the latest token issued.
    pub fn generation(&self) -> (r: u64)
        ensures
            r == self@.generation,
    {
        self.generation
    }

    pub fn lane(&self, lane: Lane) -> (r: LaneState)
        ensures
            r@ == self@.lane(lane),
    {
        self.lanes[lane.slot()]
    }

    pub fn accepts_auth_token(&self, token: OperationToken) -> (r: bool)
        ensures
            r == self@.accepts_auth_token(token@),
    {
        self.auth.phase == AuthPhase::Authenticating && self.auth.active_token == token.get()
    }

    pub fn accepts_lane_token(&self, lane: Lane, token: OperationToken) -> (r: bool)
        ensures
            r == self@.accepts_lane_token(lane, token@),
    {
        let state = self.lane(lane);
        state.phase == LanePhase::Running && state.active_token == token.get()
    }
}

proof fn lemma_lanes_violation_none(s: MachineView, n: nat)
    requires
        n <= LANE_COUNT,
    ensures
        (s.lanes_violation(n) is None) <==> (forall|j: int|
            0 <= j < n ==> #[trigger] s.lane_violation(lane_at(j)) is None),
    decreases n,
{
    if n > 0 {
        lemma_lanes_violation_none(s, (n - 1) as nat);
    }
}

proof fn lemma_lanes_violation_stable(s: MachineView, m: nat, n: nat)
    requires
        m <= n,
        s.lanes_violation(m) is Some,
    ensures
        s.lanes_violation(n) == s.lanes_violation(m),
    decreases n - m,
{
    if m < n {
        lemma_lanes_violation_stable(s, m, (n - 1) as nat);
    }
}

proof fn lemma_first_violation_none(s: MachineView)
    requires
        s.lanes.len() == LANE_COUNT,
    ensures
        (s.first_violation() is None) <==> s.well_formed(),
{
    lemma_lanes_violation_none(s, LANE_COUNT as nat);
    if s.lanes_violation(LANE_COUNT as nat) is None {
        assert forall|lane: Lane| #[trigger] s.lane_sound(lane) by {
            assert(lane_at(lane_slot(lane)) == lane);
            assert(s.lane_violation(lane_at(lane_slot(lane))) is None);
        }
    }
    if forall|lane: Lane| #[trigger] s.lane_sound(lane) {
        assert forall|j: int| 0 <= j < LANE_COUNT implies #[trigger] s.lane_violation(lane_at(j)) is None by {
            assert(s.lane_sound(lane_at(j)));
        }
    }
}

impl AppMachine {
    /// Checks every invariant, in a fixed order, and names the first that
    /// fails.
    #[verifier::loop_isolation(false)]
    pub fn check_invariants(&self) -> (r: Result<(), &'static str>)
        ensures
            r == (match self@.first_violation() {
                Some(message) => Err(message),
                None => Ok(()),
            }),
            r is Ok <==> self@.well_formed(),
    {
        proof {
            lemma_first_violation_none(self@);
        }
        let auth_is_active = self.auth.active_token != 0;
        if auth_is_active != (self.auth.phase == AuthPhase::Authenticating) {
            return Err("authentication phase/token mismatch");
        }
        if auth_is_active && (self.auth.active_token != self.auth.generation
            || self.auth.active_token > self.generation) {
            return Err("authentication token is not the current generation");
        }
        if self.auth.provider.is_some() != auth_is_active {
            return Err("authentication provider exists outside an active login");
        }
        if self.onboarding_completed_once != (self.onboarding == OnboardingStep::Complete) {
            return Err("completed onboarding regressed or lost its completion witness");
        }
        let mut i: usize = 0;
        while i < LANE_COUNT
            invariant
                i <= LANE_COUNT,
                self@.lanes_violation(i as nat) is None,
            decreases LANE_COUNT - i,
        {
            let lane = Lane::in_slot(i);
            let state = self.lanes[i];
            assert(state@ == self@.lane(lane));
            let active = state.active_token != 0;
            if active != (state.phase == LanePhase::Running) {
                proof {
                    lemma_lanes_violation_stable(self@, (i + 1) as nat, LANE_COUNT as nat);
                }
                return Err("lane phase/token mismatch");
            }
            if active && (state.active_token != state.generation || state.active_token
                > self.generation) {
                proof {
                    lemma_lanes_violation_stable(self@, (i + 1) as nat, LANE_COUNT as nat);
                }
                return Err("lane token is not the current generation");
            }
            if lane.requires_auth() && active && !self.is_signed_in() {
                proof {
                    lemma_lanes_violation_stable(self@, (i + 1) as nat, LANE_COUNT as nat);
                }
                return Err("auth-bound lane is active while signed out");
            }
            i = i + 1;
        }
        if self.app_phase == AppPhase::Booting {
            let mut j: usize = 0;
            while j < LANE_COUNT
                invariant
                    j <= LANE_COUNT,
                    forall|k: int| 0 <= k < j ==> self@.lanes[k].phase != LanePhase::Running,
                decreases LANE_COUNT - j,
            {
                if self.lanes[j].is_running() {
                    let lane = Lane::in_slot(j);
                    assert(self@.lane(lane).phase == LanePhase::Running);
                    return Err("operation started before application readiness");
                }
                j = j + 1;
            }
            assert forall|lane: Lane| #[trigger] self@.lane(lane).phase != LanePhase::Running by {
                assert(0 <= lane_slot(lane) < LANE_COUNT);
            }
        }
        Ok(())
    }
}

/// `lanes` with the auth-bound lanes among slots `0 .. n` cancelled.
spec fn cancel_auth_lanes_before(lanes: Seq<LaneView>, n: int) -> Seq<LaneView> {
    Seq::new(
        lanes.len(),
        |i: int|
            if i < n && lane_requires_auth(lane_at(i)) {
                cancelled_lane(lanes[i])
            } else {
                lanes[i]
            },
    )
}

impl AppMachine {
    fn next_token(&mut self) -> (r: Option<OperationToken>)
        ensures
            old(self)@.generation == u64::MAX ==> r is None && final(self)@ == old(self)@,
            old(self)@.generation < u64::MAX ==> r == Some(
                OperationToken::with_value((old(self)@.generation + 1) as u64),
            ) && final(self)@ == (MachineView {
                generation: (old(self)@.generation + 1) as u64,
                ..old(self)@
            }),
    {
        match self.generation.checked_add(1) {
            Some(g) => {
                self.generation = g;
                Some(OperationToken(g))
            },
            None => None,
        }
    }

    fn begin_login(&mut self, provider: Provider) -> (r: TransitionOutcome)
        ensures
            (final(self)@, r) == old(self)@.begin_login(provider),
    {
        match self.auth.phase {
            AuthPhase::Authenticating => {
                return TransitionOutcome::Rejected(RejectReason::AuthenticationInProgress);
            },
            AuthPhase::SignedIn => {
                return TransitionOutcome::Rejected(RejectReason::AlreadySignedIn);
            },
            AuthPhase::SignedOut | AuthPhase::Failed => {},
        }
        let token = match self.next_token() {
            Some(token) => token,
            None => {
                return TransitionOutcome::Rejected(RejectReason::GenerationExhausted);
            },
        };
        self.auth = AuthState {
            phase: AuthPhase::Authenticating,
            provider: Some(provider),
            generation: token.get(),
            active_token: token.get(),
        };
        TransitionOutcome::Applied(Some(token))
    }

    fn complete_login(&mut self, token: OperationToken, succeeded: bool) -> (r: TransitionOutcome)
        ensures
            (final(self)@, r) == old(self)@.complete_login(token, succeeded),
    {
        if !self.accepts_auth_token(token) {
            return TransitionOutcome::Stale;
        }
        self.auth = AuthState {
            phase: if succeeded {
                AuthPhase::SignedIn
            } else {
                AuthPhase::Failed
            },
            provider: None,
            generation: self.auth.generation,
            active_token: 0,
        };
        TransitionOutcome::Applied(None)
    }

    fn begin_lane(&mut self, lane: Lane) -> (r: TransitionOutcome)
        ensures
            (final(self)@, r) == old(self)@.begin_lane(lane),
    {
        if lane.requires_auth() && !self.is_signed_in() {
            return TransitionOutcome::Rejected(RejectReason::AuthRequired);
        }
        if self.lane(lane).is_running() {
            return TransitionOutcome::Rejected(RejectReason::OperationInProgress);
        }
        let token = match self.next_token() {
            Some(token) => token,
            None => {
                return TransitionOutcome::Rejected(RejectReason::GenerationExhausted);
            },
        };
        let ghost before = self@;
        let slot = lane.slot();
        self.lanes[slot] = LaneState {
            phase: LanePhase::Running,
            generation: token.get(),
            active_token: token.get(),
        };
        assert(self@.lanes =~= before.lanes.update(lane_slot(lane), running_lane(token@)));
        TransitionOutcome::Applied(Some(token))
    }

    fn complete_lane(&mut self, lane: Lane, token: OperationToken, succeeded: bool) -> (r:
        TransitionOutcome)
        ensures
            (final(self)@, r) == old(self)@.complete_lane(lane, token, succeeded),
    {
        if !self.accepts_lane_token(lane, token) {
            return TransitionOutcome::Stale;
        }
        let slot = lane.slot();
        let state = self.lanes[slot];
        self.lanes[slot] = LaneState {
            phase: if succeeded {
                LanePhase::Ready
            } else {
                LanePhase::Failed
            },
            generation: state.generation,
            active_token: 0,
        };
        assert(self@.lanes =~= old(self)@.lanes.update(
            lane_slot(lane),
            finished_lane(old(self)@.lane(lane), succeeded),
        ));
        TransitionOutcome::Applied(None)
    }

    fn sign_out(&mut self)
        ensures
            final(self)@ == old(self)@.signed_out(),
    {
        self.auth = AuthState {
            phase: AuthPhase::SignedOut,
            provider: None,
            generation: self.auth.generation,
            active_token: 0,
        };
        let ghost start = self@;
        assert(cancel_auth_lanes_before(start.lanes, 0) =~= start.lanes);
        let mut i: usize = 0;
        while i < LANE_COUNT
            invariant
                i <= LANE_COUNT,
                self@ == (MachineView {
                    lanes: cancel_auth_lanes_before(start.lanes, i as int),
                    ..start
                }),
            decreases LANE_COUNT - i,
        {
            let lane = Lane::in_slot(i);
            let ghost prev = self@.lanes;
            if lane.requires_auth() {
                let state = self.lanes[i];
                self.lanes[i] = LaneState {
                    phase: LanePhase::Idle,
                    generation: state.generation,
                    active_token: 0,
                };
                assert(self@.lanes =~= prev.update(i as int, cancelled_lane(prev[i as int])));
            }
            assert(self@.lanes =~= cancel_auth_lanes_before(start.lanes, i + 1));
            i = i + 1;
        }
        assert(self@.lanes =~= old(self)@.signed_out().lanes);
    }
}

impl AppMachine {
    fn apply(&mut self, event: Event) -> (r: TransitionOutcome)
        ensures
            (final(self)@, r) == old(self)@.apply(event),
    {
        let is_startup = match event {
            Event::StartupCompleted => true,
            _ => false,
        };
        if !is_startup && self.app_phase != AppPhase::Ready {
            return TransitionOutcome::Rejected(RejectReason::AppNotReady);
        }
        match event {
            Event::StartupCompleted => {
                if self.app_phase == AppPhase::Ready {
                    TransitionOutcome::Rejected(RejectReason::AlreadyReady)
                } else {
                    self.app_phase = AppPhase::Ready;
                    TransitionOutcome::Applied(None)
                }
            },
            Event::LoginRequested(provider) => self.begin_login(provider),
            Event::LoginSucceeded(token) => self.complete_login(token, true),
            Event::LoginFailed(token) => self.complete_login(token, false),
            Event::LogoutRequested => {
                self.sign_out();
                TransitionOutcome::Applied(None)
            },
            Event::LaneRequested(lane) => self.begin_lane(lane),
            Event::LaneSucceeded(lane, token) => self.complete_lane(lane, token, true),
            Event::LaneFailed(lane, token) => self.complete_lane(lane, token, false),
            Event::OnboardingNext => match self.onboarding.next() {
                Some(next) => {
                    self.onboarding = next;
                    TransitionOutcome::Applied(None)
                },
                None => TransitionOutcome::Rejected(RejectReason::InvalidOnboardingTransition),
            },
            Event::OnboardingPrevious => match self.onboarding.previous() {
                Some(previous) => {
                    self.onboarding = previous;
                    TransitionOutcome::Applied(None)
                },
                None => TransitionOutcome::Rejected(RejectReason::InvalidOnboardingTransition),
            },
            Event::OnboardingSkipToReady => {
                if self.onboarding == OnboardingStep::Complete {
                    TransitionOutcome::Rejected(RejectReason::InvalidOnboardingTransition)
                } else {
                    self.onboarding = OnboardingStep::Ready;
                    TransitionOutcome::Applied(None)
                }
            },
            Event::OnboardingFinish => {
                if self.onboarding == OnboardingStep::Ready {
                    self.onboarding = OnboardingStep::Complete;
                    self.onboarding_completed_once = true;
                    TransitionOutcome::Applied(None)
                } else {
                    TransitionOutcome::Rejected(RejectReason::InvalidOnboardingTransition)
                }
            },
            Event::OnboardingReconciled(step) => {
                if self.onboarding == OnboardingStep::Complete && step != OnboardingStep::Complete {
                    TransitionOutcome::Stale
                } else {
                    self.onboarding = step;
                    if step == OnboardingStep::Complete {
                        self.onboarding_completed_once = true;
                    }
                    TransitionOutcome::Applied(None)
                }
            },
        }
    }

    /// Applies one event atomically: the state changes only when the event
    /// commits and the resulting state satisfies every invariant.
    pub fn dispatch(&mut self, event: Event) -> (outcome: TransitionOutcome)
        ensures
            (final(self)@, outcome) == old(self)@.dispatch(event),
            final(self)@.lanes.len() == LANE_COUNT,
            old(self)@.well_formed() ==> final(self)@.well_formed(),
    {
        if self.check_invariants().is_err() {
            return TransitionOutcome::Rejected(RejectReason::InvariantViolation);
        }
        let mut candidate = *self;
        let outcome = candidate.apply(event);
        if !outcome.committed() {
            return outcome;
        }
        if candidate.check_invariants().is_err() {
            return TransitionOutcome::Rejected(RejectReason::InvariantViolation);
        }
        *self = candidate;
        outcome
    }

    /// Moves the generation counter forward to `generation`, as when a
    /// counter persisted by an earlier run is restored. It never moves back,
    /// so no token value is ever issued twice.
    pub fn advance_generation(&mut self, generation: u64)
        ensures
            final(self)@ == (MachineView {
                generation: if generation > old(self)@.generation {
                    generation
                } else {
                    old(self)@.generation
                },
                ..old(self)@
            }),
            final(self)@.lanes.len() == LANE_COUNT,
            old(self)@.well_formed() ==> final(self)@.well_formed(),
    {
        let ghost before = self@;
        if generation > self.generation {
            self.generation = generation;
        }
        proof {
            assert(self@.lanes == before.lanes);
            if before.well_formed() {
                assert forall|lane: Lane| #[trigger] self@.lane_sound(lane) by {
                    assert(before.lane_sound(lane));
                }
                assert(self@.app_phase == AppPhase::Booting ==> !self@.any_lane_running()) by {
                    if self@.app_phase == AppPhase::Booting && self@.any_lane_running() {
                        let lane = choose|lane: Lane| #[trigger] self@.lane(lane).phase
                            == LanePhase::Running;
                        assert(before.lane(lane).phase == LanePhase::Running);
                    }
                }
            }
        }
    }
}

/// A freshly created machine satisfies every invariant, whatever the
/// persisted sign-in flag and onboarding step it starts from.
pub proof fn law_initial_state_is_sound(signed_in: bool, onboarding: OnboardingStep)
    ensures
        initial_machine(signed_in, onboarding).well_formed(),
{
    let s = initial_machine(signed_in, onboarding);
    assert forall|lane: Lane| #[trigger] s.lane_sound(lane) by {
        assert(0 <= lane_slot(lane) < LANE_COUNT);
    }
    assert forall|lane: Lane| #[trigger] s.lane(lane).phase != LanePhase::Running by {
        assert(0 <= lane_slot(lane) < LANE_COUNT);
    }
}

proof fn lemma_signed_out_sound(s: MachineView)
    requires
        s.well_formed(),
    ensures
        s.signed_out().well_formed(),
{
    let n = s.signed_out();
    assert forall|lane: Lane| #[trigger] n.lane_sound(lane) by {
        assert(0 <= lane_slot(lane) < LANE_COUNT);
        assert(lane_at(lane_slot(lane)) == lane);
        assert(s.lane_sound(lane));
    }
    assert forall|lane: Lane| s.app_phase == AppPhase::Booting implies #[trigger] n.lane(lane).phase
        != LanePhase::Running by {
        assert(0 <= lane_slot(lane) < LANE_COUNT);
        assert(lane_at(lane_slot(lane)) == lane);
        assert(s.lane(lane).phase != LanePhase::Running);
    }
}

proof fn lemma_apply_sound(s: MachineView, event: Event)
    requires
        s.well_formed(),
    ensures
        s.apply(event).0.well_formed(),
        !(s.apply(event).1 is Applied) ==> s.apply(event).0 == s,
{
    let (n, outcome) = s.apply(event);
    if !(event is StartupCompleted) && s.app_phase != AppPhase::Ready {
    } else {
        match event {
            Event::StartupCompleted => {
                assert forall|lane: Lane| #[trigger] n.lane_sound(lane) by {
                    assert(s.lane_sound(lane));
                }
            },
            Event::LoginRequested(provider) => {
                assert forall|lane: Lane| #[trigger] n.lane_sound(lane) by {
                    assert(s.lane_sound(lane));
                }
            },
            Event::LoginSucceeded(token) => {
                assert forall|lane: Lane| #[trigger] n.lane_sound(lane) by {
                    assert(s.lane_sound(lane));
                }
            },
            Event::LoginFailed(token) => {
                assert forall|lane: Lane| #[trigger] n.lane_sound(lane) by {
                    assert(s.lane_sound(lane));
                }
            },
            Event::LogoutRequested => {
                lemma_signed_out_sound(s);
            },
            Event::LaneRequested(l) => {
                if outcome is Applied {
                    assert forall|lane: Lane| #[trigger] n.lane_sound(lane) by {
                        assert(s.lane_sound(lane));
                        assert(0 <= lane_slot(lane) < LANE_COUNT);
                    }
                }
            },
            Event::LaneSucceeded(l, token) => {
                if outcome is Applied {
                    assert forall|lane: Lane| #[trigger] n.lane_sound(lane) by {
                        assert(s.lane_sound(lane));
                        assert(0 <= lane_slot(lane) < LANE_COUNT);
                    }
                    assert forall|lane: Lane| s.app_phase == AppPhase::Booting implies #[trigger] n.lane(
                        lane,
                    ).phase != LanePhase::Running by {}
                }
            },
            Event::LaneFailed(l, token) => {
                if outcome is Applied {
                    assert forall|lane: Lane| #[trigger] n.lane_sound(lane) by {
                        assert(s.lane_sound(lane));
                        assert(0 <= lane_slot(lane) < LANE_COUNT);
                    }
                    assert forall|lane: Lane| s.app_phase == AppPhase::Booting implies #[trigger] n.lane(
                        lane,
                    ).phase != LanePhase::Running by {}
                }
            },
            _ => {
                assert forall|lane: Lane| #[trigger] n.lane_sound(lane) by {
                    assert(s.lane_sound(lane));
                }
            },
        }
    }
}

/// On a sound state, `dispatch` is exactly the transition relation: the
/// invariant check after a transition never fires, and the state stays sound.
pub proof fn law_dispatch_preserves_invariants(s: MachineView, event: Event)
    requires
        s.well_formed(),
    ensures
        s.dispatch(event) == s.apply(event),
        s.dispatch(event).0.well_formed(),
{
    lemma_apply_sound(s, event);
}

/// An event that does not commit leaves the state exactly as it was: refused
/// requests fail closed and obsolete completions stutter.
pub proof fn law_uncommitted_events_change_nothing(s: MachineView, event: Event)
    ensures
        !(s.dispatch(event).1 is Applied) ==> s.dispatch(event).0 == s,
{
    if s.well_formed() {
        lemma_apply_sound(s, event);
    }
}

/// Before startup completes, every other event is refused and nothing moves.
pub proof fn law_nothing_happens_before_startup(s: MachineView, event: Event)
    requires
        s.well_formed(),
        s.app_phase == AppPhase::Booting,
        !(event is StartupCompleted),
    ensures
        s.dispatch(event) == (s, TransitionOutcome::Rejected(RejectReason::AppNotReady)),
{
}

/// A login result whose token is not the active login token is stale and
/// changes nothing.
pub proof fn law_stale_login_results_stutter(s: MachineView, token: OperationToken, succeeded: bool)
    requires
        s.well_formed(),
        s.app_phase == AppPhase::Ready,
        !s.accepts_auth_token(token@),
    ensures
        s.dispatch(
            if succeeded {
                Event::LoginSucceeded(token)
            } else {
                Event::LoginFailed(token)
            },
        ) == (s, TransitionOutcome::Stale),
{
}

/// A lane result whose token is not that lane's active token is stale and
/// changes nothing; in particular it cannot overwrite a newer request on the
/// same lane.
pub proof fn law_stale_lane_results_stutter(
    s: MachineView,
    lane: Lane,
    token: OperationToken,
    succeeded: bool,
)
    requires
        s.well_formed(),
        s.app_phase == AppPhase::Ready,
        !s.accepts_lane_token(lane, token@),
    ensures
        s.dispatch(
            if succeeded {
                Event::LaneSucceeded(lane, token)
            } else {
                Event::LaneFailed(lane, token)
            },
        ) == (s, TransitionOutcome::Stale),
{
}

/// Logging out commits, ends any session or login, cancels every auth-bound
/// lane and leaves the other lanes alone, so that no login or auth-bound
/// result issued before the logout is accepted afterwards.
pub proof fn law_logout_invalidates_authenticated_work(s: MachineView)
    requires
        s.well_formed(),
        s.app_phase == AppPhase::Ready,
    ensures
        ({
            let (n, outcome) = s.dispatch(Event::LogoutRequested);
            &&& outcome == TransitionOutcome::Applied(None)
            &&& n.auth.phase == AuthPhase::SignedOut
            &&& forall|token: u64| !n.accepts_auth_token(token)
            &&& forall|lane: Lane|
                lane_requires_auth(lane) ==> (#[trigger] n.lane(lane)).phase == LanePhase::Idle
            &&& forall|lane: Lane, token: u64|
                lane_requires_auth(lane) ==> !#[trigger] n.accepts_lane_token(lane, token)
            &&& forall|lane: Lane| !lane_requires_auth(lane) ==> #[trigger] n.lane(lane) == s.lane(lane)
        }),
{
    lemma_apply_sound(s, Event::LogoutRequested);
    let n = s.signed_out();
    assert forall|lane: Lane| #[trigger] n.lane(lane) == (if lane_requires_auth(lane) {
        cancelled_lane(s.lane(lane))
    } else {
        s.lane(lane)
    }) by {
        assert(0 <= lane_slot(lane) < LANE_COUNT);
        assert(lane_at(lane_slot(lane)) == lane);
    }
}

/// Once onboarding is complete it stays complete, whatever event arrives.
pub proof fn law_completed_onboarding_never_regresses(s: MachineView, event: Event)
    requires
        s.well_formed(),
        s.onboarding == OnboardingStep::Complete,
    ensures
        s.dispatch(event).0.onboarding == OnboardingStep::Complete,
{
    lemma_apply_sound(s, event);
}

/// Completion is irreversible, on any state and for any event: once the
/// completion witness is set it stays set, and a completed flow stays
/// complete, both in the transition itself and in what `dispatch` commits.
pub proof fn law_completion_is_irreversible(s: MachineView, event: Event)
    ensures
        s.onboarding_completed_once ==> s.apply(event).0.onboarding_completed_once,
        s.onboarding == OnboardingStep::Complete ==> s.apply(event).0.onboarding
            == OnboardingStep::Complete,
        s.onboarding_completed_once ==> s.dispatch(event).0.onboarding_completed_once,
        s.onboarding == OnboardingStep::Complete ==> s.dispatch(event).0.onboarding
            == OnboardingStep::Complete,
{
}

/// The onboarding flow is a chain: the step before `s` is `p` exactly when
/// the step after `p` is `s`, and each step forward raises the step index
/// by exactly one.
pub proof fn law_onboarding_steps_form_a_chain(s: OnboardingStep, p: OnboardingStep)
    ensures
        previous_step(s) == Some(p) <==> next_step(p) == Some(s),
        next_step(p) == Some(s) ==> step_index(s) == step_index(p) + 1,
{
}

/// On a sound, ready machine, going back commits from every step but the
/// first and the completed one, and lands on the step just before: the one
/// whose next step is where the flow was, one index lower. Nothing else
/// changes.
pub proof fn law_going_back_moves_one_step(s: MachineView)
    requires
        s.well_formed(),
        s.app_phase == AppPhase::Ready,
    ensures
        ({
            let (n, outcome) = s.dispatch(Event::OnboardingPrevious);
            &&& (outcome is Applied) <==> (s.onboarding != OnboardingStep::Welcome
                && s.onboarding != OnboardingStep::Complete)
            &&& outcome is Applied ==> {
                &&& next_step(n.onboarding) == Some(s.onboarding)
                &&& step_index(n.onboarding) + 1 == step_index(s.onboarding)
                &&& n == MachineView { onboarding: n.onboarding, ..s }
            }
            &&& !(outcome is Applied) ==> n == s
        }),
{
    lemma_apply_sound(s, Event::OnboardingPrevious);
}

/// On a sound, ready machine, going forward commits from every step before
/// `Ready` and lands on the next step, one index higher. Nothing else
/// changes.
pub proof fn law_going_forward_moves_one_step(s: MachineView)
    requires
        s.well_formed(),
        s.app_phase == AppPhase::Ready,
    ensures
        ({
            let (n, outcome) = s.dispatch(Event::OnboardingNext);
            &&& (outcome is Applied) <==> (s.onboarding != OnboardingStep::Ready
                && s.onboarding != OnboardingStep::Complete)
            &&& outcome is Applied ==> {
                &&& previous_step(n.onboarding) == Some(s.onboarding)
                &&& step_index(n.onboarding) == step_index(s.onboarding) + 1
                &&& n == MachineView { onboarding: n.onboarding, ..s }
            }
            &&& !(outcome is Applied) ==> n == s
        }),
{
    lemma_apply_sound(s, Event::OnboardingNext);
}

/// A sign-in can start whenever no session is held and none is under way,
/// after a sign-out and after a failed attempt alike: on a sound, ready
/// machine with a token left to issue, it commits with the next token, the
/// sign-in is in progress with that provider, and that token is the one
/// whose result will be accepted.
pub proof fn law_sign_in_can_start_or_be_retried(s: MachineView, provider: Provider)
    requires
        s.well_formed(),
        s.app_phase == AppPhase::Ready,
        s.auth.phase == AuthPhase::SignedOut || s.auth.phase == AuthPhase::Failed,
        s.generation < u64::MAX,
    ensures
        ({
            let (n, outcome) = s.dispatch(Event::LoginRequested(provider));
            &&& outcome is Applied
            &&& outcome_token(outcome) is Some
            &&& outcome_token(outcome)->0@ == s.generation + 1
            &&& n.auth.phase == AuthPhase::Authenticating
            &&& n.auth.provider == Some(provider)
            &&& n.accepts_auth_token(outcome_token(outcome)->0@)
        }),
{
    broadcast use lemma_token_value;

    lemma_apply_sound(s, Event::LoginRequested(provider));
}

/// A sign-in is refused while a session is held or another sign-in is under
/// way, and the machine stays as it was.
pub proof fn law_one_sign_in_at_a_time(s: MachineView, provider: Provider)
    requires
        s.auth.phase == AuthPhase::SignedIn || s.auth.phase == AuthPhase::Authenticating,
    ensures
        !(s.dispatch(Event::LoginRequested(provider)).1 is Applied),
        s.dispatch(Event::LoginRequested(provider)).0 == s,
{
}

/// While signed out, exactly the calendar, onboarding-hydration,
/// cloud-notification and cloud-reminder-sync lanes are refused for want of
/// a sign-in; once signed in, no lane is.
pub proof fn law_auth_bound_lanes(s: MachineView, lane: Lane)
    requires
        s.well_formed(),
        s.app_phase == AppPhase::Ready,
    ensures
        !s.signed_in() ==> (s.dispatch(Event::LaneRequested(lane)).1 == TransitionOutcome::Rejected(
            RejectReason::AuthRequired,
        ) <==> (lane == Lane::Calendar || lane == Lane::OnboardingHydration || lane
            == Lane::CloudNotification || lane == Lane::CloudReminderSync)),
        s.signed_in() ==> s.dispatch(Event::LaneRequested(lane)).1 != TransitionOutcome::Rejected(
            RejectReason::AuthRequired,
        ),
{
    lemma_apply_sound(s, Event::LaneRequested(lane));
}

/// The generation counter never decreases, and a token handed out is the new
/// generation, one above the old: larger than every token issued before.
pub proof fn law_tokens_are_fresh(s: MachineView, event: Event)
    ensures
        s.dispatch(event).0.generation >= s.generation,
        outcome_token(s.dispatch(event).1) is Some ==> {
            &&& s.generation < u64::MAX
            &&& outcome_token(s.dispatch(event).1)->0@ == s.generation + 1
            &&& s.dispatch(event).0.generation == s.generation + 1
        },
{
    broadcast use lemma_token_value;

}

/// Starting or finishing work on one lane leaves every other lane as it was.
pub proof fn law_lanes_are_independent(s: MachineView, event: Event, other: Lane)
    requires
        s.well_formed(),
        match event {
            Event::LaneRequested(lane) => lane != other,
            Event::LaneSucceeded(lane, _) => lane != other,
            Event::LaneFailed(lane, _) => lane != other,
            _ => false,
        },
    ensures
        s.dispatch(event).0.lane(other) == s.lane(other),
{
    lemma_apply_sound(s, event);
    assert(0 <= lane_slot(other) < LANE_COUNT);
    match event {
        Event::LaneRequested(lane) => {
            assert(lane_slot(lane) != lane_slot(other));
        },
        Event::LaneSucceeded(lane, _) => {
            assert(lane_slot(lane) != lane_slot(other));
        },
        Event::LaneFailed(lane, _) => {
            assert(lane_slot(lane) != lane_slot(other));
        },
        _ => {},
    }
}

proof fn lemma_untrimmed(s: Seq<char>)
    requires
        s.len() > 0,
        !crate::text::is_white_space(s[0]),
        !crate::text::is_white_space(s.last()),
    ensures
        trimmed(s) == s,
{
}

/// A step written under its persisted name, with the completion flag set
/// exactly for the completed step, is restored as the same step.
pub proof fn law_persisted_step_round_trip(step: OnboardingStep)
    ensures
        (if step == OnboardingStep::Complete {
            OnboardingStep::Complete
        } else {
            step_from_name(trimmed(step_name(step)@))
        }) == step,
{
    reveal_strlit("welcome");
    reveal_strlit("account");
    reveal_strlit("backup");
    reveal_strlit("essentials");
    reveal_strlit("ready");
    match step {
        OnboardingStep::Welcome => lemma_untrimmed("welcome"@),
        OnboardingStep::Account => lemma_untrimmed("account"@),
        OnboardingStep::Backup => lemma_untrimmed("backup"@),
        OnboardingStep::Essentials => lemma_untrimmed("essentials"@),
        OnboardingStep::Ready => lemma_untrimmed("ready"@),
        OnboardingStep::Complete => {},
    }
}

} // verus!
