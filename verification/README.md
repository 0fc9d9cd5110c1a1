# happy_wakey

The verified core of the Happy Wakey desktop client.

- `src/app_state.rs` — the control-state machine: readiness, authentication,
  onboarding and eight asynchronous operation lanes with monotonic tokens.
  `AppMachine::dispatch` is specified by `MachineView::dispatch`; the
  `law_*` proof functions state what every transition keeps (the invariants,
  stale-result suppression, logout cancellation, onboarding monotonicity,
  token freshness, lane independence).
- `src/config.rs`, `src/config_laws.rs` — the persisted configuration and its
  sanitizers, each specified over views, with the limits and merge rules
  proved as laws.
- `src/text.rs`, `src/weburl.rs`, `src/timestamp.rs` — trimming and cleaning
  text, http(s) address checks (parsing through the `url` crate) and RFC 3339
  timestamps (through `chrono`).
- `src/backend.rs` — the decisions of the desktop backend around the machine:
  what a user action or a finished background task does, and what the shell
  must do next (start or skip a refresh sweep, store before committing,
  mirror to the cloud only with sync on and a session stored).
- `app/` — the shell: the JSON configuration file, the backend object that
  performs effects, and the entry point.
