//! Control-state machine and configuration hygiene for the Happy Wakey
//! desktop client.
pub mod app_state;
pub mod backend;
pub mod config;
pub mod config_laws;
pub mod text;
pub mod timestamp;
pub mod weburl;
