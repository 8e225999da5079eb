//! A personal GitHub-notification triage library.
//!
//! The crate models the three subsystems of the dashboard: the remote
//! gateway's pagination and polling arithmetic, the declarative scoring
//! rule engine, and the terminal coordinator's message state machine,
//! together with the record store that syncs are merged into.

pub mod config;
pub mod dirs;
pub mod filter;
pub mod gh;
pub mod models;
pub mod pagination;
pub mod score;
pub mod service;
pub mod store;
pub mod text;
pub mod time;
pub mod tui;
