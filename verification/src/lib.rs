//! Interactive commit-message assistant, verified core.
//!
//! The library holds the logic of the tool: the prompt builder, the
//! response extractor, the session state machine, the changeset model
//! and the staging plan. Process, terminal and repository I/O live in
//! the surrounding application, which feeds this library plain values.

pub mod api;
pub mod backend;
pub mod changeset;
pub mod cli;
pub mod constants;
pub mod context;
pub mod diff_format;
pub mod display;
pub mod extract;
pub mod json;
pub mod session;
pub mod text;
