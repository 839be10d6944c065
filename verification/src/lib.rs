//! Live view of which processes own which network ports, with change
//! tracking and exportable snapshots.
//!
//! The crate collects port/process bindings from the operating system's
//! facilities, normalizes them into [`model::PortInfo`] records, diffs
//! successive snapshots into an append-only event log, and renders
//! snapshots and event logs as CSV, JSON or YAML text.

pub mod codec;
pub mod commands;
pub mod dispatch;
pub mod export;
pub mod ident;
pub mod json;
pub mod keybindings;
pub mod lsof;
pub mod model;
pub mod nettable;
pub mod quoted;
pub mod text;
pub mod textcmp;
pub mod tracker;
pub mod ui;
pub mod util;
pub mod yaml;

pub use model::{
    KillProcessResponse, PortInfo, ProcessInfo, ProcessInfoResponse, ProcessPortState,
};
