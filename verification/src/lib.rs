//! Session state management for on-demand video streaming.
//!
//! The crate holds the decisions of a streaming server that drives one
//! transcoder child per session: when to start, pause, resume or restart a
//! child, when to fall back to another profile, which sessions to reap, and
//! how the sequence counter of delivered segments advances. The work on
//! processes and files is done by the caller, who reports what happened.

pub mod error;
pub mod manager;
pub mod patch;
pub mod paths;
pub mod profile;
pub mod session;
