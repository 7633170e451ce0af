//! Decides which Codex sessions are active and what a monitor reports of them.
//!
//! A session leaves a rollout file behind: one record per line. The library
//! folds those records into a status, turns the statuses of all sessions into
//! one snapshot, and decides when a snapshot is sent to whom. Reading files,
//! parsing records and talking to sockets is left to the program around it.

pub mod clock;
pub mod command;
pub mod config;
pub mod history;
pub mod order;
pub mod publish;
pub mod rollout;
pub mod scan;
pub mod session;
pub mod socket;
pub mod status;
pub mod text;
pub mod tracker;
