//! Core logic of a proctored coding environment: a registry of named
//! pseudo-terminal sessions, a shell-environment composer that forces
//! incremental command-history logging, a watcher that classifies raw
//! filesystem notifications into semantic events, and a sandboxed
//! workspace for user-facing file operations.

pub mod compose;
pub mod history;
pub mod sandbox;
pub mod session;
pub mod strutil;
pub mod terminal;
pub mod watcher;
pub mod workspace;
