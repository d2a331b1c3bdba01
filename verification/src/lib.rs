//! Terminal session management with a verified plugin pipeline.
//!
//! The crate tracks PTY-backed shell sessions in a registry, serializes
//! access to each session's pseudo-terminal, and threads every lifecycle
//! event through an ordered chain of plugins.

use vstd::prelude::*;

pub mod ai;
pub mod assoc;
pub mod chain;
pub mod config;
pub mod manager;
pub mod plugin;
pub mod plugins;
pub mod pty;
pub mod text;

verus! {

/// Errors surfaced by manager and session operations.
#[derive(Debug)]
pub enum TermError {
    /// An operation referenced a session id absent from the registry.
    SessionNotFound,
    /// An operation addressed the active session while none was active.
    NoActiveSession,
    /// The pseudo-terminal could not be allocated or resized.
    Pty(String),
    /// The shell executable could not be launched.
    Spawn(String),
    /// A write failed on an already-open pseudo-terminal.
    Io(String),
}

impl TermError {
    /// A human-readable description of the error.
    pub fn message(&self) -> (r: String)
        ensures
            self is SessionNotFound ==> r@ == "Session not found"@,
            self is NoActiveSession ==> r@ == "No active terminal session"@,
            self matches TermError::Pty(m) ==> r@ == m@,
            self matches TermError::Spawn(m) ==> r@ == m@,
            self matches TermError::Io(m) ==> r@ == m@,
    {
        match self {
            TermError::SessionNotFound => "Session not found".to_owned(),
            TermError::NoActiveSession => "No active terminal session".to_owned(),
            TermError::Pty(m) => m.clone(),
            TermError::Spawn(m) => m.clone(),
            TermError::Io(m) => m.clone(),
        }
    }
}

} // verus!
