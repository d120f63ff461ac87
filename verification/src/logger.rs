//! Logging plumbing used by the unpacker variants: the hosts (CLI, GUI)
//! surface messages differently, so the core exposes a minimal trait and each
//! host supplies its own implementation.

use vstd::prelude::*;

verus! {

/// Message severity.
#[derive(Debug, Clone, Copy, PartialEq, Eq)]
pub enum Level {
    /// Verbose diagnostic output.
    Debug,
    /// Informational progress messages.
    Info,
    /// Successful step completion.
    Success,
    /// A failure message.
    Error,
}

/// Receives log messages emitted while a variant runs.
pub trait Logger {
    /// Handles a single log message.
    fn log(&self, level: Level, message: &str);
}

/// A `Logger` that discards everything. Useful when running headless.
pub struct NullLogger;

impl Logger for NullLogger {
    fn log(&self, _level: Level, _message: &str) {
    }
}

} // verus!
