//! How much of what happens is reported.

use vstd::prelude::*;

verus! {

/// The most detailed level of messages that is still shown.
#[derive(Debug, Clone, Copy, PartialEq, Eq, PartialOrd, Ord, Structural)]
pub enum LogLevel {
    Off,
    Error,
    Warn,
    Info,
    Debug,
    Trace,
}

impl Default for LogLevel {
    /// Warnings and errors are shown.
    fn default() -> (level: LogLevel)
        ensures
            level == LogLevel::Warn,
    {
        LogLevel::Warn
    }
}

} // verus!
