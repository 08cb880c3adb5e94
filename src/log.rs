//! The logging level, held in an explicit handle.

use vstd::prelude::*;

verus! {

/// How much is logged.
#[derive(Clone, Copy, Debug, PartialEq, Eq, Structural)]
pub enum LogLevel {
    Error,
    Warn,
    Info,
    Debug,
}

/// The Unicode lower-case form of `s`.
pub uninterp spec fn lowercase_of(s: Seq<char>) -> Seq<char>;

/// Relies on `str::to_lowercase`: the result depends on the characters alone.
#[verifier::external_body]
fn to_lowercase(s: &str) -> (r: String)
    ensures
        r@ == lowercase_of(s@),
{
    s.to_lowercase()
}

/// The level that a lower-case level name stands for; unknown names mean info.
pub open spec fn level_named(lower: Seq<char>) -> LogLevel {
    if lower == "error"@ {
        LogLevel::Error
    } else if lower == "warn"@ {
        LogLevel::Warn
    } else if lower == "info"@ {
        LogLevel::Info
    } else if lower == "debug"@ {
        LogLevel::Debug
    } else {
        LogLevel::Info
    }
}

/// The level that the lower-case name `lower` stands for.
pub fn log_level_from_lowercase(lower: &str) -> (r: LogLevel)
    ensures
        r == level_named(lower@),
{
    let name = String::from_str(lower);
    if name == String::from_str("error") {
        LogLevel::Error
    } else if name == String::from_str("warn") {
        LogLevel::Warn
    } else if name == String::from_str("info") {
        LogLevel::Info
    } else if name == String::from_str("debug") {
        LogLevel::Debug
    } else {
        LogLevel::Info
    }
}

/// The handle through which the level of the log is read and changed.
#[derive(Debug)]
pub struct Logger {
    pub level: LogLevel,
}

impl Logger {
    /// A handle at the default level, info.
    pub fn new() -> (r: Logger)
        ensures
            r.level == LogLevel::Info,
    {
        Logger { level: LogLevel::Info }
    }
}

/// Sets the level from its name, compared without case; an unknown name sets
/// info.
pub fn set_log_level_str(logger: &mut Logger, level: &str)
    ensures
        final(logger).level == level_named(lowercase_of(level@)),
{
    let lower = to_lowercase(level);
    set_log_level(logger, log_level_from_lowercase(lower.as_str()));
}

/// Sets the level.
pub fn set_log_level(logger: &mut Logger, level: LogLevel)
    ensures
        final(logger).level == level,
{
    logger.level = level;
}

} // verus!
