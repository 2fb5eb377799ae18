//! The terminal's log levels and their correspondence with `log`'s levels.
use vstd::prelude::*;

verus! {

/// Relies on `log::Level` as its source declares it: a field-less enum of
/// the five variants `Error`, `Warn`, `Info`, `Debug` and `Trace`.
#[verifier::external_type_specification]
pub struct ExLevel(log::Level);

/// How much the terminal logs.
#[derive(Debug, Clone, Copy, PartialEq, Eq, Hash, Structural)]
pub enum LogLevel {
    /// Debug information and everything above.
    Debug,
    /// Information and everything above.
    Info,
    /// Warnings and errors.
    Warn,
    /// Errors only.
    Error,
    /// Nothing.
    Off,
}

/// A [`LogLevel`] of `Off` has no counterpart among `log`'s levels.
#[derive(Debug, Clone, Copy, PartialEq, Eq, Structural)]
pub struct LogLevelIsOff;

impl LogLevel {
    /// The terminal level that shows what `level` designates; `Trace` folds
    /// into `Debug`, the terminal's most verbose level.
    pub fn from_level(level: log::Level) -> (r: LogLevel)
        ensures
            r == level_for(level),
    {
        match level {
            log::Level::Trace | log::Level::Debug => LogLevel::Debug,
            log::Level::Info => LogLevel::Info,
            log::Level::Warn => LogLevel::Warn,
            log::Level::Error => LogLevel::Error,
        }
    }

    /// The `log` level that designates what this level shows, or
    /// [`LogLevelIsOff`] for `Off`.
    pub fn to_level(self) -> (r: Result<log::Level, LogLevelIsOff>)
        ensures
            r == match self {
                LogLevel::Debug => Ok(log::Level::Debug),
                LogLevel::Info => Ok(log::Level::Info),
                LogLevel::Warn => Ok(log::Level::Warn),
                LogLevel::Error => Ok(log::Level::Error),
                LogLevel::Off => Err(LogLevelIsOff),
            },
    {
        match self {
            LogLevel::Debug => Ok(log::Level::Debug),
            LogLevel::Info => Ok(log::Level::Info),
            LogLevel::Warn => Ok(log::Level::Warn),
            LogLevel::Error => Ok(log::Level::Error),
            LogLevel::Off => Err(LogLevelIsOff),
        }
    }
}

/// The terminal level for a `log` level, as `LogLevel::from_level` gives.
pub open spec fn level_for(level: log::Level) -> LogLevel {
    match level {
        log::Level::Trace | log::Level::Debug => LogLevel::Debug,
        log::Level::Info => LogLevel::Info,
        log::Level::Warn => LogLevel::Warn,
        log::Level::Error => LogLevel::Error,
    }
}

impl From<log::Level> for LogLevel {
    fn from(level: log::Level) -> (r: LogLevel) {
        LogLevel::from_level(level)
    }
}

impl vstd::std_specs::convert::FromSpecImpl<log::Level> for LogLevel {
    open spec fn obeys_from_spec() -> bool {
        true
    }

    open spec fn from_spec(level: log::Level) -> LogLevel {
        level_for(level)
    }
}

} // verus!
