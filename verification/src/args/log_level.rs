//! Verbosity selection, as given on the command line.

use vstd::prelude::*;

use crate::text::{matches_ignore_case, str_eq_ignore_case};

verus! {

/// Logging verbosity, from quietest to loudest.
#[derive(Debug, Clone, Copy, PartialEq, Eq, PartialOrd, Ord, Structural)]
pub enum LogLevel {
    Error,
    Warn,
    Info,
    Debug,
    Trace,
}

/// The level a name denotes, if any: `error`, `warn`, `info`, `debug` or
/// `trace`, in any mix of ASCII case.
pub open spec fn spec_log_level_of(s: Seq<char>) -> Option<LogLevel> {
    if matches_ignore_case(s, "error"@) {
        Some(LogLevel::Error)
    } else if matches_ignore_case(s, "warn"@) {
        Some(LogLevel::Warn)
    } else if matches_ignore_case(s, "info"@) {
        Some(LogLevel::Info)
    } else if matches_ignore_case(s, "debug"@) {
        Some(LogLevel::Debug)
    } else if matches_ignore_case(s, "trace"@) {
        Some(LogLevel::Trace)
    } else {
        None
    }
}

/// The `LevelFilter` type of the `log` facade, used by the binary to
/// configure its logger; opaque here.
#[verifier::external_type_specification]
#[verifier::external_body]
pub struct ExLevelFilter(log::LevelFilter);

impl LogLevel {
    /// Parse a verbosity name, accepting any ASCII case; an unknown name
    /// is rejected.
    pub fn from_str(s: &str) -> (r: Result<LogLevel, &'static str>)
        ensures
            r is Ok <==> spec_log_level_of(s@) is Some,
            r matches Ok(l) ==> spec_log_level_of(s@) == Some(l),
    {
        if str_eq_ignore_case(s, "error") {
            Ok(LogLevel::Error)
        } else if str_eq_ignore_case(s, "warn") {
            Ok(LogLevel::Warn)
        } else if str_eq_ignore_case(s, "info") {
            Ok(LogLevel::Info)
        } else if str_eq_ignore_case(s, "debug") {
            Ok(LogLevel::Debug)
        } else if str_eq_ignore_case(s, "trace") {
            Ok(LogLevel::Trace)
        } else {
            Err("invalid log level")
        }
    }

    /// The same verbosity as the `log` facade's filter, for the binary's
    /// logger setup.
    ///
    /// Relies on the `log` crate's `LevelFilter` variants; the value is
    /// opaque here, so nothing is claimed of it.
    #[verifier::external_body]
    pub fn to_level_filter(self) -> log::LevelFilter {
        match self {
            LogLevel::Error => log::LevelFilter::Error,
            LogLevel::Warn => log::LevelFilter::Warn,
            LogLevel::Info => log::LevelFilter::Info,
            LogLevel::Debug => log::LevelFilter::Debug,
            LogLevel::Trace => log::LevelFilter::Trace,
        }
    }
}

} // verus!
