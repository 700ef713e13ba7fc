//! Settings chosen on the command line: log level and format, and the
//! output format of the validator.

use vstd::prelude::*;

verus! {

/// The threshold of the log.
#[derive(Debug, Clone, Copy, PartialEq, Eq)]
pub enum LogLevel {
    Trace,
    Debug,
    Info,
    Warn,
    Error,
}

impl LogLevel {
    /// The level's name in upper case.
    pub fn name(&self) -> (r: &'static str)
        ensures
            *self == LogLevel::Trace ==> r@ == "TRACE"@,
            *self == LogLevel::Debug ==> r@ == "DEBUG"@,
            *self == LogLevel::Info ==> r@ == "INFO"@,
            *self == LogLevel::Warn ==> r@ == "WARN"@,
            *self == LogLevel::Error ==> r@ == "ERROR"@,
    {
        match self {
            LogLevel::Trace => "TRACE",
            LogLevel::Debug => "DEBUG",
            LogLevel::Info => "INFO",
            LogLevel::Warn => "WARN",
            LogLevel::Error => "ERROR",
        }
    }
}

/// How log records are written.
#[derive(Debug, Clone, Copy, PartialEq, Eq)]
pub enum LogFormat {
    Json,
    Pretty,
}

/// The log format: JSON when asked for, else pretty when asked for or when
/// the output is a terminal, else JSON.
pub fn resolve_format(pretty: bool, json: bool, stdout_is_terminal: bool) -> (r: LogFormat)
    ensures
        r == (if json {
            LogFormat::Json
        } else if pretty || stdout_is_terminal {
            LogFormat::Pretty
        } else {
            LogFormat::Json
        }),
{
    if json {
        LogFormat::Json
    } else if pretty || stdout_is_terminal {
        LogFormat::Pretty
    } else {
        LogFormat::Json
    }
}

/// The output of the validator.
#[derive(Debug, Clone, Copy, PartialEq, Eq)]
pub enum ValidateFormat {
    Text,
    Json,
}

} // verus!
