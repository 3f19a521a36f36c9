use vstd::prelude::*;
use crate::media_query::values::eq_chars;
use crate::text::chars_of;

verus! {

/// The levels of logging.
#[derive(Debug, Clone, Copy, PartialEq, Eq, Structural)]
pub enum LogLevel {
    Trace,
    Debug,
    Info,
    Warn,
    Error,
}

/// The level that a `RUST_LOG` value names; `info` where it names none or is
/// not set.
pub open spec fn spec_log_level(value: Option<Seq<char>>) -> LogLevel {
    match value {
        Some(v) => if v == "trace"@ {
            LogLevel::Trace
        } else if v == "debug"@ {
            LogLevel::Debug
        } else if v == "info"@ {
            LogLevel::Info
        } else if v == "warn"@ {
            LogLevel::Warn
        } else if v == "error"@ {
            LogLevel::Error
        } else {
            LogLevel::Info
        },
        None => LogLevel::Info,
    }
}

/// The level of logging that the value of `RUST_LOG` asks for.
pub fn log_level(value: Option<&str>) -> (r: LogLevel)
    ensures
        r == spec_log_level(match value { Some(v) => Some(v@), None => None }),
{
    let v = match value {
        Some(v) => v,
        None => return LogLevel::Info,
    };
    let cs = chars_of(v);
    if eq_chars(cs.as_slice(), "trace") {
        LogLevel::Trace
    } else if eq_chars(cs.as_slice(), "debug") {
        LogLevel::Debug
    } else if eq_chars(cs.as_slice(), "info") {
        LogLevel::Info
    } else if eq_chars(cs.as_slice(), "warn") {
        LogLevel::Warn
    } else if eq_chars(cs.as_slice(), "error") {
        LogLevel::Error
    } else {
        LogLevel::Info
    }
}

/// An on/off setting from the environment: on when the variable is `true`,
/// `default` when it is not set.
pub fn env_flag(value: Option<&str>, default: bool) -> (r: bool)
    ensures
        r == match value { Some(v) => v@ == "true"@, None => default },
{
    match value {
        Some(v) => {
            let cs = chars_of(v);
            eq_chars(cs.as_slice(), "true")
        },
        None => default,
    }
}

} // verus!
