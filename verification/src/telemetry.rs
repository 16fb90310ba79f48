//! The choice of log format. Metrics and the log subscriber are set up by the
//! program around the library.

use vstd::prelude::*;

use crate::text::{ascii_lowercase, ascii_lowercase_chars, chars_eq, chars_of};

verus! {

/// How logs are written.
#[derive(Clone, Copy, Debug, PartialEq, Eq, Structural)]
pub enum LogFormat {
    /// One JSON object per event.
    Json,
    /// Human-readable lines.
    Pretty,
    /// An unknown `LOG_FORMAT`: human-readable lines, after a warning.
    Unknown,
}

/// The log format a `LOG_FORMAT` value asks for (`pretty` when unset),
/// compared in ASCII lower case: `json`, or `pretty` or `human`.
pub open spec fn log_format_spec(value: Option<Seq<char>>) -> LogFormat {
    let v = ascii_lowercase(
        match value {
            Some(s) => s,
            None => "pretty"@,
        },
    );
    if v == "json"@ {
        LogFormat::Json
    } else if v == "pretty"@ || v == "human"@ {
        LogFormat::Pretty
    } else {
        LogFormat::Unknown
    }
}

/// The log format a `LOG_FORMAT` value asks for.
pub fn log_format(value: Option<&str>) -> (r: LogFormat)
    ensures
        r == log_format_spec(crate::webhook::opt_str_text(value)),
{
    let raw = match value {
        Some(s) => chars_of(s),
        None => chars_of("pretty"),
    };
    let v = ascii_lowercase_chars(raw.as_slice());
    if chars_eq(v.as_slice(), chars_of("json").as_slice()) {
        LogFormat::Json
    } else if chars_eq(v.as_slice(), chars_of("pretty").as_slice()) || chars_eq(
        v.as_slice(),
        chars_of("human").as_slice(),
    ) {
        LogFormat::Pretty
    } else {
        LogFormat::Unknown
    }
}

} // verus!
