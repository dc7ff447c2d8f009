//! The in-game sampler's diagnostic log: whether chatty logging is switched
//! on, and how a logged line is written.

use vstd::prelude::*;
use crate::text::{chars_of, decimal_seq, push_decimal, push_str, str_eq, string_of};

verus! {

/// The environment switch for chatty logging.
pub const ENV_SWITCH: &'static str = "DEADASS_DLL_DEBUG";
/// A marker file next to the DLL that switches chatty logging on.
pub const FILE_SWITCH: &'static str = "deadass_dll_debug.txt";

/// Chatty logging is on when the environment switch is set to something
/// other than empty or `0`, or when the marker file exists.
pub open spec fn debug_enabled_spec(env: Option<Seq<char>>, marker_file: bool) -> bool {
    (match env {
        Some(v) => v.len() > 0 && v != "0"@,
        None => false,
    }) || marker_file
}

pub fn debug_enabled(env: Option<&str>, marker_file: bool) -> (on: bool)
    ensures
        on == debug_enabled_spec(
            match env {
                Some(v) => Some(v@),
                None => None,
            },
            marker_file,
        ),
{
    let env_on = match env {
        Some(v) => chars_of(v).len() > 0 && !str_eq(v, "0"),
        None => false,
    };
    env_on || marker_file
}

/// A log record: the wall-clock milliseconds in brackets, then the line.
pub fn log_record(timestamp_ms: u64, line: &str) -> (record: String)
    ensures
        record@ == "["@ + decimal_seq(timestamp_ms as nat) + "] "@ + line@,
{
    let mut out = chars_of("[");
    push_decimal(&mut out, timestamp_ms);
    push_str(&mut out, "] ");
    push_str(&mut out, line);
    string_of(out.as_slice())
}

} // verus!
