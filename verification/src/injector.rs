//! Supervising the DLL in the game: what the injection status is after a
//! probe, and the line logged when it changes.

use vstd::prelude::*;
use crate::discovery::{chars_eq_ignore_ascii_case, eq_ignore_ascii_case_spec};
use crate::text::{chars_of, push_str, string_of, trim_end_char, trim_end_char_seq};
use crate::ui::{InjectPhase, InjectStatus};

verus! {

pub const GAME_PROCESS: &'static str = "deadlock.exe";
pub const DLL_FILE_NAME: &'static str = "deadass_dll.dll";

/// What a probe of the game found.
#[derive(Debug, Clone, PartialEq, Eq)]
pub enum ProbeOutcome {
    /// The DLL file is missing at the given path.
    DllMissing(String),
    /// The game is not running.
    NoGame,
    /// The DLL is already loaded in the game.
    AlreadyLoaded,
    /// The DLL was injected into the process with this id.
    Injected(u32),
    /// Injection failed with this error.
    InjectFailed(String),
}

pub open spec fn probe_status_spec(outcome: ProbeOutcome) -> (InjectPhase, Option<Seq<char>>) {
    match outcome {
        ProbeOutcome::DllMissing(path) => (
            InjectPhase::Failed,
            Some("dll not found at "@ + path@ + " (build it with: cargo build -p deadass-dll)"@),
        ),
        ProbeOutcome::NoGame => (InjectPhase::WaitingForGame, None),
        ProbeOutcome::AlreadyLoaded => (InjectPhase::Injected, None),
        ProbeOutcome::Injected(pid) => (
            InjectPhase::Injected,
            Some("pid "@ + crate::text::decimal_seq(pid as nat)),
        ),
        ProbeOutcome::InjectFailed(error) => (InjectPhase::Failed, Some(error@)),
    }
}

pub open spec fn status_view(s: InjectStatus) -> (InjectPhase, Option<Seq<char>>) {
    (
        s.phase,
        match s.detail {
            Some(d) => Some(d@),
            None => None,
        },
    )
}

/// The status a probe leads to; with the DLL source off the status is idle.
pub fn inject_status(dll_selected: bool, outcome: ProbeOutcome) -> (s: InjectStatus)
    ensures
        !dll_selected ==> s.phase == InjectPhase::Idle && s.detail is None,
        dll_selected ==> status_view(s) == probe_status_spec(outcome),
{
    if !dll_selected {
        return InjectStatus::phase(InjectPhase::Idle);
    }
    match outcome {
        ProbeOutcome::DllMissing(path) => {
            let mut out = chars_of("dll not found at ");
            push_str(&mut out, path.as_str());
            push_str(&mut out, " (build it with: cargo build -p deadass-dll)");
            InjectStatus::failed(string_of(out.as_slice()))
        },
        ProbeOutcome::NoGame => InjectStatus::phase(InjectPhase::WaitingForGame),
        ProbeOutcome::AlreadyLoaded => InjectStatus::phase(InjectPhase::Injected),
        ProbeOutcome::Injected(pid) => {
            let mut out = chars_of("pid ");
            crate::text::push_decimal(&mut out, pid as u64);
            InjectStatus::detail(InjectPhase::Injected, string_of(out.as_slice()))
        },
        ProbeOutcome::InjectFailed(error) => InjectStatus::failed(error),
    }
}

pub open spec fn describe_status_spec(s: InjectStatus) -> Seq<char> {
    match s.phase {
        InjectPhase::Idle => "dll source off"@,
        InjectPhase::WaitingForGame => "waiting for deadlock.exe"@,
        InjectPhase::Injected => DLL_FILE_NAME@ + " injected ("@ + match s.detail {
            Some(d) => d@,
            None => Seq::empty(),
        } + ")"@,
        InjectPhase::Failed => "dll injection failed: "@ + match s.detail {
            Some(d) => d@,
            None => "unknown error"@,
        },
    }
}

/// The line logged when the injection status changes.
pub fn describe_status(s: &InjectStatus) -> (line: String)
    ensures
        line@ == describe_status_spec(*s),
{
    match s.phase {
        InjectPhase::Idle => string_of(chars_of("dll source off").as_slice()),
        InjectPhase::WaitingForGame => string_of(chars_of("waiting for deadlock.exe").as_slice()),
        InjectPhase::Injected => {
            let mut out = chars_of(DLL_FILE_NAME);
            push_str(&mut out, " injected (");
            match &s.detail {
                Some(d) => push_str(&mut out, d.as_str()),
                None => {},
            }
            push_str(&mut out, ")");
            proof {
                assert(out@ =~= describe_status_spec(*s));
            }
            string_of(out.as_slice())
        },
        InjectPhase::Failed => {
            let mut out = chars_of("dll injection failed: ");
            match &s.detail {
                Some(d) => push_str(&mut out, d.as_str()),
                None => push_str(&mut out, "unknown error"),
            }
            string_of(out.as_slice())
        },
    }
}

/// The configured DLL path, when one is set and not empty.
pub fn configured_dll_path(dll_path: &Option<String>) -> (r: Option<String>)
    ensures
        match dll_path {
            Some(p) => if p@.len() > 0 {
                r == Some(*p)
            } else {
                r is None
            },
            None => r is None,
        },
{
    match dll_path {
        Some(p) => if p.as_str().unicode_len() > 0 {
            Some(p.clone())
        } else {
            None
        },
        None => None,
    }
}

/// Whether a name field of a process or module listing names `wanted`:
/// its trailing NULs are dropped and ASCII case is ignored.
pub fn listed_name_matches(raw: &str, wanted: &str) -> (b: bool)
    ensures
        b == eq_ignore_ascii_case_spec(trim_end_char_seq(raw@, '\0'), wanted@),
{
    chars_eq_ignore_ascii_case(&trim_end_char(&chars_of(raw), '\0'), &chars_of(wanted))
}

} // verus!
