//! The companion's observable state: which event sources are live, injection
//! and log-tail status, toy status, and a bounded log history.
//!
//! Times are milliseconds on the wall clock (see `poller::now_ms`).

use vstd::prelude::*;
use std::collections::VecDeque;
use crate::config::AppConfig;
use crate::poller::now_ms;
use crate::text::{chars_of, string_of};
use crate::toys::{ConnectionMode, ToyDevice};

verus! {

/// How long a source counts as live after it was last heard from.
pub const SOURCE_FRESH_MS: u64 = 5000;

/// The log history keeps this many lines at most.
pub const MAX_LOG_LINES: usize = 200;

pub const INITIAL_LOG: &'static str = "waiting for deadlock";

/// When each event source was last heard from.
#[derive(Debug, Clone, Copy, PartialEq, Eq, Structural)]
pub struct SourceStatus {
    pub mod_seen: Option<u64>,
    pub dll_seen: Option<u64>,
}

/// Heard from less than `SOURCE_FRESH_MS` before `now` (a time after `now`
/// counts as just now).
pub open spec fn fresh(seen: Option<u64>, now: u64) -> bool {
    match seen {
        Some(at) => (if now >= at {
            now - at
        } else {
            0
        }) < SOURCE_FRESH_MS,
        None => false,
    }
}

fn fresh_at(seen: Option<u64>, now: u64) -> (b: bool)
    ensures
        b == fresh(seen, now),
{
    match seen {
        Some(at) => (if now >= at {
            now - at
        } else {
            0
        }) < SOURCE_FRESH_MS,
        None => false,
    }
}

impl SourceStatus {
    pub fn is_mod_live_at(&self, now: u64) -> (b: bool)
        ensures
            b == fresh(self.mod_seen, now),
    {
        fresh_at(self.mod_seen, now)
    }

    pub fn is_dll_live_at(&self, now: u64) -> (b: bool)
        ensures
            b == fresh(self.dll_seen, now),
    {
        fresh_at(self.dll_seen, now)
    }

    /// Whether the mod was heard from within the last five seconds.
    pub fn is_mod_live(&self) -> (b: bool)
        ensures
            exists|now: u64| b == fresh(self.mod_seen, now),
    {
        self.is_mod_live_at(now_ms())
    }

    /// Whether the DLL was heard from within the last five seconds.
    pub fn is_dll_live(&self) -> (b: bool)
        ensures
            exists|now: u64| b == fresh(self.dll_seen, now),
    {
        self.is_dll_live_at(now_ms())
    }

    pub fn mark_mod_seen_at(&mut self, now: u64)
        ensures
            final(self).mod_seen == Some(now),
            final(self).dll_seen == old(self).dll_seen,
    {
        self.mod_seen = Some(now);
    }

    pub fn mark_dll_seen_at(&mut self, now: u64)
        ensures
            final(self).dll_seen == Some(now),
            final(self).mod_seen == old(self).mod_seen,
    {
        self.dll_seen = Some(now);
    }

    /// Record that the mod was heard from now.
    pub fn mark_mod_seen(&mut self)
        ensures
            final(self).mod_seen is Some,
            final(self).dll_seen == old(self).dll_seen,
    {
        self.mark_mod_seen_at(now_ms());
    }

    /// Record that the DLL was heard from now.
    pub fn mark_dll_seen(&mut self)
        ensures
            final(self).dll_seen is Some,
            final(self).mod_seen == old(self).mod_seen,
    {
        self.mark_dll_seen_at(now_ms());
    }
}

/// A source marked at `now` is live at `now` and for the following
/// `SOURCE_FRESH_MS - 1` milliseconds, and not after that.
pub proof fn lemma_marked_source_stays_live(now: u64, later: u64)
    requires
        later >= now,
    ensures
        fresh(Some(now), later) <==> later - now < SOURCE_FRESH_MS,
{
}

impl Default for SourceStatus {
    fn default() -> (s: SourceStatus)
        ensures
            s.mod_seen is None,
            s.dll_seen is None,
    {
        SourceStatus { mod_seen: None, dll_seen: None }
    }
}

/// Where DLL injection stands.
#[derive(Debug, Clone, Copy, PartialEq, Eq, Structural)]
pub enum InjectPhase {
    /// Mod source selected (or nothing to report).
    Idle,
    /// DLL source selected but the game is not running.
    WaitingForGame,
    /// The DLL is loaded in the game.
    Injected,
    /// The last injection attempt failed.
    Failed,
}

pub open spec fn inject_phase_text(p: InjectPhase) -> Seq<char> {
    match p {
        InjectPhase::Idle => "idle"@,
        InjectPhase::WaitingForGame => "waiting for game"@,
        InjectPhase::Injected => "injected"@,
        InjectPhase::Failed => "failed"@,
    }
}

impl InjectPhase {
    /// The phase as shown to the user.
    pub fn describe(self) -> (s: &'static str)
        ensures
            s@ == inject_phase_text(self),
    {
        proof {
            reveal_strlit("idle");
            reveal_strlit("waiting for game");
            reveal_strlit("injected");
            reveal_strlit("failed");
        }
        match self {
            InjectPhase::Idle => "idle",
            InjectPhase::WaitingForGame => "waiting for game",
            InjectPhase::Injected => "injected",
            InjectPhase::Failed => "failed",
        }
    }
}

impl Default for InjectPhase {
    fn default() -> (p: InjectPhase)
        ensures
            p == InjectPhase::Idle,
    {
        InjectPhase::Idle
    }
}

/// Injection phase and an optional detail line.
#[derive(Debug, Clone, PartialEq, Eq)]
pub struct InjectStatus {
    pub phase: InjectPhase,
    pub detail: Option<String>,
}

impl InjectStatus {
    pub fn phase(phase: InjectPhase) -> (s: InjectStatus)
        ensures
            s.phase == phase,
            s.detail is None,
    {
        InjectStatus { phase, detail: None }
    }

    pub fn detail(phase: InjectPhase, detail: String) -> (s: InjectStatus)
        ensures
            s.phase == phase,
            s.detail == Some(detail),
    {
        InjectStatus { phase, detail: Some(detail) }
    }

    pub fn failed(detail: String) -> (s: InjectStatus)
        ensures
            s.phase == InjectPhase::Failed,
            s.detail == Some(detail),
    {
        InjectStatus { phase: InjectPhase::Failed, detail: Some(detail) }
    }
}

impl Default for InjectStatus {
    fn default() -> (s: InjectStatus)
        ensures
            s.phase == InjectPhase::Idle,
            s.detail is None,
    {
        InjectStatus { phase: InjectPhase::Idle, detail: None }
    }
}

/// Where tailing the game's console log stands.
#[derive(Debug, Clone, Copy, PartialEq, Eq, Structural)]
pub enum LogPhase {
    Missing,
    Waiting,
    Tailing,
}

pub open spec fn log_phase_text(p: LogPhase) -> Seq<char> {
    match p {
        LogPhase::Missing => "missing"@,
        LogPhase::Waiting => "waiting"@,
        LogPhase::Tailing => "tailing"@,
    }
}

impl LogPhase {
    /// The phase as shown to the user.
    pub fn describe(self) -> (s: &'static str)
        ensures
            s@ == log_phase_text(self),
    {
        proof {
            reveal_strlit("missing");
            reveal_strlit("waiting");
            reveal_strlit("tailing");
        }
        match self {
            LogPhase::Missing => "missing",
            LogPhase::Waiting => "waiting",
            LogPhase::Tailing => "tailing",
        }
    }
}

impl Default for LogPhase {
    fn default() -> (p: LogPhase)
        ensures
            p == LogPhase::Missing,
    {
        LogPhase::Missing
    }
}

/// Toy connection status as shown to the user.
#[derive(Debug, Clone)]
pub struct ToyStatus {
    pub mode: ConnectionMode,
    pub device_names: Vec<String>,
    pub error: Option<String>,
}

impl ToyStatus {
    pub fn disconnected() -> (s: ToyStatus)
        ensures
            s.mode == ConnectionMode::Disconnected,
            s.device_names@.len() == 0,
            s.error is None,
    {
        ToyStatus { mode: ConnectionMode::Disconnected, device_names: Vec::new(), error: None }
    }
}

/// Everything the companion shows.
#[derive(Debug, Clone)]
pub struct AppState {
    pub config: AppConfig,
    /// Bumped whenever the config changes.
    pub config_rev: u64,
    pub sources: SourceStatus,
    pub inject: InjectStatus,
    pub toys: ToyStatus,
    pub last_log: String,
    pub log_lines: VecDeque<String>,
    pub log_phase: LogPhase,
    pub log_path: Option<String>,
}

/// The characters of each line.
pub open spec fn lines_view(lines: Seq<String>) -> Seq<Seq<char>> {
    lines.map_values(|s: String| s@)
}

/// The history after a line was appended: the newest `MAX_LOG_LINES`.
pub open spec fn capped_push(lines: Seq<Seq<char>>, line: Seq<char>) -> Seq<Seq<char>> {
    let all = lines.push(line);
    if all.len() > MAX_LOG_LINES {
        all.subrange(all.len() - MAX_LOG_LINES, all.len() as int)
    } else {
        all
    }
}

impl AppState {
    /// The history is bounded and ends with the last line logged.
    pub open spec fn well_formed(&self) -> bool {
        &&& self.log_lines@.len() <= MAX_LOG_LINES
        &&& self.log_lines@.len() > 0
        &&& self.log_lines@.last()@ == self.last_log@
    }

    /// A fresh state: config revision 1, nothing live, idle injection,
    /// toys disconnected, log missing, and a history of the initial line.
    pub fn new(config: AppConfig) -> (s: AppState)
        ensures
            s.well_formed(),
            s.config == config,
            s.config_rev == 1,
            s.sources.mod_seen is None,
            s.sources.dll_seen is None,
            s.inject.phase == InjectPhase::Idle,
            s.inject.detail is None,
            s.toys.mode == ConnectionMode::Disconnected,
            s.toys.device_names@.len() == 0,
            s.toys.error is None,
            s.last_log@ == INITIAL_LOG@,
            lines_view(s.log_lines@) == seq![INITIAL_LOG@],
            s.log_phase == LogPhase::Missing,
            s.log_path is None,
    {
        let mut log_lines: VecDeque<String> = VecDeque::new();
        log_lines.push_back(string_of(chars_of(INITIAL_LOG).as_slice()));
        let s = AppState {
            config,
            config_rev: 1,
            sources: SourceStatus::default(),
            inject: InjectStatus::default(),
            toys: ToyStatus::disconnected(),
            last_log: string_of(chars_of(INITIAL_LOG).as_slice()),
            log_lines,
            log_phase: LogPhase::Missing,
            log_path: None,
        };
        assert(lines_view(s.log_lines@) =~= seq![INITIAL_LOG@]);
        s
    }

    /// Install a new config, bump the revision (wrapping) and hand back the
    /// previous config.
    pub fn replace_config(&mut self, config: AppConfig) -> (previous: AppConfig)
        ensures
            previous == old(self).config,
            final(self).config == config,
            final(self).config_rev == (if old(self).config_rev == u64::MAX {
                0
            } else {
                old(self).config_rev + 1
            }),
            final(self).sources == old(self).sources,
            final(self).inject == old(self).inject,
            final(self).toys == old(self).toys,
            final(self).last_log == old(self).last_log,
            final(self).log_lines == old(self).log_lines,
            final(self).log_phase == old(self).log_phase,
            final(self).log_path == old(self).log_path,
    {
        let mut config = config;
        std::mem::swap(&mut self.config, &mut config);
        self.config_rev = if self.config_rev == u64::MAX {
            0
        } else {
            self.config_rev + 1
        };
        config
    }

    pub fn set_inject(&mut self, phase: InjectPhase, detail: Option<String>)
        ensures
            final(self).inject == (InjectStatus { phase, detail }),
            final(self).config == old(self).config,
            final(self).last_log == old(self).last_log,
            final(self).log_lines == old(self).log_lines,
    {
        self.inject = InjectStatus { phase, detail };
    }

    /// Show a connection mode and its devices; clears a previous error.
    pub fn set_toys(&mut self, mode: ConnectionMode, devices: &[ToyDevice])
        ensures
            final(self).toys.mode == mode,
            final(self).toys.device_names@.len() == devices@.len(),
            forall|i: int|
                0 <= i < devices@.len() ==> (#[trigger] final(self).toys.device_names@[i])@
                    == devices@[i].name@,
            final(self).toys.error is None,
            final(self).config == old(self).config,
            final(self).last_log == old(self).last_log,
            final(self).log_lines == old(self).log_lines,
    {
        self.toys.mode = mode;
        self.toys.device_names = ToyDevice::names(devices);
        self.toys.error = None;
    }

    pub fn set_toy_error(&mut self, error: String)
        ensures
            final(self).toys.error == Some(error),
            final(self).toys.mode == old(self).toys.mode,
            final(self).toys.device_names == old(self).toys.device_names,
            final(self).config == old(self).config,
            final(self).last_log == old(self).last_log,
            final(self).log_lines == old(self).log_lines,
    {
        self.toys.error = Some(error);
    }

    pub fn is_tailing(&self) -> (b: bool)
        ensures
            b == (self.log_phase == LogPhase::Tailing),
    {
        match self.log_phase {
            LogPhase::Tailing => true,
            _ => false,
        }
    }

    /// Append a line to the history, dropping the oldest lines beyond
    /// `MAX_LOG_LINES`; the line becomes the last line.
    pub fn push_log(&mut self, line: String)
        ensures
            final(self).last_log@ == line@,
            lines_view(final(self).log_lines@) == capped_push(
                lines_view(old(self).log_lines@),
                line@,
            ),
            final(self).well_formed(),
            final(self).config == old(self).config,
            final(self).config_rev == old(self).config_rev,
            final(self).sources == old(self).sources,
            final(self).log_phase == old(self).log_phase,
            final(self).log_path == old(self).log_path,
            final(self).inject == old(self).inject,
            final(self).toys == old(self).toys,
    {
        let ghost all = lines_view(old(self).log_lines@).push(line@);
        self.last_log = line.clone();
        self.log_lines.push_back(line);
        assert(lines_view(self.log_lines@) =~= all);
        let ghost mut dropped: int = 0;
        while self.log_lines.len() > MAX_LOG_LINES
            invariant
                0 <= dropped <= all.len(),
                lines_view(self.log_lines@) == all.subrange(dropped, all.len() as int),
                self.log_lines@.len() == all.len() - dropped,
                all.len() > 0,
                dropped > 0 ==> all.len() - dropped >= MAX_LOG_LINES,
                self.last_log@ == all.last(),
                self.config == old(self).config,
                self.config_rev == old(self).config_rev,
                self.sources == old(self).sources,
                self.log_phase == old(self).log_phase,
                self.log_path == old(self).log_path,
                self.inject == old(self).inject,
                self.toys == old(self).toys,
            decreases self.log_lines.len(),
        {
            let ghost before = self.log_lines@;
            let _ = self.log_lines.pop_front();
            proof {
                assert(self.log_lines@ =~= before.drop_first());
                assert forall|i: int| 0 <= i < self.log_lines@.len() implies lines_view(
                    self.log_lines@,
                )[i] == all[dropped + 1 + i] by {
                    assert(self.log_lines@[i] == before[i + 1]);
                    assert(lines_view(before)[i + 1] == all.subrange(dropped, all.len() as int)[i
                        + 1]);
                }
                dropped = dropped + 1;
                assert(lines_view(self.log_lines@) =~= all.subrange(dropped, all.len() as int));
            }
        }
        proof {
            assert(lines_view(self.log_lines@) =~= capped_push(
                lines_view(old(self).log_lines@),
                line@,
            ));
            let n = self.log_lines@.len();
            assert(lines_view(self.log_lines@)[n - 1] == self.log_lines@[n - 1]@);
            assert(lines_view(self.log_lines@)[n - 1] == all[all.len() - 1]);
        }
    }

    pub fn set_tailing(&mut self, path: String, line: String)
        ensures
            final(self).log_phase == LogPhase::Tailing,
            final(self).log_path == Some(path),
            final(self).last_log@ == line@,
            lines_view(final(self).log_lines@) == capped_push(
                lines_view(old(self).log_lines@),
                line@,
            ),
            final(self).well_formed(),
    {
        self.log_phase = LogPhase::Tailing;
        self.log_path = Some(path);
        self.push_log(line);
    }

    pub fn set_waiting(&mut self, path: String, line: String)
        ensures
            final(self).log_phase == LogPhase::Waiting,
            final(self).log_path == Some(path),
            final(self).last_log@ == line@,
            lines_view(final(self).log_lines@) == capped_push(
                lines_view(old(self).log_lines@),
                line@,
            ),
            final(self).well_formed(),
    {
        self.log_phase = LogPhase::Waiting;
        self.log_path = Some(path);
        self.push_log(line);
    }

    pub fn set_missing(&mut self, line: String)
        ensures
            final(self).log_phase == LogPhase::Missing,
            final(self).log_path is None,
            final(self).last_log@ == line@,
            lines_view(final(self).log_lines@) == capped_push(
                lines_view(old(self).log_lines@),
                line@,
            ),
            final(self).well_formed(),
    {
        self.log_phase = LogPhase::Missing;
        self.log_path = None;
        self.push_log(line);
    }
}

/// The history stays bounded and keeps the newest lines: after any number of
/// appends it holds at most `MAX_LOG_LINES` lines, the last appended line
/// last.
pub proof fn lemma_history_capped(lines: Seq<Seq<char>>, line: Seq<char>)
    requires
        lines.len() <= MAX_LOG_LINES,
    ensures
        capped_push(lines, line).len() <= MAX_LOG_LINES,
        capped_push(lines, line).last() == line,
        lines.len() < MAX_LOG_LINES ==> capped_push(lines, line) == lines.push(line),
        lines.len() == MAX_LOG_LINES ==> capped_push(lines, line) == lines.drop_first().push(line),
{
    if lines.len() == MAX_LOG_LINES {
        assert(lines.push(line).subrange(1, MAX_LOG_LINES + 1) =~= lines.drop_first().push(line));
    }
}

} // verus!
