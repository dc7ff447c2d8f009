//! The shared data-source selector that decides which event source is listened
//! to, and the status lines the companion logs while it starts.

use vstd::prelude::*;
use std::sync::Arc;
use std::sync::atomic::{AtomicU8, Ordering};
use crate::config::{DataSource, data_source_name};
use crate::event::EventKind;
use crate::text::{chars_of, decimal_seq, push_decimal, push_str, string_of};

verus! {

/// The stored value of a data source.
pub open spec fn gate_value_spec(source: DataSource) -> u8 {
    match source {
        DataSource::Mod => 0,
        DataSource::Dll => 1,
    }
}

/// The data source a stored value means: 1 is the DLL, anything else the mod.
pub open spec fn gate_source_spec(value: u8) -> DataSource {
    if value == 1 {
        DataSource::Dll
    } else {
        DataSource::Mod
    }
}

pub fn gate_value(source: DataSource) -> (v: u8)
    ensures
        v == gate_value_spec(source),
{
    match source {
        DataSource::Mod => 0,
        DataSource::Dll => 1,
    }
}

pub fn gate_source(value: u8) -> (s: DataSource)
    ensures
        s == gate_source_spec(value),
{
    if value == 1 {
        DataSource::Dll
    } else {
        DataSource::Mod
    }
}

/// Reading back a stored source gives that source.
pub proof fn lemma_gate_roundtrip(source: DataSource)
    ensures
        gate_source_spec(gate_value_spec(source)) == source,
{
}

/// The selected data source, shared by every clone of this value. Sources are
/// stored as one byte that other threads may change at any time, so what a
/// read returns is stated for every stored value.
#[derive(Debug, Clone, Default)]
pub struct SourceGate(Arc<AtomicU8>);

impl SourceGate {
    pub fn new(source: DataSource) -> (g: SourceGate) {
        SourceGate(Arc::new(AtomicU8::new(gate_value(source))))
    }

    /// The selected source: whatever byte is stored, read as a source.
    pub fn get(&self) -> (s: DataSource)
        ensures
            exists|v: u8| s == gate_source_spec(v),
    {
        let v = self.0.load(Ordering::Relaxed);
        gate_source(v)
    }

    /// Select a source for every clone of this value.
    pub fn set(&self, source: DataSource) {
        self.0.store(gate_value(source), Ordering::Relaxed);
    }

    /// Whether events from `source` pass: it is the selected source.
    pub fn allows(&self, source: DataSource) -> (b: bool)
        ensures
            exists|v: u8| b == (gate_source_spec(v) == source),
    {
        source_allows(self.get(), source)
    }
}

/// Whether events from `source` pass while `current` is selected.
pub fn source_allows(current: DataSource, source: DataSource) -> (b: bool)
    ensures
        b == (current == source),
{
    match (current, source) {
        (DataSource::Mod, DataSource::Mod) => true,
        (DataSource::Dll, DataSource::Dll) => true,
        _ => false,
    }
}

pub open spec fn waiting_hint_spec(path: Seq<char>) -> Seq<char> {
    "waiting for console.log to be created; add -condebug to deadlock launch options: "@ + path
}

/// The status line shown while the console log does not exist yet.
pub fn waiting_hint(path: &str) -> (s: String)
    ensures
        s@ == waiting_hint_spec(path@),
{
    let mut out: Vec<char> = Vec::new();
    push_str(&mut out, "waiting for console.log to be created; add -condebug to deadlock launch options: ");
    push_str(&mut out, path);
    string_of(out.as_slice())
}

/// The status line while the console log is tailed.
pub fn tailing_line(path: &str) -> (s: String)
    ensures
        s@ == "tailing "@ + path@,
{
    let mut out: Vec<char> = Vec::new();
    push_str(&mut out, "tailing ");
    push_str(&mut out, path);
    string_of(out.as_slice())
}

/// The log line after the data source was switched.
pub fn source_set_line(source: DataSource) -> (s: String)
    ensures
        s@ == "game data source set to "@ + data_source_name(source),
{
    let mut out: Vec<char> = Vec::new();
    push_str(&mut out, "game data source set to ");
    push_str(&mut out, source.as_str());
    string_of(out.as_slice())
}

/// The log line once a toy backend is attached.
pub fn toys_ready_line(label: &str, devices: usize) -> (s: String)
    ensures
        s@ == label@ + " devices="@ + decimal_seq(devices as nat),
{
    let mut out: Vec<char> = Vec::new();
    push_str(&mut out, label);
    push_str(&mut out, " devices=");
    push_decimal(&mut out, devices as u64);
    string_of(out.as_slice())
}

/// The log line when no toy backend could be attached.
pub fn toys_failed_line(error: &str) -> (s: String)
    ensures
        s@ == "no toy backend available: "@ + error@,
{
    let mut out: Vec<char> = Vec::new();
    push_str(&mut out, "no toy backend available: ");
    push_str(&mut out, error);
    string_of(out.as_slice())
}

/// The names joined with `", "`.
pub open spec fn join_comma(names: Seq<Seq<char>>) -> Seq<char>
    decreases names.len(),
{
    if names.len() == 0 {
        Seq::empty()
    } else if names.len() == 1 {
        names[0]
    } else {
        join_comma(names.drop_last()) + ", "@ + names.last()
    }
}

/// The log line after staged updates were applied.
pub fn staged_updates_line(applied: &Vec<String>) -> (s: String)
    ensures
        s@ == "applied staged updates: "@ + join_comma(applied@.map_values(|a: String| a@)),
{
    let ghost names = applied@.map_values(|a: String| a@);
    let mut out: Vec<char> = Vec::new();
    push_str(&mut out, "applied staged updates: ");
    let ghost prefix = out@;
    let mut k: usize = 0;
    while k < applied.len()
        invariant
            k <= applied.len(),
            names == applied@.map_values(|a: String| a@),
            prefix == "applied staged updates: "@,
            out@ == prefix + join_comma(names.subrange(0, k as int)),
        decreases applied.len() - k,
    {
        let ghost before = out@;
        if k > 0 {
            push_str(&mut out, ", ");
        }
        push_str(&mut out, applied[k].as_str());
        proof {
            reveal_strlit(", ");
            let s = names.subrange(0, k + 1);
            assert(s.drop_last() =~= names.subrange(0, k as int));
            assert(s.last() == applied@[k as int]@);
            if k > 0 {
                assert(out@ =~= prefix + join_comma(s));
            } else {
                assert(s.len() == 1);
                assert(out@ =~= prefix + join_comma(s));
            }
        }
        k += 1;
    }
    assert(names.subrange(0, k as int) =~= names);
    string_of(out.as_slice())
}


/// What the mod event endpoint does with an event: `(forward, mark_seen)`.
/// While the mod is the selected source every event is forwarded and the
/// mod counts as live; otherwise only kills and assists (the kill feed) are
/// forwarded.
pub fn mod_event_route(mod_selected: bool, kind: EventKind) -> (r: (bool, bool))
    ensures
        r == (if mod_selected {
            (true, true)
        } else {
            (kind is Kill || kind is Assist, false)
        }),
{
    if mod_selected {
        (true, true)
    } else {
        let kill_feed = match kind {
            EventKind::Kill | EventKind::Assist => true,
            _ => false,
        };
        (kill_feed, false)
    }
}

} // verus!
