//! Records the game mod writes into the console log: locating a record in a
//! log line, and what a decoded record signals.

use vstd::prelude::*;
use crate::event::{EventKind, EventSource, GameEvent};
use crate::text::{chars_of, find_sub, first_occurrence, occurs_at, slice_chars, string_of};

verus! {

/// Every record starts with this marker; the JSON record follows it.
pub const BRIDGE_RECORD_PREFIX: &'static str = "[DEADASS]";

/// The record schema this companion understands.
pub const BRIDGE_SCHEMA: u32 = 1;

/// What a record from the mod tells the companion.
#[derive(Debug, Clone, Copy, PartialEq, Eq, Structural)]
pub enum ModSignal {
    /// The mod's hooks are installed.
    HookReady,
    Game(GameEvent),
}

/// The `event` of a record.
#[derive(Debug, Clone, Copy, PartialEq, Eq, Structural)]
pub enum WireKind {
    HookReady,
    Kill,
    Death,
    Assist,
    Respawn,
    AbilityUsed { ability_slot: u8 },
    AbilityReady { ability_slot: u8 },
}

/// A decoded record.
#[derive(Debug, Clone, Copy, PartialEq, Eq, Structural)]
pub struct WireRecord {
    pub schema: u32,
    pub sequence: u64,
    pub client_time_ms: u64,
    pub kind: WireKind,
}

/// The text after the first record marker of a log line, if it has one.
pub open spec fn bridge_payload_spec(line: Seq<char>) -> Option<Seq<char>> {
    match first_occurrence(line, BRIDGE_RECORD_PREFIX@) {
        Some(i) => Some(line.subrange(i + BRIDGE_RECORD_PREFIX@.len(), line.len() as int)),
        None => None,
    }
}

/// The record text of a log line: what follows the first `[DEADASS]`.
pub fn bridge_payload(line: &str) -> (r: Option<String>)
    ensures
        match bridge_payload_spec(line@) {
            Some(p) => r is Some && r->0@ == p,
            None => r is None,
        },
{
    let chars = chars_of(line);
    let prefix = chars_of(BRIDGE_RECORD_PREFIX);
    match find_sub(&chars, &prefix) {
        Some(at) => {
            assert(occurs_at(chars@, prefix@, at as int));
            assert(at + prefix.len() <= chars.len());
            Some(string_of(slice_chars(&chars, at + prefix.len(), chars.len()).as_slice()))
        },
        None => None,
    }
}

/// What a record signals: nothing unless its schema is understood; the
/// hook-ready record, or a game event observed by the mod stamped with the
/// record's sequence and client time.
pub open spec fn signal_spec(record: WireRecord) -> Option<ModSignal> {
    if record.schema != BRIDGE_SCHEMA {
        None
    } else {
        let game = |kind: EventKind|
            ModSignal::Game(
                GameEvent {
                    sequence: record.sequence,
                    wall_time_ms: record.client_time_ms,
                    source: EventSource::Mod,
                    kind,
                },
            );
        match record.kind {
            WireKind::HookReady => Some(ModSignal::HookReady),
            WireKind::Kill => Some(game(EventKind::Kill)),
            WireKind::Death => Some(game(EventKind::Death)),
            WireKind::Assist => Some(game(EventKind::Assist)),
            WireKind::Respawn => Some(game(EventKind::Respawn)),
            WireKind::AbilityUsed { ability_slot } => Some(
                game(EventKind::AbilityUsed { slot: ability_slot }),
            ),
            WireKind::AbilityReady { ability_slot } => Some(
                game(EventKind::AbilityReady { slot: ability_slot }),
            ),
        }
    }
}

pub fn signal_from_record(record: WireRecord) -> (r: Option<ModSignal>)
    ensures
        r == signal_spec(record),
{
    if record.schema != BRIDGE_SCHEMA {
        return None;
    }
    let kind = match record.kind {
        WireKind::HookReady => return Some(ModSignal::HookReady),
        WireKind::Kill => EventKind::Kill,
        WireKind::Death => EventKind::Death,
        WireKind::Assist => EventKind::Assist,
        WireKind::Respawn => EventKind::Respawn,
        WireKind::AbilityUsed { ability_slot } => EventKind::AbilityUsed { slot: ability_slot },
        WireKind::AbilityReady { ability_slot } => EventKind::AbilityReady { slot: ability_slot },
    };
    Some(
        ModSignal::Game(
            GameEvent::new(record.sequence, record.client_time_ms, EventSource::Mod, kind),
        ),
    )
}

/// Records of the understood schema always signal something, and records
/// that differ only in their event signal different things: no two events
/// are merged, and an ability record keeps its slot.
pub proof fn lemma_records_signal_distinctly(a: WireRecord, b: WireRecord)
    requires
        a.schema == BRIDGE_SCHEMA,
        b.schema == BRIDGE_SCHEMA,
        a.sequence == b.sequence,
        a.client_time_ms == b.client_time_ms,
        a.kind != b.kind,
    ensures
        signal_spec(a) is Some,
        signal_spec(a) != signal_spec(b),
        (a.kind == WireKind::HookReady) == (signal_spec(a) == Some(ModSignal::HookReady)),
{
}

} // verus!
