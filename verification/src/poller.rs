//! Scoreboard pollers: turn successive counter snapshots into events, one
//! event per unit a counter rose.

use vstd::prelude::*;
use std::time::Duration;
use crate::event::{
    EventKind, EventSource, GameEvent, emit, emit_repeat, emitted, kind_count,
    lemma_kind_count_concat, lemma_kind_count_repeat, lemma_kind_count_single, repeat_kind,
    seq_modulus, stamp,
};

verus! {

#[verifier::external_type_specification]
#[verifier::external_body]
pub struct ExSystemTime(std::time::SystemTime);

/// `SystemTime::now`: the current wall-clock time. Nothing is stated of it.
#[verifier::external_body]
fn system_now() -> (t: std::time::SystemTime) {
    std::time::SystemTime::now()
}

/// `SystemTime::duration_since` the Unix epoch: how long after the epoch `t`
/// lies, or `None` when it lies before it. Nothing is stated of the value.
#[verifier::external_body]
fn since_epoch(t: std::time::SystemTime) -> (d: Option<Duration>) {
    t.duration_since(std::time::UNIX_EPOCH).ok()
}

/// The whole milliseconds of a duration, as `Duration::as_millis` gives them.
pub uninterp spec fn duration_ms_of(d: Duration) -> nat;

/// `Duration::as_millis`: the whole milliseconds of a duration, named by
/// `duration_ms_of`.
#[verifier::external_body]
pub(crate) fn duration_millis(d: Duration) -> (ms: u128)
    ensures
        ms as nat == duration_ms_of(d),
{
    d.as_millis()
}

/// Milliseconds since the Unix epoch on the wall clock (0 before it; the
/// count is cut to 64 bits).
pub(crate) fn now_ms() -> (now: u64) {
    match since_epoch(system_now()) {
        Some(d) => {
            let ms = duration_millis(d);
            #[verifier::truncate]
            (ms as u64)
        },
        None => 0,
    }
}

/// How far a counter rose (0 when it did not).
pub open spec fn rise(before: i32, after: i32) -> nat {
    if after > before {
        (after - before) as nat
    } else {
        0
    }
}

fn rise_count(before: i32, after: i32) -> (r: u32)
    ensures
        r as nat == rise(before, after),
{
    if after > before {
        ((after as i64) - (before as i64)) as u32
    } else {
        0
    }
}

/// Scoreboard values read from outside the game process.
#[derive(Debug, Clone, Copy, PartialEq, Eq, Default)]
pub struct ExternalSnapshot {
    pub kills: i32,
    pub deaths: i32,
    pub assists: i32,
    pub alive: bool,
    pub ability_cooldown_ready: [bool; 4],
}

/// Ability-ready rising edges of slots `0..n`, in slot order.
pub open spec fn ready_edges(prev: Seq<bool>, cur: Seq<bool>, n: int) -> Seq<EventKind>
    decreases n,
{
    if n <= 0 {
        Seq::empty()
    } else {
        let before = ready_edges(prev, cur, n - 1);
        if !prev[n - 1] && cur[n - 1] {
            before.push(EventKind::AbilityReady { slot: (n - 1) as u8 })
        } else {
            before
        }
    }
}

/// Events between two external samples: kills, deaths, assists, a respawn,
/// then ability-ready edges.
pub open spec fn external_kinds(prev: ExternalSnapshot, cur: ExternalSnapshot) -> Seq<EventKind> {
    repeat_kind(EventKind::Kill, rise(prev.kills, cur.kills)) + repeat_kind(
        EventKind::Death,
        rise(prev.deaths, cur.deaths),
    ) + repeat_kind(EventKind::Assist, rise(prev.assists, cur.assists)) + (if !prev.alive
        && cur.alive {
        seq![EventKind::Respawn]
    } else {
        Seq::empty()
    }) + ready_edges(prev.ability_cooldown_ready@, cur.ability_cooldown_ready@, 4)
}

/// What a sample emits after the previous one (nothing for the first).
pub open spec fn observed_kinds(prev: Option<ExternalSnapshot>, cur: ExternalSnapshot) -> Seq<EventKind> {
    match prev {
        Some(p) => external_kinds(p, cur),
        None => Seq::empty(),
    }
}

pub struct ExternalPoller {
    previous: Option<ExternalSnapshot>,
    sequence: u64,
}

pub struct PollerState {
    pub previous: Option<ExternalSnapshot>,
    pub sequence: u64,
}

impl View for ExternalPoller {
    type V = PollerState;

    closed spec fn view(&self) -> PollerState {
        PollerState { previous: self.previous, sequence: self.sequence }
    }
}

impl ExternalPoller {
    pub fn new() -> (p: ExternalPoller)
        ensures
            p@ == (PollerState { previous: None, sequence: 0 }),
    {
        ExternalPoller { previous: None, sequence: 0 }
    }

    /// Compare a sample with the previous one, stamping events with the
    /// current wall clock.
    pub fn observe(&mut self, current: ExternalSnapshot) -> (events: Vec<GameEvent>)
        ensures
            final(self)@.previous == Some(current),
            final(self)@.sequence == ((old(self)@.sequence + observed_kinds(
                old(self)@.previous,
                current,
            ).len()) % seq_modulus()) as u64,
            exists|now: u64|
                events@ == #[trigger] stamp(
                    observed_kinds(old(self)@.previous, current),
                    old(self)@.sequence,
                    now,
                    EventSource::External,
                ),
    {
        let now = now_ms();
        self.observe_at(current, now)
    }

    /// Compare a sample with the previous one. The first sample only seeds.
    pub fn observe_at(&mut self, current: ExternalSnapshot, now: u64) -> (events: Vec<GameEvent>)
        ensures
            final(self)@.previous == Some(current),
            ({
                let kinds = observed_kinds(old(self)@.previous, current);
                &&& events@ == stamp(kinds, old(self)@.sequence, now, EventSource::External)
                &&& final(self)@.sequence == ((old(self)@.sequence + kinds.len()) % seq_modulus()) as u64
            }),
    {
        let ghost start = self.sequence;
        let mut events: Vec<GameEvent> = Vec::new();
        let previous = match self.previous {
            None => {
                self.previous = Some(current);
                assert(events@ =~= stamp(Seq::empty(), start, now, EventSource::External));
                assert(start == ((start + 0) % seq_modulus()) as u64);
                return events;
            },
            Some(p) => p,
        };
        let src = EventSource::External;
        assert(events@ =~= stamp(Seq::empty(), start, now, src));
        assert(start == ((start + 0) % seq_modulus()) as u64);
        let kills = rise_count(previous.kills, current.kills);
        emit_repeat(src, &mut self.sequence, &mut events, EventKind::Kill, kills, now, Ghost(start), Ghost(Seq::empty()));
        let ghost k1 = Seq::empty() + repeat_kind(EventKind::Kill, kills as nat);
        let deaths = rise_count(previous.deaths, current.deaths);
        emit_repeat(src, &mut self.sequence, &mut events, EventKind::Death, deaths, now, Ghost(start), Ghost(k1));
        let ghost k2 = k1 + repeat_kind(EventKind::Death, deaths as nat);
        let assists = rise_count(previous.assists, current.assists);
        emit_repeat(src, &mut self.sequence, &mut events, EventKind::Assist, assists, now, Ghost(start), Ghost(k2));
        let ghost k3 = k2 + repeat_kind(EventKind::Assist, assists as nat);
        let ghost k4 = if !previous.alive && current.alive {
            k3.push(EventKind::Respawn)
        } else {
            k3
        };
        if !previous.alive && current.alive {
            emit(src, &mut self.sequence, &mut events, EventKind::Respawn, now, Ghost(start), Ghost(k3));
        }
        let mut slot: usize = 0;
        while slot < 4
            invariant
                slot <= 4,
                emitted(
                    src,
                    events@,
                    k4 + ready_edges(
                        previous.ability_cooldown_ready@,
                        current.ability_cooldown_ready@,
                        slot as int,
                    ),
                    start,
                    now,
                    self.sequence,
                ),
            decreases 4 - slot,
        {
            let ghost before = k4 + ready_edges(
                previous.ability_cooldown_ready@,
                current.ability_cooldown_ready@,
                slot as int,
            );
            if !previous.ability_cooldown_ready[slot] && current.ability_cooldown_ready[slot] {
                emit(
                    src,
                    &mut self.sequence,
                    &mut events,
                    EventKind::AbilityReady { slot: slot as u8 },
                    now,
                    Ghost(start),
                    Ghost(before),
                );
                assert(before.push(EventKind::AbilityReady { slot: slot as u8 }) =~= k4 + ready_edges(
                    previous.ability_cooldown_ready@,
                    current.ability_cooldown_ready@,
                    slot + 1,
                ));
            } else {
                assert(before =~= k4 + ready_edges(
                    previous.ability_cooldown_ready@,
                    current.ability_cooldown_ready@,
                    slot + 1,
                ));
            }
            slot += 1;
        }
        self.previous = Some(current);
        proof {
            assert(k4 + ready_edges(
                previous.ability_cooldown_ready@,
                current.ability_cooldown_ready@,
                4,
            ) =~= external_kinds(previous, current));
        }
        events
    }
}

impl Default for ExternalPoller {
    fn default() -> (p: ExternalPoller)
        ensures
            p@ == (PollerState { previous: None, sequence: 0 }),
    {
        ExternalPoller::new()
    }
}

/// Scoreboard counters of the local player, read inside the game.
#[derive(Debug, Clone, Copy, PartialEq, Eq, Default)]
pub struct ScoreboardSnapshot {
    pub kills: i32,
    pub deaths: i32,
    pub assists: i32,
    pub alive: bool,
}

/// Events between two scoreboard samples: kills, assists, deaths, then a respawn.
pub open spec fn scoreboard_kinds(prev: ScoreboardSnapshot, cur: ScoreboardSnapshot) -> Seq<
    EventKind,
> {
    repeat_kind(EventKind::Kill, rise(prev.kills, cur.kills)) + repeat_kind(
        EventKind::Assist,
        rise(prev.assists, cur.assists),
    ) + repeat_kind(EventKind::Death, rise(prev.deaths, cur.deaths)) + (if !prev.alive
        && cur.alive {
        seq![EventKind::Respawn]
    } else {
        Seq::empty()
    })
}

/// What a sample emits after the previous one (nothing for the first).
pub open spec fn delta_kinds(prev: Option<ScoreboardSnapshot>, cur: ScoreboardSnapshot) -> Seq<EventKind> {
    match prev {
        Some(p) => scoreboard_kinds(p, cur),
        None => Seq::empty(),
    }
}

#[derive(Debug, Clone, Default)]
pub struct ScoreboardDelta {
    previous: Option<ScoreboardSnapshot>,
    sequence: u64,
}

pub struct DeltaState {
    pub previous: Option<ScoreboardSnapshot>,
    pub sequence: u64,
}

impl View for ScoreboardDelta {
    type V = DeltaState;

    closed spec fn view(&self) -> DeltaState {
        DeltaState { previous: self.previous, sequence: self.sequence }
    }
}

impl ScoreboardDelta {
    pub fn new() -> (d: ScoreboardDelta)
        ensures
            d@ == (DeltaState { previous: None, sequence: 0 }),
    {
        ScoreboardDelta { previous: None, sequence: 0 }
    }

    /// Compare a sample with the previous one, stamping events with the
    /// current wall clock.
    pub fn diff(&mut self, current: ScoreboardSnapshot) -> (events: Vec<GameEvent>)
        ensures
            final(self)@.previous == Some(current),
            final(self)@.sequence == ((old(self)@.sequence + delta_kinds(
                old(self)@.previous,
                current,
            ).len()) % seq_modulus()) as u64,
            exists|now: u64|
                events@ == #[trigger] stamp(
                    delta_kinds(old(self)@.previous, current),
                    old(self)@.sequence,
                    now,
                    EventSource::Dll,
                ),
    {
        let now = now_ms();
        self.diff_at(current, now)
    }

    /// Compare a sample with the previous one. The first sample only seeds.
    pub fn diff_at(&mut self, current: ScoreboardSnapshot, now: u64) -> (events: Vec<GameEvent>)
        ensures
            final(self)@.previous == Some(current),
            ({
                let kinds = delta_kinds(old(self)@.previous, current);
                &&& events@ == stamp(kinds, old(self)@.sequence, now, EventSource::Dll)
                &&& final(self)@.sequence == ((old(self)@.sequence + kinds.len()) % seq_modulus()) as u64
            }),
    {
        let ghost start = self.sequence;
        let mut events: Vec<GameEvent> = Vec::new();
        let src = EventSource::Dll;
        assert(events@ =~= stamp(Seq::empty(), start, now, src));
        assert(start == ((start + 0) % seq_modulus()) as u64);
        let previous = match self.previous {
            None => {
                self.previous = Some(current);
                return events;
            },
            Some(p) => p,
        };
        let kills = rise_count(previous.kills, current.kills);
        emit_repeat(src, &mut self.sequence, &mut events, EventKind::Kill, kills, now, Ghost(start), Ghost(Seq::empty()));
        let ghost k1 = Seq::empty() + repeat_kind(EventKind::Kill, kills as nat);
        let assists = rise_count(previous.assists, current.assists);
        emit_repeat(src, &mut self.sequence, &mut events, EventKind::Assist, assists, now, Ghost(start), Ghost(k1));
        let ghost k2 = k1 + repeat_kind(EventKind::Assist, assists as nat);
        let deaths = rise_count(previous.deaths, current.deaths);
        emit_repeat(src, &mut self.sequence, &mut events, EventKind::Death, deaths, now, Ghost(start), Ghost(k2));
        let ghost k3 = k2 + repeat_kind(EventKind::Death, deaths as nat);
        let ghost k4 = if !previous.alive && current.alive {
            k3.push(EventKind::Respawn)
        } else {
            k3
        };
        if !previous.alive && current.alive {
            emit(src, &mut self.sequence, &mut events, EventKind::Respawn, now, Ghost(start), Ghost(k3));
        }
        self.previous = Some(current);
        proof {
            assert(k4 =~= scoreboard_kinds(previous, current));
        }
        events
    }
}

proof fn lemma_no_ready_edges(flags: Seq<bool>, n: int)
    ensures
        ready_edges(flags, flags, n) == Seq::<EventKind>::empty(),
    decreases n,
{
    if n > 0 {
        lemma_no_ready_edges(flags, n - 1);
    }
}

/// A sample identical to the previous one emits nothing, whether it comes
/// from outside the game or from the in-game scoreboard.
pub proof fn lemma_unchanged_sample_is_silent(s: ExternalSnapshot, b: ScoreboardSnapshot)
    ensures
        observed_kinds(Some(s), s) == Seq::<EventKind>::empty(),
        delta_kinds(Some(b), b) == Seq::<EventKind>::empty(),
{
    lemma_no_ready_edges(s.ability_cooldown_ready@, 4);
    assert(repeat_kind(EventKind::Kill, 0) =~= Seq::<EventKind>::empty());
    assert(repeat_kind(EventKind::Death, 0) =~= Seq::<EventKind>::empty());
    assert(repeat_kind(EventKind::Assist, 0) =~= Seq::<EventKind>::empty());
    assert(observed_kinds(Some(s), s) =~= Seq::<EventKind>::empty());
    assert(delta_kinds(Some(b), b) =~= Seq::<EventKind>::empty());
}

/// Readiness edges count one `AbilityReady` for each of the first `n` slots
/// that became ready, and nothing else.
proof fn lemma_ready_edges_count(prev: Seq<bool>, cur: Seq<bool>, n: int, k: EventKind)
    requires
        n <= 256,
    ensures
        kind_count(ready_edges(prev, cur, n), k) == match k {
            EventKind::AbilityReady { slot } => if (slot as int) < n && !prev[slot as int]
                && cur[slot as int] {
                1nat
            } else {
                0nat
            },
            _ => 0nat,
        },
    decreases n,
{
    if n > 0 {
        lemma_ready_edges_count(prev, cur, n - 1, k);
        let before = ready_edges(prev, cur, n - 1);
        if !prev[n - 1] && cur[n - 1] {
            let e = EventKind::AbilityReady { slot: (n - 1) as u8 };
            assert(before.push(e) =~= before + seq![e]);
            lemma_kind_count_concat(before, seq![e], k);
            lemma_kind_count_single(e, k);
        }
    }
}

/// The respawn part of a step: one respawn when the player came back alive.
proof fn lemma_respawn_count(was_alive: bool, alive: bool, k: EventKind)
    ensures
        kind_count(
            if !was_alive && alive {
                seq![EventKind::Respawn]
            } else {
                Seq::empty()
            },
            k,
        ) == if !was_alive && alive && k == EventKind::Respawn {
            1nat
        } else {
            0nat
        },
{
    lemma_kind_count_single(EventKind::Respawn, k);
}

/// Between two samples read from outside the game, one kill is reported per
/// point the kill counter rose, one death per point the death counter rose,
/// one assist per point the assist counter rose (none when a counter did
/// not rise), one respawn when the player came back alive, and one
/// readiness for each hero ability slot that became ready; nothing else.
pub proof fn lemma_external_events_count_changes(prev: ExternalSnapshot, cur: ExternalSnapshot, k: EventKind)
    ensures
        kind_count(external_kinds(prev, cur), k) == match k {
            EventKind::Kill => (if cur.kills > prev.kills {
                cur.kills - prev.kills
            } else {
                0
            }) as nat,
            EventKind::Death => (if cur.deaths > prev.deaths {
                cur.deaths - prev.deaths
            } else {
                0
            }) as nat,
            EventKind::Assist => (if cur.assists > prev.assists {
                cur.assists - prev.assists
            } else {
                0
            }) as nat,
            EventKind::Respawn => if !prev.alive && cur.alive {
                1nat
            } else {
                0nat
            },
            EventKind::AbilityReady { slot } => if slot < 4 && !prev.ability_cooldown_ready@[slot as int]
                && cur.ability_cooldown_ready@[slot as int] {
                1nat
            } else {
                0nat
            },
            _ => 0nat,
        },
{
    let kills = repeat_kind(EventKind::Kill, rise(prev.kills, cur.kills));
    let deaths = repeat_kind(EventKind::Death, rise(prev.deaths, cur.deaths));
    let assists = repeat_kind(EventKind::Assist, rise(prev.assists, cur.assists));
    let respawn = if !prev.alive && cur.alive {
        seq![EventKind::Respawn]
    } else {
        Seq::empty()
    };
    let ready = ready_edges(prev.ability_cooldown_ready@, cur.ability_cooldown_ready@, 4);
    lemma_kind_count_concat(kills, deaths, k);
    lemma_kind_count_concat(kills + deaths, assists, k);
    lemma_kind_count_concat(kills + deaths + assists, respawn, k);
    lemma_kind_count_concat(kills + deaths + assists + respawn, ready, k);
    lemma_kind_count_repeat(EventKind::Kill, rise(prev.kills, cur.kills), k);
    lemma_kind_count_repeat(EventKind::Death, rise(prev.deaths, cur.deaths), k);
    lemma_kind_count_repeat(EventKind::Assist, rise(prev.assists, cur.assists), k);
    lemma_respawn_count(prev.alive, cur.alive, k);
    lemma_ready_edges_count(prev.ability_cooldown_ready@, cur.ability_cooldown_ready@, 4, k);
}

/// Between two in-game scoreboard samples, one kill, assist or death is
/// reported per point its counter rose (none when it did not rise), one
/// respawn when the player came back alive, and nothing else.
pub proof fn lemma_scoreboard_events_count_changes(prev: ScoreboardSnapshot, cur: ScoreboardSnapshot, k: EventKind)
    ensures
        kind_count(scoreboard_kinds(prev, cur), k) == match k {
            EventKind::Kill => (if cur.kills > prev.kills {
                cur.kills - prev.kills
            } else {
                0
            }) as nat,
            EventKind::Death => (if cur.deaths > prev.deaths {
                cur.deaths - prev.deaths
            } else {
                0
            }) as nat,
            EventKind::Assist => (if cur.assists > prev.assists {
                cur.assists - prev.assists
            } else {
                0
            }) as nat,
            EventKind::Respawn => if !prev.alive && cur.alive {
                1nat
            } else {
                0nat
            },
            _ => 0nat,
        },
{
    let kills = repeat_kind(EventKind::Kill, rise(prev.kills, cur.kills));
    let assists = repeat_kind(EventKind::Assist, rise(prev.assists, cur.assists));
    let deaths = repeat_kind(EventKind::Death, rise(prev.deaths, cur.deaths));
    let respawn = if !prev.alive && cur.alive {
        seq![EventKind::Respawn]
    } else {
        Seq::empty()
    };
    lemma_kind_count_concat(kills, assists, k);
    lemma_kind_count_concat(kills + assists, deaths, k);
    lemma_kind_count_concat(kills + assists + deaths, respawn, k);
    lemma_kind_count_repeat(EventKind::Kill, rise(prev.kills, cur.kills), k);
    lemma_kind_count_repeat(EventKind::Assist, rise(prev.assists, cur.assists), k);
    lemma_kind_count_repeat(EventKind::Death, rise(prev.deaths, cur.deaths), k);
    lemma_respawn_count(prev.alive, cur.alive, k);
}

} // verus!
