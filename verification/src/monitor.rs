//! Turns successive snapshots of the local pawn and the scoreboard into game
//! events: deaths, respawns, ability use and readiness, parries, punches,
//! kills and assists.
//!
//! Game clock values (simulation time, cooldown ends, parry times, last
//! damage time) are in milliseconds of game time.

use vstd::prelude::*;
use crate::event::{
    EventKind, EventSource, GameEvent, emit, emit_repeat, emitted, kind_count, lemma_kind_count_concat,
    lemma_kind_count_repeat, lemma_kind_count_single, repeat_kind, seq_modulus, stamp,
};

verus! {

/// After a death, respawn or pawn swap, ability transitions are ignored for
/// this long (all cooldowns reset at once on respawn).
pub const ABILITY_SETTLE_MS: u64 = 2000;
/// A cooldown counts as running only when it ends this far past the clock.
pub const COOLDOWN_LEAD_EPSILON_MS: i64 = 50;
/// Ability slots below this may report a channel start as a use.
pub const PARRY_SLOT_MIN: u8 = 4;
/// How long own or enemy melee activity stays relevant.
pub const MELEE_ACTIVITY_WINDOW_MS: u64 = 2000;
/// A parry success end time older than this is stale.
pub const PARRY_SUCCESS_FRESH_MS: i64 = 5000;
/// A parry success end time further ahead than this is garbage.
pub const PARRY_SUCCESS_AHEAD_MS: i64 = 300_000;
/// A parry window opened within this much game time counts as open.
pub const PARRY_WINDOW_MS: i64 = 2000;
/// Player damage must advance the last-damage clock by more than this.
pub const DAMAGE_EPSILON_MS: i64 = 50;
/// Only the four hero ability keys report use and readiness.
pub const HERO_SLOT_LIMIT: u8 = 4;
/// The weapon-melee ability slot.
pub const DEFAULT_MELEE_SLOT: u8 = 22;
/// Landed melee hits reported per tick at most.
pub const MAX_CHAIN_HITS: u32 = 3;
/// Number of ability slots.
pub const SLOT_COUNT: usize = 256;
/// Largest wall clock the monitor accepts (windows are added to it).
pub const MAX_NOW_MS: u64 = 0xffff_ffff_ffff_f000;

/// One ability entity of the local pawn.
#[derive(Debug, Clone, Copy, PartialEq, Eq, Structural)]
pub struct AbilitySnapshot {
    pub slot: u8,
    pub charges: Option<i32>,
    pub cooldown_end: i64,
    pub channeling: bool,
    /// Only the parry ability sets this; a false->true edge means the parry landed.
    pub attack_parried: bool,
    /// When the parry window opened.
    pub parry_start: i64,
    /// Confirms a fresh parry success.
    pub parry_success_end: i64,
    /// Hold-melee attack state (0 when idle).
    pub melee_state: u32,
    /// Landed light melee hits in the current chain.
    pub melee_chain: u32,
}

/// The local player's pawn.
#[derive(Debug, Clone, PartialEq, Eq)]
pub struct PawnSnapshot {
    pub address: u64,
    pub health: i32,
    /// Source 2 life state: 0 means alive.
    pub life_state: u8,
    pub game_time: i64,
    /// The ability component's interrupt flag.
    pub interrupted: bool,
    /// Game time when a player last damaged us.
    pub damage_taken_time: i64,
    pub abilities: Vec<AbilitySnapshot>,
}

/// One scoreboard entry.
#[derive(Debug, Clone, Copy, PartialEq, Eq, Structural)]
pub struct PlayerSnapshot {
    pub address: u64,
    pub is_local: bool,
    pub hero_id: u32,
    pub kills: i32,
    pub assists: i32,
    pub deaths: i32,
    pub kill_streak: i32,
    pub alive: bool,
    pub health: i32,
    pub melee_chain: u32,
}

/// One sample of game state.
#[derive(Debug, Clone, PartialEq, Eq)]
pub struct Snapshot {
    pub pawn: Option<PawnSnapshot>,
    pub players: Vec<PlayerSnapshot>,
}

impl Default for Snapshot {
    fn default() -> (r: Snapshot)
        ensures
            r.pawn is None,
            r.players@.len() == 0,
    {
        Snapshot { pawn: None, players: Vec::new() }
    }
}

/// What the monitor remembers of an ability between samples.
#[derive(Debug, Clone, Copy, PartialEq, Eq, Structural)]
pub struct TrackedAbility {
    pub charges: Option<i32>,
    pub cooling: bool,
    pub channeling: bool,
    pub attack_parried: bool,
    pub parry_start: i64,
    pub parry_success_end: i64,
    pub melee_chain: u32,
}

/// What the monitor remembers of a scoreboard entry.
#[derive(Debug, Clone, Copy, PartialEq, Eq, Structural)]
pub struct TrackedPlayer {
    pub kills: i32,
    pub assists: i32,
    pub health: i32,
    pub melee_chain: u32,
}

/// What the monitor remembers of the local pawn.
#[derive(Debug, Clone, PartialEq, Eq)]
pub struct TrackedPawn {
    pub address: u64,
    pub alive: bool,
    pub interrupted: bool,
    pub damage_taken_time: i64,
    /// Indexed by slot.
    pub abilities: Vec<Option<TrackedAbility>>,
}

pub open spec fn track_spec(a: AbilitySnapshot, game_time: i64) -> TrackedAbility {
    TrackedAbility {
        charges: a.charges,
        cooling: a.cooldown_end as int > game_time as int + COOLDOWN_LEAD_EPSILON_MS as int,
        channeling: a.channeling,
        attack_parried: a.attack_parried,
        parry_start: a.parry_start,
        parry_success_end: a.parry_success_end,
        melee_chain: a.melee_chain,
    }
}

/// The ability table of a sample: per slot, the last ability reported in it.
pub open spec fn ability_table(abilities: Seq<AbilitySnapshot>, game_time: i64) -> Seq<
    Option<TrackedAbility>,
>
    decreases abilities.len(),
{
    if abilities.len() == 0 {
        Seq::new(SLOT_COUNT as nat, |i: int| None)
    } else {
        ability_table(abilities.drop_last(), game_time).update(
            abilities.last().slot as int,
            Some(track_spec(abilities.last(), game_time)),
        )
    }
}

pub struct Transitions {
    pub used: bool,
    pub ready: bool,
    pub got_parried: bool,
}

pub open spec fn transitions_spec(
    slot: u8,
    prev: TrackedAbility,
    cur: TrackedAbility,
    game_time: i64,
) -> Transitions {
    let charge_used = prev.charges is Some && cur.charges is Some && cur.charges->0
        < prev.charges->0;
    let charge_ready = prev.charges is Some && cur.charges is Some && cur.charges->0
        > prev.charges->0;
    let channel_started = !prev.channeling && cur.channeling;
    let got_parried = !prev.attack_parried && cur.attack_parried && cur.parry_success_end as int
        > game_time as int - PARRY_SUCCESS_FRESH_MS as int && (cur.parry_success_end as int)
        < game_time as int + PARRY_SUCCESS_AHEAD_MS as int;
    Transitions {
        used: charge_used || (!prev.cooling && cur.cooling) || (channel_started && slot
            < PARRY_SLOT_MIN),
        ready: charge_ready || (prev.cooling && !cur.cooling),
        got_parried,
    }
}

pub open spec fn landed_hits(prev: TrackedAbility, cur: TrackedAbility) -> nat {
    let delta = if cur.melee_chain >= prev.melee_chain {
        cur.melee_chain - prev.melee_chain
    } else {
        0
    };
    if delta > MAX_CHAIN_HITS {
        MAX_CHAIN_HITS as nat
    } else {
        delta as nat
    }
}

/// Events of one slot present in both samples, in emission order.
pub open spec fn slot_events(
    slot: u8,
    prev: TrackedAbility,
    cur: TrackedAbility,
    game_time: i64,
    melee_slot: u8,
) -> Seq<EventKind> {
    let t = transitions_spec(slot, prev, cur, game_time);
    let used = if t.used && slot < HERO_SLOT_LIMIT {
        seq![EventKind::AbilityUsed { slot }]
    } else {
        Seq::empty()
    };
    let ready = if t.ready && slot < HERO_SLOT_LIMIT {
        seq![EventKind::AbilityReady { slot }]
    } else {
        Seq::empty()
    };
    let parried = if t.got_parried {
        seq![EventKind::Parried]
    } else {
        Seq::empty()
    };
    let punches = if slot == melee_slot {
        repeat_kind(EventKind::PunchLanded, landed_hits(prev, cur))
    } else {
        Seq::empty()
    };
    used + ready + parried + punches
}

/// Events of slots `0..n`, in slot order.
pub open spec fn ability_events(
    prev: Seq<Option<TrackedAbility>>,
    cur: Seq<Option<TrackedAbility>>,
    game_time: i64,
    melee_slot: u8,
    n: int,
) -> Seq<EventKind>
    decreases n,
{
    if n <= 0 {
        Seq::empty()
    } else {
        let before = ability_events(prev, cur, game_time, melee_slot, n - 1);
        match (prev[n - 1], cur[n - 1]) {
            (Some(p), Some(c)) => before + slot_events((n - 1) as u8, p, c, game_time, melee_slot),
            _ => before,
        }
    }
}

/// Some ability in the melee slot is swinging.
pub open spec fn melee_active(abilities: Seq<AbilitySnapshot>, melee_slot: u8) -> bool {
    exists|k: int|
        0 <= k < abilities.len() && (#[trigger] abilities[k]).slot == melee_slot && (
        abilities[k].channeling || abilities[k].melee_state != 0)
}

/// A parry window opened in the melee slot within the last two seconds.
pub open spec fn parry_window_open(
    abilities: Seq<AbilitySnapshot>,
    melee_slot: u8,
    game_time: i64,
) -> bool {
    exists|k: int|
        0 <= k < abilities.len() && (#[trigger] abilities[k]).slot == melee_slot
            && abilities[k].parry_start as int > game_time as int - PARRY_WINDOW_MS as int
            && abilities[k].parry_start > 0
}

/// The monitor's memory, as the contracts see it.
pub struct MonitorState {
    pub previous: Option<PawnMemory>,
    pub players: Map<u64, TrackedPlayer>,
    pub sequence: u64,
    pub ability_settle_until_ms: u64,
    pub melee_activity_until_ms: u64,
    pub enemy_punch_until_ms: u64,
    pub melee_slot: u8,
}

pub struct PawnMemory {
    pub address: u64,
    pub alive: bool,
    pub interrupted: bool,
    pub damage_taken_time: i64,
    pub abilities: Seq<Option<TrackedAbility>>,
}

pub open spec fn remember_pawn(p: PawnSnapshot) -> PawnMemory {
    PawnMemory {
        address: p.address,
        alive: p.life_state == 0,
        interrupted: p.interrupted,
        damage_taken_time: p.damage_taken_time,
        abilities: ability_table(p.abilities@, p.game_time),
    }
}

/// Local pawn step: the new memory and the event kinds it emits.
pub open spec fn pawn_step(m: MonitorState, pawn: Option<PawnSnapshot>, now: u64) -> (
    MonitorState,
    Seq<EventKind>,
) {
    match pawn {
        None => (MonitorState { previous: None, players: Map::empty(), ..m }, Seq::empty()),
        Some(p) => {
            let alive = p.life_state == 0;
            let table = ability_table(p.abilities@, p.game_time);
            let melee_until = if melee_active(p.abilities@, m.melee_slot) {
                (now + MELEE_ACTIVITY_WINDOW_MS) as u64
            } else {
                m.melee_activity_until_ms
            };
            let m1 = MonitorState {
                melee_activity_until_ms: melee_until,
                previous: Some(remember_pawn(p)),
                ..m
            };
            match m.previous {
                None => (m1, Seq::empty()),
                Some(prev) => if prev.address != p.address {
                    (
                        MonitorState {
                            ability_settle_until_ms: (now + ABILITY_SETTLE_MS) as u64,
                            ..m1
                        },
                        if !prev.alive && alive {
                            seq![EventKind::Respawn]
                        } else {
                            Seq::empty()
                        },
                    )
                } else {
                    let life = if prev.alive && !alive {
                        seq![EventKind::Death]
                    } else if !prev.alive && alive {
                        seq![EventKind::Respawn]
                    } else {
                        Seq::empty()
                    };
                    let settle = if life.len() > 0 {
                        (now + ABILITY_SETTLE_MS) as u64
                    } else {
                        m.ability_settle_until_ms
                    };
                    let settled = alive && now >= settle;
                    let parry = !prev.interrupted && p.interrupted && parry_window_open(
                        p.abilities@,
                        m.melee_slot,
                        p.game_time,
                    );
                    let punch_taken = p.damage_taken_time as int > prev.damage_taken_time as int
                        + DAMAGE_EPSILON_MS as int && now <= m.enemy_punch_until_ms;
                    let tail = if settled {
                        ability_events(
                            prev.abilities,
                            table,
                            p.game_time,
                            m.melee_slot,
                            SLOT_COUNT as int,
                        ) + (if parry {
                            seq![EventKind::Parry]
                        } else {
                            Seq::empty()
                        }) + (if punch_taken {
                            seq![EventKind::PunchTaken]
                        } else {
                            Seq::empty()
                        })
                    } else {
                        Seq::empty()
                    };
                    (MonitorState { ability_settle_until_ms: settle, ..m1 }, life + tail)
                },
            }
        },
    }
}

/// How far a counter rose, saturating at `i32::MAX` (0 when it did not rise).
pub open spec fn counter_delta(was: i32, now: i32) -> nat {
    let d = now as int - was as int;
    if d <= 0 {
        0
    } else if d > i32::MAX as int {
        i32::MAX as nat
    } else {
        d as nat
    }
}

/// Events of one already-known scoreboard entry.
pub open spec fn player_events(prev: TrackedPlayer, p: PlayerSnapshot, now: u64, melee_until: u64) -> Seq<
    EventKind,
> {
    if p.is_local {
        repeat_kind(EventKind::Kill, counter_delta(prev.kills, p.kills)) + repeat_kind(
            EventKind::Assist,
            counter_delta(prev.assists, p.assists),
        )
    } else if prev.health > p.health && now <= melee_until {
        seq![EventKind::PunchLanded]
    } else {
        Seq::empty()
    }
}

pub open spec fn remember_player(p: PlayerSnapshot) -> TrackedPlayer {
    TrackedPlayer {
        kills: p.kills,
        assists: p.assists,
        health: p.health,
        melee_chain: p.melee_chain,
    }
}

/// Scoreboard entries processed in order: the memory after them and their events.
pub open spec fn players_fold(
    known: Map<u64, TrackedPlayer>,
    players: Seq<PlayerSnapshot>,
    now: u64,
    melee_until: u64,
) -> (Map<u64, TrackedPlayer>, Seq<EventKind>)
    decreases players.len(),
{
    if players.len() == 0 {
        (known, Seq::empty())
    } else {
        let (before, events) = players_fold(known, players.drop_last(), now, melee_until);
        let p = players.last();
        let after = before.insert(p.address, remember_player(p));
        if before.contains_key(p.address) {
            (after, events + player_events(before[p.address], p, now, melee_until))
        } else {
            (after, events)
        }
    }
}

/// Some known player's melee chain advanced.
pub open spec fn enemy_punched(known: Map<u64, TrackedPlayer>, players: Seq<PlayerSnapshot>) -> bool {
    exists|k: int|
        0 <= k < players.len() && known.contains_key((#[trigger] players[k]).address)
            && players[k].melee_chain > known[players[k].address].melee_chain
}

/// Scoreboard step: the new memory and the event kinds it emits.
pub open spec fn players_step(m: MonitorState, players: Seq<PlayerSnapshot>, now: u64) -> (
    MonitorState,
    Seq<EventKind>,
) {
    if players.len() == 0 {
        (m, Seq::empty())
    } else {
        let enemy_until = if enemy_punched(m.players, players) {
            (now + MELEE_ACTIVITY_WINDOW_MS) as u64
        } else {
            m.enemy_punch_until_ms
        };
        let (known, events) = players_fold(m.players, players, now, m.melee_activity_until_ms);
        (MonitorState { players: known, enemy_punch_until_ms: enemy_until, ..m }, events)
    }
}

/// One full sample: scoreboard first, then the local pawn.
pub open spec fn monitor_step(m: MonitorState, s: Snapshot, now: u64) -> (MonitorState, Seq<
    EventKind,
>) {
    let (m1, player_kinds) = players_step(m, s.players@, now);
    let (m2, pawn_kinds) = pawn_step(m1, s.pawn, now);
    (
        MonitorState {
            sequence: ((m.sequence + player_kinds.len() + pawn_kinds.len())
                % 0x1_0000_0000_0000_0000) as u64,
            ..m2
        },
        player_kinds + pawn_kinds,
    )
}

fn track(a: &AbilitySnapshot, game_time: i64) -> (t: TrackedAbility)
    ensures
        t == track_spec(*a, game_time),
{
    TrackedAbility {
        charges: a.charges,
        cooling: (a.cooldown_end as i128) > (game_time as i128) + (COOLDOWN_LEAD_EPSILON_MS as i128),
        channeling: a.channeling,
        attack_parried: a.attack_parried,
        parry_start: a.parry_start,
        parry_success_end: a.parry_success_end,
        melee_chain: a.melee_chain,
    }
}

fn build_table(abilities: &Vec<AbilitySnapshot>, game_time: i64) -> (table: Vec<
    Option<TrackedAbility>,
>)
    ensures
        table@ == ability_table(abilities@, game_time),
        table@.len() == SLOT_COUNT,
{
    let mut table: Vec<Option<TrackedAbility>> = Vec::new();
    let mut i: usize = 0;
    while i < SLOT_COUNT
        invariant
            i <= SLOT_COUNT,
            table@.len() == i,
            forall|k: int| 0 <= k < i ==> (#[trigger] table@[k]) is None,
        decreases SLOT_COUNT - i,
    {
        table.push(None);
        i += 1;
    }
    assert(table@ =~= ability_table(abilities@.subrange(0, 0), game_time));
    let mut k: usize = 0;
    while k < abilities.len()
        invariant
            k <= abilities.len(),
            table@ == ability_table(abilities@.subrange(0, k as int), game_time),
            table@.len() == SLOT_COUNT,
        decreases abilities.len() - k,
    {
        let a = abilities[k];
        proof {
            let next = abilities@.subrange(0, k + 1);
            assert(next.drop_last() =~= abilities@.subrange(0, k as int));
            assert(next.last() == a);
        }
        table.set(a.slot as usize, Some(track(&a, game_time)));
        k += 1;
    }
    assert(abilities@.subrange(0, k as int) =~= abilities@);
    table
}

fn transitions(slot: u8, prev: &TrackedAbility, cur: &TrackedAbility, game_time: i64) -> (t:
    Transitions)
    ensures
        t == transitions_spec(slot, *prev, *cur, game_time),
{
    let (charge_used, charge_ready) = match (prev.charges, cur.charges) {
        (Some(was), Some(now)) => (now < was, now > was),
        _ => (false, false),
    };
    let channel_started = !prev.channeling && cur.channeling;
    let got_parried = !prev.attack_parried && cur.attack_parried && (cur.parry_success_end as i128)
        > (game_time as i128) - (PARRY_SUCCESS_FRESH_MS as i128) && (cur.parry_success_end as i128)
        < (game_time as i128) + (PARRY_SUCCESS_AHEAD_MS as i128);
    Transitions {
        used: charge_used || (!prev.cooling && cur.cooling) || (channel_started && slot
            < PARRY_SLOT_MIN),
        ready: charge_ready || (prev.cooling && !cur.cooling),
        got_parried,
    }
}

fn emit_slot_events(
    sequence: &mut u64,
    events: &mut Vec<GameEvent>,
    slot: u8,
    prev: &TrackedAbility,
    cur: &TrackedAbility,
    game_time: i64,
    melee_slot: u8,
    now: u64,
    Ghost(start): Ghost<u64>,
    Ghost(kinds): Ghost<Seq<EventKind>>,
)
    requires
        emitted(EventSource::Dll, old(events)@, kinds, start, now, *old(sequence)),
    ensures
        emitted(EventSource::Dll, 
            final(events)@,
            kinds + slot_events(slot, *prev, *cur, game_time, melee_slot),
            start,
            now,
            *final(sequence),
        ),
{
    let t = transitions(slot, prev, cur, game_time);
    let ghost spec_t = transitions_spec(slot, *prev, *cur, game_time);
    let ghost k1 = if spec_t.used && slot < HERO_SLOT_LIMIT {
        kinds.push(EventKind::AbilityUsed { slot })
    } else {
        kinds
    };
    if t.used && slot < HERO_SLOT_LIMIT {
        emit(EventSource::Dll, sequence, events, EventKind::AbilityUsed { slot }, now, Ghost(start), Ghost(kinds));
    }
    let ghost k2 = if spec_t.ready && slot < HERO_SLOT_LIMIT {
        k1.push(EventKind::AbilityReady { slot })
    } else {
        k1
    };
    if t.ready && slot < HERO_SLOT_LIMIT {
        emit(EventSource::Dll, sequence, events, EventKind::AbilityReady { slot }, now, Ghost(start), Ghost(k1));
    }
    let ghost k3 = if spec_t.got_parried {
        k2.push(EventKind::Parried)
    } else {
        k2
    };
    if t.got_parried {
        emit(EventSource::Dll, sequence, events, EventKind::Parried, now, Ghost(start), Ghost(k2));
    }
    let ghost k4 = if slot == melee_slot {
        k3 + repeat_kind(EventKind::PunchLanded, landed_hits(*prev, *cur))
    } else {
        k3
    };
    if slot == melee_slot {
        let delta: u32 = if cur.melee_chain >= prev.melee_chain {
            cur.melee_chain - prev.melee_chain
        } else {
            0
        };
        let hits: u32 = if delta > MAX_CHAIN_HITS {
            MAX_CHAIN_HITS
        } else {
            delta
        };
        emit_repeat(EventSource::Dll, sequence, events, EventKind::PunchLanded, hits, now, Ghost(start), Ghost(k3));
    } else {
        assert(k3 + Seq::<EventKind>::empty() =~= k3);
    }
    proof {
        assert(k4 =~= kinds + slot_events(slot, *prev, *cur, game_time, melee_slot));
    }
}

fn any_melee_active(abilities: &Vec<AbilitySnapshot>, melee_slot: u8) -> (r: bool)
    ensures
        r == melee_active(abilities@, melee_slot),
{
    let mut k: usize = 0;
    while k < abilities.len()
        invariant
            k <= abilities.len(),
            forall|m: int|
                0 <= m < k ==> !((#[trigger] abilities@[m]).slot == melee_slot && (
                abilities@[m].channeling || abilities@[m].melee_state != 0)),
        decreases abilities.len() - k,
    {
        let a = &abilities[k];
        if a.slot == melee_slot && (a.channeling || a.melee_state != 0) {
            return true;
        }
        k += 1;
    }
    false
}

fn any_parry_window(abilities: &Vec<AbilitySnapshot>, melee_slot: u8, game_time: i64) -> (r: bool)
    ensures
        r == parry_window_open(abilities@, melee_slot, game_time),
{
    let mut k: usize = 0;
    while k < abilities.len()
        invariant
            k <= abilities.len(),
            forall|m: int|
                0 <= m < k ==> !((#[trigger] abilities@[m]).slot == melee_slot
                    && abilities@[m].parry_start as int > game_time as int - PARRY_WINDOW_MS as int
                    && abilities@[m].parry_start > 0),
        decreases abilities.len() - k,
    {
        let a = &abilities[k];
        if a.slot == melee_slot && (a.parry_start as i128) > (game_time as i128) - (
        PARRY_WINDOW_MS as i128) && a.parry_start > 0 {
            return true;
        }
        k += 1;
    }
    false
}

/// Turns successive snapshots into game events.
pub struct Monitor {
    previous: Option<TrackedPawn>,
    players: std::collections::HashMap<u64, TrackedPlayer>,
    sequence: u64,
    ability_settle_until_ms: u64,
    melee_activity_until_ms: u64,
    enemy_punch_until_ms: u64,
    melee_slot: u8,
}

impl View for Monitor {
    type V = MonitorState;

    closed spec fn view(&self) -> MonitorState {
        MonitorState {
            previous: match self.previous {
                Some(p) => Some(
                    PawnMemory {
                        address: p.address,
                        alive: p.alive,
                        interrupted: p.interrupted,
                        damage_taken_time: p.damage_taken_time,
                        abilities: p.abilities@,
                    },
                ),
                None => None,
            },
            players: self.players@,
            sequence: self.sequence,
            ability_settle_until_ms: self.ability_settle_until_ms,
            melee_activity_until_ms: self.melee_activity_until_ms,
            enemy_punch_until_ms: self.enemy_punch_until_ms,
            melee_slot: self.melee_slot,
        }
    }
}

impl Monitor {
    /// Remembered ability tables cover every slot.
    pub closed spec fn well_formed(&self) -> bool {
        self.previous matches Some(p) ==> p.abilities@.len() == SLOT_COUNT
    }

    pub fn new() -> (m: Monitor)
        ensures
            m.well_formed(),
            m@ == (MonitorState {
                previous: None,
                players: Map::empty(),
                sequence: 0,
                ability_settle_until_ms: 0,
                melee_activity_until_ms: 0,
                enemy_punch_until_ms: 0,
                melee_slot: DEFAULT_MELEE_SLOT,
            }),
    {
        Monitor {
            previous: None,
            players: std::collections::HashMap::new(),
            sequence: 0,
            ability_settle_until_ms: 0,
            melee_activity_until_ms: 0,
            enemy_punch_until_ms: 0,
            melee_slot: DEFAULT_MELEE_SLOT,
        }
    }

    pub fn set_melee_slot(&mut self, slot: u8)
        requires
            old(self).well_formed(),
        ensures
            final(self).well_formed(),
            final(self)@ == (MonitorState { melee_slot: slot, ..old(self)@ }),
    {
        self.melee_slot = slot;
    }

    /// Feed one sample; returns the events it produces, scoreboard events
    /// first, numbered consecutively after the last event emitted.
    pub fn update(&mut self, snapshot: Snapshot, now_ms: u64) -> (events: Vec<GameEvent>)
        requires
            old(self).well_formed(),
            now_ms <= MAX_NOW_MS,
        ensures
            final(self).well_formed(),
            final(self)@ == monitor_step(old(self)@, snapshot, now_ms).0,
            events@ == stamp(monitor_step(old(self)@, snapshot, now_ms).1, old(self)@.sequence, now_ms, EventSource::Dll),
    {
        let ghost m0 = self@;
        let mut events: Vec<GameEvent> = Vec::new();
        assert(events@ =~= stamp(Seq::empty(), m0.sequence, now_ms, EventSource::Dll));
        assert(m0.sequence == ((m0.sequence + 0) % seq_modulus()) as u64);
        self.update_players(&snapshot.players, now_ms, &mut events, Ghost(m0.sequence));
        let ghost m1 = self@;
        let ghost k1 = players_step(m0, snapshot.players@, now_ms).1;
        let Snapshot { pawn, players: _ } = snapshot;
        self.update_pawn(pawn, now_ms, &mut events, Ghost(m0.sequence), Ghost(k1));
        events
    }

    fn update_players(
        &mut self,
        players: &Vec<PlayerSnapshot>,
        now: u64,
        events: &mut Vec<GameEvent>,
        Ghost(start): Ghost<u64>,
    )
        requires
            old(self).well_formed(),
            now <= MAX_NOW_MS,
            emitted(EventSource::Dll, old(events)@, Seq::empty(), start, now, old(self)@.sequence),
        ensures
            final(self).well_formed(),
            final(self)@ == (MonitorState {
                sequence: final(self)@.sequence,
                ..players_step(old(self)@, players@, now).0
            }),
            emitted(EventSource::Dll, 
                final(events)@,
                players_step(old(self)@, players@, now).1,
                start,
                now,
                final(self)@.sequence,
            ),
    {
        if players.len() == 0 {
            return;
        }
        let ghost m0 = self@;
        let mut punched = false;
        let mut k: usize = 0;
        while k < players.len()
            invariant
                k <= players.len(),
                self@ == m0,
                !punched ==> forall|m: int|
                    0 <= m < k ==> !(m0.players.contains_key((#[trigger] players@[m]).address)
                        && players@[m].melee_chain > m0.players[players@[m].address].melee_chain),
                punched ==> enemy_punched(m0.players, players@),
            decreases players.len() - k,
        {
            let p = players[k];
            match self.players.get(&p.address) {
                Some(t) => {
                    if p.melee_chain > t.melee_chain {
                        punched = true;
                    }
                },
                None => {},
            }
            k += 1;
        }
        if punched {
            self.enemy_punch_until_ms = now + MELEE_ACTIVITY_WINDOW_MS;
        }
        let ghost melee_until = m0.melee_activity_until_ms;
        let ghost kinds: Seq<EventKind> = Seq::empty();
        let mut k: usize = 0;
        while k < players.len()
            invariant
                k <= players.len(),
                now <= MAX_NOW_MS,
                self.melee_activity_until_ms == melee_until,
                self.previous == old(self).previous,
                self.ability_settle_until_ms == m0.ability_settle_until_ms,
                self.melee_slot == m0.melee_slot,
                self.enemy_punch_until_ms == (if enemy_punched(m0.players, players@) {
                    (now + MELEE_ACTIVITY_WINDOW_MS) as u64
                } else {
                    m0.enemy_punch_until_ms
                }),
                self.players@ == players_fold(
                    m0.players,
                    players@.subrange(0, k as int),
                    now,
                    melee_until,
                ).0,
                emitted(EventSource::Dll, 
                    events@,
                    players_fold(m0.players, players@.subrange(0, k as int), now, melee_until).1,
                    start,
                    now,
                    self.sequence,
                ),
            decreases players.len() - k,
        {
            let p = players[k];
            let ghost sub = players@.subrange(0, k + 1);
            assert(sub.drop_last() =~= players@.subrange(0, k as int));
            assert(sub.last() == p);
            let ghost so_far = players_fold(m0.players, players@.subrange(0, k as int), now, melee_until).1;
            let known = self.players.get(&p.address);
            match known {
                None => {},
                Some(prev_ref) => {
                    let prev = *prev_ref;
                    if p.is_local {
                        let kills = counter_rise(prev.kills, p.kills);
                        emit_repeat(EventSource::Dll, &mut self.sequence, events, EventKind::Kill, kills, now, Ghost(start), Ghost(so_far));
                        let assists = counter_rise(prev.assists, p.assists);
                        emit_repeat(EventSource::Dll, 
                            &mut self.sequence,
                            events,
                            EventKind::Assist,
                            assists,
                            now,
                            Ghost(start),
                            Ghost(so_far + repeat_kind(EventKind::Kill, kills as nat)),
                        );
                        assert(so_far + repeat_kind(EventKind::Kill, kills as nat) + repeat_kind(EventKind::Assist, assists as nat)
                            =~= so_far + player_events(prev, p, now, melee_until));
                    } else if prev.health > p.health && now <= self.melee_activity_until_ms {
                        emit(EventSource::Dll, &mut self.sequence, events, EventKind::PunchLanded, now, Ghost(start), Ghost(so_far));
                        assert(so_far.push(EventKind::PunchLanded) =~= so_far + player_events(prev, p, now, melee_until));
                    } else {
                        assert(so_far =~= so_far + player_events(prev, p, now, melee_until));
                    }
                },
            }
            self.players.insert(
                p.address,
                TrackedPlayer {
                    kills: p.kills,
                    assists: p.assists,
                    health: p.health,
                    melee_chain: p.melee_chain,
                },
            );
            k += 1;
        }
        assert(players@.subrange(0, k as int) =~= players@);
    }

    fn update_pawn(
        &mut self,
        pawn: Option<PawnSnapshot>,
        now: u64,
        events: &mut Vec<GameEvent>,
        Ghost(start): Ghost<u64>,
        Ghost(kinds): Ghost<Seq<EventKind>>,
    )
        requires
            old(self).well_formed(),
            now <= MAX_NOW_MS,
            emitted(EventSource::Dll, old(events)@, kinds, start, now, old(self)@.sequence),
        ensures
            final(self).well_formed(),
            final(self)@ == (MonitorState {
                sequence: final(self)@.sequence,
                ..pawn_step(old(self)@, pawn, now).0
            }),
            emitted(EventSource::Dll, 
                final(events)@,
                kinds + pawn_step(old(self)@, pawn, now).1,
                start,
                now,
                final(self)@.sequence,
            ),
    {
        let ghost m0 = self@;
        let snapshot = match pawn {
            None => {
                self.previous = None;
                self.players.clear();
                assert(kinds + Seq::<EventKind>::empty() =~= kinds);
                return;
            },
            Some(p) => p,
        };
        let alive = snapshot.life_state == 0;
        let table = build_table(&snapshot.abilities, snapshot.game_time);
        if any_melee_active(&snapshot.abilities, self.melee_slot) {
            self.melee_activity_until_ms = now + MELEE_ACTIVITY_WINDOW_MS;
        }
        let previous = self.previous.take();
        let prev = match previous {
            None => {
                self.previous = Some(
                    TrackedPawn {
                        address: snapshot.address,
                        alive,
                        interrupted: snapshot.interrupted,
                        damage_taken_time: snapshot.damage_taken_time,
                        abilities: table,
                    },
                );
                assert(kinds + Seq::<EventKind>::empty() =~= kinds);
                return;
            },
            Some(prev) => prev,
        };
        if prev.address != snapshot.address {
            if !prev.alive && alive {
                emit(EventSource::Dll, &mut self.sequence, events, EventKind::Respawn, now, Ghost(start), Ghost(kinds));
                assert(kinds.push(EventKind::Respawn) =~= kinds + seq![EventKind::Respawn]);
            } else {
                assert(kinds + Seq::<EventKind>::empty() =~= kinds);
            }
            self.ability_settle_until_ms = now + ABILITY_SETTLE_MS;
            self.previous = Some(
                TrackedPawn {
                    address: snapshot.address,
                    alive,
                    interrupted: snapshot.interrupted,
                    damage_taken_time: snapshot.damage_taken_time,
                    abilities: table,
                },
            );
            return;
        }
        let ghost life: Seq<EventKind> = if prev.alive && !alive {
            seq![EventKind::Death]
        } else if !prev.alive && alive {
            seq![EventKind::Respawn]
        } else {
            Seq::empty()
        };
        if prev.alive && !alive {
            emit(EventSource::Dll, &mut self.sequence, events, EventKind::Death, now, Ghost(start), Ghost(kinds));
            self.ability_settle_until_ms = now + ABILITY_SETTLE_MS;
        } else if !prev.alive && alive {
            emit(EventSource::Dll, &mut self.sequence, events, EventKind::Respawn, now, Ghost(start), Ghost(kinds));
            self.ability_settle_until_ms = now + ABILITY_SETTLE_MS;
        }
        assert(kinds + life =~= if life.len() > 0 { kinds.push(life[0]) } else { kinds });
        let settled = alive && now >= self.ability_settle_until_ms;
        let ghost base = kinds + life;
        let ghost settle_now = self.ability_settle_until_ms;
        let ghost melee_now = self.melee_activity_until_ms;
        let ghost players_now = self.players@;
        if settled {
            let mut slot: usize = 0;
            while slot < SLOT_COUNT
                invariant
                    slot <= SLOT_COUNT,
                    self.ability_settle_until_ms == settle_now,
                    self.melee_activity_until_ms == melee_now,
                    self.enemy_punch_until_ms == m0.enemy_punch_until_ms,
                    self.melee_slot == m0.melee_slot,
                    self.players@ == players_now,
                    self.previous is None,
                    prev.abilities@.len() == SLOT_COUNT,
                    table@.len() == SLOT_COUNT,
                    emitted(EventSource::Dll, 
                        events@,
                        base + ability_events(
                            prev.abilities@,
                            table@,
                            snapshot.game_time,
                            self.melee_slot,
                            slot as int,
                        ),
                        start,
                        now,
                        self.sequence,
                    ),
                decreases SLOT_COUNT - slot,
            {
                let ghost before = base + ability_events(
                    prev.abilities@,
                    table@,
                    snapshot.game_time,
                    self.melee_slot,
                    slot as int,
                );
                match (prev.abilities[slot], table[slot]) {
                    (Some(p), Some(c)) => {
                        emit_slot_events(
                            &mut self.sequence,
                            events,
                            slot as u8,
                            &p,
                            &c,
                            snapshot.game_time,
                            self.melee_slot,
                            now,
                            Ghost(start),
                            Ghost(before),
                        );
                        assert(before + slot_events(slot as u8, p, c, snapshot.game_time, self.melee_slot)
                            =~= base + ability_events(
                            prev.abilities@,
                            table@,
                            snapshot.game_time,
                            self.melee_slot,
                            slot + 1,
                        ));
                    },
                    _ => {},
                }
                slot += 1;
            }
        }
        let ghost after_slots = if settled {
            base + ability_events(
                prev.abilities@,
                table@,
                snapshot.game_time,
                self.melee_slot,
                SLOT_COUNT as int,
            )
        } else {
            base
        };
        let parry = !prev.interrupted && snapshot.interrupted && any_parry_window(
            &snapshot.abilities,
            self.melee_slot,
            snapshot.game_time,
        );
        let ghost after_parry = if settled && parry {
            after_slots.push(EventKind::Parry)
        } else {
            after_slots
        };
        if settled && parry {
            emit(EventSource::Dll, &mut self.sequence, events, EventKind::Parry, now, Ghost(start), Ghost(after_slots));
        }
        let punch_taken = (snapshot.damage_taken_time as i128) > (prev.damage_taken_time as i128) + (
        DAMAGE_EPSILON_MS as i128) && now <= self.enemy_punch_until_ms;
        if settled && punch_taken {
            emit(EventSource::Dll, &mut self.sequence, events, EventKind::PunchTaken, now, Ghost(start), Ghost(after_parry));
        }
        self.previous = Some(
            TrackedPawn {
                address: snapshot.address,
                alive,
                interrupted: snapshot.interrupted,
                damage_taken_time: snapshot.damage_taken_time,
                abilities: table,
            },
        );
        proof {
            let step = pawn_step(m0, Some(snapshot), now);
            let pm = m0.previous->0;
            assert(pm.address == prev.address);
            assert(pm.alive == prev.alive);
            assert(pm.interrupted == prev.interrupted);
            assert(pm.damage_taken_time == prev.damage_taken_time);
            assert(pm.abilities == prev.abilities@);
            assert(table@ == ability_table(snapshot.abilities@, snapshot.game_time));
            assert(self.ability_settle_until_ms == (if life.len() > 0 { (now + ABILITY_SETTLE_MS) as u64 } else { m0.ability_settle_until_ms }));
            assert(parry == (!pm.interrupted && snapshot.interrupted && parry_window_open(snapshot.abilities@, m0.melee_slot, snapshot.game_time)));
            assert(punch_taken == (snapshot.damage_taken_time as int > pm.damage_taken_time as int + DAMAGE_EPSILON_MS as int && now <= m0.enemy_punch_until_ms));
            assert(step.1 =~= life + (if settled {
                ability_events(prev.abilities@, table@, snapshot.game_time, m0.melee_slot, SLOT_COUNT as int)
                    + (if parry { seq![EventKind::Parry] } else { Seq::empty() })
                    + (if punch_taken { seq![EventKind::PunchTaken] } else { Seq::empty() })
            } else {
                Seq::empty()
            }));
            let final_kinds = if settled && punch_taken {
                after_parry.push(EventKind::PunchTaken)
            } else {
                after_parry
            };
            assert(kinds + step.1 =~= final_kinds);
        }
    }
}

/// How far a counter rose, saturating at `i32::MAX`.
fn counter_rise(was: i32, now: i32) -> (r: u32)
    ensures
        r as nat == counter_delta(was, now),
{
    let d: i64 = (now as i64) - (was as i64);
    if d <= 0 {
        0
    } else if d > (i32::MAX as i64) {
        i32::MAX as u32
    } else {
        d as u32
    }
}


/// Every ability use or readiness among the kinds names one of the four hero
/// ability slots.
pub open spec fn only_hero_slot_ability_events(kinds: Seq<EventKind>) -> bool {
    forall|i: int|
        0 <= i < kinds.len() ==> match #[trigger] kinds[i] {
            EventKind::AbilityUsed { slot } => slot < 4,
            EventKind::AbilityReady { slot } => slot < 4,
            _ => true,
        }
}

proof fn lemma_hero_slots_concat(a: Seq<EventKind>, b: Seq<EventKind>)
    requires
        only_hero_slot_ability_events(a),
        only_hero_slot_ability_events(b),
    ensures
        only_hero_slot_ability_events(a + b),
{
    assert forall|i: int| 0 <= i < (a + b).len() implies match #[trigger] (a + b)[i] {
        EventKind::AbilityUsed { slot } => slot < 4,
        EventKind::AbilityReady { slot } => slot < 4,
        _ => true,
    } by {
        if i < a.len() {
            assert((a + b)[i] == a[i]);
        } else {
            assert((a + b)[i] == b[i - a.len()]);
        }
    }
}

proof fn lemma_hero_slots_repeat(kind: EventKind, n: nat)
    requires
        !(kind is AbilityUsed),
        !(kind is AbilityReady),
    ensures
        only_hero_slot_ability_events(repeat_kind(kind, n)),
{
    assert forall|i: int| 0 <= i < repeat_kind(kind, n).len() implies match #[trigger] repeat_kind(kind, n)[i] {
        EventKind::AbilityUsed { slot } => slot < 4,
        EventKind::AbilityReady { slot } => slot < 4,
        _ => true,
    } by {
        assert(repeat_kind(kind, n)[i] == kind);
    }
}

proof fn lemma_hero_slots_single(kind: EventKind)
    requires
        !(kind is AbilityUsed),
        !(kind is AbilityReady),
    ensures
        only_hero_slot_ability_events(seq![kind]),
        only_hero_slot_ability_events(Seq::<EventKind>::empty()),
{
    assert(seq![kind][0] == kind);
}

proof fn lemma_slot_events_hero_only(slot: u8, prev: TrackedAbility, cur: TrackedAbility, game_time: i64, melee_slot: u8)
    ensures
        only_hero_slot_ability_events(slot_events(slot, prev, cur, game_time, melee_slot)),
{
    let tr = transitions_spec(slot, prev, cur, game_time);
    let use_part = if tr.used && slot < 4 {
        seq![EventKind::AbilityUsed { slot }]
    } else {
        Seq::empty()
    };
    let ready_part = if tr.ready && slot < 4 {
        seq![EventKind::AbilityReady { slot }]
    } else {
        Seq::empty()
    };
    let parried = if tr.got_parried {
        seq![EventKind::Parried]
    } else {
        Seq::empty()
    };
    let punches = if slot == melee_slot {
        repeat_kind(EventKind::PunchLanded, landed_hits(prev, cur))
    } else {
        Seq::empty()
    };
    lemma_hero_slots_single(EventKind::Parried);
    lemma_hero_slots_repeat(EventKind::PunchLanded, landed_hits(prev, cur));
    if tr.used && slot < 4 {
        assert(use_part[0] == EventKind::AbilityUsed { slot });
    }
    if tr.ready && slot < 4 {
        assert(ready_part[0] == EventKind::AbilityReady { slot });
    }
    assert(only_hero_slot_ability_events(use_part));
    assert(only_hero_slot_ability_events(ready_part));
    lemma_hero_slots_concat(use_part, ready_part);
    lemma_hero_slots_concat(use_part + ready_part, parried);
    lemma_hero_slots_concat(use_part + ready_part + parried, punches);
}

proof fn lemma_ability_events_hero_only(
    prev: Seq<Option<TrackedAbility>>,
    cur: Seq<Option<TrackedAbility>>,
    game_time: i64,
    melee_slot: u8,
    n: int,
)
    ensures
        only_hero_slot_ability_events(ability_events(prev, cur, game_time, melee_slot, n)),
    decreases n,
{
    if n <= 0 {
        lemma_hero_slots_single(EventKind::Kill);
    } else {
        lemma_ability_events_hero_only(prev, cur, game_time, melee_slot, n - 1);
        if let (Some(p), Some(c)) = (prev[n - 1], cur[n - 1]) {
            lemma_slot_events_hero_only((n - 1) as u8, p, c, game_time, melee_slot);
            lemma_hero_slots_concat(
                ability_events(prev, cur, game_time, melee_slot, n - 1),
                slot_events((n - 1) as u8, p, c, game_time, melee_slot),
            );
        }
    }
}

proof fn lemma_players_fold_hero_only(
    known: Map<u64, TrackedPlayer>,
    players: Seq<PlayerSnapshot>,
    now: u64,
    melee_until: u64,
)
    ensures
        only_hero_slot_ability_events(players_fold(known, players, now, melee_until).1),
    decreases players.len(),
{
    lemma_hero_slots_single(EventKind::PunchLanded);
    if players.len() > 0 {
        lemma_players_fold_hero_only(known, players.drop_last(), now, melee_until);
        let (before, events) = players_fold(known, players.drop_last(), now, melee_until);
        let p = players.last();
        if before.contains_key(p.address) {
            let prev = before[p.address];
            lemma_hero_slots_repeat(EventKind::Kill, counter_delta(prev.kills, p.kills));
            lemma_hero_slots_repeat(EventKind::Assist, counter_delta(prev.assists, p.assists));
            lemma_hero_slots_concat(
                repeat_kind(EventKind::Kill, counter_delta(prev.kills, p.kills)),
                repeat_kind(EventKind::Assist, counter_delta(prev.assists, p.assists)),
            );
            lemma_hero_slots_concat(events, player_events(prev, p, now, melee_until));
        }
    }
}

/// Only the four hero ability slots report use and readiness: every
/// `AbilityUsed` and `AbilityReady` a sample emits names a slot below
/// `HERO_SLOT_LIMIT`, whatever the other slots do.
pub proof fn lemma_ability_events_name_hero_slots(m: MonitorState, s: Snapshot, now: u64)
    ensures
        only_hero_slot_ability_events(monitor_step(m, s, now).1),
        HERO_SLOT_LIMIT == 4,
{
    let (m1, player_kinds) = players_step(m, s.players@, now);
    lemma_hero_slots_single(EventKind::Death);
    lemma_hero_slots_single(EventKind::Respawn);
    lemma_hero_slots_single(EventKind::Parry);
    lemma_hero_slots_single(EventKind::PunchTaken);
    lemma_players_fold_hero_only(m.players, s.players@, now, m.melee_activity_until_ms);
    let pawn_kinds = pawn_step(m1, s.pawn, now).1;
    if let Some(p) = s.pawn {
        if let Some(prev) = m1.previous {
            if prev.address == p.address {
                let table = ability_table(p.abilities@, p.game_time);
                lemma_ability_events_hero_only(prev.abilities, table, p.game_time, m1.melee_slot, SLOT_COUNT as int);
                let ab = ability_events(prev.abilities, table, p.game_time, m1.melee_slot, SLOT_COUNT as int);
                lemma_hero_slots_concat(ab, seq![EventKind::Parry]);
                lemma_hero_slots_concat(ab, Seq::empty());
                lemma_hero_slots_concat(ab + seq![EventKind::Parry], seq![EventKind::PunchTaken]);
                lemma_hero_slots_concat(ab + seq![EventKind::Parry], Seq::empty());
                lemma_hero_slots_concat(ab + Seq::empty(), seq![EventKind::PunchTaken]);
                lemma_hero_slots_concat(ab + Seq::empty(), Seq::empty());
                assert(only_hero_slot_ability_events(pawn_kinds)) by {
                    let life = if prev.alive && !(p.life_state == 0) {
                        seq![EventKind::Death]
                    } else if !prev.alive && p.life_state == 0 {
                        seq![EventKind::Respawn]
                    } else {
                        Seq::empty()
                    };
                    let tail = pawn_kinds.subrange(life.len() as int, pawn_kinds.len() as int);
                    assert(pawn_kinds == life + tail);
                    lemma_hero_slots_concat(life, tail);
                }
            }
        }
    }
    lemma_hero_slots_concat(player_kinds, pawn_kinds);
}

/// A kind that the ability slots never report.
pub open spec fn not_an_ability_kind(k: EventKind) -> bool {
    !(k is AbilityUsed) && !(k is AbilityReady) && k != EventKind::Parried && k
        != EventKind::PunchLanded
}

proof fn lemma_kind_count_empty(k: EventKind)
    ensures
        kind_count(Seq::<EventKind>::empty(), k) == 0,
{
}

proof fn lemma_slot_events_count_other(
    slot: u8,
    prev: TrackedAbility,
    cur: TrackedAbility,
    game_time: i64,
    melee_slot: u8,
    k: EventKind,
)
    requires
        not_an_ability_kind(k),
    ensures
        kind_count(slot_events(slot, prev, cur, game_time, melee_slot), k) == 0,
{
    let tr = transitions_spec(slot, prev, cur, game_time);
    let use_part = if tr.used && slot < 4 {
        seq![EventKind::AbilityUsed { slot }]
    } else {
        Seq::empty()
    };
    let ready_part = if tr.ready && slot < 4 {
        seq![EventKind::AbilityReady { slot }]
    } else {
        Seq::empty()
    };
    let parried = if tr.got_parried {
        seq![EventKind::Parried]
    } else {
        Seq::empty()
    };
    let punches = if slot == melee_slot {
        repeat_kind(EventKind::PunchLanded, landed_hits(prev, cur))
    } else {
        Seq::empty()
    };
    lemma_kind_count_empty(k);
    lemma_kind_count_single(EventKind::AbilityUsed { slot }, k);
    lemma_kind_count_single(EventKind::AbilityReady { slot }, k);
    lemma_kind_count_single(EventKind::Parried, k);
    lemma_kind_count_repeat(EventKind::PunchLanded, landed_hits(prev, cur), k);
    lemma_kind_count_concat(use_part, ready_part, k);
    lemma_kind_count_concat(use_part + ready_part, parried, k);
    lemma_kind_count_concat(use_part + ready_part + parried, punches, k);
}

proof fn lemma_ability_events_count_other(
    prev: Seq<Option<TrackedAbility>>,
    cur: Seq<Option<TrackedAbility>>,
    game_time: i64,
    melee_slot: u8,
    n: int,
    k: EventKind,
)
    requires
        not_an_ability_kind(k),
    ensures
        kind_count(ability_events(prev, cur, game_time, melee_slot, n), k) == 0,
    decreases n,
{
    if n > 0 {
        lemma_ability_events_count_other(prev, cur, game_time, melee_slot, n - 1, k);
        if let (Some(p), Some(c)) = (prev[n - 1], cur[n - 1]) {
            lemma_slot_events_count_other((n - 1) as u8, p, c, game_time, melee_slot, k);
            lemma_kind_count_concat(
                ability_events(prev, cur, game_time, melee_slot, n - 1),
                slot_events((n - 1) as u8, p, c, game_time, melee_slot),
                k,
            );
        }
    }
}

/// What one ability slot reports between two samples: in a hero slot a
/// cooldown that starts is one use and a cooldown that ends is one
/// readiness; no slot reports more than one use or readiness, none reports
/// for another slot, and a slot whose state did not change reports nothing.
pub proof fn lemma_slot_reports(
    slot: u8,
    prev: TrackedAbility,
    cur: TrackedAbility,
    game_time: i64,
    melee_slot: u8,
    other: u8,
)
    ensures
        slot < 4 && !prev.cooling && cur.cooling ==> kind_count(
            slot_events(slot, prev, cur, game_time, melee_slot),
            EventKind::AbilityUsed { slot },
        ) == 1,
        slot < 4 && prev.cooling && !cur.cooling ==> kind_count(
            slot_events(slot, prev, cur, game_time, melee_slot),
            EventKind::AbilityReady { slot },
        ) == 1,
        kind_count(slot_events(slot, prev, cur, game_time, melee_slot), EventKind::AbilityUsed { slot })
            <= 1,
        kind_count(slot_events(slot, prev, cur, game_time, melee_slot), EventKind::AbilityReady { slot })
            <= 1,
        other != slot ==> kind_count(
            slot_events(slot, prev, cur, game_time, melee_slot),
            EventKind::AbilityUsed { slot: other },
        ) == 0 && kind_count(
            slot_events(slot, prev, cur, game_time, melee_slot),
            EventKind::AbilityReady { slot: other },
        ) == 0,
        prev == cur ==> slot_events(slot, prev, cur, game_time, melee_slot) == Seq::<EventKind>::empty(),
{
    let tr = transitions_spec(slot, prev, cur, game_time);
    let use_part = if tr.used && slot < 4 {
        seq![EventKind::AbilityUsed { slot }]
    } else {
        Seq::empty()
    };
    let ready_part = if tr.ready && slot < 4 {
        seq![EventKind::AbilityReady { slot }]
    } else {
        Seq::empty()
    };
    let parried = if tr.got_parried {
        seq![EventKind::Parried]
    } else {
        Seq::empty()
    };
    let punches = if slot == melee_slot {
        repeat_kind(EventKind::PunchLanded, landed_hits(prev, cur))
    } else {
        Seq::empty()
    };
    assert(slot_events(slot, prev, cur, game_time, melee_slot) == use_part + ready_part + parried
        + punches);
    assert forall|k: EventKind| #![trigger kind_count(use_part, k)]
        k is AbilityUsed || k is AbilityReady implies kind_count(
        slot_events(slot, prev, cur, game_time, melee_slot),
        k,
    ) == kind_count(use_part, k) + kind_count(ready_part, k) by {
        lemma_kind_count_empty(k);
        lemma_kind_count_single(EventKind::Parried, k);
        lemma_kind_count_repeat(EventKind::PunchLanded, landed_hits(prev, cur), k);
        lemma_kind_count_concat(use_part, ready_part, k);
        lemma_kind_count_concat(use_part + ready_part, parried, k);
        lemma_kind_count_concat(use_part + ready_part + parried, punches, k);
    }
    let u = EventKind::AbilityUsed { slot };
    let r = EventKind::AbilityReady { slot };
    let uo = EventKind::AbilityUsed { slot: other };
    let ro = EventKind::AbilityReady { slot: other };
    lemma_kind_count_empty(u);
    lemma_kind_count_empty(r);
    lemma_kind_count_empty(uo);
    lemma_kind_count_empty(ro);
    lemma_kind_count_single(u, u);
    lemma_kind_count_single(u, r);
    lemma_kind_count_single(r, u);
    lemma_kind_count_single(r, r);
    lemma_kind_count_single(u, uo);
    lemma_kind_count_single(u, ro);
    lemma_kind_count_single(r, uo);
    lemma_kind_count_single(r, ro);
    if prev == cur {
        assert(repeat_kind(EventKind::PunchLanded, 0) =~= Seq::<EventKind>::empty());
        assert(use_part + ready_part + parried + punches =~= Seq::<EventKind>::empty());
    }
}

/// Once a pawn is remembered, a sample reports one death when the same pawn
/// went from alive to dead, and one respawn when the pawn (the same one or a
/// new one) is alive after a dead one; otherwise neither.
pub proof fn lemma_life_events(m: MonitorState, p: PawnSnapshot, now: u64)
    requires
        m.previous is Some,
    ensures
        kind_count(pawn_step(m, Some(p), now).1, EventKind::Death) == if m.previous->0.address
            == p.address && m.previous->0.alive && p.life_state != 0 {
            1nat
        } else {
            0nat
        },
        kind_count(pawn_step(m, Some(p), now).1, EventKind::Respawn) == if !m.previous->0.alive
            && p.life_state == 0 {
            1nat
        } else {
            0nat
        },
{
    let prev = m.previous->0;
    lemma_kind_count_empty(EventKind::Death);
    lemma_kind_count_empty(EventKind::Respawn);
    lemma_kind_count_single(EventKind::Respawn, EventKind::Death);
    lemma_kind_count_single(EventKind::Respawn, EventKind::Respawn);
    lemma_kind_count_single(EventKind::Death, EventKind::Death);
    lemma_kind_count_single(EventKind::Death, EventKind::Respawn);
    if prev.address == p.address {
        let alive = p.life_state == 0;
        let table = ability_table(p.abilities@, p.game_time);
        let life = if prev.alive && !alive {
            seq![EventKind::Death]
        } else if !prev.alive && alive {
            seq![EventKind::Respawn]
        } else {
            Seq::empty()
        };
        let kinds = pawn_step(m, Some(p), now).1;
        let settle = if life.len() > 0 {
            (now + ABILITY_SETTLE_MS) as u64
        } else {
            m.ability_settle_until_ms
        };
        let settled = alive && now >= settle;
        let parry = !prev.interrupted && p.interrupted && parry_window_open(
            p.abilities@,
            m.melee_slot,
            p.game_time,
        );
        let punch_taken = p.damage_taken_time as int > prev.damage_taken_time as int
            + DAMAGE_EPSILON_MS as int && now <= m.enemy_punch_until_ms;
        let ab = ability_events(prev.abilities, table, p.game_time, m.melee_slot, SLOT_COUNT as int);
        let parry_part = if parry {
            seq![EventKind::Parry]
        } else {
            Seq::empty()
        };
        let punch_part = if punch_taken {
            seq![EventKind::PunchTaken]
        } else {
            Seq::empty()
        };
        let tail = if settled {
            ab + parry_part + punch_part
        } else {
            Seq::empty()
        };
        assert(kinds == life + tail);
        assert forall|k: EventKind| k == EventKind::Death || k == EventKind::Respawn implies kind_count(
            tail,
            k,
        ) == 0 by {
            lemma_ability_events_count_other(prev.abilities, table, p.game_time, m.melee_slot, SLOT_COUNT as int, k);
            lemma_kind_count_single(EventKind::Parry, k);
            lemma_kind_count_single(EventKind::PunchTaken, k);
            lemma_kind_count_empty(k);
            lemma_kind_count_concat(ab, parry_part, k);
            lemma_kind_count_concat(ab + parry_part, punch_part, k);
        }
        lemma_kind_count_concat(life, tail, EventKind::Death);
        lemma_kind_count_concat(life, tail, EventKind::Respawn);
    }
}

/// The local player's scoreboard entry reports one kill per point its kill
/// counter rose and one assist per point its assist counter rose (a rise
/// counted at most up to `i32::MAX`), and nothing else.
pub proof fn lemma_local_counters_count(prev: TrackedPlayer, p: PlayerSnapshot, now: u64, melee_until: u64, k: EventKind)
    requires
        p.is_local,
    ensures
        kind_count(player_events(prev, p, now, melee_until), k) == match k {
            EventKind::Kill => if p.kills <= prev.kills {
                0nat
            } else if p.kills - prev.kills > i32::MAX {
                i32::MAX as nat
            } else {
                (p.kills - prev.kills) as nat
            },
            EventKind::Assist => if p.assists <= prev.assists {
                0nat
            } else if p.assists - prev.assists > i32::MAX {
                i32::MAX as nat
            } else {
                (p.assists - prev.assists) as nat
            },
            _ => 0nat,
        },
{
    let kills = repeat_kind(EventKind::Kill, counter_delta(prev.kills, p.kills));
    let assists = repeat_kind(EventKind::Assist, counter_delta(prev.assists, p.assists));
    lemma_kind_count_concat(kills, assists, k);
    lemma_kind_count_repeat(EventKind::Kill, counter_delta(prev.kills, p.kills), k);
    lemma_kind_count_repeat(EventKind::Assist, counter_delta(prev.assists, p.assists), k);
}

/// The first sample of a pawn (nothing remembered) only sets the baseline:
/// it emits no pawn event.
pub proof fn lemma_first_pawn_sample_is_silent(m: MonitorState, p: PawnSnapshot, now: u64)
    requires
        m.previous is None,
    ensures
        pawn_step(m, Some(p), now).1 == Seq::<EventKind>::empty(),
        pawn_step(m, Some(p), now).0.previous == Some(remember_pawn(p)),
{
}

/// A sample without a pawn (menu, loading) forgets the pawn and the
/// scoreboard and emits nothing, so a pawn seen afterwards is a fresh
/// baseline.
pub proof fn lemma_no_pawn_clears_memory(m: MonitorState, now: u64, p: PawnSnapshot, later: u64)
    ensures
        pawn_step(m, None, now).1 == Seq::<EventKind>::empty(),
        pawn_step(m, None, now).0.previous is None,
        pawn_step(m, None, now).0.players == Map::<u64, TrackedPlayer>::empty(),
        pawn_step(pawn_step(m, None, now).0, Some(p), later).1 == Seq::<EventKind>::empty(),
{
}

/// Scoreboard entries not seen before only set their baseline: a sample of
/// distinct, unknown entries emits nothing.
pub proof fn lemma_new_players_are_silent(
    known: Map<u64, TrackedPlayer>,
    players: Seq<PlayerSnapshot>,
    now: u64,
    melee_until: u64,
)
    requires
        forall|i: int| 0 <= i < players.len() ==> !known.contains_key(#[trigger] players[i].address),
        forall|i: int, j: int|
            0 <= i < j < players.len() ==> #[trigger] players[i].address != #[trigger] players[j].address,
    ensures
        players_fold(known, players, now, melee_until).1 == Seq::<EventKind>::empty(),
        forall|i: int|
            0 <= i < players.len() ==> players_fold(known, players, now, melee_until).0[#[trigger] players[i].address]
                == remember_player(players[i]),
    decreases players.len(),
{
    if players.len() > 0 {
        let rest = players.drop_last();
        assert forall|i: int, j: int| 0 <= i < j < rest.len() implies #[trigger] rest[i].address
            != #[trigger] rest[j].address by {
            assert(rest[i] == players[i] && rest[j] == players[j]);
        }
        assert forall|i: int| 0 <= i < rest.len() implies !known.contains_key(#[trigger] rest[i].address) by {
            assert(rest[i] == players[i]);
        }
        lemma_new_players_are_silent(known, rest, now, melee_until);
        let (before, events) = players_fold(known, rest, now, melee_until);
        lemma_fold_keys(known, rest, now, melee_until);
        let last = players.last();
        assert forall|i: int| 0 <= i < rest.len() implies rest[i].address != last.address by {
            assert(rest[i] == players[i]);
            assert(players[i].address != players[players.len() - 1].address);
        }
        assert(!before.contains_key(last.address));
        assert forall|i: int| 0 <= i < players.len() implies players_fold(known, players, now, melee_until).0[
            #[trigger] players[i].address] == remember_player(players[i]) by {
            if i < players.len() - 1 {
                assert(rest[i] == players[i]);
            }
        }
    }
}

/// The scoreboard memory after a fold knows exactly the old keys and the
/// sample's addresses.
proof fn lemma_fold_keys(
    known: Map<u64, TrackedPlayer>,
    players: Seq<PlayerSnapshot>,
    now: u64,
    melee_until: u64,
)
    ensures
        forall|a: u64|
            players_fold(known, players, now, melee_until).0.contains_key(a) <==> (known.contains_key(a)
                || exists|i: int| 0 <= i < players.len() && (#[trigger] players[i]).address == a),
    decreases players.len(),
{
    if players.len() > 0 {
        let rest = players.drop_last();
        lemma_fold_keys(known, rest, now, melee_until);
        let before = players_fold(known, rest, now, melee_until).0;
        let p = players.last();
        let after = players_fold(known, players, now, melee_until).0;
        assert(after == before.insert(p.address, remember_player(p)));
        assert forall|a: u64| after.contains_key(a) implies (known.contains_key(a) || exists|i: int|
            0 <= i < players.len() && (#[trigger] players[i]).address == a) by {
            if a == p.address {
                assert(players[players.len() - 1].address == a);
            } else {
                assert(before.contains_key(a));
                if !known.contains_key(a) {
                    let i = choose|i: int| 0 <= i < rest.len() && (#[trigger] rest[i]).address == a;
                    assert(players[i] == rest[i]);
                }
            }
        }
        assert forall|a: u64| (known.contains_key(a) || exists|i: int|
            0 <= i < players.len() && (#[trigger] players[i]).address == a) implies after.contains_key(a) by {
            if !known.contains_key(a) {
                let i = choose|i: int| 0 <= i < players.len() && (#[trigger] players[i]).address == a;
                if i < players.len() - 1 {
                    assert(rest[i] == players[i]);
                    assert(before.contains_key(a));
                }
            }
        }
    }
}

/// Other players' kills and assists never emit: only the local player's
/// counters produce kill and assist events.
pub proof fn lemma_only_local_counters_emit(prev: TrackedPlayer, p: PlayerSnapshot, now: u64, melee_until: u64)
    requires
        !p.is_local,
    ensures
        forall|i: int|
            0 <= i < player_events(prev, p, now, melee_until).len() ==> #[trigger] player_events(
                prev,
                p,
                now,
                melee_until,
            )[i] == EventKind::PunchLanded,
{
}

/// Sequence numbers run on across samples: the first event of a sample
/// follows the last event of the sample before it (wrapping at `u64`).
pub proof fn lemma_sequences_continue(m: MonitorState, s1: Snapshot, t1: u64, s2: Snapshot, t2: u64)
    requires
        monitor_step(m, s1, t1).1.len() > 0,
        monitor_step(monitor_step(m, s1, t1).0, s2, t2).1.len() > 0,
    ensures
        ({
            let m1 = monitor_step(m, s1, t1).0;
            let first = stamp(monitor_step(m, s1, t1).1, m.sequence, t1, EventSource::Dll);
            let second = stamp(monitor_step(m1, s2, t2).1, m1.sequence, t2, EventSource::Dll);
            second[0].sequence == ((first.last().sequence + 1) % seq_modulus()) as u64
        }),
{
    let k1 = monitor_step(m, s1, t1).1;
    let first = stamp(k1, m.sequence, t1, EventSource::Dll);
    assert(first.last().sequence == ((m.sequence + k1.len()) % seq_modulus()) as u64);
}

/// A death, a respawn or a new pawn reports only that life change, and
/// ability transitions stay silent until `ABILITY_SETTLE_MS` after it.
pub proof fn lemma_life_change_starts_settling(m: MonitorState, p: PawnSnapshot, now: u64)
    requires
        m.previous matches Some(prev) && (prev.address != p.address || prev.alive != (p.life_state
            == 0)),
        now <= MAX_NOW_MS,
    ensures
        pawn_step(m, Some(p), now).0.ability_settle_until_ms == now + ABILITY_SETTLE_MS,
        forall|i: int|
            0 <= i < pawn_step(m, Some(p), now).1.len() ==> (#[trigger] pawn_step(m, Some(p), now).1[i]
                is Death || pawn_step(m, Some(p), now).1[i] is Respawn),
{
}

/// Until the settle deadline passes, and while the pawn is dead, a sample
/// reports nothing but a life change: no ability, parry or punch events.
pub proof fn lemma_no_ability_events_while_settling(m: MonitorState, p: PawnSnapshot, now: u64)
    requires
        m.previous is Some,
        now < m.ability_settle_until_ms || p.life_state != 0,
        now <= MAX_NOW_MS,
    ensures
        forall|i: int|
            0 <= i < pawn_step(m, Some(p), now).1.len() ==> (#[trigger] pawn_step(m, Some(p), now).1[i]
                is Death || pawn_step(m, Some(p), now).1[i] is Respawn),
{
}

} // verus!
