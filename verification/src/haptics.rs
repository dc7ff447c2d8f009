//! Decides whether an accepted game event fires its haptic rule: disabled
//! rules, muting while dead and the per-trigger retrigger cooldown.

use vstd::prelude::*;
use crate::config::{AppConfig, rule_for, scaled_strength_spec};
use crate::event::{EventKind, GameEvent};
use crate::poller::now_ms;
use crate::trigger::{Pattern, TriggerKind, trigger_of_event};

verus! {

/// What to play on the toys.
#[derive(Debug, Clone, Copy, PartialEq, Eq, Structural)]
pub struct HapticCommand {
    /// Strength in millionths.
    pub strength: i64,
    pub duration_ms: u64,
    pub pattern: Pattern,
}

/// The command a trigger's rule plays, if the rule is enabled.
pub open spec fn command_for(config: AppConfig, kind: TriggerKind) -> Option<HapticCommand> {
    let rule = rule_for(config.triggers@, kind);
    if !rule.enabled {
        None
    } else {
        Some(
            HapticCommand {
                strength: scaled_strength_spec(
                    rule.strength as int,
                    config.master_gain as int,
                    config.max_strength_cap as int,
                ) as i64,
                duration_ms: rule.duration_ms,
                pattern: rule.pattern,
            },
        )
    }
}

impl HapticCommand {
    pub fn from_trigger(config: &AppConfig, kind: TriggerKind) -> (r: Option<HapticCommand>)
        requires
            config.max_strength_cap >= 0,
        ensures
            r == command_for(*config, kind),
    {
        let rule = config.trigger(kind);
        if !rule.enabled {
            return None;
        }
        Some(
            HapticCommand {
                strength: rule.scaled_strength(config.master_gain, config.max_strength_cap),
                duration_ms: rule.duration_ms,
                pattern: rule.pattern,
            },
        )
    }
}

/// Why an event did not fire.
#[derive(Debug, Clone, Copy, PartialEq, Eq, Structural)]
pub enum SuppressReason {
    Disabled,
    MutedWhileDead,
    Cooldown,
}

pub open spec fn suppress_text(reason: SuppressReason) -> Seq<char> {
    match reason {
        SuppressReason::Disabled => "disabled in config"@,
        SuppressReason::MutedWhileDead => "muted while dead"@,
        SuppressReason::Cooldown => "retrigger cooldown"@,
    }
}

impl SuppressReason {
    /// The human-readable reason.
    pub fn describe(self) -> (s: &'static str)
        ensures
            s@ == suppress_text(self),
    {
        match self {
            SuppressReason::Disabled => "disabled in config",
            SuppressReason::MutedWhileDead => "muted while dead",
            SuppressReason::Cooldown => "retrigger cooldown",
        }
    }
}

#[derive(Debug, Clone, Copy, PartialEq, Eq, Structural)]
pub enum GateDecision {
    Fire(HapticCommand),
    Suppress(SuppressReason),
}

/// When each trigger last fired (first entry for a trigger wins).
pub open spec fn last_fired(fired: Seq<(TriggerKind, u64)>, kind: TriggerKind) -> Option<u64>
    decreases fired.len(),
{
    if fired.len() == 0 {
        None
    } else if fired[0].0 == kind {
        Some(fired[0].1)
    } else {
        last_fired(fired.drop_first(), kind)
    }
}

/// Record that a trigger fired at `at`.
pub open spec fn record_fired(fired: Seq<(TriggerKind, u64)>, kind: TriggerKind, at: u64) -> Seq<
    (TriggerKind, u64),
>
    decreases fired.len(),
{
    if fired.len() == 0 {
        seq![(kind, at)]
    } else if fired[0].0 == kind {
        fired.update(0, (kind, at))
    } else {
        seq![fired[0]] + record_fired(fired.drop_first(), kind, at)
    }
}

pub struct GateState {
    pub last_fired: Seq<(TriggerKind, u64)>,
    pub dead_since_ms: Option<u64>,
}

/// The decision for an event judged at `now`, and the new haptic state.
pub open spec fn gate_step(g: GateState, config: AppConfig, event: GameEvent, now: u64) -> (
    GateState,
    GateDecision,
) {
    let dead = match event.kind {
        EventKind::Death => Some(event.wall_time_ms),
        EventKind::Respawn => None,
        _ => g.dead_since_ms,
    };
    let g1 = GateState { dead_since_ms: dead, ..g };
    let trigger = trigger_of_event(event.kind);
    if config.mute_while_dead && dead is Some {
        (g1, GateDecision::Suppress(SuppressReason::MutedWhileDead))
    } else {
        match command_for(config, trigger) {
            None => (g1, GateDecision::Suppress(SuppressReason::Disabled)),
            Some(command) => {
                let at = if now >= event.wall_time_ms {
                    now
                } else {
                    event.wall_time_ms
                };
                let cooldown = rule_for(config.triggers@, trigger).retrigger_cooldown_ms;
                let recent = match last_fired(g.last_fired, trigger) {
                    Some(last) => (if at >= last {
                        at - last
                    } else {
                        0
                    }) < cooldown,
                    None => false,
                };
                if recent {
                    (g1, GateDecision::Suppress(SuppressReason::Cooldown))
                } else {
                    (
                        GateState { last_fired: record_fired(g.last_fired, trigger, at), ..g1 },
                        GateDecision::Fire(command),
                    )
                }
            },
        }
    }
}

pub struct HapticGate {
    last_fired_ms: Vec<(TriggerKind, u64)>,
    dead_since_ms: Option<u64>,
}

impl View for HapticGate {
    type V = GateState;

    closed spec fn view(&self) -> GateState {
        GateState { last_fired: self.last_fired_ms@, dead_since_ms: self.dead_since_ms }
    }
}

fn lookup_fired(fired: &Vec<(TriggerKind, u64)>, kind: TriggerKind) -> (r: Option<u64>)
    ensures
        r == last_fired(fired@, kind),
{
    let mut k: usize = 0;
    assert(fired@.subrange(0, fired@.len() as int) =~= fired@);
    while k < fired.len()
        invariant
            k <= fired.len(),
            last_fired(fired@, kind) == last_fired(fired@.subrange(k as int, fired@.len() as int), kind),
        decreases fired.len() - k,
    {
        let ghost rest = fired@.subrange(k as int, fired@.len() as int);
        assert(rest.drop_first() =~= fired@.subrange(k + 1, fired@.len() as int));
        if fired[k].0 == kind {
            return Some(fired[k].1);
        }
        k += 1;
    }
    None
}

proof fn lemma_record_at(fired: Seq<(TriggerKind, u64)>, kind: TriggerKind, at: u64, k: int)
    requires
        0 <= k <= fired.len(),
        forall|m: int| 0 <= m < k ==> (#[trigger] fired[m]).0 != kind,
        k < fired.len() ==> fired[k].0 == kind,
    ensures
        record_fired(fired, kind, at) == if k < fired.len() {
            fired.update(k, (kind, at))
        } else {
            fired.push((kind, at))
        },
    decreases k,
{
    if k == 0 {
        if fired.len() == 0 {
            assert(seq![(kind, at)] =~= fired.push((kind, at)));
        }
    } else {
        let t = fired.drop_first();
        assert forall|m: int| 0 <= m < k - 1 implies (#[trigger] t[m]).0 != kind by {
            assert(t[m] == fired[m + 1]);
        }
        lemma_record_at(t, kind, at, k - 1);
        if k < fired.len() {
            assert(seq![fired[0]] + t.update(k - 1, (kind, at)) =~= fired.update(k, (kind, at)));
        } else {
            assert(seq![fired[0]] + t.push((kind, at)) =~= fired.push((kind, at)));
        }
    }
}

fn record(fired: &mut Vec<(TriggerKind, u64)>, kind: TriggerKind, at: u64)
    ensures
        final(fired)@ == record_fired(old(fired)@, kind, at),
{
    let mut k: usize = 0;
    while k < fired.len()
        invariant
            k <= fired.len(),
            fired@ == old(fired)@,
            forall|m: int| 0 <= m < k ==> (#[trigger] fired@[m]).0 != kind,
        decreases fired.len() - k,
    {
        if fired[k].0 == kind {
            proof {
                lemma_record_at(fired@, kind, at, k as int);
            }
            fired.set(k, (kind, at));
            return;
        }
        k += 1;
    }
    proof {
        lemma_record_at(fired@, kind, at, k as int);
    }
    fired.push((kind, at));
}

impl HapticGate {
    pub fn new() -> (g: HapticGate)
        ensures
            g@ == (GateState { last_fired: Seq::empty(), dead_since_ms: None }),
    {
        HapticGate { last_fired_ms: Vec::new(), dead_since_ms: None }
    }

    /// Decide an event judged at the current wall clock (or the event's own
    /// time when that is later).
    pub fn decide(&mut self, config: &AppConfig, event: GameEvent) -> (d: GateDecision)
        requires
            config.max_strength_cap >= 0,
        ensures
            exists|now: u64| #[trigger] gate_step(old(self)@, *config, event, now) == (final(self)@, d),
    {
        let now = now_ms();
        self.decide_at(config, event, now)
    }

    /// Decide an event judged at `now` (or the event's own time when later).
    pub fn decide_at(&mut self, config: &AppConfig, event: GameEvent, now: u64) -> (d: GateDecision)
        requires
            config.max_strength_cap >= 0,
        ensures
            gate_step(old(self)@, *config, event, now) == (final(self)@, d),
    {
        match event.kind {
            EventKind::Death => self.dead_since_ms = Some(event.wall_time_ms),
            EventKind::Respawn => self.dead_since_ms = None,
            _ => {},
        }
        if config.mute_while_dead && self.dead_since_ms.is_some() {
            return GateDecision::Suppress(SuppressReason::MutedWhileDead);
        }
        let trigger = TriggerKind::from_event(event.kind);
        let command = match HapticCommand::from_trigger(config, trigger) {
            None => return GateDecision::Suppress(SuppressReason::Disabled),
            Some(c) => c,
        };
        let at = if now >= event.wall_time_ms {
            now
        } else {
            event.wall_time_ms
        };
        let cooldown = config.trigger(trigger).retrigger_cooldown_ms;
        let recent = match lookup_fired(&self.last_fired_ms, trigger) {
            Some(last) => (if at >= last {
                at - last
            } else {
                0
            }) < cooldown,
            None => false,
        };
        if recent {
            return GateDecision::Suppress(SuppressReason::Cooldown);
        }
        record(&mut self.last_fired_ms, trigger, at);
        GateDecision::Fire(command)
    }
}

impl Default for HapticGate {
    fn default() -> (g: HapticGate)
        ensures
            g@ == (GateState { last_fired: Seq::empty(), dead_since_ms: None }),
    {
        HapticGate::new()
    }
}

proof fn lemma_record_then_lookup(fired: Seq<(TriggerKind, u64)>, kind: TriggerKind, at: u64)
    ensures
        last_fired(record_fired(fired, kind, at), kind) == Some(at),
    decreases fired.len(),
{
    if fired.len() > 0 && fired[0].0 != kind {
        lemma_record_then_lookup(fired.drop_first(), kind, at);
        let r = record_fired(fired, kind, at);
        assert(r.drop_first() =~= record_fired(fired.drop_first(), kind, at));
    }
}

/// After a trigger fires, the same trigger is suppressed for the cooldown
/// when it comes again (under the same configuration, while not muted).
pub proof fn lemma_retrigger_within_cooldown_is_suppressed(
    g: GateState,
    config: AppConfig,
    first: GameEvent,
    first_now: u64,
    second: GameEvent,
    second_now: u64,
)
    requires
        gate_step(g, config, first, first_now).1 is Fire,
        trigger_of_event(second.kind) == trigger_of_event(first.kind),
        !(config.mute_while_dead && (second.kind is Death || (!(second.kind is Respawn)
            && gate_step(g, config, first, first_now).0.dead_since_ms is Some))),
        ({
            let at1 = if first_now >= first.wall_time_ms {
                first_now
            } else {
                first.wall_time_ms
            };
            let at2 = if second_now >= second.wall_time_ms {
                second_now
            } else {
                second.wall_time_ms
            };
            (if at2 >= at1 {
                at2 - at1
            } else {
                0
            }) < rule_for(config.triggers@, trigger_of_event(first.kind)).retrigger_cooldown_ms
        }),
    ensures
        gate_step(gate_step(g, config, first, first_now).0, config, second, second_now).1
            == GateDecision::Suppress(SuppressReason::Cooldown),
{
    let trigger = trigger_of_event(first.kind);
    let at1 = if first_now >= first.wall_time_ms {
        first_now
    } else {
        first.wall_time_ms
    };
    lemma_record_then_lookup(g.last_fired, trigger, at1);
}

/// While muting is on, a death mutes every following non-respawn event, and
/// a respawn lifts the mute.
pub proof fn lemma_muted_until_respawn(g: GateState, config: AppConfig, death: GameEvent, now: u64, next: GameEvent, later: u64)
    requires
        config.mute_while_dead,
        death.kind is Death,
    ensures
        gate_step(g, config, death, now).1 == GateDecision::Suppress(SuppressReason::MutedWhileDead),
        !(next.kind is Respawn) ==> gate_step(gate_step(g, config, death, now).0, config, next, later).1
            == GateDecision::Suppress(SuppressReason::MutedWhileDead),
        next.kind is Respawn ==> gate_step(gate_step(g, config, death, now).0, config, next, later).0.dead_since_ms is None,
{
}

/// Only an event that fires starts a cooldown: a suppressed event leaves the
/// record of when each trigger last fired as it was.
pub proof fn lemma_suppressed_events_leave_cooldowns(g: GateState, config: AppConfig, event: GameEvent, now: u64)
    ensures
        gate_step(g, config, event, now).1 is Suppress ==> gate_step(g, config, event, now).0.last_fired
            == g.last_fired,
{
}

/// What fires is the command of the event's own rule: the rule is enabled,
/// and the strength is the rule's strength scaled by the master gain, never
/// negative and never above the cap.
pub proof fn lemma_fired_command_follows_rule(g: GateState, config: AppConfig, event: GameEvent, now: u64)
    requires
        config.max_strength_cap >= 0,
    ensures
        gate_step(g, config, event, now).1 matches GateDecision::Fire(c) ==> {
            let rule = rule_for(config.triggers@, trigger_of_event(event.kind));
            &&& rule.enabled
            &&& Some(c) == command_for(config, trigger_of_event(event.kind))
            &&& c.duration_ms == rule.duration_ms
            &&& c.pattern == rule.pattern
            &&& 0 <= c.strength <= config.max_strength_cap
        },
{
}

} // verus!
