use deadass::event::{EventKind, GameEvent};
use deadass::monitor::{AbilitySnapshot, Monitor, PawnSnapshot, PlayerSnapshot, Snapshot};

/// Game clock seconds in milliseconds.
fn ms(seconds: f64) -> i64 {
    (seconds * 1000.0).round() as i64
}

fn pawn(alive: bool) -> PawnSnapshot {
    PawnSnapshot {
        address: 0x1000,
        health: if alive { 600 } else { 0 },
        life_state: if alive { 0 } else { 1 },
        game_time: ms(100.0),
        interrupted: false,
        damage_taken_time: 0,
        abilities: Vec::new(),
    }
}

fn ability(slot: u8, charges: Option<i32>, cooldown_end: f64) -> AbilitySnapshot {
    AbilitySnapshot {
        slot,
        charges,
        cooldown_end: ms(cooldown_end),
        channeling: false,
        attack_parried: false,
        parry_start: 0,
        parry_success_end: 0,
        melee_state: 0,
        melee_chain: 0,
    }
}

fn melee(slot: u8, chain: u32, channeling: bool) -> AbilitySnapshot {
    let mut ability = ability(slot, None, 0.0);
    ability.melee_chain = chain;
    ability.channeling = channeling;
    ability
}

fn parry_window(slot: u8, game_time: f64) -> AbilitySnapshot {
    let mut ability = ability(slot, None, 0.0);
    ability.parry_start = ms(game_time); // window just opened
    ability.parry_success_end = 0;
    ability
}

fn player(address: u64, is_local: bool, kills: i32, assists: i32) -> PlayerSnapshot {
    PlayerSnapshot {
        address,
        is_local,
        hero_id: 1,
        kills,
        assists,
        deaths: 0,
        kill_streak: 0,
        alive: true,
        health: 500,
        melee_chain: 0,
    }
}

fn track(slots: Vec<AbilitySnapshot>, game_time: f64) -> Snapshot {
    let mut snapshot = pawn(true);
    snapshot.game_time = ms(game_time);
    snapshot.abilities = slots;
    Snapshot {
        pawn: Some(snapshot),
        players: Vec::new(),
    }
}

fn bare(pawn: PawnSnapshot) -> Snapshot {
    Snapshot {
        pawn: Some(pawn),
        players: Vec::new(),
    }
}

fn kinds(events: &[GameEvent]) -> Vec<EventKind> {
    events.iter().map(|event| event.kind).collect()
}

#[test]
fn first_snapshot_baselines_without_events() {
    let mut monitor = Monitor::new();
    assert!(monitor.update(track(vec![ability(0, None, 0.0)], 100.0), 1000).is_empty());
}

#[test]
fn death_and_respawn_emit_in_order() {
    let mut monitor = Monitor::new();
    monitor.update(track(vec![], 100.0), 1000);
    let death = monitor.update(bare(pawn(false)), 1100);
    assert_eq!(kinds(&death), vec![EventKind::Death]);
    let respawn = monitor.update(bare(pawn(true)), 3000);
    assert_eq!(kinds(&respawn), vec![EventKind::Respawn]);
}

#[test]
fn menu_clears_state_so_returning_player_does_not_emit_death() {
    let mut monitor = Monitor::new();
    monitor.update(track(vec![], 100.0), 1000);
    monitor.update(Snapshot::default(), 2000);
    assert!(monitor.update(track(vec![], 100.0), 3000).is_empty());
}

#[test]
fn fresh_pawn_while_dead_counts_as_respawn() {
    let mut monitor = Monitor::new();
    monitor.update(track(vec![], 100.0), 1000);
    monitor.update(bare(pawn(false)), 1100);
    let mut fresh = pawn(true);
    fresh.address = 0x2000;
    assert_eq!(kinds(&monitor.update(bare(fresh), 5000)), vec![EventKind::Respawn]);
}

#[test]
fn every_cooldown_emits_used_then_ready() {
    let mut monitor = Monitor::new();
    monitor.update(track(vec![ability(2, None, 0.0)], 100.0), 1000);

    // First cast: cooldown becomes active relative to the game clock.
    let used = monitor.update(track(vec![ability(2, None, 125.0)], 100.0), 1033);
    assert_eq!(kinds(&used), vec![EventKind::AbilityUsed { slot: 2 }]);

    // Cooldown expires when the game clock passes the end.
    let ready = monitor.update(track(vec![ability(2, None, 125.0)], 125.5), 9000);
    assert_eq!(kinds(&ready), vec![EventKind::AbilityReady { slot: 2 }]);

    // Second cast: the used/ready pair must fire again (regression for the
    // once-only ready bug).
    let used = monitor.update(track(vec![ability(2, None, 160.0)], 130.0), 9500);
    assert_eq!(kinds(&used), vec![EventKind::AbilityUsed { slot: 2 }]);
    let ready = monitor.update(track(vec![ability(2, None, 160.0)], 160.5), 12000);
    assert_eq!(kinds(&ready), vec![EventKind::AbilityReady { slot: 2 }]);
}

#[test]
fn stale_cooldown_end_value_does_not_retrigger_ready() {
    let mut monitor = Monitor::new();
    monitor.update(track(vec![ability(2, None, 0.0)], 100.0), 1000);
    monitor.update(track(vec![ability(2, None, 125.0)], 100.0), 1033);
    monitor.update(track(vec![ability(2, None, 125.0)], 125.5), 9000);
    // Field unchanged, clock advancing: nothing new.
    let events = monitor.update(track(vec![ability(2, None, 125.0)], 200.0), 9300);
    assert!(events.is_empty());
}

#[test]
fn charge_decrement_and_restore_emit_events() {
    let mut monitor = Monitor::new();
    monitor.update(track(vec![ability(1, Some(3), 0.0)], 100.0), 1000);
    let used = monitor.update(track(vec![ability(1, Some(2), 0.0)], 100.0), 1033);
    assert_eq!(kinds(&used), vec![EventKind::AbilityUsed { slot: 1 }]);
    let ready = monitor.update(track(vec![ability(1, Some(3), 0.0)], 100.0), 10_000);
    assert_eq!(kinds(&ready), vec![EventKind::AbilityReady { slot: 1 }]);
}

#[test]
fn abilities_right_after_respawn_are_rebaselined_not_emitted() {
    let mut monitor = Monitor::new();
    monitor.update(track(vec![ability(0, Some(1), 0.0)], 100.0), 1000);
    monitor.update(bare(pawn(false)), 1100);
    monitor.update(bare(pawn(true)), 3000);
    // All abilities off cooldown after respawn: must not emit a burst.
    let events = monitor.update(track(vec![ability(0, Some(3), 0.0)], 100.0), 3200);
    assert!(events.is_empty());
    // Once the settle window passes, transitions work again.
    let used = monitor.update(track(vec![ability(0, Some(2), 0.0)], 100.0), 6000);
    assert_eq!(kinds(&used), vec![EventKind::AbilityUsed { slot: 0 }]);
}

#[test]
fn sequences_increase_monotonically() {
    let mut monitor = Monitor::new();
    monitor.update(track(vec![], 100.0), 1000);
    let first = monitor.update(bare(pawn(false)), 1100);
    let second = monitor.update(bare(pawn(true)), 4000);
    assert!(second[0].sequence > first[0].sequence);
}

#[test]
fn attack_parried_edge_emits_parried() {
    let mut monitor = Monitor::new();
    monitor.update(track(vec![ability(22, None, 0.0)], 100.0), 1000);
    let mut parried = ability(22, None, 0.0);
    parried.attack_parried = true;
    parried.parry_success_end = ms(105.0); // fresh success timestamp
    let events = monitor.update(track(vec![parried], 103.0), 1033);
    assert_eq!(kinds(&events), vec![EventKind::Parried]);

    // Staying true must not re-fire.
    let events = monitor.update(track(vec![parried], 104.0), 1100);
    assert!(events.is_empty());
}

#[test]
fn stale_parry_success_timestamp_does_not_emit() {
    let mut monitor = Monitor::new();
    monitor.update(track(vec![ability(22, None, 0.0)], 100.0), 1000);
    let mut garbage = ability(22, None, 0.0);
    garbage.attack_parried = true;
    garbage.parry_success_end = 0; // not a real success timestamp
    let events = monitor.update(track(vec![garbage], 100.0), 1033);
    assert!(events.is_empty());
}

#[test]
fn interrupt_during_parry_window_emits_parry() {
    let mut monitor = Monitor::new();
    monitor.update(track(vec![parry_window(22, 100.0)], 100.0), 1000);

    // Interrupt flag rises while our parry window is open: caught one.
    // The ability entity stays in the snapshot with its window timestamp.
    let mut stunned = pawn(true);
    stunned.interrupted = true;
    stunned.abilities = vec![parry_window(22, 100.0)];
    let events = monitor.update(bare(stunned), 1200);
    assert_eq!(kinds(&events), vec![EventKind::Parry]);
}

#[test]
fn interrupt_from_a_punch_does_not_emit_parry() {
    let mut monitor = Monitor::new();
    // Melee window active but no parry window opened (plain punch).
    monitor.update(track(vec![melee(22, 0, true)], 100.0), 1000);
    let mut stunned = pawn(true);
    stunned.interrupted = true;
    let events = monitor.update(bare(stunned), 1200);
    assert!(events.is_empty());
}

#[test]
fn interrupt_without_recent_melee_does_not_emit_parry() {
    let mut monitor = Monitor::new();
    monitor.update(track(vec![ability(0, None, 0.0)], 100.0), 1000);
    let mut stunned = pawn(true);
    stunned.interrupted = true;
    let events = monitor.update(bare(stunned), 1200);
    assert!(events.is_empty());
}

#[test]
fn melee_chain_increment_emits_punch_landed() {
    let mut monitor = Monitor::new();
    monitor.update(track(vec![melee(22, 0, true)], 100.0), 1000);
    let events = monitor.update(track(vec![melee(22, 1, true)], 100.0), 1033);
    assert_eq!(kinds(&events), vec![EventKind::PunchLanded]);
    // Chain resets to 0 between swings must not emit.
    let events = monitor.update(track(vec![melee(22, 0, true)], 100.0), 1100);
    assert!(events.is_empty());
}

#[test]
fn enemy_health_drop_during_our_melee_emits_punch_landed() {
    let mut monitor = Monitor::new();
    monitor.update(Snapshot {
        pawn: Some(pawn(true)),
        players: vec![player(0x10, true, 0, 0), player(0x20, false, 0, 0)],
    }, 1000);
    monitor.update(track(vec![melee(22, 0, true)], 100.0), 1033);

    let mut hit = player(0x20, false, 0, 0);
    hit.health = 420;
    let events = monitor.update(Snapshot {
        pawn: Some(pawn(true)),
        players: vec![player(0x10, true, 0, 0), hit],
    }, 1066);
    assert_eq!(kinds(&events), vec![EventKind::PunchLanded]);

    // No melee activity: enemy damage is not our punch.
    let mut hit_again = player(0x20, false, 0, 0);
    hit_again.health = 300;
    let events = monitor.update(Snapshot {
        pawn: Some(pawn(true)),
        players: vec![player(0x10, true, 0, 0), hit_again],
    }, 5000);
    assert!(events.is_empty());
}

#[test]
fn player_damage_during_enemy_melee_emits_punch_taken() {
    let mut monitor = Monitor::new();
    let mut enemy = player(0x20, false, 0, 0);
    enemy.melee_chain = 0;
    monitor.update(Snapshot {
        pawn: Some(pawn(true)),
        players: vec![player(0x10, true, 0, 0), enemy],
    }, 1000);

    // The enemy's melee chain advances and we take player damage: punched.
    let mut swinging = player(0x20, false, 0, 0);
    swinging.melee_chain = 1;
    let mut punched = pawn(true);
    punched.health = 380;
    punched.damage_taken_time = ms(100.2);
    let events = monitor.update(Snapshot {
        pawn: Some(punched),
        players: vec![player(0x10, true, 0, 0), swinging],
    }, 1033);
    assert_eq!(kinds(&events), vec![EventKind::PunchTaken]);

    // Player damage without enemy melee activity: not a punch (bullets).
    let idle_enemy = player(0x20, false, 0, 0);
    let mut shot = pawn(true);
    shot.health = 300;
    shot.damage_taken_time = ms(100.5);
    let events = monitor.update(Snapshot {
        pawn: Some(shot),
        players: vec![player(0x10, true, 0, 0), idle_enemy],
    }, 5000);
    assert!(events.is_empty());
}

#[test]
fn local_player_kill_and_assist_increments_emit_events() {
    let mut monitor = Monitor::new();
    monitor.update(Snapshot {
        pawn: Some(pawn(true)),
        players: vec![player(0x10, true, 0, 0), player(0x20, false, 0, 0)],
    }, 1000);

    let events = monitor.update(Snapshot {
        pawn: Some(pawn(true)),
        players: vec![player(0x10, true, 2, 1), player(0x20, false, 0, 0)],
    }, 1100);
    assert_eq!(
        kinds(&events),
        vec![EventKind::Kill, EventKind::Kill, EventKind::Assist]
    );
}

#[test]
fn other_players_kills_do_not_emit() {
    let mut monitor = Monitor::new();
    monitor.update(Snapshot {
        pawn: Some(pawn(true)),
        players: vec![player(0x10, true, 0, 0), player(0x20, false, 0, 0)],
    }, 1000);
    let events = monitor.update(Snapshot {
        pawn: Some(pawn(true)),
        players: vec![player(0x10, true, 0, 0), player(0x20, false, 3, 0)],
    }, 1100);
    assert!(events.is_empty());
}

#[test]
fn new_players_baseline_without_events() {
    let mut monitor = Monitor::new();
    let events = monitor.update(Snapshot {
        pawn: Some(pawn(true)),
        players: vec![player(0x10, true, 9, 7)],
    }, 1000);
    assert!(events.is_empty());
}

#[test]
fn hero_key_channel_start_does_not_emit_parry() {
    let mut monitor = Monitor::new();
    monitor.update(track(vec![ability(2, None, 0.0)], 100.0), 1000);
    let mut channeling = ability(2, None, 0.0);
    channeling.channeling = true;
    let events = monitor.update(track(vec![channeling], 100.0), 1033);
    assert_eq!(kinds(&events), vec![EventKind::AbilityUsed { slot: 2 }]);
}

