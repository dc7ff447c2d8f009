use deadass::bridge::{bridge_payload, signal_from_record, ModSignal, WireKind, WireRecord};
use deadass::config::{AppConfig, OpenShockConfig, TriggerConfig, UNIT};
use deadass::config_watch::{
    apply_reload, configs_equal, describe_change, push_fixed2_pub, MAX_TRIGGER_LINES,
};
use deadass::event::{EventKind, EventSource, GameEvent};
use deadass::haptics::{GateDecision, HapticGate, SuppressReason};
use deadass::openshock::{
    configured, error_body_from_json, error_detail, explain_error, explain_json_error, payload,
    ControlCommand, ErrorBody, JsonValue,
};
use deadass::poller::{ExternalPoller, ExternalSnapshot};
use deadass::shock::{ShockKind, Shocker};
use deadass::trigger::{Pattern, TriggerKind};
use deadass::ui::{AppState, MAX_LOG_LINES};

/// What a well-formed mod record decodes to.
fn record(kind: WireKind) -> WireRecord {
    WireRecord {
        schema: 1,
        sequence: 7,
        client_time_ms: 4242,
        kind,
    }
}

fn record_line(event: &str) -> String {
    format!(
        "[DEADASS]{{\"schema\":1,\"event\":\"{event}\",\"mod_version\":\"0.1.0\",\"session_id\":\"abc\",\"sequence\":7,\"client_time_ms\":4242}}"
    )
}

#[test]
fn kill_maps_to_game_event() {
    let payload = bridge_payload(&record_line("kill")).expect("record found");
    assert!(payload.starts_with("{\"schema\":1"));
    let Some(ModSignal::Game(event)) = signal_from_record(record(WireKind::Kill)) else {
        panic!("kill line must parse");
    };
    assert_eq!(event.kind, EventKind::Kill);
    assert_eq!(event.sequence, 7);
    assert_eq!(event.wall_time_ms, 4242);
    assert_eq!(event.source, EventSource::Mod);
}

#[test]
fn hook_ready_is_not_a_game_event() {
    assert_eq!(
        signal_from_record(record(WireKind::HookReady)),
        Some(ModSignal::HookReady)
    );
}

#[test]
fn mismatched_schema_is_rejected() {
    let mismatched = WireRecord {
        schema: 999,
        ..record(WireKind::Kill)
    };
    assert_eq!(signal_from_record(mismatched), None);
}

#[test]
fn console_log_wrapping_does_not_break_prefix_search() {
    let line = format!("[123.45] Panorama: {}", record_line("death"));
    let payload = bridge_payload(&line).expect("wrapped line must parse");
    assert!(payload.starts_with("{\"schema\":1,\"event\":\"death\""));
    assert_eq!(bridge_payload("no record here"), None);
    let Some(ModSignal::Game(event)) = signal_from_record(record(WireKind::Death)) else {
        panic!("death record must parse");
    };
    assert_eq!(event.kind, EventKind::Death);
}

#[test]
fn ability_records_carry_their_slot() {
    let Some(ModSignal::Game(event)) =
        signal_from_record(record(WireKind::AbilityReady { ability_slot: 3 }))
    else {
        panic!("ability record must parse");
    };
    assert_eq!(event.kind, EventKind::AbilityReady { slot: 3 });
}

fn config_with(edit: impl FnOnce(&mut AppConfig)) -> AppConfig {
    let mut config = AppConfig::default();
    edit(&mut config);
    config
}

#[test]
fn identical_configs_describe_nothing() {
    let config = AppConfig::default();
    assert!(describe_change(&config, &config).is_empty());
}

#[test]
fn scalar_changes_are_described() {
    let old = AppConfig::default();
    let new = config_with(|config| {
        config.master_gain = UNIT / 2;
        config.debug_logging = true;
    });
    let lines = describe_change(&old, &new);
    assert_eq!(lines, ["master_gain 1.00 -> 0.50", "debug_logging off -> on"]);
}

#[test]
fn trigger_changes_are_described_and_capped() {
    let old = AppConfig::default();
    let new = config_with(|config| {
        for slot in 0..8u8 {
            let kind = TriggerKind::AbilityUsed { slot };
            let at = match config.triggers.iter().position(|(key, _)| *key == kind) {
                Some(at) => at,
                None => {
                    config.triggers.push((kind, TriggerConfig::default()));
                    config.triggers.len() - 1
                }
            };
            let rule = &mut config.triggers[at].1;
            rule.strength = 100_000;
            rule.pattern = Pattern::Ramp;
        }
    });
    let lines = describe_change(&old, &new);
    let tail = lines.last().expect("changes listed");
    assert!(tail.starts_with("... and "));
    assert_eq!(lines.len(), MAX_TRIGGER_LINES + 1);
}

#[test]
fn trigger_lines_come_in_key_order() {
    let old = AppConfig::default();
    let new = config_with(|config| {
        for (kind, rule) in config.triggers.iter_mut() {
            if *kind == TriggerKind::Kill || *kind == TriggerKind::Death {
                rule.duration_ms = 1;
            }
        }
    });
    assert_eq!(
        describe_change(&old, &new),
        ["death duration_ms 1500 -> 1", "kill duration_ms 900 -> 1"]
    );
}

fn kill_at(wall_time_ms: u64) -> GameEvent {
    GameEvent::new(1, wall_time_ms, EventSource::Mod, EventKind::Kill)
}

fn death_at(wall_time_ms: u64) -> GameEvent {
    GameEvent::new(1, wall_time_ms, EventSource::Mod, EventKind::Death)
}

fn respawn_at(wall_time_ms: u64) -> GameEvent {
    GameEvent::new(2, wall_time_ms, EventSource::Mod, EventKind::Respawn)
}

#[test]
fn second_immediate_kill_is_debounced() {
    let config = AppConfig::default();
    let mut gate = HapticGate::new();
    assert!(matches!(
        gate.decide(&config, kill_at(1000)),
        GateDecision::Fire(_)
    ));
    assert!(matches!(
        gate.decide(&config, kill_at(1001)),
        GateDecision::Suppress(SuppressReason::Cooldown)
    ));
}

#[test]
fn mute_while_dead_suppresses_until_respawn() {
    let config = AppConfig {
        mute_while_dead: true,
        ..AppConfig::default()
    };
    let mut gate = HapticGate::new();
    gate.decide(&config, death_at(1000));
    assert_eq!(
        gate.decide(&config, kill_at(2000)),
        GateDecision::Suppress(SuppressReason::MutedWhileDead)
    );
    gate.decide(&config, respawn_at(3000));
    assert!(matches!(
        gate.decide(&config, kill_at(4000)),
        GateDecision::Fire(_)
    ));
}

#[test]
fn cooldown_is_judged_on_the_gate_clock() {
    let config = AppConfig::default();
    let mut gate = HapticGate::new();
    assert!(matches!(gate.decide_at(&config, kill_at(0), 10_000), GateDecision::Fire(_)));
    assert!(matches!(
        gate.decide_at(&config, kill_at(0), 10_400),
        GateDecision::Suppress(SuppressReason::Cooldown)
    ));
    assert!(matches!(gate.decide_at(&config, kill_at(0), 10_500), GateDecision::Fire(_)));
}

fn roster_config() -> OpenShockConfig {
    OpenShockConfig {
        shockers: vec![Shocker {
            id: String::from("abc123"),
            name: String::from("Left hand"),
        }],
        ..OpenShockConfig::default()
    }
}

#[test]
fn payload_matches_openshock_control_schema() {
    let command = ControlCommand {
        kind: ShockKind::Shock,
        intensity: 250,
        duration_ms: 90_000,
    };
    let body = payload(command, &[String::from("abc123"), String::from("def456")]);
    assert_eq!(body.shocks.len(), 2);
    assert_eq!(body.shocks[0].id, "abc123");
    assert_eq!(body.shocks[1].id, "def456");
    assert_eq!(body.shocks[0].kind, "shock");
    assert_eq!(body.shocks[0].intensity, 100);
    assert_eq!(body.shocks[0].duration, 30_000);
    assert!(!body.custom);
}

#[test]
fn configured_requires_token_and_roster() {
    let mut config = OpenShockConfig::default();
    assert!(!configured(&config));
    config.api_token = String::from("tok");
    assert!(!configured(&config), "no shocker yet");
    config.shockers = vec![Shocker {
        id: String::from("  "),
        name: String::from("blank"),
    }];
    assert!(!configured(&config), "blank shocker id does not count");
    config = roster_config();
    config.enabled = true;
    config.api_token = String::from("tok");
    assert!(configured(&config));
}

#[test]
fn html_error_bodies_become_a_short_hint() {
    let blocked = "<!DOCTYPE html>\n<!--[if lt IE 7]> <html> <![endif]-->";
    assert_eq!(
        error_detail(blocked),
        "an HTML error page (the request was blocked before it reached the API)",
    );
    let long: String = "x".repeat(500);
    assert_eq!(error_detail(&long).chars().count(), 200);
}

#[test]
fn validation_errors_are_summarized_field_by_field() {
    let body = r#"{"type":"Validation.Error","title":"One or more validation errors occurred","status":400,"errors":{"body":["The body field is required."],"$.shocks[0].id":["The JSON value could not be converted to System.Guid."]}}"#;
    assert_eq!(
        error_detail(body),
        "One or more validation errors occurred; \
         $.shocks[0].id: The JSON value could not be converted to System.Guid.; \
         body: The body field is required.",
    );
}

#[test]
fn json_message_is_used_when_there_are_no_parts() {
    assert_eq!(
        error_detail("  {\"message\":\"token expired\",\"errors\":{\"field\":[3]}}"),
        "token expired"
    );
    assert_eq!(error_detail("{\"status\":500}"), "{\"status\":500}");
}

#[test]
fn parsed_error_bodies_are_explained() {
    let parsed = ErrorBody {
        title: None,
        errors: Some(vec![
            (String::from("a"), Some(vec![None, Some(String::from("later"))])),
            (String::from("b"), Some(vec![Some(String::from("first")), None])),
            (String::from("c"), None),
            (String::from("d"), Some(vec![])),
        ]),
        message: Some(String::from("unused")),
    };
    assert_eq!(explain_error("{}", Some(parsed)), "b: first");
    let message_only = ErrorBody {
        title: None,
        errors: None,
        message: Some("m".repeat(450)),
    };
    assert_eq!(explain_error("{}", Some(message_only)).chars().count(), 400);
    assert_eq!(explain_error("plain text", None), "plain text");
}

fn external(kills: i32, alive: bool, ready: [bool; 4]) -> ExternalSnapshot {
    ExternalSnapshot {
        kills,
        deaths: 0,
        assists: 0,
        alive,
        ability_cooldown_ready: ready,
    }
}

#[test]
fn first_observation_seeds_without_emitting() {
    let mut poller = ExternalPoller::new();
    assert!(poller.observe(external(0, true, [true; 4])).is_empty());
}

#[test]
fn kill_and_respawn_and_ready_each_emit_once() {
    let mut poller = ExternalPoller::new();
    poller.observe(external(0, false, [false; 4]));
    let emitted = poller.observe(external(1, true, [true, false, false, false]));
    let kinds: Vec<EventKind> = emitted.iter().map(|event| event.kind).collect();
    assert!(kinds.contains(&EventKind::Kill));
    assert!(kinds.contains(&EventKind::Respawn));
    assert!(kinds.contains(&EventKind::AbilityReady { slot: 0 }));
    assert_eq!(kinds.len(), 3);
}

#[test]
fn history_caps_and_tracks_last_line() {
    let mut state = AppState::new(AppConfig::default());
    assert_eq!(state.log_lines.len(), 1);
    for i in 0..(MAX_LOG_LINES + 10) {
        state.push_log(format!("line {i}"));
    }
    assert_eq!(state.log_lines.len(), MAX_LOG_LINES);
    assert_eq!(state.last_log, format!("line {}", MAX_LOG_LINES + 9));
    assert_eq!(state.log_lines.back().unwrap(), &state.last_log);
    assert_eq!(state.log_lines.front().unwrap(), "line 10");
}

#[test]
fn unchanged_samples_are_silent() {
    let mut poller = ExternalPoller::new();
    let sample = external(3, true, [true, false, true, false]);
    assert!(poller.observe(sample).is_empty());
    assert!(poller.observe(sample).is_empty());
    assert!(poller.observe(sample).is_empty());
}

#[test]
fn fired_commands_follow_the_rule_and_cap() {
    let config = AppConfig {
        master_gain: 2 * UNIT,
        max_strength_cap: UNIT / 2,
        ..AppConfig::default()
    };
    let rule = config.trigger(TriggerKind::Kill);
    let mut gate = HapticGate::new();
    match gate.decide_at(&config, kill_at(0), 1_000) {
        GateDecision::Fire(command) => {
            assert_eq!(command.strength, UNIT / 2);
            assert_eq!(command.duration_ms, rule.duration_ms);
            assert_eq!(command.pattern, rule.pattern);
        }
        other => panic!("expected the kill rule to fire, got {other:?}"),
    }
}

#[test]
fn parsed_json_documents_are_read_as_error_bodies() {
    let text = |t: &str| JsonValue::Text(String::from(t));
    let document = JsonValue::Object(vec![
        (String::from("status"), JsonValue::Number(String::from("400"))),
        (String::from("title"), text("Bad request")),
        (
            String::from("errors"),
            JsonValue::Object(vec![
                (String::from("id"), JsonValue::Array(vec![text("must be a guid"), JsonValue::Null])),
                (String::from("n"), JsonValue::Bool(true)),
            ]),
        ),
        (String::from("message"), JsonValue::Number(String::from("7"))),
    ]);
    let body = error_body_from_json(&document);
    assert_eq!(body.title.as_deref(), Some("Bad request"));
    assert_eq!(body.message, None);
    assert_eq!(
        body.errors,
        Some(vec![
            (String::from("id"), Some(vec![Some(String::from("must be a guid")), None])),
            (String::from("n"), None),
        ])
    );
    assert_eq!(explain_json_error("{}", Some(document)), "Bad request; id: must be a guid");
    assert_eq!(explain_json_error("[1]", Some(JsonValue::Array(vec![]))), "[1]");
    assert_eq!(explain_json_error("nope", None), "nope");
}

fn fixed(m: i64) -> String {
    let mut out = Vec::new();
    push_fixed2_pub(&mut out, m);
    out.into_iter().collect()
}

#[test]
fn two_decimals_round_ties_to_even() {
    assert_eq!(fixed(125_000), "0.12");
    assert_eq!(fixed(135_000), "0.14");
    assert_eq!(fixed(125_001), "0.13");
    assert_eq!(fixed(1_000_000), "1.00");
    assert_eq!(fixed(-5_000), "-0.00");
    assert_eq!(fixed(-15_000), "-0.02");
}

#[test]
fn factory_table_gives_each_trigger_its_preset() {
    let config = AppConfig::default();
    let cases = [
        (TriggerKind::Kill, 700_000, 900),
        (TriggerKind::Death, 400_000, 1500),
        (TriggerKind::Assist, 500_000, 700),
        (TriggerKind::Respawn, 300_000, 500),
        (TriggerKind::Parry, 700_000, 250),
        (TriggerKind::Parried, 500_000, 400),
        (TriggerKind::PunchLanded, 450_000, 200),
        (TriggerKind::PunchTaken, 400_000, 200),
        (TriggerKind::AbilityUsed { slot: 2 }, 550_000, 400),
        (TriggerKind::AbilityReady { slot: 3 }, 350_000, 300),
        // slots beyond the table fall back to the family's first rule
        (TriggerKind::AbilityUsed { slot: 6 }, 550_000, 400),
    ];
    for (kind, strength, duration_ms) in cases {
        let rule = config.trigger(kind);
        assert_eq!(rule.strength, strength);
        assert_eq!(rule.duration_ms, duration_ms);
        assert_eq!(rule.retrigger_cooldown_ms, 500);
        assert!(rule.enabled);
        assert_eq!(rule.pattern, Pattern::Vibrate);
    }
    assert_eq!(config.triggers.len(), 16);
}

#[test]
fn a_duplicate_config_says_the_same() {
    let config = config_with(|config| {
        config.master_gain = UNIT / 4;
        config.dll_path = Some(String::from("C:/dll"));
    });
    let copy = config.duplicate();
    assert!(configs_equal(&config, &copy));
    assert!(describe_change(&config, &copy).is_empty());
    let edited = {
        let mut copy = config.duplicate();
        copy.debug_logging = true;
        copy
    };
    assert!(!configs_equal(&config, &edited));
}

#[test]
fn rule_order_does_not_make_configs_differ() {
    let config = AppConfig::default();
    let mut reordered = config.duplicate();
    reordered.triggers.reverse();
    assert!(configs_equal(&config, &reordered));
    reordered.triggers[0].1.duration_ms += 1;
    assert!(!configs_equal(&config, &reordered));
}

#[test]
fn unparsable_config_keeps_the_running_one() {
    let mut state = AppState::new(AppConfig::default());
    apply_reload(&mut state, None, "/tmp/deadass.toml");
    assert_eq!(state.config_rev, 1);
    assert_eq!(
        state.last_log,
        "config /tmp/deadass.toml could not be parsed; keeping the running config"
    );
    assert_eq!(state.log_lines.len(), 2);
}

#[test]
fn unchanged_config_file_is_ignored() {
    let mut state = AppState::new(AppConfig::default());
    apply_reload(&mut state, Some(AppConfig::default()), "/tmp/deadass.toml");
    assert_eq!(state.config_rev, 1);
    assert_eq!(state.log_lines.len(), 1);
}

#[test]
fn changed_config_file_is_installed_and_described() {
    let mut state = AppState::new(AppConfig::default());
    let fresh = config_with(|config| config.master_gain = UNIT / 2);
    apply_reload(&mut state, Some(fresh), "/tmp/deadass.toml");
    assert_eq!(state.config_rev, 2);
    assert_eq!(state.config.master_gain, UNIT / 2);
    let lines: Vec<&str> = state.log_lines.iter().skip(1).map(|line| line.as_str()).collect();
    assert_eq!(lines, ["config reloaded from /tmp/deadass.toml", "master_gain 1.00 -> 0.50"]);
}
