use deadass::commands::{
    apply_config_edit, apply_trigger_edit, describe_devices, parse_pattern, parse_shock_kind,
    parse_trigger, plan_openshock_test, plan_test_fire, sanitize_roster, test_disabled_line,
    test_fire_lines, toy_action_line, toys_test, trigger_views, ConfigEdit, ShockerArgs,
    TriggerEdit,
};
use deadass::config::{AppConfig, DataSource, UNIT};
use deadass::discovery::{is_deadlock_name, prefix_from_environ, to_wine_path};
use deadass::dispatch::{event_line, plan_fire, shock_line, suppress_line, vibrate_line};
use deadass::event::{EventKind, EventSource, GameEvent};
use deadass::haptics::{HapticCommand, SuppressReason};
use deadass::log_tail::TailCursor;
use deadass::mem::{module_base, parse_maps_line, MemoryRegion};
use deadass::openshock::{endpoint, ControlCommand};
use deadass::pipeline::{
    gate_source, gate_value, source_set_line, staged_updates_line, toys_failed_line,
    toys_ready_line, waiting_hint, SourceGate,
};
use deadass::sender::EventSender;
use deadass::shock::{ShockConfig, ShockKind, Shocker};
use deadass::toys::{ConnectionMode, ToyDevice, ToyError, ToyHub};
use deadass::trigger::{Pattern, TriggerKind};
use deadass::ui::{InjectPhase, InjectStatus, LogPhase, SourceStatus};

fn args(id: &str, name: &str) -> ShockerArgs {
    ShockerArgs {
        id: String::from(id),
        name: String::from(name),
    }
}

#[test]
fn roster_is_trimmed_deduplicated_and_capped() {
    let mut entries = vec![args(" a ", " Left "), args("a", "dup"), args("  ", "blank"), args("b", "")];
    for i in 0..20 {
        entries.push(args(&format!("x{i}"), "x"));
    }
    let roster = sanitize_roster(entries);
    assert_eq!(roster.len(), 16);
    assert_eq!(roster[0], Shocker { id: String::from("a"), name: String::from("Left") });
    assert_eq!(roster[1], Shocker { id: String::from("b"), name: String::from("Shocker") });
    assert_eq!(roster[15].id, "x13");
}

#[test]
fn front_end_names_parse_with_defaults() {
    assert_eq!(parse_shock_kind("vibrate"), ShockKind::Vibrate);
    assert_eq!(parse_shock_kind("sound"), ShockKind::Sound);
    assert_eq!(parse_shock_kind("zap"), ShockKind::Shock);
    assert_eq!(parse_pattern("ramp"), Pattern::Ramp);
    assert_eq!(parse_pattern("pulse"), Pattern::Pulse);
    assert_eq!(parse_pattern("other"), Pattern::Vibrate);
    assert_eq!(parse_trigger("punch"), Ok(TriggerKind::PunchLanded));
    assert_eq!(parse_trigger("ready"), Ok(TriggerKind::AbilityReady { slot: 0 }));
    assert_eq!(parse_trigger("ability_used:3"), Ok(TriggerKind::AbilityUsed { slot: 3 }));
    assert_eq!(parse_trigger("bogus"), Err(String::from("unknown trigger bogus")));
}

#[test]
fn device_lists_are_described() {
    assert_eq!(describe_devices(&[]), "no devices yet");
    assert_eq!(
        describe_devices(&[String::from("Edge"), String::from("Lush")]),
        "Edge, Lush"
    );
    assert_eq!(
        toy_action_line("rescan", &Ok(vec![String::from("Edge")])),
        "rescan: Edge"
    );
    assert_eq!(
        toy_action_line("connected central", &Err(String::from("refused"))),
        "connected central failed: refused"
    );
}

fn edit() -> TriggerEdit {
    TriggerEdit {
        enabled: true,
        strength: 2 * UNIT,
        duration_ms: 321,
        retrigger_cooldown_ms: 45,
        pattern: String::from("pulse"),
        vibrate_devices: Some(vec![String::from(" Edge "), String::from("Edge"), String::from("")]),
        shock_enabled: Some(true),
        shock_intensity: Some(0),
        shock_duration_ms: Some(1),
        shock_kind: Some(String::from("sound")),
        shock_shocker_ids: Some(vec![String::from("a"), String::from("gone")]),
    }
}

#[test]
fn trigger_edit_updates_or_adds_the_rule() {
    let mut config = AppConfig::default();
    config.openshock.shockers = vec![Shocker { id: String::from("a"), name: String::from("A") }];
    let before = config.triggers.len();
    apply_trigger_edit(&mut config, TriggerKind::Kill, &edit());
    assert_eq!(config.triggers.len(), before);
    let kill = config.trigger(TriggerKind::Kill);
    assert_eq!(kill.strength, UNIT);
    assert_eq!(kill.pattern, Pattern::Pulse);
    assert_eq!(kill.vibrate_devices, Some(vec![String::from("Edge")]));
    let shock = kill.shock.expect("shock set");
    assert_eq!(shock.intensity, 1);
    assert_eq!(shock.duration_ms, 300);
    assert_eq!(shock.kind, ShockKind::Sound);
    assert_eq!(shock.shocker_ids, Some(vec![String::from("a")]));

    apply_trigger_edit(&mut config, TriggerKind::AbilityUsed { slot: 9 }, &edit());
    assert_eq!(config.triggers.len(), before + 1);
    assert_eq!(config.triggers.last().unwrap().0, TriggerKind::AbilityUsed { slot: 9 });
}

#[test]
fn settings_edit_clamps_trims_and_refilters() {
    let mut config = AppConfig::default();
    config.openshock.shockers = vec![Shocker { id: String::from("a"), name: String::from("A") }];
    let at = config.triggers.iter().position(|(k, _)| *k == TriggerKind::Kill).unwrap();
    config.triggers[at].1.shock = Some(ShockConfig {
        shocker_ids: Some(vec![String::from("a"), String::from("b")]),
        ..ShockConfig::default()
    });
    let central = apply_config_edit(
        &mut config,
        ConfigEdit {
            master_gain: Some(5 * UNIT),
            max_strength_cap: Some(-1),
            mute_while_dead: Some(true),
            debug_logging: None,
            buttplug_ws_url: Some(String::from("  ws://10.0.0.2:12345 ")),
            dll_path: Some(String::from("   ")),
            openshock_enabled: Some(true),
            openshock_api_token: Some(String::from(" tok ")),
            openshock_base_url: Some(String::from(" https://api.example/// ")),
            openshock_shockers: Some(vec![args("b", "B")]),
        },
    );
    assert_eq!(central, Some(String::from("ws://10.0.0.2:12345")));
    assert_eq!(config.master_gain, 2 * UNIT);
    assert_eq!(config.max_strength_cap, 0);
    assert!(config.mute_while_dead);
    assert_eq!(config.dll_path, None);
    assert_eq!(config.openshock.api_token, "tok");
    assert_eq!(config.openshock.base_url, "https://api.example");
    assert_eq!(config.openshock.shockers.len(), 1);
    let kill = config.trigger(TriggerKind::Kill);
    assert_eq!(kill.shock.unwrap().shocker_ids, Some(vec![String::from("b")]));
    assert_eq!(endpoint(&config.openshock), "https://api.example/2/shockers/control");
}

#[test]
fn rule_views_list_plain_triggers_then_slots() {
    let config = AppConfig::default();
    let views = trigger_views(&config);
    let kinds: Vec<&str> = views.iter().map(|v| v.kind.as_str()).collect();
    assert_eq!(
        kinds,
        [
            "kill", "death", "assist", "respawn", "parry", "parried", "punch_landed",
            "punch_taken", "ability_used:0", "ability_used:1", "ability_used:2",
            "ability_used:3", "ability_ready:0", "ability_ready:1", "ability_ready:2",
            "ability_ready:3"
        ]
    );
    assert_eq!(views[0].pattern, "vibrate");
    assert_eq!(views[0].shock_kind, "shock");
    assert_eq!(views[0].shock_intensity, 20);
}

#[test]
fn test_fire_plans_and_reports() {
    let config = AppConfig::default();
    let connected = vec![String::from("Edge")];
    let plan = plan_test_fire(&config, TriggerKind::Kill, &connected).expect("kill is enabled");
    assert_eq!(plan.vibrate_targets, connected);
    assert!(plan.shock.is_none());
    assert!(!plan.fires_shock());
    let lines = test_fire_lines("kill", &plan, None);
    assert_eq!(
        lines,
        ["test kill: vibrate strength=0.70 duration_ms=900 pattern=Vibrate toys=1 [Edge]"]
    );
    assert_eq!(test_disabled_line("kill"), "test kill: disabled in config");
    let (command, line) = toys_test(2);
    assert_eq!(command.map(|c| c.strength), Some(500_000));
    assert_eq!(line, "toys test: vibrate 50% 500ms on 2 toys");
    assert_eq!(toys_test(0).1, "toys test: no toys connected");
    assert!(plan_openshock_test(&config).is_none());
}

#[test]
fn dispatch_lines_name_the_trigger() {
    let command = HapticCommand { strength: 450_000, duration_ms: 200, pattern: Pattern::Ramp };
    assert_eq!(
        vibrate_line(TriggerKind::PunchLanded, command, 2),
        "vibrate punch_landed strength=0.45 duration_ms=200 pattern=Ramp toys=2"
    );
    assert_eq!(
        vibrate_line(TriggerKind::Kill, command, 0),
        "vibrate kill: skipped, no target toys selected or connected"
    );
    let shock = ControlCommand { kind: ShockKind::Vibrate, intensity: 30, duration_ms: 600 };
    assert_eq!(
        shock_line(TriggerKind::AbilityUsed { slot: 1 }, shock, 3),
        "shock ability_used:1 intensity=30 duration_ms=600 kind=vibrate shockers=3"
    );
    let event = GameEvent::new(5, 77, EventSource::Dll, EventKind::Death);
    assert_eq!(suppress_line(event, SuppressReason::Cooldown), "suppress death (retrigger cooldown)");
    assert_eq!(event_line(event), "event death seq=5 wall_ms=77");
    let plan = plan_fire(&AppConfig::default(), TriggerKind::Kill, &[String::from("A")]);
    assert_eq!(plan.vibrate_targets, [String::from("A")]);
    assert!(plan.shock.is_none());
}

#[test]
fn wine_paths_and_prefixes() {
    assert_eq!(to_wine_path("/home/u/x.dll"), "Z:\\home\\u\\x.dll");
    assert!(is_deadlock_name("Deadlock.EXE"));
    assert!(!is_deadlock_name("deadlock.exe.bak"));
    let env = vec![
        String::from("STEAM_COMPAT_DATA_PATH=/steam/compat/1422450"),
        String::from("HOME=/home/u"),
    ];
    assert_eq!(prefix_from_environ(&env), Some(String::from("/steam/compat/1422450/pfx")));
    let env = vec![
        String::from("STEAM_COMPAT_DATA_PATH=/steam/compat/"),
        String::from("WINEPREFIX=/wine"),
    ];
    assert_eq!(prefix_from_environ(&env), Some(String::from("/wine")));
    assert_eq!(prefix_from_environ(&vec![String::from("HOME=/h")]), None);
}

#[test]
fn maps_lines_and_module_base() {
    let region = parse_maps_line("7f00-7f10 r-xp 00000000 08:01 123  /opt/game/client.so")
        .expect("line parses");
    assert_eq!(region.start, 0x7f00);
    assert_eq!(region.end, 0x7f10);
    assert_eq!(region.pathname.as_deref(), Some("/opt/game/client.so"));
    let anon = parse_maps_line("1000-2000 rw-p 00000000 00:00 0").expect("anonymous region");
    assert_eq!(anon.pathname, None);
    assert!(parse_maps_line("garbage").is_none());
    let regions = vec![
        region.clone(),
        MemoryRegion { start: 0x5000, end: 0x6000, pathname: Some(String::from("/x/client.so")) },
        anon,
    ];
    assert_eq!(module_base(&regions, "client"), Some(0x5000));
    assert_eq!(module_base(&regions, "server"), None);
}

#[test]
fn tail_cursor_cuts_complete_lines() {
    let mut cursor = TailCursor::fresh();
    assert!(cursor.baseline_once(100));
    assert!(!cursor.baseline_once(50));
    assert_eq!(cursor.resume_at(120), 100);
    assert_eq!(cursor.resume_at(10), 0);
    let lines = cursor.feed(b"one\ntw");
    assert_eq!(lines, vec![b"one\n".to_vec()]);
    let lines = cursor.feed(b"o\nthree\n");
    assert_eq!(lines, vec![b"two\n".to_vec(), b"three\n".to_vec()]);
    cursor.reset();
    assert_eq!(cursor.resume_at(10), 0);
}

#[test]
fn sender_frames_one_record_per_line() {
    let sender = EventSender::new(24680);
    assert_eq!(sender.endpoint(), "127.0.0.1:24680");
    let framed = EventSender::frame(&vec![Some(b"{\"a\":1}".to_vec()), None, Some(b"{}".to_vec())]);
    assert_eq!(framed, b"{\"a\":1}\n{}\n".to_vec());
}

#[test]
fn source_gate_round_trips() {
    for source in [DataSource::Mod, DataSource::Dll] {
        assert_eq!(gate_source(gate_value(source)), source);
        let gate = SourceGate::new(source);
        assert_eq!(gate.get(), source);
        assert!(gate.allows(source));
    }
    let gate = SourceGate::new(DataSource::Mod);
    let shared = gate.clone();
    shared.set(DataSource::Dll);
    assert_eq!(gate.get(), DataSource::Dll);
    assert_eq!(gate_source(7), DataSource::Mod);
}

#[test]
fn status_lines() {
    assert_eq!(
        waiting_hint("/c.log"),
        "waiting for console.log to be created; add -condebug to deadlock launch options: /c.log"
    );
    assert_eq!(source_set_line(DataSource::Dll), "game data source set to dll");
    assert_eq!(toys_ready_line("embedded toy engine ready", 2), "embedded toy engine ready devices=2");
    assert_eq!(toys_failed_line("nope"), "no toy backend available: nope");
    assert_eq!(
        staged_updates_line(&vec![String::from("a.exe"), String::from("b.dll")]),
        "applied staged updates: a.exe, b.dll"
    );
}

#[test]
fn toys_and_status_values() {
    let mut hub = ToyHub::new(String::from("ws://127.0.0.1:12345"));
    assert_eq!(hub.mode(), ConnectionMode::Disconnected);
    hub.use_external();
    hub.note_devices(vec![ToyDevice::new("1", "Edge"), ToyDevice::vibrating("2", "Hush", false)]);
    assert_eq!(ToyDevice::names(hub.devices()), ["Edge", "Hush"]);
    hub.disconnect();
    assert!(hub.devices().is_empty());
    assert_eq!(hub.central_url(), "ws://127.0.0.1:12345");
    assert_eq!(ToyError::NotConnected.describe(), "toy backend is not connected");
    assert_eq!(InjectPhase::WaitingForGame.describe(), "waiting for game");
    assert_eq!(LogPhase::Tailing.describe(), "tailing");
    assert_eq!(InjectStatus::failed(String::from("x")).phase, InjectPhase::Failed);
    let mut sources = SourceStatus::default();
    sources.mark_mod_seen_at(1000);
    assert!(sources.is_mod_live_at(5999));
    assert!(!sources.is_mod_live_at(6000));
    assert!(!sources.is_dll_live_at(1000));
}

#[test]
fn encode_frames_one_json_object_per_line() {
    let first = br#"{"sequence":1,"wall_time_ms":42,"source":"dll","kind":{"type":"kill"}}"#.to_vec();
    let second =
        br#"{"sequence":2,"wall_time_ms":43,"source":"dll","kind":{"type":"ability_used","slot":2}}"#
            .to_vec();
    let framed = EventSender::frame(&vec![Some(first), None, Some(second)]);
    let raw = String::from_utf8(framed).unwrap();
    let mut lines = raw.lines();
    let a: serde_json::Value = serde_json::from_str(lines.next().unwrap()).unwrap();
    assert_eq!(a["kind"]["type"], "kill");
    let b: serde_json::Value = serde_json::from_str(lines.next().unwrap()).unwrap();
    assert_eq!(b["kind"]["type"], "ability_used");
    assert_eq!(b["kind"]["slot"], 2);
    assert!(lines.next().is_none());
}
