use deadass::commands::ConfigView;
use deadass::event::{EventSource, GameEvent};
use deadass::game::{abilities_vector_usable, player_from_reading, player_scan_limit, PlayerReading};
use deadass::offsets::Offsets;
use deadass::text::trim_str;
use deadass::toys::{ConnectionMode, ToyDevice, ToyHub};
use deadass::ui::{AppState, LogPhase, SourceStatus};
use deadass::config::{AppConfig, DataSource, UNIT};
use deadass::pipeline::source_allows;
use deadass::debug_log::{debug_enabled, log_record};
use deadass::event::EventKind;
use deadass::haptics::HapticCommand;
use deadass::injector::{
    configured_dll_path, describe_status, inject_status, listed_name_matches, ProbeOutcome,
    DLL_FILE_NAME, GAME_PROCESS,
};
use deadass::pipeline::mod_event_route;
use deadass::shock::Shocker;
use deadass::toys::{autoconnect_choice, vibration_schedule, ToyAutoconnect, VibrationStep};
use deadass::trigger::Pattern;
use deadass::ui::{InjectPhase, InjectStatus};
use deadass::updater::{app_update_line, update_available_line, version_text, version_tuple};

fn step(strength: i64, wait_ms: u64) -> VibrationStep {
    VibrationStep { strength, wait_ms }
}

#[test]
fn held_vibration_stops_after_its_duration() {
    let steps = vibration_schedule(HapticCommand {
        strength: UNIT / 2,
        duration_ms: 300,
        pattern: Pattern::Vibrate,
    });
    assert_eq!(steps, vec![step(500_000, 300), step(0, 0)]);

    let endless = vibration_schedule(HapticCommand {
        strength: UNIT / 4,
        duration_ms: 0,
        pattern: Pattern::Vibrate,
    });
    assert_eq!(endless, vec![step(250_000, 0)]);
}

#[test]
fn pulses_alternate_and_strength_is_clamped() {
    let steps = vibration_schedule(HapticCommand {
        strength: 2 * UNIT,
        duration_ms: 600,
        pattern: Pattern::Pulse,
    });
    let on = step(UNIT, 100);
    let off = step(0, 100);
    assert_eq!(steps, vec![on, off, on, off, on, off]);

    let negative = vibration_schedule(HapticCommand {
        strength: -5,
        duration_ms: 60,
        pattern: Pattern::Vibrate,
    });
    assert_eq!(negative, vec![step(0, 60), step(0, 0)]);
}

#[test]
fn ramps_climb_in_thirds_then_stop() {
    let steps = vibration_schedule(HapticCommand {
        strength: UNIT,
        duration_ms: 900,
        pattern: Pattern::Ramp,
    });
    assert_eq!(
        steps,
        vec![step(400_000, 300), step(700_000, 300), step(UNIT, 300), step(0, 0)]
    );
}

#[test]
fn toy_autoconnect_setting_ignores_case() {
    assert_eq!(
        autoconnect_choice(Some("EMBEDDED")),
        Some(ToyAutoconnect::EmbeddedThenCentral)
    );
    assert_eq!(
        autoconnect_choice(Some("central")),
        Some(ToyAutoconnect::CentralOnly)
    );
    assert_eq!(autoconnect_choice(Some("bluetooth")), None);
    assert_eq!(autoconnect_choice(None), None);
}

#[test]
fn probe_outcomes_become_statuses() {
    let idle = inject_status(false, ProbeOutcome::Injected(7));
    assert_eq!(idle.phase, InjectPhase::Idle);
    assert_eq!(idle.detail, None);

    let waiting = inject_status(true, ProbeOutcome::NoGame);
    assert_eq!(waiting.phase, InjectPhase::WaitingForGame);

    let loaded = inject_status(true, ProbeOutcome::AlreadyLoaded);
    assert_eq!(loaded.phase, InjectPhase::Injected);
    assert_eq!(loaded.detail, None);

    let injected = inject_status(true, ProbeOutcome::Injected(4242));
    assert_eq!(injected.phase, InjectPhase::Injected);
    assert_eq!(injected.detail.as_deref(), Some("pid 4242"));

    let missing = inject_status(true, ProbeOutcome::DllMissing(String::from("C:/x.dll")));
    assert_eq!(missing.phase, InjectPhase::Failed);
    assert_eq!(
        missing.detail.as_deref(),
        Some("dll not found at C:/x.dll (build it with: cargo build -p deadass-dll)")
    );

    let failed = inject_status(true, ProbeOutcome::InjectFailed(String::from("access denied")));
    assert_eq!(failed.phase, InjectPhase::Failed);
    assert_eq!(failed.detail.as_deref(), Some("access denied"));
}

#[test]
fn inject_status_lines() {
    let injected = InjectStatus {
        phase: InjectPhase::Injected,
        detail: Some(String::from("pid 42")),
    };
    assert_eq!(describe_status(&injected), "deadass_dll.dll injected (pid 42)");
    let failed = InjectStatus {
        phase: InjectPhase::Failed,
        detail: None,
    };
    assert_eq!(describe_status(&failed), "dll injection failed: unknown error");
    let idle = InjectStatus {
        phase: InjectPhase::Idle,
        detail: None,
    };
    assert_eq!(describe_status(&idle), "dll source off");
    let waiting = InjectStatus {
        phase: InjectPhase::WaitingForGame,
        detail: None,
    };
    assert_eq!(describe_status(&waiting), "waiting for deadlock.exe");
}

#[test]
fn blank_dll_path_means_the_default() {
    assert_eq!(configured_dll_path(&None), None);
    assert_eq!(configured_dll_path(&Some(String::new())), None);
    assert_eq!(
        configured_dll_path(&Some(String::from("D:/mods/x.dll"))),
        Some(String::from("D:/mods/x.dll"))
    );
}

#[test]
fn debug_switch_and_records() {
    assert!(debug_enabled(Some("1"), false));
    assert!(!debug_enabled(Some("0"), false));
    assert!(!debug_enabled(Some(""), false));
    assert!(!debug_enabled(None, false));
    assert!(debug_enabled(None, true));
    assert!(debug_enabled(Some("0"), true));
    assert_eq!(log_record(1234, "poller up"), "[1234] poller up");
}

#[test]
fn update_lines() {
    assert_eq!(version_text((1, 20, 3)), "1.20.3");
    let printed = version_text((3, 14, 159));
    assert_eq!(version_tuple(&printed), Some((3, 14, 159)));
    assert_eq!(version_tuple(&format!("v{printed}")), Some((3, 14, 159)));
    assert_eq!(
        app_update_line("vv1.4.0"),
        "app update v1.4.0 staged — restart deadass to apply"
    );
    assert_eq!(
        update_available_line("0.3.0", "0.2.1"),
        "update available: v0.3.0 (running v0.2.1) — downloading in background"
    );
}

#[test]
fn mod_events_route_by_source() {
    assert_eq!(mod_event_route(true, EventKind::Parry), (true, true));
    assert_eq!(mod_event_route(false, EventKind::Kill), (true, false));
    assert_eq!(mod_event_route(false, EventKind::Assist), (true, false));
    assert_eq!(mod_event_route(false, EventKind::Death), (false, false));
}

#[test]
fn config_view_copies_settings() {
    let mut config = AppConfig::default();
    config.dll_path = Some(String::from("E:/dll.dll"));
    config.openshock.enabled = true;
    config.openshock.api_token = String::from("tok");
    config.openshock.shockers = vec![Shocker {
        id: String::from("abc"),
        name: String::from("Left"),
    }];
    let view = ConfigView::from_config(&config);
    assert_eq!(view.master_gain, UNIT);
    assert_eq!(view.mod_http_port, 24681);
    assert_eq!(view.buttplug_ws_url, "ws://127.0.0.1:12345");
    assert_eq!(view.dll_path.as_deref(), Some("E:/dll.dll"));
    assert_eq!(view.openshock_base_url, "https://api.openshock.app");
    assert_eq!(view.openshock_shockers.len(), 1);
    assert_eq!(view.openshock_shockers[0].id, "abc");
    assert_eq!(view.openshock_shockers[0].name, "Left");
    assert!(view.openshock_ready);

    let plain = ConfigView::from_config(&AppConfig::default());
    assert!(!plain.openshock_ready);
    assert!(plain.openshock_shockers.is_empty());
}

#[test]
fn listing_names_ignore_padding_and_case() {
    assert!(listed_name_matches("Deadlock.EXE\0\0\0", GAME_PROCESS));
    assert!(listed_name_matches("DEADASS_DLL.dll", DLL_FILE_NAME));
    assert!(!listed_name_matches("deadlock.exe.bak\0", GAME_PROCESS));
    assert!(!listed_name_matches("\0deadlock.exe", GAME_PROCESS));
}

#[test]
fn ability_events_are_recognised() {
    let used = GameEvent::new(1, 0, EventSource::Dll, EventKind::AbilityUsed { slot: 2 });
    let ready = GameEvent::new(2, 0, EventSource::Dll, EventKind::AbilityReady { slot: 2 });
    let kill = GameEvent::new(3, 0, EventSource::Dll, EventKind::Kill);
    assert!(used.is_ability());
    assert!(ready.is_ability());
    assert!(!kill.is_ability());
}

#[test]
fn scoreboard_reading_helpers() {
    assert!(abilities_vector_usable(4, 0x1000));
    assert!(!abilities_vector_usable(0, 0x1000));
    assert!(!abilities_vector_usable(33, 0x1000));
    assert!(!abilities_vector_usable(4, 0));
    let offsets = Offsets::default();
    assert_eq!(player_scan_limit(&offsets), 4096);
    let mut wide = Offsets::default();
    wide.entity_chunk_size = 8192;
    assert_eq!(player_scan_limit(&wide), 0x8000);
    let reading = PlayerReading {
        address: 0xAA00,
        hero_id: 7,
        kills: 3,
        assists: 1,
        deaths: 2,
        kill_streak: 2,
        alive: 1,
        health: 550,
        melee_chain: 0,
    };
    let local = player_from_reading(reading, 0xAA00);
    assert!(local.is_local);
    assert!(local.alive);
    assert_eq!(local.kills, 3);
    let other = player_from_reading(PlayerReading { alive: 0, ..reading }, 0xBB00);
    assert!(!other.is_local);
    assert!(!other.alive);
}

#[test]
fn trimming_follows_unicode_white_space() {
    assert_eq!(trim_str("\u{3000}\u{A0} hero \t\u{2009}"), "hero");
    assert_eq!(trim_str("\u{200B}x\u{200B}"), "\u{200B}x\u{200B}");
    assert_eq!(trim_str("\u{85}\u{2028}\u{2029}"), "");
}

#[test]
fn toy_hub_modes() {
    let mut hub = ToyHub::new(String::from("ws://127.0.0.1:12345"));
    assert_eq!(hub.mode(), ConnectionMode::Disconnected);
    hub.use_embedded();
    assert_eq!(hub.mode(), ConnectionMode::Embedded);
    hub.use_external();
    assert_eq!(hub.mode(), ConnectionMode::ExternalCentral);
    assert_eq!(hub.central_url(), "ws://127.0.0.1:12345");
}

#[test]
fn app_state_tracks_toys_and_log_phase() {
    let mut state = AppState::new(AppConfig::default());
    assert!(!state.is_tailing());
    let devices = [ToyDevice::new("1", "Lush"), ToyDevice::new("2", "Edge")];
    state.set_toys(ConnectionMode::Embedded, &devices);
    assert_eq!(state.toys.mode, ConnectionMode::Embedded);
    assert_eq!(state.toys.device_names, vec![String::from("Lush"), String::from("Edge")]);
    state.set_toy_error(String::from("server gone"));
    assert_eq!(state.toys.error.as_deref(), Some("server gone"));
    state.set_tailing(String::from("/tmp/console.log"), String::from("tailing"));
    assert!(state.is_tailing());
    assert_eq!(state.log_phase, LogPhase::Tailing);
}

#[test]
fn freshly_marked_sources_are_live() {
    let mut sources = SourceStatus::default();
    assert!(!sources.is_mod_live());
    assert!(!sources.is_dll_live());
    sources.mark_mod_seen();
    assert!(sources.is_mod_live());
    assert!(!sources.is_dll_live());
    sources.mark_dll_seen();
    assert!(sources.is_dll_live());
}

#[test]
fn only_the_selected_source_passes() {
    assert!(source_allows(DataSource::Dll, DataSource::Dll));
    assert!(source_allows(DataSource::Mod, DataSource::Mod));
    assert!(!source_allows(DataSource::Dll, DataSource::Mod));
    assert!(!source_allows(DataSource::Mod, DataSource::Dll));
}
