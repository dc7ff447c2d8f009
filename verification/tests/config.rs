use deadass::config::{resolve_vibrate_targets, AppConfig, TriggerConfig, UNIT};
use deadass::shock::{filter_shocker_ids, ShockConfig, ShockKind, Shocker};
use deadass::trigger::TriggerKind;

fn shocker(id: &str, name: &str) -> Shocker {
    Shocker {
        id: String::from(id),
        name: String::from(name),
    }
}

fn rule_mut(config: &mut AppConfig, kind: TriggerKind) -> &mut TriggerConfig {
    let at = config
        .triggers
        .iter()
        .position(|(key, _)| *key == kind)
        .expect("rule exists");
    &mut config.triggers[at].1
}

fn rule<'a>(config: &'a AppConfig, kind: TriggerKind) -> &'a TriggerConfig {
    &config
        .triggers
        .iter()
        .find(|(key, _)| *key == kind)
        .expect("rule exists")
        .1
}

fn shock_selection_filters_to_roster_and_dedupes_body() {
    let roster = vec![shocker("a", "Left"), shocker("b", "Right")];
    let shock = ShockConfig {
        shocker_ids: Some(vec![
            String::from(" b "),
            String::from("a"),
            String::from("b"),
            String::from("gone"),
            String::from(""),
        ]),
        ..ShockConfig::default()
    };
    assert_eq!(shock.target_ids(&roster), ["b", "a"]);
}

fn filter_skips_blank_and_duplicate_ids_body() {
    let roster = vec![shocker("a", "Left")];
    let ids = vec![String::from("a"), String::from(" "), String::from("a")];
    assert_eq!(filter_shocker_ids(&ids, &roster), ["a"]);
    assert!(filter_shocker_ids(&ids, &[]).is_empty());
}

fn empty_shock_selection_targets_whole_roster_body() {
    let roster = vec![shocker(" a ", "Left"), shocker("b", "Right"), shocker("   ", "blank")];
    let shock = ShockConfig::default();
    assert_eq!(shock.target_ids(&roster), ["a", "b"]);
    let shock = ShockConfig {
        shocker_ids: Some(vec![String::from("b")]),
        ..ShockConfig::default()
    };
    assert_eq!(shock.target_ids(&roster), ["b"]);
    let shock = ShockConfig {
        shocker_ids: Some(vec![String::from("gone")]),
        ..ShockConfig::default()
    };
    assert!(shock.target_ids(&roster).is_empty());
    let shock = ShockConfig {
        shocker_ids: Some(vec![]),
        ..ShockConfig::default()
    };
    assert!(shock.target_ids(&roster).is_empty());
}

fn vibrate_selection_resolves_against_connected_toys_body() {
    let connected = vec![String::from("Loonie"), String::from("Edge")];
    assert_eq!(resolve_vibrate_targets(None, &connected), connected);
    assert_eq!(
        resolve_vibrate_targets(Some(&[String::from("Edge")]), &connected),
        ["Edge"]
    );
    assert!(resolve_vibrate_targets(Some(&[String::from("Ghost")]), &connected).is_empty());
    assert!(resolve_vibrate_targets(Some(&[]), &connected).is_empty());
}

fn trigger_key_round_trips_through_parse_body() {
    for kind in [
        TriggerKind::Kill,
        TriggerKind::AbilityUsed { slot: 2 },
        TriggerKind::AbilityReady { slot: 0 },
    ] {
        assert_eq!(kind.key().parse(), Ok(kind));
    }
}

fn unknown_trigger_key_fails_to_parse_body() {
    assert!("nonsense".parse::<TriggerKind>().is_err());
    assert!("ability_used:x".parse::<TriggerKind>().is_err());
}

fn debug_logging_defaults_to_off_body() {
    assert!(!AppConfig::default().debug_logging);
}

fn legacy_shocker_migrates_into_roster_body() {
    let mut config = AppConfig::default();
    config.openshock.shocker_id = String::from("abc123");
    rule_mut(&mut config, TriggerKind::Kill).shock = Some(ShockConfig {
        enabled: true,
        ..ShockConfig::default()
    });

    let config = config.normalized();
    assert_eq!(config.openshock.shocker_id, "");
    assert_eq!(config.openshock.shockers, vec![shocker("abc123", "Shocker")]);
    let kill = rule(&config, TriggerKind::Kill);
    let kill_shock = kill.shock.as_ref().unwrap();
    assert!(kill_shock.shocker_ids.is_none());
    assert_eq!(kill_shock.target_ids(&config.openshock.shockers), ["abc123"]);
}

fn exact_slot_wins_over_family_fallback_body() {
    let mut config = AppConfig::default();
    config.set_rule(
        TriggerKind::AbilityUsed { slot: 1 },
        TriggerConfig::preset(900_000, 100),
    );
    assert_eq!(
        config.trigger(TriggerKind::AbilityUsed { slot: 1 }).strength,
        900_000
    );
}

#[test]
fn config_shock_selection_filters_to_roster_and_dedupes() {
    shock_selection_filters_to_roster_and_dedupes_body();
}

#[test]
fn shock_shock_selection_filters_to_roster_and_dedupes() {
    shock_selection_filters_to_roster_and_dedupes_body();
}

#[test]
fn config_filter_skips_blank_and_duplicate_ids() {
    filter_skips_blank_and_duplicate_ids_body();
}

#[test]
fn shock_filter_skips_blank_and_duplicate_ids() {
    filter_skips_blank_and_duplicate_ids_body();
}

#[test]
fn config_empty_shock_selection_targets_whole_roster() {
    empty_shock_selection_targets_whole_roster_body();
}

#[test]
fn shock_empty_shock_selection_targets_whole_roster() {
    empty_shock_selection_targets_whole_roster_body();
}

#[test]
fn config_vibrate_selection_resolves_against_connected_toys() {
    vibrate_selection_resolves_against_connected_toys_body();
}

#[test]
fn trigger_vibrate_selection_resolves_against_connected_toys() {
    vibrate_selection_resolves_against_connected_toys_body();
}

#[test]
fn config_trigger_key_round_trips_through_parse() {
    trigger_key_round_trips_through_parse_body();
}

#[test]
fn trigger_trigger_key_round_trips_through_parse() {
    trigger_key_round_trips_through_parse_body();
}

#[test]
fn config_unknown_trigger_key_fails_to_parse() {
    unknown_trigger_key_fails_to_parse_body();
}

#[test]
fn trigger_unknown_trigger_key_fails_to_parse() {
    unknown_trigger_key_fails_to_parse_body();
}

#[test]
fn config_debug_logging_defaults_to_off() {
    debug_logging_defaults_to_off_body();
}

#[test]
fn app_debug_logging_defaults_to_off() {
    debug_logging_defaults_to_off_body();
}

#[test]
fn config_legacy_shocker_migrates_into_roster() {
    legacy_shocker_migrates_into_roster_body();
}

#[test]
fn app_legacy_shocker_migrates_into_roster() {
    legacy_shocker_migrates_into_roster_body();
}

#[test]
fn config_exact_slot_wins_over_family_fallback() {
    exact_slot_wins_over_family_fallback_body();
}

#[test]
fn trigger_exact_slot_wins_over_family_fallback() {
    exact_slot_wins_over_family_fallback_body();
}

#[test]
fn default_rules_scale_by_gain_and_cap() {
    let rule = TriggerConfig::preset(700_000, 900);
    assert_eq!(rule.scaled_strength(UNIT, UNIT), 700_000);
    assert_eq!(rule.scaled_strength(2 * UNIT, UNIT), UNIT);
    assert_eq!(rule.scaled_strength(UNIT / 2, UNIT), 350_000);
    assert_eq!(rule.scaled_strength(-UNIT, UNIT), 0);
}

#[test]
fn clamped_shock_settings_stay_in_api_range() {
    let shock = ShockConfig {
        enabled: true,
        intensity: 0,
        duration_ms: 90_000,
        kind: ShockKind::Sound,
        shocker_ids: None,
    };
    let clamped = shock.clamped();
    assert_eq!(clamped.intensity, 1);
    assert_eq!(clamped.duration_ms, 30_000);
    assert_eq!(clamped.kind, ShockKind::Sound);
}

#[test]
fn family_fallback_uses_first_rule_of_family() {
    let config = AppConfig::default();
    assert_eq!(
        config.trigger(TriggerKind::AbilityUsed { slot: 9 }).strength,
        550_000
    );
    let mut empty = AppConfig::default();
    empty.triggers.clear();
    assert_eq!(empty.trigger(TriggerKind::Kill), TriggerConfig::default());
}

#[test]
fn installed_rule_is_read_back() {
    let mut config = AppConfig::default();
    let before_death = config.trigger(TriggerKind::Death);
    let rule = TriggerConfig::preset(UNIT / 5, 1234);
    config.set_rule(TriggerKind::AbilityUsed { slot: 9 }, rule);
    let back = config.trigger(TriggerKind::AbilityUsed { slot: 9 });
    assert_eq!(back.strength, UNIT / 5);
    assert_eq!(back.duration_ms, 1234);
    let replaced = TriggerConfig::preset(UNIT, 10);
    config.set_rule(TriggerKind::Death, replaced);
    assert_eq!(config.trigger(TriggerKind::Death).duration_ms, 10);
    assert_ne!(before_death.duration_ms, 10);
    assert_eq!(config.trigger(TriggerKind::AbilityUsed { slot: 9 }).duration_ms, 1234);
}
