use deadass::offsets::Offsets;
use deadass::schema::{
    apply_from_schema, c_string_bytes, field_entry_addresses, field_list_usable, schema_fields,
    schema_resolved,
};

fn every_schema_field_entry_is_unique_body() {
    let mut seen = std::collections::HashSet::new();
    for (class, field, _) in schema_fields() {
        assert!(seen.insert((class, field)), "duplicate {class}.{field}");
    }
}

fn apply_resolves_direct_and_composite_offsets_body() {
    let mut offsets = Offsets::default();
    apply_from_schema(&mut offsets, |class, field| match (class, field) {
        ("C_CitadelPlayerPawn", "m_iHealth") => Some(0x354),
        ("C_CitadelPlayerPawn", "m_CCitadelAbilityComponent") => Some(0x14D0),
        ("CCitadelAbilityComponent", "m_vecAbilities") => Some(0x68),
        ("CCitadelAbilityComponent", "m_bInInterruptState") => Some(0xE4),
        ("C_CitadelPlayerPawn", "m_sPlayerDamageTaken") => Some(0x1480),
        ("CCitadelRecentDamage", "m_flLastDamageTime") => Some(0x8),
        _ => None,
    });
    assert_eq!(offsets.pawn_health, 0x354);
    assert_eq!(offsets.abilities_vector, 0x14D0 + 0x68);
    assert_eq!(offsets.pawn_interrupt_state, 0x14D0 + 0xE4);
    assert_eq!(offsets.pawn_damage_taken_time, 0x1480 + 0x8);
    assert_eq!(offsets.pawn_max_health, Offsets::default().pawn_max_health);
}

fn implausible_schema_offsets_are_rejected_body() {
    let mut offsets = Offsets::default();
    apply_from_schema(&mut offsets, |_, _| Some(0xDEAD_BEEF));
    assert_eq!(offsets.pawn_health, Offsets::default().pawn_health);
}

#[test]
fn schema_every_schema_field_entry_is_unique() {
    every_schema_field_entry_is_unique_body();
}

#[test]
fn mod_every_schema_field_entry_is_unique() {
    every_schema_field_entry_is_unique_body();
}

#[test]
fn schema_apply_resolves_direct_and_composite_offsets() {
    apply_resolves_direct_and_composite_offsets_body();
}

#[test]
fn mod_apply_resolves_direct_and_composite_offsets() {
    apply_resolves_direct_and_composite_offsets_body();
}

#[test]
fn schema_implausible_schema_offsets_are_rejected() {
    implausible_schema_offsets_are_rejected_body();
}

#[test]
fn mod_implausible_schema_offsets_are_rejected() {
    implausible_schema_offsets_are_rejected_body();
}

#[test]
fn applied_count_includes_composites() {
    let mut offsets = Offsets::default();
    let applied = apply_from_schema(&mut offsets, |class, field| match (class, field) {
        ("C_CitadelPlayerPawn", "m_iHealth") => Some(0x10),
        ("CCitadelAbilityComponent", "m_vecAbilities") => Some(0x68),
        ("C_CitadelPlayerPawn", "m_sPlayerDamageTaken") => Some(0x7FFF),
        ("CCitadelRecentDamage", "m_flLastDamageTime") => Some(0x8),
        _ => None,
    });
    // health and the ability vector apply; the damage sum is out of range
    assert_eq!(applied, 2);
    assert_eq!(offsets.abilities_vector, Offsets::default().pawn_ability_component + 0x68);
    assert_eq!(offsets.pawn_damage_taken_time, Offsets::default().pawn_damage_taken_time);
}

#[test]
fn class_descriptions_are_walked_carefully() {
    assert!(field_list_usable(0x7FF0_0000, 12));
    assert!(!field_list_usable(0, 12));
    assert!(!field_list_usable(0x7FF0_0000, 0));
    assert!(!field_list_usable(0x7FF0_0000, 4097));
    assert_eq!(field_entry_addresses(0x1000, 3), Some((0x1060, 0x1070)));
    assert_eq!(field_entry_addresses(u64::MAX - 0x10, 0), Some((u64::MAX - 0x10, u64::MAX)));
    assert_eq!(field_entry_addresses(u64::MAX - 0x0F, 0), None);
    assert_eq!(c_string_bytes(b"m_iHealth\0garbage"), b"m_iHealth".to_vec());
    assert_eq!(c_string_bytes(b"unterminated"), b"unterminated".to_vec());
    assert!(schema_resolved(8));
    assert!(!schema_resolved(7));
}

#[test]
fn resolved_component_replaces_a_huge_base() {
    let mut offsets = Offsets::default();
    offsets.pawn_ability_component = u64::MAX - 4;
    let applied = apply_from_schema(&mut offsets, |class, field| match (class, field) {
        ("C_CitadelPlayerPawn", "m_CCitadelAbilityComponent") => Some(0x14D0),
        ("CCitadelAbilityComponent", "m_vecAbilities") => Some(0x68),
        _ => None,
    });
    assert_eq!(applied, 2);
    assert_eq!(offsets.pawn_ability_component, 0x14D0);
    assert_eq!(offsets.abilities_vector, 0x14D0 + 0x68);
}
