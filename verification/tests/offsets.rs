use deadass::offsets::{
    offset_from_integer, parse_offset_text, DllSection, EntityListSection, GlobalsSection,
    OffsetsFile, Offsets, PawnSection,
};

fn empty_file() -> OffsetsFile {
    OffsetsFile {
        dll: None,
        globals: None,
        entity_list: None,
        pawn: None,
        controller: None,
        ability: None,
    }
}

#[test]
fn overlay_reads_hex_strings_and_partial_files() {
    let mut offsets = Offsets::default();
    let file = OffsetsFile {
        globals: Some(GlobalsSection {
            local_pawn: parse_offset_text("0x1234"),
            entity_system: None,
        }),
        pawn: Some(PawnSection {
            health: offset_from_integer(720),
            max_health: None,
            life_state: None,
            team: None,
            sim_time: None,
            interrupt_state: None,
            damage_taken_time: None,
            controller_handle: None,
            ability_component: None,
            abilities: None,
        }),
        ..empty_file()
    };
    offsets.apply_file(&file);
    assert_eq!(offsets.local_pawn_global, 0x1234);
    assert_eq!(offsets.pawn_health, 720);
    assert_eq!(offsets.entity_system_global, Offsets::default().entity_system_global);
}

#[test]
fn hex_visitor_accepts_decimal_and_hex_strings() {
    assert_eq!(parse_offset_text("0xFF"), Some(255));
    assert_eq!(parse_offset_text(" 0X1f "), Some(31));
    assert_eq!(parse_offset_text("16"), Some(16));
    assert_eq!(parse_offset_text("zz"), None);
    assert_eq!(parse_offset_text("0x"), None);
    assert_eq!(offset_from_integer(16), Some(16));
    assert_eq!(offset_from_integer(-1), None);
}

#[test]
fn poll_interval_and_chunk_size_are_at_least_one() {
    let mut offsets = Offsets::default();
    let file = OffsetsFile {
        dll: Some(DllSection {
            port: Some(9),
            poll_interval_ms: Some(0),
        }),
        entity_list: Some(EntityListSection {
            chunk_array: None,
            chunk_size: Some(0),
            stride: Some(0x78),
        }),
        ..empty_file()
    };
    offsets.apply_file(&file);
    assert_eq!(offsets.dll_port, 9);
    assert_eq!(offsets.poll_interval_ms, 1);
    assert_eq!(offsets.entity_chunk_size, 1);
    assert_eq!(offsets.entity_stride, 0x78);
    assert_eq!(offsets.entity_chunk_array, Offsets::default().entity_chunk_array);
}

#[test]
fn empty_offsets_file_changes_nothing() {
    let mut offsets = Offsets::default();
    offsets.apply_file(&empty_file());
    assert_eq!(offsets, Offsets::default());
}

#[test]
fn applying_a_file_twice_is_applying_it_once() {
    let file = OffsetsFile {
        dll: Some(DllSection {
            port: Some(30000),
            poll_interval_ms: Some(0),
        }),
        entity_list: Some(EntityListSection {
            chunk_array: Some(0x20),
            chunk_size: Some(0),
            stride: None,
        }),
        ..empty_file()
    };
    let mut once = Offsets::default();
    once.apply_file(&file);
    let mut twice = once;
    twice.apply_file(&file);
    assert_eq!(once, twice);
    assert_eq!(once.dll_port, 30000);
    assert_eq!(once.poll_interval_ms, 1);
    assert_eq!(once.entity_chunk_size, 1);
}
