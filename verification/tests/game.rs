use deadass::game::{
    ability_from_reading, chunk_pointer_address, entity_index, entity_slot_address, is_readable,
    image_bounds_from, in_image, melee_chain_from, page_walk_step, walk_end, AbilityReading,
    MeleeReading, PageWalk, RegionInfo, MEM_COMMIT, PAGE_GUARD, PAGE_NOACCESS,
};
use deadass::game::{scan_entry, scan_players, PlayerReading, ScanEntry, MAX_PLAYERS};
use deadass::offsets::Offsets;

fn real_x64_module_addresses_are_readable_body() {
    assert!(is_readable(0x7FFA_5C7E_0000, 8));
    assert!(is_readable(0x140_0000, 4));
}

fn garbage_pointers_are_rejected_body() {
    assert!(!is_readable(0, 8));
    assert!(!is_readable(0xFFF, 8));
    assert!(!is_readable(0xFFFF_8000_0000_0000, 8));
    assert!(!is_readable(u64::MAX, 16));
}

#[test]
fn game_real_x64_module_addresses_are_readable() {
    real_x64_module_addresses_are_readable_body();
}

#[test]
fn game_garbage_pointers_are_rejected() {
    garbage_pointers_are_rejected_body();
}

#[test]
fn mod_real_x64_module_addresses_are_readable() {
    real_x64_module_addresses_are_readable_body();
}

#[test]
fn mod_garbage_pointers_are_rejected() {
    garbage_pointers_are_rejected_body();
}

#[test]
fn handles_resolve_through_chunked_entity_list() {
    let offsets = Offsets::default();
    assert_eq!(entity_index(0x0001_8203), 0x203);
    // index 0x203 = 515: chunk 1, slot 3
    assert_eq!(chunk_pointer_address(0x1000, 0x0001_8203, &offsets), Some(0x1000 + 0x10 + 8));
    assert_eq!(entity_slot_address(0x5000, 0x0001_8203, &offsets), Some(0x5000 + 3 * 0x70));
    assert_eq!(chunk_pointer_address(0, 1, &offsets), None);
    assert_eq!(entity_slot_address(0, 1, &offsets), None);
    assert_eq!(chunk_pointer_address(u64::MAX, 1, &offsets), None);
}

#[test]
fn ability_readings_keep_low_slot_byte_and_drop_missing_charges() {
    let reading = AbilityReading {
        slot: 0x0103,
        cooldown_end: 5000,
        charges: -1,
        channeling: 1,
        attack_parried: 0,
        parry_start: 0,
        parry_success_end: 0,
        melee_state: 0,
        melee_chain: 2,
    };
    let snapshot = ability_from_reading(reading, 22).expect("slot 3 is tracked");
    assert_eq!(snapshot.slot, 3);
    assert_eq!(snapshot.charges, None);
    assert!(snapshot.channeling);
    assert!(ability_from_reading(AbilityReading { slot: 30, ..reading }, 22).is_none());
}

#[test]
fn melee_chain_comes_from_the_melee_slot() {
    let readings = vec![
        MeleeReading { slot: None, chain: Some(9) },
        MeleeReading { slot: Some(3), chain: Some(7) },
        MeleeReading { slot: Some(0x0116), chain: Some(4) },
        MeleeReading { slot: Some(22), chain: Some(5) },
    ];
    assert_eq!(melee_chain_from(&readings, 22), 4);
    assert_eq!(melee_chain_from(&readings, 3), 7);
    assert_eq!(melee_chain_from(&readings, 40), 0);
    let unreadable = vec![MeleeReading { slot: Some(22), chain: None }];
    assert_eq!(melee_chain_from(&unreadable, 22), 0);
}

#[test]
fn client_image_bounds_come_from_the_header() {
    assert_eq!(image_bounds_from(0x1_4000_0000, Some(0x0300_0000)), (0x1_4000_0000, 0x1_4300_0000));
    assert_eq!(image_bounds_from(0, Some(0x1000)), (0, 0));
    assert_eq!(image_bounds_from(0x1000, None), (0, 0));
    assert_eq!(image_bounds_from(0x1000, Some(0x4000_0001)), (0, 0));
    assert_eq!(image_bounds_from(u64::MAX - 4, Some(16)), (u64::MAX - 4, u64::MAX));
    let bounds = (0x1000, 0x2000);
    assert!(in_image(0x1000, bounds));
    assert!(in_image(0x1FFF, bounds));
    assert!(!in_image(0x2000, bounds));
    assert!(!in_image(0x10, (0, 0x2000)));
}

#[test]
fn page_walk_accepts_only_committed_readable_regions() {
    let committed = RegionInfo { state: MEM_COMMIT, protect: 0x04, size: 0x1000 };
    assert_eq!(page_walk_step(0x10000, 0x10010, Some(committed)), PageWalk::Readable);
    assert_eq!(page_walk_step(0x10000, 0x18000, Some(committed)), PageWalk::Next(0x11000));
    assert_eq!(page_walk_step(0x10000, 0x10010, None), PageWalk::Unreadable);
    let freed = RegionInfo { state: 0x10000, protect: PAGE_NOACCESS, size: 0x1000 };
    assert_eq!(page_walk_step(0x10000, 0x10010, Some(freed)), PageWalk::Unreadable);
    let guard = RegionInfo { state: MEM_COMMIT, protect: 0x04 | PAGE_GUARD, size: 0x1000 };
    assert_eq!(page_walk_step(0x10000, 0x10010, Some(guard)), PageWalk::Unreadable);
    let empty = RegionInfo { state: MEM_COMMIT, protect: 0x04, size: 0 };
    assert_eq!(page_walk_step(0x10000, 0x10010, Some(empty)), PageWalk::Unreadable);
    assert_eq!(walk_end(0x10000, 16), Some(0x10010));
    assert_eq!(walk_end(u64::MAX, 16), None);
}

fn reading(address: u64, kills: i32) -> PlayerReading {
    PlayerReading {
        address,
        hero_id: 1,
        kills,
        assists: 0,
        deaths: 0,
        kill_streak: 0,
        alive: 1,
        health: 500,
        melee_chain: 0,
    }
}

#[test]
fn scoreboard_scan_skips_stops_and_caps() {
    assert_eq!(scan_entry(0, Some(7), 7, Some(reading(1, 0))), ScanEntry::Skip);
    assert_eq!(scan_entry(0x10, Some(8), 7, Some(reading(0x10, 0))), ScanEntry::Skip);
    assert_eq!(scan_entry(0x10, None, 7, Some(reading(0x10, 0))), ScanEntry::Skip);
    assert_eq!(scan_entry(0x10, Some(7), 7, None), ScanEntry::Skip);
    assert_eq!(scan_entry(0x10, Some(7), 7, Some(reading(0x10, 2))), ScanEntry::Player(reading(0x10, 2)));

    let entries = vec![
        ScanEntry::Skip,
        ScanEntry::Player(reading(0xA0, 3)),
        ScanEntry::Player(reading(0xB0, 1)),
        ScanEntry::End,
        ScanEntry::Player(reading(0xC0, 9)),
    ];
    let players = scan_players(&entries, 0xB0).unwrap();
    assert_eq!(players.len(), 2);
    assert!(!players[0].is_local);
    assert!(players[1].is_local);
    assert_eq!(players[0].kills, 3);

    assert_eq!(scan_players(&vec![ScanEntry::Skip, ScanEntry::Unreadable], 0), None);

    let many: Vec<ScanEntry> = (0..20).map(|i| ScanEntry::Player(reading(0x100 + i, 0))).chain(std::iter::once(ScanEntry::Unreadable)).collect();
    assert_eq!(scan_players(&many, 0).unwrap().len(), MAX_PLAYERS);
}
