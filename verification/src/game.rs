//! The arithmetic and decisions of the in-game sampler: which addresses may
//! be read at all, where an entity handle's slot lies in the chunked entity
//! list, and which raw ability and scoreboard readings become snapshots.
//! The reads themselves happen outside the library.

use vstd::prelude::*;
use crate::monitor::{AbilitySnapshot, PlayerSnapshot};
use crate::offsets::Offsets;

verus! {

/// Lowest user-space address worth reading.
pub const MIN_USER_ADDRESS: u64 = 0x10000;
/// Highest user-space address on x64.
pub const MAX_USER_ADDRESS: u64 = 0x7FFF_FFFE_FFFF;
/// Highest entity index ever chased (handles keep the index in 15 bits).
pub const MAX_ENTITY_INDEX: u64 = 0x8000;
/// Sanity cap for the length of an ability vector.
pub const MAX_ABILITIES: u32 = 32;
/// Scoreboard entries collected at most.
pub const MAX_PLAYERS: usize = 16;

/// Whether `len` bytes at `address` lie inside user space.
pub open spec fn readable(address: u64, len: usize) -> bool {
    address >= MIN_USER_ADDRESS && address + len <= MAX_USER_ADDRESS
}

/// The guard every raw read passes: the whole range must sit in user space
/// (and must not wrap around).
pub fn is_readable(address: u64, len: usize) -> (b: bool)
    ensures
        b == readable(address, len),
{
    let end = match address.checked_add(len as u64) {
        Some(end) => end,
        None => return false,
    };
    address >= MIN_USER_ADDRESS && end <= MAX_USER_ADDRESS
}

/// The entity index a handle carries in its low 15 bits.
pub open spec fn handle_index(handle: u32) -> u64 {
    (handle % 0x8000) as u64
}

pub fn entity_index(handle: u32) -> (r: u64)
    ensures
        r == handle_index(handle),
        r < MAX_ENTITY_INDEX,
{
    let masked = handle & 0x7FFF;
    assert(handle & 0x7FFF == handle % 0x8000) by (bit_vector);
    masked as u64
}

/// Where the chunk pointer for a handle's entity is stored, when the
/// arithmetic stays in range.
pub open spec fn chunk_pointer_spec(entity_system: u64, handle: u32, o: Offsets) -> Option<u64> {
    let index = handle_index(handle);
    let at = entity_system + o.entity_chunk_array + (index / o.entity_chunk_size) * 8;
    if entity_system == 0 || at > u64::MAX {
        None
    } else {
        Some(at as u64)
    }
}

/// The address of the chunk pointer for `handle`'s entity.
pub fn chunk_pointer_address(entity_system: u64, handle: u32, offsets: &Offsets) -> (r: Option<u64>)
    requires
        offsets.entity_chunk_size > 0,
    ensures
        r == chunk_pointer_spec(entity_system, handle, *offsets),
{
    let index = entity_index(handle);
    if index >= MAX_ENTITY_INDEX || entity_system == 0 {
        return None;
    }
    let chunk_array = entity_system.checked_add(offsets.entity_chunk_array)?;
    let chunk_index = index / offsets.entity_chunk_size;
    assert(chunk_index <= index);
    let byte_offset = chunk_index.checked_mul(8)?;
    chunk_array.checked_add(byte_offset)
}

/// Where a handle's entity pointer is stored inside its chunk, when the
/// arithmetic stays in range.
pub open spec fn entity_slot_spec(chunk: u64, handle: u32, o: Offsets) -> Option<u64> {
    let slot = handle_index(handle) % o.entity_chunk_size;
    let at = chunk + slot * o.entity_stride;
    if chunk == 0 || slot * o.entity_stride > u64::MAX || at > u64::MAX {
        None
    } else {
        Some(at as u64)
    }
}

/// The address of `handle`'s entity pointer inside the chunk at `chunk`.
pub fn entity_slot_address(chunk: u64, handle: u32, offsets: &Offsets) -> (r: Option<u64>)
    requires
        offsets.entity_chunk_size > 0,
    ensures
        r == entity_slot_spec(chunk, handle, *offsets),
{
    if chunk == 0 {
        return None;
    }
    let slot = entity_index(handle) % offsets.entity_chunk_size;
    let byte_offset = slot.checked_mul(offsets.entity_stride)?;
    chunk.checked_add(byte_offset)
}

/// Whether an ability vector header is worth walking.
pub open spec fn vector_usable(count: u32, data: u64) -> bool {
    count != 0 && count <= MAX_ABILITIES && data != 0
}

pub fn abilities_vector_usable(count: u32, data: u64) -> (b: bool)
    ensures
        b == vector_usable(count, data),
{
    count != 0 && count <= MAX_ABILITIES && data != 0
}

/// How many entity indices the scoreboard scan visits.
pub fn player_scan_limit(offsets: &Offsets) -> (r: u64)
    requires
        offsets.entity_chunk_size <= u64::MAX / 8,
    ensures
        r == if offsets.entity_chunk_size * 8 < MAX_ENTITY_INDEX {
            offsets.entity_chunk_size * 8
        } else {
            MAX_ENTITY_INDEX as int
        },
{
    let span = offsets.entity_chunk_size * 8;
    if span < MAX_ENTITY_INDEX {
        span
    } else {
        MAX_ENTITY_INDEX
    }
}

/// The raw fields read from one ability entity (game clock values already
/// in milliseconds).
#[derive(Debug, Clone, Copy, PartialEq, Eq, Structural)]
pub struct AbilityReading {
    pub slot: u16,
    pub cooldown_end: i64,
    pub charges: i32,
    pub channeling: u8,
    pub attack_parried: u8,
    pub parry_start: i64,
    pub parry_success_end: i64,
    pub melee_state: u32,
    pub melee_chain: u32,
}

/// The snapshot a reading gives: the slot is kept in its low byte and must
/// not exceed `max_slot`; negative charges mark an ability without charges.
pub open spec fn ability_from_reading_spec(r: AbilityReading, max_slot: u8) -> Option<
    AbilitySnapshot,
> {
    let slot = (r.slot % 256) as u8;
    if slot > max_slot {
        None
    } else {
        Some(
            AbilitySnapshot {
                slot,
                charges: if r.charges >= 0 {
                    Some(r.charges)
                } else {
                    None
                },
                cooldown_end: r.cooldown_end,
                channeling: r.channeling != 0,
                attack_parried: r.attack_parried != 0,
                parry_start: r.parry_start,
                parry_success_end: r.parry_success_end,
                melee_state: r.melee_state,
                melee_chain: r.melee_chain,
            },
        )
    }
}

pub fn ability_from_reading(r: AbilityReading, max_slot: u8) -> (s: Option<AbilitySnapshot>)
    ensures
        s == ability_from_reading_spec(r, max_slot),
{
    let raw_slot = r.slot;
    let low = raw_slot & 0xFF;
    assert(raw_slot & 0xFF == raw_slot % 256) by (bit_vector);
    let slot = low as u8;
    if slot > max_slot {
        return None;
    }
    Some(
        AbilitySnapshot {
            slot,
            charges: if r.charges >= 0 {
                Some(r.charges)
            } else {
                None
            },
            cooldown_end: r.cooldown_end,
            channeling: r.channeling != 0,
            attack_parried: r.attack_parried != 0,
            parry_start: r.parry_start,
            parry_success_end: r.parry_success_end,
            melee_state: r.melee_state,
            melee_chain: r.melee_chain,
        },
    )
}

/// The raw scoreboard fields read from one controller entity.
#[derive(Debug, Clone, Copy, PartialEq, Eq, Structural)]
pub struct PlayerReading {
    pub address: u64,
    pub hero_id: u32,
    pub kills: i32,
    pub assists: i32,
    pub deaths: i32,
    pub kill_streak: i32,
    pub alive: u8,
    pub health: i32,
    pub melee_chain: u32,
}

/// The scoreboard entry of a reading; it is the local player's when its
/// controller is the local controller.
pub open spec fn player_of(r: PlayerReading, local_controller: u64) -> PlayerSnapshot {
    PlayerSnapshot {
        address: r.address,
        is_local: r.address == local_controller,
        hero_id: r.hero_id,
        kills: r.kills,
        assists: r.assists,
        deaths: r.deaths,
        kill_streak: r.kill_streak,
        alive: r.alive != 0,
        health: r.health,
        melee_chain: r.melee_chain,
    }
}

pub fn player_from_reading(r: PlayerReading, local_controller: u64) -> (p: PlayerSnapshot)
    ensures
        p == player_of(r, local_controller),
{
    PlayerSnapshot {
        address: r.address,
        is_local: r.address == local_controller,
        hero_id: r.hero_id,
        kills: r.kills,
        assists: r.assists,
        deaths: r.deaths,
        kill_streak: r.kill_streak,
        alive: r.alive != 0,
        health: r.health,
        melee_chain: r.melee_chain,
    }
}

/// What was read of one ability entity while looking for a player's melee
/// chain: its slot, and its melee chain counter (`None` where a read failed).
#[derive(Debug, Clone, Copy, PartialEq, Eq, Structural)]
pub struct MeleeReading {
    pub slot: Option<u16>,
    pub chain: Option<u32>,
}

/// The melee chain counter of the first ability whose slot (low byte) is
/// the melee slot; 0 when none is, or when its counter could not be read.
pub open spec fn melee_chain_spec(readings: Seq<MeleeReading>, melee_slot: u8) -> u32
    decreases readings.len(),
{
    if readings.len() == 0 {
        0
    } else {
        match readings[0].slot {
            Some(slot) if (slot % 256) as u8 == melee_slot => match readings[0].chain {
                Some(c) => c,
                None => 0,
            },
            _ => melee_chain_spec(readings.drop_first(), melee_slot),
        }
    }
}

pub fn melee_chain_from(readings: &Vec<MeleeReading>, melee_slot: u8) -> (chain: u32)
    ensures
        chain == melee_chain_spec(readings@, melee_slot),
{
    let mut k: usize = 0;
    assert(readings@.subrange(0, readings@.len() as int) =~= readings@);
    while k < readings.len()
        invariant
            k <= readings.len(),
            melee_chain_spec(readings@, melee_slot) == melee_chain_spec(
                readings@.subrange(k as int, readings@.len() as int),
                melee_slot,
            ),
        decreases readings.len() - k,
    {
        let ghost rest = readings@.subrange(k as int, readings@.len() as int);
        assert(rest.drop_first() =~= readings@.subrange(k + 1, readings@.len() as int));
        let r = readings[k];
        if let Some(slot) = r.slot {
            let low = slot & 0xFF;
            assert(slot & 0xFF == slot % 256) by (bit_vector);
            if low as u8 == melee_slot {
                return match r.chain {
                    Some(c) => c,
                    None => 0,
                };
            }
        }
        k += 1;
    }
    0
}

/// Largest client image size believed (1 GiB).
pub const MAX_IMAGE_SIZE: u64 = 0x4000_0000;

/// The client image's address range from its base and the `SizeOfImage`
/// its PE header gives (`None` when unreadable): empty when there is no
/// base or the size is zero or implausible.
pub open spec fn image_bounds_spec(base: u64, size: Option<u32>) -> (u64, u64) {
    let s: u64 = match size {
        Some(n) => n as u64,
        None => 0,
    };
    if base == 0 || s == 0 || s > MAX_IMAGE_SIZE {
        (0, 0)
    } else if base + s > u64::MAX {
        (base, u64::MAX)
    } else {
        (base, (base + s) as u64)
    }
}

pub fn image_bounds_from(base: u64, size: Option<u32>) -> (r: (u64, u64))
    ensures
        r == image_bounds_spec(base, size),
{
    let s: u64 = match size {
        Some(n) => n as u64,
        None => 0,
    };
    if base == 0 || s == 0 || s > MAX_IMAGE_SIZE {
        (0, 0)
    } else {
        (base, base.saturating_add(s))
    }
}

/// Whether an address lies in the client image (never, when its bounds are
/// unknown).
pub fn in_image(address: u64, bounds: (u64, u64)) -> (b: bool)
    ensures
        b == (bounds.0 != 0 && bounds.0 <= address && address < bounds.1),
{
    bounds.0 != 0 && address >= bounds.0 && address < bounds.1
}

/// `MEM_COMMIT`: the region's pages are committed.
pub const MEM_COMMIT: u32 = 0x1000;
/// `PAGE_GUARD`: touching the region raises a guard-page exception.
pub const PAGE_GUARD: u32 = 0x100;
/// `PAGE_NOACCESS`: the region may not be read.
pub const PAGE_NOACCESS: u32 = 0x01;

/// What the memory query said of the region containing an address.
#[derive(Debug, Clone, Copy, PartialEq, Eq, Structural)]
pub struct RegionInfo {
    pub state: u32,
    pub protect: u32,
    pub size: u64,
}

/// One step of checking that a range is readable memory.
#[derive(Debug, Clone, Copy, PartialEq, Eq, Structural)]
pub enum PageWalk {
    /// The whole range is committed and readable.
    Readable,
    /// Some part of the range is not.
    Unreadable,
    /// The region checks out; query again at this address.
    Next(u64),
}

/// The verdict on the region at `cursor` (`None` when the query failed)
/// while walking up to `end`: a region must be committed, not a guard
/// page and not inaccessible, and must move the walk forward.
pub open spec fn page_walk_spec(cursor: u64, end: u64, region: Option<RegionInfo>) -> PageWalk {
    match region {
        None => PageWalk::Unreadable,
        Some(info) => {
            let region_end: u64 = if cursor + info.size > u64::MAX {
                u64::MAX
            } else {
                (cursor + info.size) as u64
            };
            if region_end <= cursor {
                PageWalk::Unreadable
            } else if info.state != MEM_COMMIT || info.protect & PAGE_GUARD != 0 || info.protect
                == PAGE_NOACCESS {
                PageWalk::Unreadable
            } else if region_end >= end {
                PageWalk::Readable
            } else {
                PageWalk::Next(region_end)
            }
        },
    }
}

pub fn page_walk_step(cursor: u64, end: u64, region: Option<RegionInfo>) -> (w: PageWalk)
    ensures
        w == page_walk_spec(cursor, end, region),
        w matches PageWalk::Next(next) ==> cursor < next < end,
{
    match region {
        None => PageWalk::Unreadable,
        Some(info) => {
            let region_end = cursor.saturating_add(info.size);
            if region_end <= cursor {
                PageWalk::Unreadable
            } else if info.state != MEM_COMMIT || info.protect & PAGE_GUARD != 0 || info.protect
                == PAGE_NOACCESS {
                PageWalk::Unreadable
            } else if region_end >= end {
                PageWalk::Readable
            } else {
                PageWalk::Next(region_end)
            }
        },
    }
}

/// Where the walk over `len` bytes at `address` ends; `None` when the range
/// wraps around (such a range is never readable).
pub fn walk_end(address: u64, len: usize) -> (r: Option<u64>)
    ensures
        address + len <= u64::MAX ==> r == Some((address + len) as u64),
        address + len > u64::MAX ==> r is None,
{
    address.checked_add(len as u64)
}

/// What the scoreboard scan found at one entity index.
#[derive(Debug, Clone, Copy, PartialEq, Eq, Structural)]
pub enum ScanEntry {
    /// The chunk pointer could not be read: the scan gives up.
    Unreadable,
    /// The chunk pointer is null: no entities follow.
    End,
    /// No player controller here (empty slot, foreign object, or a field
    /// that could not be read).
    Skip,
    /// A player controller and its scoreboard fields.
    Player(PlayerReading),
}

/// What an entity slot holds for the scan: a player when the entity is set,
/// its vtable is the local controller's, and its fields were read.
pub open spec fn scan_entry_spec(
    entity: u64,
    vtable: Option<u64>,
    controller_vtable: u64,
    reading: Option<PlayerReading>,
) -> ScanEntry {
    if entity == 0 || vtable != Some(controller_vtable) {
        ScanEntry::Skip
    } else {
        match reading {
            Some(r) => ScanEntry::Player(r),
            None => ScanEntry::Skip,
        }
    }
}

pub fn scan_entry(
    entity: u64,
    vtable: Option<u64>,
    controller_vtable: u64,
    reading: Option<PlayerReading>,
) -> (e: ScanEntry)
    ensures
        e == scan_entry_spec(entity, vtable, controller_vtable, reading),
{
    let same_class = match vtable {
        Some(v) => v == controller_vtable,
        None => false,
    };
    if entity == 0 || !same_class {
        ScanEntry::Skip
    } else {
        match reading {
            Some(r) => ScanEntry::Player(r),
            None => ScanEntry::Skip,
        }
    }
}

/// The scoreboard from the entries of the scan, in index order: players are
/// collected until `MAX_PLAYERS` are found or a null chunk ends the list;
/// an unreadable chunk pointer spoils the whole scan.
pub open spec fn scan_spec(entries: Seq<ScanEntry>, local_controller: u64, found: Seq<PlayerSnapshot>) -> Option<
    Seq<PlayerSnapshot>,
>
    decreases entries.len(),
{
    if found.len() >= MAX_PLAYERS || entries.len() == 0 {
        Some(found)
    } else {
        match entries[0] {
            ScanEntry::Unreadable => None,
            ScanEntry::End => Some(found),
            ScanEntry::Skip => scan_spec(entries.drop_first(), local_controller, found),
            ScanEntry::Player(r) => scan_spec(
                entries.drop_first(),
                local_controller,
                found.push(player_of(r, local_controller)),
            ),
        }
    }
}

pub fn scan_players(entries: &Vec<ScanEntry>, local_controller: u64) -> (r: Option<Vec<PlayerSnapshot>>)
    ensures
        match r {
            Some(players) => scan_spec(entries@, local_controller, Seq::empty()) == Some(players@)
                && players@.len() <= MAX_PLAYERS,
            None => scan_spec(entries@, local_controller, Seq::empty()) is None,
        },
{
    let mut players: Vec<PlayerSnapshot> = Vec::new();
    let mut k: usize = 0;
    assert(entries@.subrange(0, entries@.len() as int) =~= entries@);
    while k < entries.len()
        invariant
            k <= entries.len(),
            players@.len() <= MAX_PLAYERS,
            scan_spec(entries@, local_controller, Seq::empty()) == scan_spec(
                entries@.subrange(k as int, entries@.len() as int),
                local_controller,
                players@,
            ),
        decreases entries.len() - k,
    {
        if players.len() >= MAX_PLAYERS {
            return Some(players);
        }
        let ghost rest = entries@.subrange(k as int, entries@.len() as int);
        assert(rest.drop_first() =~= entries@.subrange(k + 1, entries@.len() as int));
        assert(rest[0] == entries@[k as int]);
        match entries[k] {
            ScanEntry::Unreadable => {
                return None;
            },
            ScanEntry::End => {
                return Some(players);
            },
            ScanEntry::Skip => {},
            ScanEntry::Player(reading) => {
                players.push(player_from_reading(reading, local_controller));
            },
        }
        k += 1;
    }
    Some(players)
}

} // verus!
