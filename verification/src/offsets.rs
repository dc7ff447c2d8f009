//! Memory offsets the in-game sampler reads with: the factory table for the
//! current game build, and overrides from an offsets file whose sections and
//! keys are all optional.

use vstd::prelude::*;
use crate::text::{chars_of, parse_uint, slice_chars, trim_chars, trim_seq};

verus! {

pub const DEFAULT_DLL_PORT: u16 = 24680;

pub const DEFAULT_POLL_INTERVAL_MS: u64 = 33;

/// Where the sampler finds things: globals relative to the client module,
/// field offsets relative to the structures that hold them.
#[derive(Debug, Clone, Copy, PartialEq, Eq, Structural)]
pub struct Offsets {
    /// TCP port of the companion's event server.
    pub dll_port: u16,
    /// How often to sample game state, in milliseconds.
    pub poll_interval_ms: u64,
    pub local_pawn_global: u64,
    pub entity_system_global: u64,
    pub entity_chunk_array: u64,
    /// Entity indices per chunk.
    pub entity_chunk_size: u64,
    pub entity_stride: u64,
    pub pawn_health: u64,
    pub pawn_max_health: u64,
    pub pawn_life_state: u64,
    pub pawn_team: u64,
    pub pawn_sim_time: u64,
    pub pawn_controller_handle: u64,
    pub pawn_interrupt_state: u64,
    pub pawn_damage_taken_time: u64,
    pub pawn_ability_component: u64,
    pub abilities_vector: u64,
    pub ability_channeling: u64,
    pub ability_cooldown_start: u64,
    pub ability_cooldown_end: u64,
    pub ability_slot: u64,
    pub ability_charges: u64,
    pub ability_parry_start: u64,
    pub ability_attack_parried: u64,
    pub ability_parry_success_end: u64,
    pub ability_melee_state: u64,
    pub ability_melee_chain: u64,
    /// The weapon-melee ability slot.
    pub melee_slot: u8,
    /// Highest ability slot tracked.
    pub max_ability_slot: u8,
    pub controller_player_data: u64,
    pub controller_pawn_handle: u64,
    pub player_health: u64,
    pub player_hero_id: u64,
    pub player_kills: u64,
    pub player_assists: u64,
    pub player_deaths: u64,
    pub player_kill_streak: u64,
    pub player_alive: u64,
}

/// The factory offsets for the current game build.
pub open spec fn default_offsets() -> Offsets {
    Offsets {
        dll_port: DEFAULT_DLL_PORT,
        poll_interval_ms: DEFAULT_POLL_INTERVAL_MS,
        local_pawn_global: 0x2F14178,
        entity_system_global: 0x30E68A0,
        entity_chunk_array: 0x10,
        entity_chunk_size: 512,
        entity_stride: 0x70,
        pawn_health: 0x354,
        pawn_max_health: 0x350,
        pawn_life_state: 0x35C,
        pawn_team: 0x3F3,
        pawn_sim_time: 0x3C0,
        pawn_controller_handle: 0x10B0,
        pawn_interrupt_state: 0x15B4,
        pawn_damage_taken_time: 0x1488,
        pawn_ability_component: 0x14D0,
        abilities_vector: 0x1538,
        ability_channeling: 0x740,
        ability_cooldown_start: 0x764,
        ability_cooldown_end: 0x768,
        ability_slot: 0x778,
        ability_charges: 0x780,
        ability_parry_start: 0x11DC,
        ability_attack_parried: 0x11E0,
        ability_parry_success_end: 0x11E4,
        ability_melee_state: 0x12F0,
        ability_melee_chain: 0x130C,
        melee_slot: 22,
        max_ability_slot: 22,
        controller_player_data: 0x8F0,
        controller_pawn_handle: 0x6BC,
        player_health: 0x50,
        player_hero_id: 0x1C,
        player_kills: 0x54,
        player_assists: 0x58,
        player_deaths: 0x5C,
        player_kill_streak: 0x68,
        player_alive: 0x6C,
    }
}

impl Default for Offsets {
    fn default() -> (r: Offsets)
        ensures
            r == default_offsets(),
    {
        Offsets {
            dll_port: DEFAULT_DLL_PORT,
            poll_interval_ms: DEFAULT_POLL_INTERVAL_MS,
            local_pawn_global: 0x2F14178,
            entity_system_global: 0x30E68A0,
            entity_chunk_array: 0x10,
            entity_chunk_size: 512,
            entity_stride: 0x70,
            pawn_health: 0x354,
            pawn_max_health: 0x350,
            pawn_life_state: 0x35C,
            pawn_team: 0x3F3,
            pawn_sim_time: 0x3C0,
            pawn_controller_handle: 0x10B0,
            pawn_interrupt_state: 0x14D0 + 0xE4,
            pawn_damage_taken_time: 0x1480 + 0x8,
            pawn_ability_component: 0x14D0,
            abilities_vector: 0x1538,
            ability_channeling: 0x740,
            ability_cooldown_start: 0x764,
            ability_cooldown_end: 0x768,
            ability_slot: 0x778,
            ability_charges: 0x780,
            ability_parry_start: 0x11DC,
            ability_attack_parried: 0x11E0,
            ability_parry_success_end: 0x11E4,
            ability_melee_state: 0x12F0,
            ability_melee_chain: 0x130C,
            melee_slot: 22,
            max_ability_slot: 22,
            controller_player_data: 0x8F0,
            controller_pawn_handle: 0x6BC,
            player_health: 0x50,
            player_hero_id: 0x1C,
            player_kills: 0x54,
            player_assists: 0x58,
            player_deaths: 0x5C,
            player_kill_streak: 0x68,
            player_alive: 0x6C,
        }
    }
}

/// `[dll]` section of an offsets file.
#[derive(Debug, Clone, Copy, PartialEq, Eq, Structural)]
pub struct DllSection {
    pub port: Option<u16>,
    pub poll_interval_ms: Option<u64>,
}

/// `[globals]` section.
#[derive(Debug, Clone, Copy, PartialEq, Eq, Structural)]
pub struct GlobalsSection {
    pub local_pawn: Option<u64>,
    pub entity_system: Option<u64>,
}

/// `[entity_list]` section.
#[derive(Debug, Clone, Copy, PartialEq, Eq, Structural)]
pub struct EntityListSection {
    pub chunk_array: Option<u64>,
    pub chunk_size: Option<u64>,
    pub stride: Option<u64>,
}

/// `[pawn]` section.
#[derive(Debug, Clone, Copy, PartialEq, Eq, Structural)]
pub struct PawnSection {
    pub health: Option<u64>,
    pub max_health: Option<u64>,
    pub life_state: Option<u64>,
    pub team: Option<u64>,
    pub sim_time: Option<u64>,
    pub interrupt_state: Option<u64>,
    pub damage_taken_time: Option<u64>,
    pub controller_handle: Option<u64>,
    pub ability_component: Option<u64>,
    pub abilities: Option<u64>,
}

/// `[controller]` section.
#[derive(Debug, Clone, Copy, PartialEq, Eq, Structural)]
pub struct ControllerSection {
    pub player_data: Option<u64>,
    pub pawn_handle: Option<u64>,
    pub health: Option<u64>,
    pub hero_id: Option<u64>,
    pub kills: Option<u64>,
    pub assists: Option<u64>,
    pub deaths: Option<u64>,
    pub kill_streak: Option<u64>,
    pub alive: Option<u64>,
}

/// `[ability]` section.
#[derive(Debug, Clone, Copy, PartialEq, Eq, Structural)]
pub struct AbilitySection {
    pub channeling: Option<u64>,
    pub cooldown_start: Option<u64>,
    pub cooldown_end: Option<u64>,
    pub slot: Option<u64>,
    pub charges: Option<u64>,
    pub parry_start: Option<u64>,
    pub attack_parried: Option<u64>,
    pub parry_success_end: Option<u64>,
    pub melee_state: Option<u64>,
    pub melee_chain: Option<u64>,
    pub melee_slot: Option<u8>,
    pub max_slot: Option<u8>,
}

/// A parsed offsets file: every section optional.
#[derive(Debug, Clone, Copy, PartialEq, Eq, Structural)]
pub struct OffsetsFile {
    pub dll: Option<DllSection>,
    pub globals: Option<GlobalsSection>,
    pub entity_list: Option<EntityListSection>,
    pub pawn: Option<PawnSection>,
    pub controller: Option<ControllerSection>,
    pub ability: Option<AbilitySection>,
}

/// The given value, or the old one when none is given.
pub open spec fn or_keep<T>(v: Option<T>, old: T) -> T {
    match v {
        Some(x) => x,
        None => old,
    }
}

/// The given value raised to at least 1, or the old one when none is given.
pub open spec fn at_least_one_or_keep(v: Option<u64>, old: u64) -> u64 {
    match v {
        Some(x) => if x >= 1 {
            x
        } else {
            1
        },
        None => old,
    }
}

pub open spec fn overlay_dll(o: Offsets, s: DllSection) -> Offsets {
    Offsets {
        dll_port: or_keep(s.port, o.dll_port),
        poll_interval_ms: at_least_one_or_keep(s.poll_interval_ms, o.poll_interval_ms),
        ..o
    }
}

pub open spec fn overlay_globals(o: Offsets, s: GlobalsSection) -> Offsets {
    Offsets {
        local_pawn_global: or_keep(s.local_pawn, o.local_pawn_global),
        entity_system_global: or_keep(s.entity_system, o.entity_system_global),
        ..o
    }
}

pub open spec fn overlay_entity_list(o: Offsets, s: EntityListSection) -> Offsets {
    Offsets {
        entity_chunk_array: or_keep(s.chunk_array, o.entity_chunk_array),
        entity_chunk_size: at_least_one_or_keep(s.chunk_size, o.entity_chunk_size),
        entity_stride: or_keep(s.stride, o.entity_stride),
        ..o
    }
}

pub open spec fn overlay_pawn(o: Offsets, s: PawnSection) -> Offsets {
    Offsets {
        pawn_health: or_keep(s.health, o.pawn_health),
        pawn_max_health: or_keep(s.max_health, o.pawn_max_health),
        pawn_life_state: or_keep(s.life_state, o.pawn_life_state),
        pawn_team: or_keep(s.team, o.pawn_team),
        pawn_sim_time: or_keep(s.sim_time, o.pawn_sim_time),
        pawn_controller_handle: or_keep(s.controller_handle, o.pawn_controller_handle),
        pawn_interrupt_state: or_keep(s.interrupt_state, o.pawn_interrupt_state),
        pawn_damage_taken_time: or_keep(s.damage_taken_time, o.pawn_damage_taken_time),
        pawn_ability_component: or_keep(s.ability_component, o.pawn_ability_component),
        abilities_vector: or_keep(s.abilities, o.abilities_vector),
        ..o
    }
}

pub open spec fn overlay_controller(o: Offsets, s: ControllerSection) -> Offsets {
    Offsets {
        controller_player_data: or_keep(s.player_data, o.controller_player_data),
        controller_pawn_handle: or_keep(s.pawn_handle, o.controller_pawn_handle),
        player_health: or_keep(s.health, o.player_health),
        player_hero_id: or_keep(s.hero_id, o.player_hero_id),
        player_kills: or_keep(s.kills, o.player_kills),
        player_assists: or_keep(s.assists, o.player_assists),
        player_deaths: or_keep(s.deaths, o.player_deaths),
        player_kill_streak: or_keep(s.kill_streak, o.player_kill_streak),
        player_alive: or_keep(s.alive, o.player_alive),
        ..o
    }
}

pub open spec fn overlay_ability(o: Offsets, s: AbilitySection) -> Offsets {
    Offsets {
        ability_channeling: or_keep(s.channeling, o.ability_channeling),
        ability_cooldown_start: or_keep(s.cooldown_start, o.ability_cooldown_start),
        ability_cooldown_end: or_keep(s.cooldown_end, o.ability_cooldown_end),
        ability_slot: or_keep(s.slot, o.ability_slot),
        ability_charges: or_keep(s.charges, o.ability_charges),
        ability_parry_start: or_keep(s.parry_start, o.ability_parry_start),
        ability_attack_parried: or_keep(s.attack_parried, o.ability_attack_parried),
        ability_parry_success_end: or_keep(s.parry_success_end, o.ability_parry_success_end),
        ability_melee_state: or_keep(s.melee_state, o.ability_melee_state),
        ability_melee_chain: or_keep(s.melee_chain, o.ability_melee_chain),
        melee_slot: or_keep(s.melee_slot, o.melee_slot),
        max_ability_slot: or_keep(s.max_slot, o.max_ability_slot),
        ..o
    }
}

/// Apply a section when it is present.
pub open spec fn maybe<S>(o: Offsets, s: Option<S>, apply: spec_fn(Offsets, S) -> Offsets) -> Offsets {
    match s {
        Some(section) => apply(o, section),
        None => o,
    }
}

/// The offsets after every value present in the file replaced its slot.
pub open spec fn overlaid(o: Offsets, f: OffsetsFile) -> Offsets {
    let o1 = maybe(o, f.dll, |o: Offsets, s: DllSection| overlay_dll(o, s));
    let o2 = maybe(o1, f.globals, |o: Offsets, s: GlobalsSection| overlay_globals(o, s));
    let o3 = maybe(o2, f.entity_list, |o: Offsets, s: EntityListSection| overlay_entity_list(o, s));
    let o4 = maybe(o3, f.pawn, |o: Offsets, s: PawnSection| overlay_pawn(o, s));
    let o5 = maybe(o4, f.controller, |o: Offsets, s: ControllerSection| overlay_controller(o, s));
    maybe(o5, f.ability, |o: Offsets, s: AbilitySection| overlay_ability(o, s))
}

fn keep<T: Copy>(v: Option<T>, old: T) -> (r: T)
    ensures
        r == or_keep(v, old),
{
    match v {
        Some(x) => x,
        None => old,
    }
}

fn at_least_one(v: Option<u64>, old: u64) -> (r: u64)
    ensures
        r == at_least_one_or_keep(v, old),
{
    match v {
        Some(x) => if x >= 1 {
            x
        } else {
            1
        },
        None => old,
    }
}

impl Offsets {
    /// Overlay every value the offsets file gives; absent sections and keys
    /// keep their current values, and the poll interval and chunk size are
    /// raised to at least 1.
    pub fn apply_file(&mut self, file: &OffsetsFile)
        ensures
            *final(self) == overlaid(*old(self), *file),
    {
        if let Some(s) = file.dll {
            self.dll_port = keep(s.port, self.dll_port);
            self.poll_interval_ms = at_least_one(s.poll_interval_ms, self.poll_interval_ms);
        }
        if let Some(s) = file.globals {
            self.local_pawn_global = keep(s.local_pawn, self.local_pawn_global);
            self.entity_system_global = keep(s.entity_system, self.entity_system_global);
        }
        if let Some(s) = file.entity_list {
            self.entity_chunk_array = keep(s.chunk_array, self.entity_chunk_array);
            self.entity_chunk_size = at_least_one(s.chunk_size, self.entity_chunk_size);
            self.entity_stride = keep(s.stride, self.entity_stride);
        }
        if let Some(s) = file.pawn {
            self.pawn_health = keep(s.health, self.pawn_health);
            self.pawn_max_health = keep(s.max_health, self.pawn_max_health);
            self.pawn_life_state = keep(s.life_state, self.pawn_life_state);
            self.pawn_team = keep(s.team, self.pawn_team);
            self.pawn_sim_time = keep(s.sim_time, self.pawn_sim_time);
            self.pawn_controller_handle = keep(s.controller_handle, self.pawn_controller_handle);
            self.pawn_interrupt_state = keep(s.interrupt_state, self.pawn_interrupt_state);
            self.pawn_damage_taken_time = keep(s.damage_taken_time, self.pawn_damage_taken_time);
            self.pawn_ability_component = keep(s.ability_component, self.pawn_ability_component);
            self.abilities_vector = keep(s.abilities, self.abilities_vector);
        }
        if let Some(s) = file.controller {
            self.controller_player_data = keep(s.player_data, self.controller_player_data);
            self.controller_pawn_handle = keep(s.pawn_handle, self.controller_pawn_handle);
            self.player_health = keep(s.health, self.player_health);
            self.player_hero_id = keep(s.hero_id, self.player_hero_id);
            self.player_kills = keep(s.kills, self.player_kills);
            self.player_assists = keep(s.assists, self.player_assists);
            self.player_deaths = keep(s.deaths, self.player_deaths);
            self.player_kill_streak = keep(s.kill_streak, self.player_kill_streak);
            self.player_alive = keep(s.alive, self.player_alive);
        }
        if let Some(s) = file.ability {
            self.ability_channeling = keep(s.channeling, self.ability_channeling);
            self.ability_cooldown_start = keep(s.cooldown_start, self.ability_cooldown_start);
            self.ability_cooldown_end = keep(s.cooldown_end, self.ability_cooldown_end);
            self.ability_slot = keep(s.slot, self.ability_slot);
            self.ability_charges = keep(s.charges, self.ability_charges);
            self.ability_parry_start = keep(s.parry_start, self.ability_parry_start);
            self.ability_attack_parried = keep(s.attack_parried, self.ability_attack_parried);
            self.ability_parry_success_end = keep(
                s.parry_success_end,
                self.ability_parry_success_end,
            );
            self.ability_melee_state = keep(s.melee_state, self.ability_melee_state);
            self.ability_melee_chain = keep(s.melee_chain, self.ability_melee_chain);
            self.melee_slot = keep(s.melee_slot, self.melee_slot);
            self.max_ability_slot = keep(s.max_slot, self.max_ability_slot);
        }
    }
}

/// What an offset written as text means: surrounding whitespace ignored,
/// then `0x`/`0X` and hexadecimal digits, or decimal digits.
pub open spec fn offset_text_value(s: Seq<char>) -> Option<nat> {
    let t = trim_seq(s);
    if t.len() >= 2 && t[0] == '0' && (t[1] == 'x' || t[1] == 'X') {
        crate::text::parse_uint_spec(t.subrange(2, t.len() as int), 16, u64::MAX as nat)
    } else {
        crate::text::parse_uint_spec(t, 10, u64::MAX as nat)
    }
}

/// Parse an offset written as a string (offsets files carry hex as strings).
pub fn parse_offset_text(value: &str) -> (r: Option<u64>)
    ensures
        match offset_text_value(value@) {
            Some(n) => r == Some(n as u64),
            None => r is None,
        },
{
    let t = trim_chars(&chars_of(value));
    if t.len() >= 2 && t[0] == '0' && (t[1] == 'x' || t[1] == 'X') {
        let digits = slice_chars(&t, 2, t.len());
        parse_uint(&digits, 16, u64::MAX)
    } else {
        parse_uint(&t, 10, u64::MAX)
    }
}

/// An offset written as a plain integer: negative values are refused.
pub fn offset_from_integer(value: i64) -> (r: Option<u64>)
    ensures
        value >= 0 ==> r == Some(value as u64),
        value < 0 ==> r is None,
{
    if value >= 0 {
        Some(value as u64)
    } else {
        None
    }
}

/// An offset written in decimal reads back as itself.
pub proof fn lemma_decimal_offset_roundtrip(n: u64)
    ensures
        offset_text_value(crate::text::decimal_seq(n as nat)) == Some(n as nat),
{
    let d = crate::text::decimal_seq(n as nat);
    crate::trigger::lemma_decimal_digits(n as nat);
    assert(crate::text::digit_value(d[0], 10) is Some);
    assert(crate::text::digit_value(d[d.len() - 1], 10) is Some);
    assert(crate::text::trim_start_seq(d) == d);
    assert(crate::text::trim_end_seq(d) == d);
    if d.len() >= 2 {
        assert(crate::text::digit_value(d[1], 10) is Some);
    }
}

/// A hexadecimal digit, lower case.
pub open spec fn hex_digit(d: nat) -> char {
    if d < 10 {
        ('0' as nat + d) as char
    } else {
        ('a' as nat + d - 10) as char
    }
}

/// The shortest lower-case hexadecimal rendering of `n`.
pub open spec fn hex_seq(n: nat) -> Seq<char>
    decreases n,
{
    if n < 16 {
        seq![hex_digit(n)]
    } else {
        hex_seq(n / 16).push(hex_digit(n % 16))
    }
}

proof fn lemma_hex_digits(n: nat)
    ensures
        hex_seq(n).len() >= 1,
        crate::text::all_digits(hex_seq(n), 16),
        crate::text::digits_value(hex_seq(n), 16) == n,
        hex_seq(n)[0] != '+',
    decreases n,
{
    let h = hex_seq(n);
    if n < 16 {
        assert(crate::text::digit_value(hex_digit(n), 16) == Some(n));
        assert(h.drop_last() =~= Seq::<char>::empty());
        assert(crate::text::digits_value(h.drop_last(), 16) == 0);
        assert(h.last() == hex_digit(n));
    } else {
        lemma_hex_digits(n / 16);
        let prev = hex_seq(n / 16);
        assert(h.drop_last() =~= prev);
        assert(crate::text::digit_value(hex_digit(n % 16), 16) == Some(n % 16));
        assert(h.last() == hex_digit(n % 16));
        assert(crate::text::digits_value(h, 16) == crate::text::digits_value(prev, 16) * 16 + n % 16);
        assert((n / 16) * 16 + n % 16 == n);
        assert forall|k: int| 0 <= k < h.len() implies (#[trigger] crate::text::digit_value(h[k], 16)) is Some by {
            if k < prev.len() {
                assert(h[k] == prev[k]);
            }
        }
        assert(h[0] == prev[0]);
    }
}

/// An offset written in hexadecimal after `0x` or `0X` reads back as itself.
pub proof fn lemma_hex_offset_roundtrip(n: u64)
    ensures
        offset_text_value("0x"@ + hex_seq(n as nat)) == Some(n as nat),
        offset_text_value("0X"@ + hex_seq(n as nat)) == Some(n as nat),
{
    reveal_strlit("0x");
    reveal_strlit("0X");
    let h = hex_seq(n as nat);
    lemma_hex_digits(n as nat);
    assert(crate::text::digit_value(h[h.len() - 1], 16) is Some);
    let a = "0x"@ + h;
    let b = "0X"@ + h;
    assert(a[0] == '0' && a[1] == 'x' && a.last() == h.last());
    assert(b[0] == '0' && b[1] == 'X' && b.last() == h.last());
    assert(crate::text::trim_start_seq(a) == a);
    assert(crate::text::trim_end_seq(a) == a);
    assert(crate::text::trim_start_seq(b) == b);
    assert(crate::text::trim_end_seq(b) == b);
    assert(a.subrange(2, a.len() as int) =~= h);
    assert(b.subrange(2, b.len() as int) =~= h);
}

/// The value the file gives for one key of an optional section (none when
/// the section or the key is absent).
pub open spec fn file_key<S, V>(section: Option<S>, key: spec_fn(S) -> Option<V>) -> Option<V> {
    match section {
        Some(s) => key(s),
        None => None,
    }
}

/// The value given, else the value before.
pub open spec fn given_or<V>(given: Option<V>, before: V) -> V {
    if given is Some {
        given->0
    } else {
        before
    }
}

/// The value given raised to at least 1, else the value before.
pub open spec fn given_at_least_one(given: Option<u64>, before: u64) -> u64 {
    if given is Some {
        if given->0 == 0 {
            1
        } else {
            given->0
        }
    } else {
        before
    }
}

/// Every offset slot takes the value of its own key in the file, and keeps
/// its value when the file (or the key's section) does not give that key;
/// the poll interval and the entity chunk size are raised to at least 1.
#[verifier::spinoff_prover]
#[verifier::rlimit(40)]
pub proof fn lemma_each_key_sets_its_own_slot(o: Offsets, f: OffsetsFile)
    ensures
        overlaid(o, f).dll_port == given_or(file_key(f.dll, (|s: DllSection| s.port)), o.dll_port),
        overlaid(o, f).poll_interval_ms == given_at_least_one(file_key(f.dll, (|s: DllSection| s.poll_interval_ms)), o.poll_interval_ms),
        overlaid(o, f).local_pawn_global == given_or(file_key(f.globals, (|s: GlobalsSection| s.local_pawn)), o.local_pawn_global),
        overlaid(o, f).entity_system_global == given_or(file_key(f.globals, (|s: GlobalsSection| s.entity_system)), o.entity_system_global),
        overlaid(o, f).entity_chunk_array == given_or(file_key(f.entity_list, (|s: EntityListSection| s.chunk_array)), o.entity_chunk_array),
        overlaid(o, f).entity_chunk_size == given_at_least_one(file_key(f.entity_list, (|s: EntityListSection| s.chunk_size)), o.entity_chunk_size),
        overlaid(o, f).entity_stride == given_or(file_key(f.entity_list, (|s: EntityListSection| s.stride)), o.entity_stride),
        overlaid(o, f).pawn_health == given_or(file_key(f.pawn, (|s: PawnSection| s.health)), o.pawn_health),
        overlaid(o, f).pawn_max_health == given_or(file_key(f.pawn, (|s: PawnSection| s.max_health)), o.pawn_max_health),
        overlaid(o, f).pawn_life_state == given_or(file_key(f.pawn, (|s: PawnSection| s.life_state)), o.pawn_life_state),
        overlaid(o, f).pawn_team == given_or(file_key(f.pawn, (|s: PawnSection| s.team)), o.pawn_team),
        overlaid(o, f).pawn_sim_time == given_or(file_key(f.pawn, (|s: PawnSection| s.sim_time)), o.pawn_sim_time),
        overlaid(o, f).pawn_interrupt_state == given_or(file_key(f.pawn, (|s: PawnSection| s.interrupt_state)), o.pawn_interrupt_state),
        overlaid(o, f).pawn_damage_taken_time == given_or(file_key(f.pawn, (|s: PawnSection| s.damage_taken_time)), o.pawn_damage_taken_time),
        overlaid(o, f).pawn_controller_handle == given_or(file_key(f.pawn, (|s: PawnSection| s.controller_handle)), o.pawn_controller_handle),
        overlaid(o, f).pawn_ability_component == given_or(file_key(f.pawn, (|s: PawnSection| s.ability_component)), o.pawn_ability_component),
        overlaid(o, f).abilities_vector == given_or(file_key(f.pawn, (|s: PawnSection| s.abilities)), o.abilities_vector),
        overlaid(o, f).controller_player_data == given_or(file_key(f.controller, (|s: ControllerSection| s.player_data)), o.controller_player_data),
        overlaid(o, f).controller_pawn_handle == given_or(file_key(f.controller, (|s: ControllerSection| s.pawn_handle)), o.controller_pawn_handle),
        overlaid(o, f).player_health == given_or(file_key(f.controller, (|s: ControllerSection| s.health)), o.player_health),
        overlaid(o, f).player_hero_id == given_or(file_key(f.controller, (|s: ControllerSection| s.hero_id)), o.player_hero_id),
        overlaid(o, f).player_kills == given_or(file_key(f.controller, (|s: ControllerSection| s.kills)), o.player_kills),
        overlaid(o, f).player_assists == given_or(file_key(f.controller, (|s: ControllerSection| s.assists)), o.player_assists),
        overlaid(o, f).player_deaths == given_or(file_key(f.controller, (|s: ControllerSection| s.deaths)), o.player_deaths),
        overlaid(o, f).player_kill_streak == given_or(file_key(f.controller, (|s: ControllerSection| s.kill_streak)), o.player_kill_streak),
        overlaid(o, f).player_alive == given_or(file_key(f.controller, (|s: ControllerSection| s.alive)), o.player_alive),
        overlaid(o, f).ability_channeling == given_or(file_key(f.ability, (|s: AbilitySection| s.channeling)), o.ability_channeling),
        overlaid(o, f).ability_cooldown_start == given_or(file_key(f.ability, (|s: AbilitySection| s.cooldown_start)), o.ability_cooldown_start),
        overlaid(o, f).ability_cooldown_end == given_or(file_key(f.ability, (|s: AbilitySection| s.cooldown_end)), o.ability_cooldown_end),
        overlaid(o, f).ability_slot == given_or(file_key(f.ability, (|s: AbilitySection| s.slot)), o.ability_slot),
        overlaid(o, f).ability_charges == given_or(file_key(f.ability, (|s: AbilitySection| s.charges)), o.ability_charges),
        overlaid(o, f).ability_parry_start == given_or(file_key(f.ability, (|s: AbilitySection| s.parry_start)), o.ability_parry_start),
        overlaid(o, f).ability_attack_parried == given_or(file_key(f.ability, (|s: AbilitySection| s.attack_parried)), o.ability_attack_parried),
        overlaid(o, f).ability_parry_success_end == given_or(file_key(f.ability, (|s: AbilitySection| s.parry_success_end)), o.ability_parry_success_end),
        overlaid(o, f).ability_melee_state == given_or(file_key(f.ability, (|s: AbilitySection| s.melee_state)), o.ability_melee_state),
        overlaid(o, f).ability_melee_chain == given_or(file_key(f.ability, (|s: AbilitySection| s.melee_chain)), o.ability_melee_chain),
        overlaid(o, f).melee_slot == given_or(file_key(f.ability, (|s: AbilitySection| s.melee_slot)), o.melee_slot),
        overlaid(o, f).max_ability_slot == given_or(file_key(f.ability, (|s: AbilitySection| s.max_slot)), o.max_ability_slot),
{
}

/// An offsets file without sections leaves the offsets as they are.
pub proof fn lemma_empty_file_changes_nothing(o: Offsets)
    ensures
        overlaid(
            o,
            OffsetsFile {
                dll: None,
                globals: None,
                entity_list: None,
                pawn: None,
                controller: None,
                ability: None,
            },
        ) == o,
{
}

/// Applying the same offsets file twice gives what applying it once gives.
pub proof fn lemma_overlay_idempotent(o: Offsets, f: OffsetsFile)
    ensures
        overlaid(overlaid(o, f), f) == overlaid(o, f),
{
}

/// Overlaying never leaves a zero poll interval or entity chunk size behind
/// when there was none before, so the sampler never sleeps zero or divides
/// by zero.
pub proof fn lemma_overlay_keeps_sizes_positive(o: Offsets, f: OffsetsFile)
    requires
        o.poll_interval_ms >= 1,
        o.entity_chunk_size >= 1,
    ensures
        overlaid(o, f).poll_interval_ms >= 1,
        overlaid(o, f).entity_chunk_size >= 1,
{
}

} // verus!
