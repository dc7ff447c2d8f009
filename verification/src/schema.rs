//! Field offsets resolved from the game's own type schema: which schema
//! class and field feed which offset slot, and how the answers of a schema
//! lookup are applied, composite offsets included.

use vstd::prelude::*;
use crate::offsets::Offsets;

verus! {

/// Field offsets live inside real structures; anything at or beyond this is
/// garbage.
pub const MAX_FIELD_OFFSET: u32 = 0x8000;

/// Number of directly resolved fields.
pub const DIRECT_FIELD_COUNT: usize = 26;

/// An offset slot that a schema field feeds directly.
#[derive(Debug, Clone, Copy, PartialEq, Eq, Structural)]
pub enum OffsetField {
    PawnHealth,
    PawnMaxHealth,
    PawnLifeState,
    PawnTeam,
    PawnSimTime,
    PawnControllerHandle,
    PawnAbilityComponent,
    AbilityChanneling,
    AbilityCooldownStart,
    AbilityCooldownEnd,
    AbilitySlot,
    AbilityCharges,
    AbilityParryStart,
    AbilityAttackParried,
    AbilityParrySuccessEnd,
    AbilityMeleeState,
    AbilityMeleeChain,
    ControllerPlayerData,
    ControllerPawnHandle,
    PlayerHeroId,
    PlayerHealth,
    PlayerKills,
    PlayerAssists,
    PlayerDeaths,
    PlayerKillStreak,
    PlayerAlive,
}

/// The offsets with one slot replaced.
pub open spec fn with_field(o: Offsets, f: OffsetField, v: u64) -> Offsets {
    match f {
        OffsetField::PawnHealth => Offsets { pawn_health: v, ..o },
        OffsetField::PawnMaxHealth => Offsets { pawn_max_health: v, ..o },
        OffsetField::PawnLifeState => Offsets { pawn_life_state: v, ..o },
        OffsetField::PawnTeam => Offsets { pawn_team: v, ..o },
        OffsetField::PawnSimTime => Offsets { pawn_sim_time: v, ..o },
        OffsetField::PawnControllerHandle => Offsets { pawn_controller_handle: v, ..o },
        OffsetField::PawnAbilityComponent => Offsets { pawn_ability_component: v, ..o },
        OffsetField::AbilityChanneling => Offsets { ability_channeling: v, ..o },
        OffsetField::AbilityCooldownStart => Offsets { ability_cooldown_start: v, ..o },
        OffsetField::AbilityCooldownEnd => Offsets { ability_cooldown_end: v, ..o },
        OffsetField::AbilitySlot => Offsets { ability_slot: v, ..o },
        OffsetField::AbilityCharges => Offsets { ability_charges: v, ..o },
        OffsetField::AbilityParryStart => Offsets { ability_parry_start: v, ..o },
        OffsetField::AbilityAttackParried => Offsets { ability_attack_parried: v, ..o },
        OffsetField::AbilityParrySuccessEnd => Offsets { ability_parry_success_end: v, ..o },
        OffsetField::AbilityMeleeState => Offsets { ability_melee_state: v, ..o },
        OffsetField::AbilityMeleeChain => Offsets { ability_melee_chain: v, ..o },
        OffsetField::ControllerPlayerData => Offsets { controller_player_data: v, ..o },
        OffsetField::ControllerPawnHandle => Offsets { controller_pawn_handle: v, ..o },
        OffsetField::PlayerHeroId => Offsets { player_hero_id: v, ..o },
        OffsetField::PlayerHealth => Offsets { player_health: v, ..o },
        OffsetField::PlayerKills => Offsets { player_kills: v, ..o },
        OffsetField::PlayerAssists => Offsets { player_assists: v, ..o },
        OffsetField::PlayerDeaths => Offsets { player_deaths: v, ..o },
        OffsetField::PlayerKillStreak => Offsets { player_kill_streak: v, ..o },
        OffsetField::PlayerAlive => Offsets { player_alive: v, ..o },
    }
}

/// Replace one offset slot.
pub fn set_field(o: &mut Offsets, f: OffsetField, v: u64)
    ensures
        *final(o) == with_field(*old(o), f, v),
{
    match f {
        OffsetField::PawnHealth => o.pawn_health = v,
        OffsetField::PawnMaxHealth => o.pawn_max_health = v,
        OffsetField::PawnLifeState => o.pawn_life_state = v,
        OffsetField::PawnTeam => o.pawn_team = v,
        OffsetField::PawnSimTime => o.pawn_sim_time = v,
        OffsetField::PawnControllerHandle => o.pawn_controller_handle = v,
        OffsetField::PawnAbilityComponent => o.pawn_ability_component = v,
        OffsetField::AbilityChanneling => o.ability_channeling = v,
        OffsetField::AbilityCooldownStart => o.ability_cooldown_start = v,
        OffsetField::AbilityCooldownEnd => o.ability_cooldown_end = v,
        OffsetField::AbilitySlot => o.ability_slot = v,
        OffsetField::AbilityCharges => o.ability_charges = v,
        OffsetField::AbilityParryStart => o.ability_parry_start = v,
        OffsetField::AbilityAttackParried => o.ability_attack_parried = v,
        OffsetField::AbilityParrySuccessEnd => o.ability_parry_success_end = v,
        OffsetField::AbilityMeleeState => o.ability_melee_state = v,
        OffsetField::AbilityMeleeChain => o.ability_melee_chain = v,
        OffsetField::ControllerPlayerData => o.controller_player_data = v,
        OffsetField::ControllerPawnHandle => o.controller_pawn_handle = v,
        OffsetField::PlayerHeroId => o.player_hero_id = v,
        OffsetField::PlayerHealth => o.player_health = v,
        OffsetField::PlayerKills => o.player_kills = v,
        OffsetField::PlayerAssists => o.player_assists = v,
        OffsetField::PlayerDeaths => o.player_deaths = v,
        OffsetField::PlayerKillStreak => o.player_kill_streak = v,
        OffsetField::PlayerAlive => o.player_alive = v,
    }
}

/// Which schema class and field feed which offset slot, in lookup order.
pub open spec fn schema_field_table() -> Seq<(&'static str, &'static str, OffsetField)> {
    seq![
        ("C_CitadelPlayerPawn", "m_iHealth", OffsetField::PawnHealth),
        ("C_CitadelPlayerPawn", "m_iMaxHealth", OffsetField::PawnMaxHealth),
        ("C_CitadelPlayerPawn", "m_lifeState", OffsetField::PawnLifeState),
        ("C_CitadelPlayerPawn", "m_iTeamNum", OffsetField::PawnTeam),
        ("C_CitadelPlayerPawn", "m_flSimulationTime", OffsetField::PawnSimTime),
        ("C_CitadelPlayerPawn", "m_hController", OffsetField::PawnControllerHandle),
        ("C_CitadelPlayerPawn", "m_CCitadelAbilityComponent", OffsetField::PawnAbilityComponent),
        ("C_CitadelBaseAbility", "m_bChanneling", OffsetField::AbilityChanneling),
        ("C_CitadelBaseAbility", "m_flCooldownStart", OffsetField::AbilityCooldownStart),
        ("C_CitadelBaseAbility", "m_flCooldownEnd", OffsetField::AbilityCooldownEnd),
        ("C_CitadelBaseAbility", "m_eAbilitySlot", OffsetField::AbilitySlot),
        ("C_CitadelBaseAbility", "m_iRemainingCharges", OffsetField::AbilityCharges),
        ("CCitadel_Ability_MeleeParry", "m_flParryStartTime", OffsetField::AbilityParryStart),
        ("CCitadel_Ability_MeleeParry", "m_bAttackParried", OffsetField::AbilityAttackParried),
        ("CCitadel_Ability_MeleeParry", "m_flParrySuccessEndTime", OffsetField::AbilityParrySuccessEnd),
        ("CCitadel_Ability_HoldMelee", "m_eCurrentAttackState", OffsetField::AbilityMeleeState),
        ("CCitadel_Ability_HoldMelee", "m_nLightChainCount", OffsetField::AbilityMeleeChain),
        ("CCitadelPlayerController", "m_PlayerDataGlobal", OffsetField::ControllerPlayerData),
        ("CCitadelPlayerController", "m_hPawn", OffsetField::ControllerPawnHandle),
        ("PlayerDataGlobal_t", "m_nHeroID", OffsetField::PlayerHeroId),
        ("PlayerDataGlobal_t", "m_iHealth", OffsetField::PlayerHealth),
        ("PlayerDataGlobal_t", "m_iPlayerKills", OffsetField::PlayerKills),
        ("PlayerDataGlobal_t", "m_iPlayerAssists", OffsetField::PlayerAssists),
        ("PlayerDataGlobal_t", "m_iDeaths", OffsetField::PlayerDeaths),
        ("PlayerDataGlobal_t", "m_iKillStreak", OffsetField::PlayerKillStreak),
        ("PlayerDataGlobal_t", "m_bAlive", OffsetField::PlayerAlive),
    ]
}

/// The table of directly resolved fields.
pub fn schema_fields() -> (r: Vec<(&'static str, &'static str, OffsetField)>)
    ensures
        r@ == schema_field_table(),
{
    let mut r: Vec<(&'static str, &'static str, OffsetField)> = Vec::new();
    r.push(("C_CitadelPlayerPawn", "m_iHealth", OffsetField::PawnHealth));
    r.push(("C_CitadelPlayerPawn", "m_iMaxHealth", OffsetField::PawnMaxHealth));
    r.push(("C_CitadelPlayerPawn", "m_lifeState", OffsetField::PawnLifeState));
    r.push(("C_CitadelPlayerPawn", "m_iTeamNum", OffsetField::PawnTeam));
    r.push(("C_CitadelPlayerPawn", "m_flSimulationTime", OffsetField::PawnSimTime));
    r.push(("C_CitadelPlayerPawn", "m_hController", OffsetField::PawnControllerHandle));
    r.push(("C_CitadelPlayerPawn", "m_CCitadelAbilityComponent", OffsetField::PawnAbilityComponent));
    r.push(("C_CitadelBaseAbility", "m_bChanneling", OffsetField::AbilityChanneling));
    r.push(("C_CitadelBaseAbility", "m_flCooldownStart", OffsetField::AbilityCooldownStart));
    r.push(("C_CitadelBaseAbility", "m_flCooldownEnd", OffsetField::AbilityCooldownEnd));
    r.push(("C_CitadelBaseAbility", "m_eAbilitySlot", OffsetField::AbilitySlot));
    r.push(("C_CitadelBaseAbility", "m_iRemainingCharges", OffsetField::AbilityCharges));
    r.push(("CCitadel_Ability_MeleeParry", "m_flParryStartTime", OffsetField::AbilityParryStart));
    r.push(("CCitadel_Ability_MeleeParry", "m_bAttackParried", OffsetField::AbilityAttackParried));
    r.push(("CCitadel_Ability_MeleeParry", "m_flParrySuccessEndTime", OffsetField::AbilityParrySuccessEnd));
    r.push(("CCitadel_Ability_HoldMelee", "m_eCurrentAttackState", OffsetField::AbilityMeleeState));
    r.push(("CCitadel_Ability_HoldMelee", "m_nLightChainCount", OffsetField::AbilityMeleeChain));
    r.push(("CCitadelPlayerController", "m_PlayerDataGlobal", OffsetField::ControllerPlayerData));
    r.push(("CCitadelPlayerController", "m_hPawn", OffsetField::ControllerPawnHandle));
    r.push(("PlayerDataGlobal_t", "m_nHeroID", OffsetField::PlayerHeroId));
    r.push(("PlayerDataGlobal_t", "m_iHealth", OffsetField::PlayerHealth));
    r.push(("PlayerDataGlobal_t", "m_iPlayerKills", OffsetField::PlayerKills));
    r.push(("PlayerDataGlobal_t", "m_iPlayerAssists", OffsetField::PlayerAssists));
    r.push(("PlayerDataGlobal_t", "m_iDeaths", OffsetField::PlayerDeaths));
    r.push(("PlayerDataGlobal_t", "m_iKillStreak", OffsetField::PlayerKillStreak));
    r.push(("PlayerDataGlobal_t", "m_bAlive", OffsetField::PlayerAlive));
    assert(r@ =~= schema_field_table());
    r
}

/// An answer of the lookup that is used: present and below the bound.
pub open spec fn plausible(answer: Option<u32>) -> bool {
    answer is Some && answer->0 < MAX_FIELD_OFFSET
}

/// The offsets and the number of applied answers after the first `k` direct
/// fields of `table` were offered their answers.
pub open spec fn apply_direct(
    o: Offsets,
    table: Seq<(&'static str, &'static str, OffsetField)>,
    answers: Seq<Option<u32>>,
    k: nat,
) -> (Offsets, nat)
    decreases k,
{
    if k == 0 {
        (o, 0)
    } else {
        let (p, n) = apply_direct(o, table, answers, (k - 1) as nat);
        if plausible(answers[k - 1]) {
            (with_field(p, table[k - 1].2, answers[k - 1]->0 as u64), n + 1)
        } else {
            (p, n)
        }
    }
}

/// The result of applying the answers to all queries, in query order: the
/// direct fields, then the ability vector and the interrupt flag (both
/// relative to the resolved ability component), then the damage record and
/// its time field, whose sum is the damage time offset.
pub open spec fn schema_result(o: Offsets, answers: Seq<Option<u32>>) -> (Offsets, nat) {
    let (p0, n0) = apply_direct(o, schema_field_table(), answers, DIRECT_FIELD_COUNT as nat);
    let base = p0.pawn_ability_component;
    let vec_abilities = answers[DIRECT_FIELD_COUNT as int];
    let interrupt = answers[DIRECT_FIELD_COUNT + 1];
    let damage = answers[DIRECT_FIELD_COUNT + 2];
    let last_time = answers[DIRECT_FIELD_COUNT + 3];
    let (p1, n1) = if plausible(vec_abilities) {
        (Offsets { abilities_vector: (base + vec_abilities->0) as u64, ..p0 }, n0 + 1)
    } else {
        (p0, n0)
    };
    let (p2, n2) = if plausible(interrupt) {
        (Offsets { pawn_interrupt_state: (base + interrupt->0) as u64, ..p1 }, n1 + 1)
    } else {
        (p1, n1)
    };
    if damage is Some && last_time is Some && damage->0 + last_time->0 < MAX_FIELD_OFFSET {
        (Offsets { pawn_damage_taken_time: (damage->0 + last_time->0) as u64, ..p2 }, n2 + 1)
    } else {
        (p2, n2)
    }
}

/// The lookup may answer `answers[i]` for the `i`-th query.
pub open spec fn answers_from<F: Fn(&'static str, &'static str) -> Option<u32>>(
    lookup: F,
    answers: Seq<Option<u32>>,
) -> bool {
    let table = schema_field_table();
    &&& answers.len() == DIRECT_FIELD_COUNT + 4
    &&& forall|i: int|
        0 <= i < DIRECT_FIELD_COUNT ==> call_ensures(
            lookup,
            (table[i].0, table[i].1),
            #[trigger] answers[i],
        )
    &&& call_ensures(
        lookup,
        ("CCitadelAbilityComponent", "m_vecAbilities"),
        answers[DIRECT_FIELD_COUNT as int],
    )
    &&& call_ensures(
        lookup,
        ("CCitadelAbilityComponent", "m_bInInterruptState"),
        answers[DIRECT_FIELD_COUNT + 1],
    )
    &&& call_ensures(
        lookup,
        ("C_CitadelPlayerPawn", "m_sPlayerDamageTaken"),
        answers[DIRECT_FIELD_COUNT + 2],
    )
    &&& call_ensures(
        lookup,
        ("CCitadelRecentDamage", "m_flLastDamageTime"),
        answers[DIRECT_FIELD_COUNT + 3],
    )
}

proof fn lemma_direct_count_bound(o: Offsets, answers: Seq<Option<u32>>, k: nat)
    requires
        k <= DIRECT_FIELD_COUNT,
    ensures
        apply_direct(o, schema_field_table(), answers, k).1 <= k,
    decreases k,
{
    if k > 0 {
        lemma_direct_count_bound(o, answers, (k - 1) as nat);
    }
}

/// Only the seventh direct field feeds the ability component slot.
proof fn lemma_component_slot_index(i: int)
    requires
        0 <= i < DIRECT_FIELD_COUNT,
    ensures
        (schema_field_table()[i].2 == OffsetField::PawnAbilityComponent) == (i == 6),
{
}

/// After the first `k` direct fields, the ability component slot holds the
/// component's answer where it was applied, and its old value otherwise.
proof fn lemma_component_after_direct(o: Offsets, answers: Seq<Option<u32>>, k: nat)
    requires
        k <= DIRECT_FIELD_COUNT,
    ensures
        apply_direct(o, schema_field_table(), answers, k).0.pawn_ability_component == if k > 6
            && plausible(answers[6]) {
            answers[6]->0 as u64
        } else {
            o.pawn_ability_component
        },
    decreases k,
{
    if k > 0 {
        lemma_component_after_direct(o, answers, (k - 1) as nat);
        lemma_component_slot_index(k - 1);
    }
}

/// The composite offsets add an answer to the resolved ability component;
/// where the component is not resolved, its old value must leave room for
/// every plausible answer.
pub open spec fn composite_room<F: Fn(&'static str, &'static str) -> Option<u32>>(
    lookup: F,
    base: u64,
) -> bool {
    &&& forall|c: Option<u32>, a: Option<u32>|
        #![trigger call_ensures(lookup, ("C_CitadelPlayerPawn", "m_CCitadelAbilityComponent"), c), call_ensures(lookup, ("CCitadelAbilityComponent", "m_vecAbilities"), a)]
        call_ensures(lookup, ("C_CitadelPlayerPawn", "m_CCitadelAbilityComponent"), c)
            && !plausible(c) && call_ensures(
            lookup,
            ("CCitadelAbilityComponent", "m_vecAbilities"),
            a,
        ) && plausible(a) ==> base + a->0 <= u64::MAX
    &&& forall|c: Option<u32>, a: Option<u32>|
        #![trigger call_ensures(lookup, ("C_CitadelPlayerPawn", "m_CCitadelAbilityComponent"), c), call_ensures(lookup, ("CCitadelAbilityComponent", "m_bInInterruptState"), a)]
        call_ensures(lookup, ("C_CitadelPlayerPawn", "m_CCitadelAbilityComponent"), c)
            && !plausible(c) && call_ensures(
            lookup,
            ("CCitadelAbilityComponent", "m_bInInterruptState"),
            a,
        ) && plausible(a) ==> base + a->0 <= u64::MAX
}

/// Overwrite offset slots from `lookup(class, field)`. Composite offsets are
/// computed from their parts; answers at or beyond `MAX_FIELD_OFFSET` and
/// misses keep the existing value. Returns how many offsets were applied.
pub fn apply_from_schema<F: Fn(&'static str, &'static str) -> Option<u32>>(
    offsets: &mut Offsets,
    lookup: F,
) -> (applied: usize)
    requires
        forall|class: &'static str, field: &'static str| call_requires(lookup, (class, field)),
        composite_room(lookup, old(offsets).pawn_ability_component),
    ensures
        exists|answers: Seq<Option<u32>>|
            #![trigger schema_result(*old(offsets), answers)]
            answers_from(lookup, answers) && schema_result(*old(offsets), answers) == (
                *final(offsets),
                applied as nat,
            ),
{
    let table = schema_fields();
    let ghost start = *offsets;
    let ghost mut answers: Seq<Option<u32>> = Seq::empty();
    let mut applied: usize = 0;
    let mut k: usize = 0;
    while k < table.len()
        invariant
            table@ == schema_field_table(),
            k <= table.len(),
            answers.len() == k,
            forall|class: &'static str, field: &'static str| call_requires(lookup, (class, field)),
            forall|i: int|
                0 <= i < k ==> call_ensures(
                    lookup,
                    (table@[i].0, table@[i].1),
                    #[trigger] answers[i],
                ),
            apply_direct(start, table@, answers, k as nat) == (*offsets, applied as nat),
        decreases table.len() - k,
    {
        let (class, field, slot) = table[k];
        let answer = lookup(class, field);
        proof {
            let old_answers = answers;
            answers = answers.push(answer);
            assert(answers.subrange(0, k as int) =~= old_answers);
            assert forall|i: int| 0 <= i < k implies answers[i] == old_answers[i] by {}
            lemma_apply_direct_prefix(start, table@, old_answers, answers, k as nat);
            lemma_direct_count_bound(start, answers, k as nat);
        }
        if let Some(value) = answer {
            if value < MAX_FIELD_OFFSET {
                set_field(offsets, slot, value as u64);
                applied += 1;
            }
        }
        k += 1;
    }
    proof {
        lemma_direct_count_bound(start, answers, k as nat);
        lemma_component_after_direct(start, answers, k as nat);
        assert(table@[6].0 == "C_CitadelPlayerPawn" && table@[6].1 == "m_CCitadelAbilityComponent");
        assert(call_ensures(lookup, (table@[6].0, table@[6].1), answers[6]));
    }
    let component_base = offsets.pawn_ability_component;
    let vec_abilities = lookup("CCitadelAbilityComponent", "m_vecAbilities");
    if let Some(v) = vec_abilities {
        if v < MAX_FIELD_OFFSET {
            offsets.abilities_vector = component_base + v as u64;
            applied += 1;
        }
    }
    let interrupt = lookup("CCitadelAbilityComponent", "m_bInInterruptState");
    if let Some(v) = interrupt {
        if v < MAX_FIELD_OFFSET {
            offsets.pawn_interrupt_state = component_base + v as u64;
            applied += 1;
        }
    }
    let damage = lookup("C_CitadelPlayerPawn", "m_sPlayerDamageTaken");
    let last_time = lookup("CCitadelRecentDamage", "m_flLastDamageTime");
    if let (Some(d), Some(t)) = (damage, last_time) {
        if let Some(sum) = d.checked_add(t) {
            if sum < MAX_FIELD_OFFSET {
                offsets.pawn_damage_taken_time = sum as u64;
                applied += 1;
            }
        }
    }
    proof {
        let direct = answers;
        answers = direct.push(vec_abilities).push(interrupt).push(damage).push(last_time);
        lemma_apply_direct_prefix(
            start,
            table@,
            direct,
            answers,
            DIRECT_FIELD_COUNT as nat,
        );
        assert(answers[DIRECT_FIELD_COUNT as int] == vec_abilities);
        assert(answers[DIRECT_FIELD_COUNT + 1] == interrupt);
        assert(answers[DIRECT_FIELD_COUNT + 2] == damage);
        assert(answers[DIRECT_FIELD_COUNT + 3] == last_time);
        assert forall|i: int| 0 <= i < DIRECT_FIELD_COUNT implies answers[i] == direct[i] by {}
        assert(answers_from(lookup, answers));
        assert(schema_result(start, answers) == (*offsets, applied as nat));
    }
    applied
}

/// `apply_direct` over the first `k` answers only looks at those answers.
proof fn lemma_apply_direct_prefix(
    o: Offsets,
    table: Seq<(&'static str, &'static str, OffsetField)>,
    a: Seq<Option<u32>>,
    b: Seq<Option<u32>>,
    k: nat,
)
    requires
        k <= a.len(),
        k <= b.len(),
        forall|i: int| 0 <= i < k ==> a[i] == b[i],
    ensures
        apply_direct(o, table, a, k) == apply_direct(o, table, b, k),
    decreases k,
{
    if k > 0 {
        lemma_apply_direct_prefix(o, table, a, b, (k - 1) as nat);
    }
}

proof fn lemma_direct_rejects_all(o: Offsets, answers: Seq<Option<u32>>, k: nat)
    requires
        k <= answers.len(),
        forall|i: int| 0 <= i < answers.len() ==> !plausible(#[trigger] answers[i]),
    ensures
        apply_direct(o, schema_field_table(), answers, k) == (o, 0nat),
    decreases k,
{
    if k > 0 {
        lemma_direct_rejects_all(o, answers, (k - 1) as nat);
    }
}

/// A lookup whose every answer is a miss or implausible changes nothing and
/// applies nothing.
pub proof fn lemma_implausible_answers_change_nothing(o: Offsets, answers: Seq<Option<u32>>)
    requires
        answers.len() == DIRECT_FIELD_COUNT + 4,
        forall|i: int| 0 <= i < answers.len() ==> !plausible(#[trigger] answers[i]),
    ensures
        schema_result(o, answers) == (o, 0nat),
{
    lemma_direct_rejects_all(o, answers, DIRECT_FIELD_COUNT as nat);
    assert(!plausible(answers[DIRECT_FIELD_COUNT + 2]));
    assert(!plausible(answers[DIRECT_FIELD_COUNT + 3]));
}

/// Applied offsets needed before the schema counts as resolved (and the
/// sampler stops retrying).
pub const MIN_SCHEMA_FIELDS: usize = 8;

/// Whether a schema pass resolved enough offsets to stop retrying.
pub fn schema_resolved(applied: usize) -> (b: bool)
    ensures
        b == (applied >= MIN_SCHEMA_FIELDS),
{
    applied >= MIN_SCHEMA_FIELDS
}

/// Largest field count a class description is believed to have.
pub const MAX_CLASS_FIELDS: u16 = 4096;
/// Width of one field entry in a class description.
pub const FIELD_ENTRY_SIZE: u64 = 0x20;
/// Where a field entry keeps its offset.
pub const FIELD_OFFSET_AT: u64 = 0x10;

/// Whether a class description's field list is worth walking.
pub fn field_list_usable(fields_ptr: u64, field_count: u16) -> (b: bool)
    ensures
        b == (fields_ptr != 0 && field_count != 0 && field_count <= MAX_CLASS_FIELDS),
{
    fields_ptr != 0 && field_count != 0 && field_count <= MAX_CLASS_FIELDS
}

/// The address of field entry `index` of a field list, and where that
/// entry keeps its offset; `None` when the arithmetic leaves the address
/// space.
pub fn field_entry_addresses(fields_ptr: u64, index: u16) -> (r: Option<(u64, u64)>)
    ensures
        ({
            let entry = fields_ptr + index * FIELD_ENTRY_SIZE;
            if entry + FIELD_OFFSET_AT <= u64::MAX {
                r == Some((entry as u64, (entry + FIELD_OFFSET_AT) as u64))
            } else {
                r is None
            }
        }),
{
    let step = (index as u64) * FIELD_ENTRY_SIZE;
    let entry = fields_ptr.checked_add(step)?;
    let offset_at = entry.checked_add(FIELD_OFFSET_AT)?;
    Some((entry, offset_at))
}

/// A NUL-terminated name: the bytes before the first zero byte (all of
/// them when there is none).
pub open spec fn c_string_spec(bytes: Seq<u8>) -> Seq<u8>
    decreases bytes.len(),
{
    if bytes.len() == 0 {
        Seq::empty()
    } else if bytes[0] == 0 {
        Seq::empty()
    } else {
        seq![bytes[0]] + c_string_spec(bytes.drop_first())
    }
}

pub fn c_string_bytes(bytes: &[u8]) -> (r: Vec<u8>)
    ensures
        r@ == c_string_spec(bytes@),
{
    let mut r: Vec<u8> = Vec::new();
    let mut k: usize = 0;
    assert(bytes@.subrange(0, bytes@.len() as int) =~= bytes@);
    assert(c_string_spec(bytes@) =~= r@ + c_string_spec(bytes@));
    while k < bytes.len() && bytes[k] != 0
        invariant
            k <= bytes@.len(),
            r@ == bytes@.subrange(0, k as int),
            c_string_spec(bytes@) == r@ + c_string_spec(bytes@.subrange(k as int, bytes@.len() as int)),
        decreases bytes.len() - k,
    {
        let ghost rest = bytes@.subrange(k as int, bytes@.len() as int);
        assert(rest.drop_first() =~= bytes@.subrange(k + 1, bytes@.len() as int));
        r.push(bytes[k]);
        k += 1;
        assert(r@ =~= bytes@.subrange(0, k as int));
        assert(c_string_spec(bytes@) =~= r@ + c_string_spec(bytes@.subrange(k as int, bytes@.len() as int)));
    }
    r
}

} // verus!
