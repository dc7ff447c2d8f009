//! What the desktop front end's commands decide: parsing their arguments,
//! applying rule and settings edits to a configuration, listing rules for
//! display, and the log lines of the test actions.

use vstd::prelude::*;
use crate::config::{AppConfig, TriggerConfig, TriggerConfigView, UNIT, default_rule, find_rule, find_rule_index, rule_for, rule_keys, rules_well_formed};
use crate::shock::{
    ShockConfig, ShockConfigView, ShockKind, Shocker, clamp_int, filter_ids_spec, filter_shocker_ids,
    roster_ids, strings_view,
};
use crate::text::{chars_eq, chars_of, decimal_seq, push_chars, push_str, str_eq, string_of, trim_chars, trim_end_char, trim_end_char_seq, trim_seq};
use crate::trigger::{Pattern, TriggerKind, parse_trigger_spec, unknown_trigger_message};

verus! {

/// Roster entries kept at most.
pub const MAX_ROSTER: usize = 16;

/// A control type named by the front end; anything unknown means a shock.
pub open spec fn shock_kind_named(raw: Seq<char>) -> ShockKind {
    if raw == "vibrate"@ {
        ShockKind::Vibrate
    } else if raw == "sound"@ {
        ShockKind::Sound
    } else {
        ShockKind::Shock
    }
}

pub fn parse_shock_kind(raw: &str) -> (k: ShockKind)
    ensures
        k == shock_kind_named(raw@),
{
    if str_eq(raw, "vibrate") {
        ShockKind::Vibrate
    } else if str_eq(raw, "sound") {
        ShockKind::Sound
    } else {
        ShockKind::Shock
    }
}

/// A pattern named by the front end; anything unknown means plain vibration.
pub open spec fn pattern_named(raw: Seq<char>) -> Pattern {
    if raw == "pulse"@ {
        Pattern::Pulse
    } else if raw == "ramp"@ {
        Pattern::Ramp
    } else {
        Pattern::Vibrate
    }
}

pub fn parse_pattern(raw: &str) -> (p: Pattern)
    ensures
        p == pattern_named(raw@),
{
    if str_eq(raw, "pulse") {
        Pattern::Pulse
    } else if str_eq(raw, "ramp") {
        Pattern::Ramp
    } else {
        Pattern::Vibrate
    }
}

/// The trigger a test button names: the shortcuts `punch`, `ability` and
/// `ready`, or any trigger key.
pub open spec fn test_trigger_spec(kind: Seq<char>) -> Option<TriggerKind> {
    if kind == "punch"@ {
        Some(TriggerKind::PunchLanded)
    } else if kind == "ability"@ {
        Some(TriggerKind::AbilityUsed { slot: 0 })
    } else if kind == "ready"@ {
        Some(TriggerKind::AbilityReady { slot: 0 })
    } else {
        parse_trigger_spec(kind)
    }
}

pub fn parse_trigger(kind: &str) -> (r: Result<TriggerKind, String>)
    ensures
        match test_trigger_spec(kind@) {
            Some(t) => r == Ok::<TriggerKind, String>(t),
            None => r matches Err(message) && message@ == unknown_trigger_message(kind@),
        },
{
    if str_eq(kind, "punch") {
        Ok(TriggerKind::PunchLanded)
    } else if str_eq(kind, "ability") {
        Ok(TriggerKind::AbilityUsed { slot: 0 })
    } else if str_eq(kind, "ready") {
        Ok(TriggerKind::AbilityReady { slot: 0 })
    } else {
        TriggerKind::parse(kind)
    }
}

/// A roster entry as the front end shows it.
#[derive(Debug, Clone, PartialEq, Eq)]
pub struct ShockerView {
    pub id: String,
    pub name: String,
}

/// A roster entry as the front end sends it.
#[derive(Debug, Clone, PartialEq, Eq)]
pub struct ShockerArgs {
    pub id: String,
    pub name: String,
}

/// Update-check status as the front end shows it.
#[derive(Debug, Clone, PartialEq, Eq)]
pub struct UpdateStatusView {
    pub checks_enabled: bool,
    pub latest_version: Option<String>,
    pub available: Option<String>,
}

/// The settings as the front end shows them (gain and cap in millionths).
#[derive(Debug, Clone, PartialEq, Eq)]
pub struct ConfigView {
    pub master_gain: i64,
    pub max_strength_cap: i64,
    pub mute_while_dead: bool,
    pub debug_logging: bool,
    pub mod_http_port: u16,
    pub dll_event_port: u16,
    pub buttplug_ws_url: String,
    pub dll_path: Option<String>,
    pub openshock_enabled: bool,
    pub openshock_api_token: String,
    pub openshock_base_url: String,
    pub openshock_shockers: Vec<ShockerView>,
    /// Whether shocks could be sent with these settings.
    pub openshock_ready: bool,
}

impl ConfigView {
    /// The settings of `config` as shown: every scalar copied, the roster
    /// entry by entry, and whether OpenShock is ready to use.
    pub fn from_config(config: &AppConfig) -> (v: ConfigView)
        ensures
            v.master_gain == config.master_gain,
            v.max_strength_cap == config.max_strength_cap,
            v.mute_while_dead == config.mute_while_dead,
            v.debug_logging == config.debug_logging,
            v.mod_http_port == config.mod_http_port,
            v.dll_event_port == config.dll_event_port,
            v.buttplug_ws_url == config.buttplug_ws_url,
            v.dll_path == config.dll_path,
            v.openshock_enabled == config.openshock.enabled,
            v.openshock_api_token == config.openshock.api_token,
            v.openshock_base_url == config.openshock.base_url,
            v.openshock_shockers@.len() == config.openshock.shockers@.len(),
            forall|i: int|
                0 <= i < v.openshock_shockers@.len() ==> (#[trigger] v.openshock_shockers@[i]).id
                    == config.openshock.shockers@[i].id && v.openshock_shockers@[i].name
                    == config.openshock.shockers@[i].name,
            v.openshock_ready == crate::openshock::configured_spec(config.openshock),
    {
        let roster = &config.openshock.shockers;
        let mut shockers: Vec<ShockerView> = Vec::new();
        let mut k: usize = 0;
        while k < roster.len()
            invariant
                k <= roster.len(),
                shockers@.len() == k,
                forall|i: int|
                    0 <= i < k ==> (#[trigger] shockers@[i]).id == roster@[i].id
                        && shockers@[i].name == roster@[i].name,
            decreases roster.len() - k,
        {
            shockers.push(ShockerView { id: roster[k].id.clone(), name: roster[k].name.clone() });
            k += 1;
        }
        let dll_path = match &config.dll_path {
            Some(p) => Some(p.clone()),
            None => None,
        };
        ConfigView {
            master_gain: config.master_gain,
            max_strength_cap: config.max_strength_cap,
            mute_while_dead: config.mute_while_dead,
            debug_logging: config.debug_logging,
            mod_http_port: config.mod_http_port,
            dll_event_port: config.dll_event_port,
            buttplug_ws_url: config.buttplug_ws_url.clone(),
            dll_path,
            openshock_enabled: config.openshock.enabled,
            openshock_api_token: config.openshock.api_token.clone(),
            openshock_base_url: config.openshock.base_url.clone(),
            openshock_shockers: shockers,
            openshock_ready: crate::openshock::configured(&config.openshock),
        }
    }
}

/// The roster kept from submitted entries: ids trimmed, blank and repeated
/// ids dropped, names trimmed (a blank name becomes `Shocker`), at most
/// `MAX_ROSTER` entries in submission order.
pub open spec fn sanitized(entries: Seq<(Seq<char>, Seq<char>)>) -> Seq<(Seq<char>, Seq<char>)>
    decreases entries.len(),
{
    if entries.len() == 0 {
        Seq::empty()
    } else {
        let prev = sanitized(entries.drop_last());
        let id = trim_seq(entries.last().0);
        let name = trim_seq(entries.last().1);
        if id.len() == 0 || (exists|i: int| 0 <= i < prev.len() && (#[trigger] prev[i]).0 == id)
            || prev.len() >= MAX_ROSTER {
            prev
        } else {
            prev.push(
                (
                    id,
                    if name.len() == 0 {
                        "Shocker"@
                    } else {
                        name
                    },
                ),
            )
        }
    }
}

pub open spec fn args_view(entries: Seq<ShockerArgs>) -> Seq<(Seq<char>, Seq<char>)> {
    entries.map_values(|e: ShockerArgs| (e.id@, e.name@))
}

pub open spec fn roster_view(roster: Seq<Shocker>) -> Seq<(Seq<char>, Seq<char>)> {
    roster.map_values(|s: Shocker| (s.id@, s.name@))
}

proof fn lemma_sanitized_len(entries: Seq<(Seq<char>, Seq<char>)>)
    ensures
        sanitized(entries).len() <= MAX_ROSTER,
        sanitized(entries).len() <= entries.len(),
    decreases entries.len(),
{
    if entries.len() > 0 {
        lemma_sanitized_len(entries.drop_last());
    }
}

fn roster_has_id(roster: &Vec<Shocker>, id: &Vec<char>) -> (r: bool)
    ensures
        r == exists|i: int| 0 <= i < roster@.len() && (#[trigger] roster_view(roster@)[i]).0 == id@,
{
    let mut k: usize = 0;
    while k < roster.len()
        invariant
            k <= roster.len(),
            forall|i: int| 0 <= i < k ==> (#[trigger] roster_view(roster@)[i]).0 != id@,
        decreases roster.len() - k,
    {
        assert(roster_view(roster@)[k as int] == (roster@[k as int].id@, roster@[k as int].name@));
        if chars_eq(&chars_of(roster[k].id.as_str()), id) {
            return true;
        }
        k += 1;
    }
    false
}

/// Clean a roster submitted by the front end.
pub fn sanitize_roster(entries: Vec<ShockerArgs>) -> (r: Vec<Shocker>)
    ensures
        roster_view(r@) == sanitized(args_view(entries@)),
        r@.len() <= MAX_ROSTER,
{
    let mut shockers: Vec<Shocker> = Vec::new();
    let mut k: usize = 0;
    assert(roster_view(shockers@) =~= sanitized(args_view(entries@).subrange(0, 0)));
    while k < entries.len()
        invariant
            k <= entries.len(),
            roster_view(shockers@) == sanitized(args_view(entries@).subrange(0, k as int)),
        decreases entries.len() - k,
    {
        let ghost pre = args_view(entries@).subrange(0, k as int);
        assert(args_view(entries@).subrange(0, k + 1).drop_last() =~= pre);
        assert(args_view(entries@).subrange(0, k + 1).last() == (entries@[k as int].id@, entries@[k as int].name@));
        proof {
            lemma_sanitized_len(pre);
        }
        let id = trim_chars(&chars_of(entries[k].id.as_str()));
        let name = trim_chars(&chars_of(entries[k].name.as_str()));
        if id.len() > 0 && !roster_has_id(&shockers, &id) && shockers.len() < MAX_ROSTER {
            let ghost before = roster_view(shockers@);
            let shown = if name.len() == 0 {
                string_of(chars_of("Shocker").as_slice())
            } else {
                string_of(name.as_slice())
            };
            shockers.push(Shocker { id: string_of(id.as_slice()), name: shown });
            assert(roster_view(shockers@) =~= before.push((id@, if name@.len() == 0 {
                "Shocker"@
            } else {
                name@
            })));
        }
        k += 1;
    }
    assert(args_view(entries@).subrange(0, k as int) =~= args_view(entries@));
    proof {
        lemma_sanitized_len(args_view(entries@));
    }
    shockers
}

/// The device list as shown after a toy action.
pub open spec fn devices_text(names: Seq<Seq<char>>) -> Seq<char> {
    if names.len() == 0 {
        "no devices yet"@
    } else {
        crate::pipeline::join_comma(names)
    }
}

fn push_joined(out: &mut Vec<char>, names: &[String])
    ensures
        final(out)@ == old(out)@ + crate::pipeline::join_comma(strings_view(names@)),
{
    let ghost start = out@;
    let ghost views = strings_view(names@);
    let mut k: usize = 0;
    assert(views.subrange(0, 0) =~= Seq::<Seq<char>>::empty());
    while k < names.len()
        invariant
            k <= names.len(),
            views == strings_view(names@),
            out@ == start + crate::pipeline::join_comma(views.subrange(0, k as int)),
        decreases names.len() - k,
    {
        if k > 0 {
            push_str(out, ", ");
        }
        push_str(out, names[k].as_str());
        proof {
            reveal_strlit(", ");
            let s = views.subrange(0, k + 1);
            assert(s.drop_last() =~= views.subrange(0, k as int));
            assert(s.last() == names@[k as int]@);
            assert(out@ =~= start + crate::pipeline::join_comma(s));
        }
        k += 1;
    }
    assert(views.subrange(0, k as int) =~= views);
}

pub fn describe_devices(names: &[String]) -> (s: String)
    ensures
        s@ == devices_text(strings_view(names@)),
{
    if names.len() == 0 {
        return string_of(chars_of("no devices yet").as_slice());
    }
    let mut out: Vec<char> = Vec::new();
    push_joined(&mut out, names);
    string_of(out.as_slice())
}


// ---------------------------------------------------------------------------
// Editing one trigger rule.

/// The settings the front end submits for one trigger rule (strength in
/// millionths).
#[derive(Debug, Clone)]
pub struct TriggerEdit {
    pub enabled: bool,
    pub strength: i64,
    pub duration_ms: u64,
    pub retrigger_cooldown_ms: u64,
    pub pattern: String,
    pub vibrate_devices: Option<Vec<String>>,
    pub shock_enabled: Option<bool>,
    pub shock_intensity: Option<u8>,
    pub shock_duration_ms: Option<u64>,
    pub shock_kind: Option<String>,
    pub shock_shocker_ids: Option<Vec<String>>,
}

/// Device names trimmed, blank and repeated names dropped, first-seen order.
pub open spec fn clean_names(names: Seq<Seq<char>>) -> Seq<Seq<char>>
    decreases names.len(),
{
    if names.len() == 0 {
        Seq::empty()
    } else {
        let prev = clean_names(names.drop_last());
        let t = trim_seq(names.last());
        if t.len() == 0 || prev.contains(t) {
            prev
        } else {
            prev.push(t)
        }
    }
}

fn names_contain(names: &Vec<Vec<char>>, name: &Vec<char>) -> (r: bool)
    ensures
        r == names@.map_values(|n: Vec<char>| n@).contains(name@),
{
    let ghost views = names@.map_values(|n: Vec<char>| n@);
    let mut k: usize = 0;
    while k < names.len()
        invariant
            k <= names.len(),
            views == names@.map_values(|n: Vec<char>| n@),
            forall|i: int| 0 <= i < k ==> views[i] != name@,
        decreases names.len() - k,
    {
        if chars_eq(&names[k], name) {
            assert(views[k as int] == name@);
            return true;
        }
        k += 1;
    }
    false
}

fn clean_device_names(names: &Vec<String>) -> (r: Vec<String>)
    ensures
        strings_view(r@) == clean_names(strings_view(names@)),
{
    let ghost views = strings_view(names@);
    let mut kept: Vec<Vec<char>> = Vec::new();
    let mut k: usize = 0;
    assert(kept@.map_values(|n: Vec<char>| n@) =~= clean_names(views.subrange(0, 0)));
    while k < names.len()
        invariant
            k <= names.len(),
            views == strings_view(names@),
            kept@.map_values(|n: Vec<char>| n@) == clean_names(views.subrange(0, k as int)),
        decreases names.len() - k,
    {
        assert(views.subrange(0, k + 1).drop_last() =~= views.subrange(0, k as int));
        assert(views.subrange(0, k + 1).last() == names@[k as int]@);
        let t = trim_chars(&chars_of(names[k].as_str()));
        if t.len() > 0 && !names_contain(&kept, &t) {
            let ghost before = kept@.map_values(|n: Vec<char>| n@);
            kept.push(t);
            assert(kept@.map_values(|n: Vec<char>| n@) =~= before.push(kept@.last()@));
        }
        k += 1;
    }
    assert(views.subrange(0, k as int) =~= views);
    let mut out: Vec<String> = Vec::new();
    let mut m: usize = 0;
    while m < kept.len()
        invariant
            m <= kept.len(),
            strings_view(out@) == kept@.map_values(|n: Vec<char>| n@).subrange(0, m as int),
        decreases kept.len() - m,
    {
        let ghost before = strings_view(out@);
        out.push(string_of(kept[m].as_slice()));
        assert(strings_view(out@) =~= before.push(kept@[m as int]@));
        m += 1;
        assert(strings_view(out@) =~= kept@.map_values(|n: Vec<char>| n@).subrange(0, m as int));
    }
    assert(kept@.map_values(|n: Vec<char>| n@).subrange(0, m as int) =~= kept@.map_values(
        |n: Vec<char>| n@,
    ));
    out
}

/// Shock settings of a rule that has none yet.
pub open spec fn default_shock() -> ShockConfigView {
    ShockConfigView { enabled: false, intensity: 20, duration_ms: 300, kind: ShockKind::Shock, shocker_ids: None }
}

/// The shock settings after an edit: replaced only when enabled, intensity
/// and duration are all given (clamped into the API range; the kind kept
/// unless given; the selection filtered against the roster, or cleared).
pub open spec fn edited_shock(prev: Option<ShockConfigView>, e: TriggerEdit, roster: Seq<Seq<char>>) -> Option<ShockConfigView> {
    if e.shock_enabled is Some && e.shock_intensity is Some && e.shock_duration_ms is Some {
        let base = match prev {
            Some(s) => s,
            None => default_shock(),
        };
        Some(
            ShockConfigView {
                enabled: e.shock_enabled->0,
                intensity: clamp_int(e.shock_intensity->0 as int, 1, 100) as u8,
                duration_ms: clamp_int(e.shock_duration_ms->0 as int, 300, 30_000) as u64,
                kind: match e.shock_kind {
                    Some(k) => shock_kind_named(k@),
                    None => base.kind,
                },
                shocker_ids: match e.shock_shocker_ids {
                    Some(ids) => Some(filter_ids_spec(strings_view(ids@), roster)),
                    None => None,
                },
            },
        )
    } else {
        prev
    }
}

/// A rule after an edit.
pub open spec fn edited_rule(r: TriggerConfigView, e: TriggerEdit, roster: Seq<Seq<char>>) -> TriggerConfigView {
    TriggerConfigView {
        enabled: e.enabled,
        strength: clamp_int(e.strength as int, 0, UNIT as int) as i64,
        duration_ms: e.duration_ms,
        retrigger_cooldown_ms: e.retrigger_cooldown_ms,
        pattern: pattern_named(e.pattern@),
        vibrate_devices: match e.vibrate_devices {
            Some(names) => Some(clean_names(strings_view(names@))),
            None => r.vibrate_devices,
        },
        shock: edited_shock(r.shock, e, roster),
    }
}

fn apply_shock_edit(prev: &Option<ShockConfig>, e: &TriggerEdit, roster: &Vec<Shocker>) -> (r: Option<ShockConfig>)
    ensures
        match r {
            Some(s) => Some(s@),
            None => None::<ShockConfigView>,
        } == edited_shock(
            match prev {
                Some(s) => Some(s@),
                None => None,
            },
            *e,
            roster_ids(roster@),
        ),
{
    match (e.shock_enabled, e.shock_intensity, e.shock_duration_ms) {
        (Some(enabled), Some(intensity), Some(duration_ms)) => {
            let mut next = match prev {
                Some(s) => s.duplicate(),
                None => ShockConfig::default(),
            };
            next.enabled = enabled;
            next.intensity = if intensity < 1 {
                1
            } else if intensity > 100 {
                100
            } else {
                intensity
            };
            next.duration_ms = if duration_ms < 300 {
                300
            } else if duration_ms > 30_000 {
                30_000
            } else {
                duration_ms
            };
            if let Some(kind) = &e.shock_kind {
                next.kind = parse_shock_kind(kind.as_str());
            }
            next.shocker_ids = match &e.shock_shocker_ids {
                None => None,
                Some(ids) => Some(filter_shocker_ids(ids.as_slice(), roster.as_slice())),
            };
            Some(next)
        },
        _ => match prev {
            Some(s) => Some(s.duplicate()),
            None => None,
        },
    }
}

fn apply_rule_edit(rule: &TriggerConfig, e: &TriggerEdit, roster: &Vec<Shocker>) -> (r: TriggerConfig)
    ensures
        r@ == edited_rule(rule@, *e, roster_ids(roster@)),
{
    let strength = if e.strength < 0 {
        0
    } else if e.strength > UNIT {
        UNIT
    } else {
        e.strength
    };
    let vibrate_devices = match &e.vibrate_devices {
        Some(names) => Some(clean_device_names(names)),
        None => crate::shock::copy_optional_strings(&rule.vibrate_devices),
    };
    TriggerConfig {
        enabled: e.enabled,
        strength,
        duration_ms: e.duration_ms,
        retrigger_cooldown_ms: e.retrigger_cooldown_ms,
        pattern: parse_pattern(e.pattern.as_str()),
        shock: apply_shock_edit(&rule.shock, e, roster),
        vibrate_devices,
    }
}

/// Apply a rule edit: the trigger's own rule is edited (a missing rule
/// starts from the default rule and is added at the end); nothing else in
/// the configuration changes.
pub fn apply_trigger_edit(config: &mut AppConfig, trigger: TriggerKind, edit: &TriggerEdit)
    ensures
        match find_rule(rule_keys(old(config).triggers@), trigger) {
            Some(i) => {
                &&& final(config).triggers@.len() == old(config).triggers@.len()
                &&& final(config).triggers@[i].0 == trigger
                &&& final(config).triggers@[i].1@ == edited_rule(
                    old(config).triggers@[i].1@,
                    *edit,
                    roster_ids(old(config).openshock.shockers@),
                )
                &&& forall|j: int|
                    0 <= j < old(config).triggers@.len() && j != i ==> #[trigger] final(config).triggers@[j]
                        == old(config).triggers@[j]
            },
            None => {
                &&& final(config).triggers@.len() == old(config).triggers@.len() + 1
                &&& final(config).triggers@.last().0 == trigger
                &&& final(config).triggers@.last().1@ == edited_rule(
                    default_rule(),
                    *edit,
                    roster_ids(old(config).openshock.shockers@),
                )
                &&& forall|j: int|
                    0 <= j < old(config).triggers@.len() ==> #[trigger] final(config).triggers@[j]
                        == old(config).triggers@[j]
            },
        },
        final(config).openshock == old(config).openshock,
        final(config).master_gain == old(config).master_gain,
        final(config).max_strength_cap == old(config).max_strength_cap,
        final(config).mute_while_dead == old(config).mute_while_dead,
        final(config).data_source == old(config).data_source,
        rules_well_formed(old(config).triggers@) ==> rules_well_formed(final(config).triggers@),
        rule_for(final(config).triggers@, trigger) == edited_rule(
            match find_rule(rule_keys(old(config).triggers@), trigger) {
                Some(i) => old(config).triggers@[i].1@,
                None => default_rule(),
            },
            *edit,
            roster_ids(old(config).openshock.shockers@),
        ),
{
    let ghost keys = rule_keys(config.triggers@);
    match find_rule_index(&config.triggers, trigger) {
        Some(i) => {
            let edited = apply_rule_edit(&config.triggers[i].1, edit, &config.openshock.shockers);
            let ghost before = config.triggers@;
            config.triggers.set(i, (trigger, edited));
            proof {
                crate::config::lemma_find_rule_bounds(keys, trigger);
            }
            assert(rule_keys(config.triggers@) =~= keys);
            proof {
                if rules_well_formed(before) {
                    assert forall|j: int| 0 <= j < before.len() implies #[trigger] before[j].0
                        == config.triggers@[j].0 by {
                        assert(rule_keys(before)[j] == rule_keys(config.triggers@)[j]);
                    }
                    crate::config::lemma_same_keys_keep_unique(before, config.triggers@);
                }
            }
        },
        None => {
            let edited = apply_rule_edit(&TriggerConfig::default(), edit, &config.openshock.shockers);
            let ghost before = config.triggers@;
            config.triggers.push((trigger, edited));
            assert(rule_keys(config.triggers@) =~= keys.push(trigger));
            proof {
                crate::config::lemma_find_rule_push(keys, trigger, trigger);
                crate::config::lemma_find_rule_bounds(keys, trigger);
                let after = config.triggers@;
                if rules_well_formed(before) {
                    assert forall|x: int, y: int| 0 <= x < y < after.len() implies after[x].0
                        != after[y].0 by {
                        assert(after[x] == before[x] || y == before.len());
                        if y == before.len() {
                            assert(keys[x] == before[x].0);
                        } else {
                            assert(after[y] == before[y]);
                        }
                    }
                }
            }
        },
    }
}


// ---------------------------------------------------------------------------
// Editing the settings.

/// The settings the front end submits; absent values are left alone
/// (gain and cap in millionths).
#[derive(Debug, Clone)]
pub struct ConfigEdit {
    pub master_gain: Option<i64>,
    pub max_strength_cap: Option<i64>,
    pub mute_while_dead: Option<bool>,
    pub debug_logging: Option<bool>,
    pub buttplug_ws_url: Option<String>,
    pub dll_path: Option<String>,
    pub openshock_enabled: Option<bool>,
    pub openshock_api_token: Option<String>,
    pub openshock_base_url: Option<String>,
    pub openshock_shockers: Option<Vec<ShockerArgs>>,
}

/// A rule whose shock selection is filtered against a new roster.
pub open spec fn refiltered(r: TriggerConfigView, roster: Seq<Seq<char>>) -> TriggerConfigView {
    TriggerConfigView {
        shock: match r.shock {
            Some(s) => Some(
                ShockConfigView {
                    shocker_ids: match s.shocker_ids {
                        Some(ids) => Some(filter_ids_spec(ids, roster)),
                        None => None,
                    },
                    ..s
                },
            ),
            None => None,
        },
        ..r
    }
}

/// The central toy server address an edit switches to: the trimmed address
/// when it is given, not blank, and differs from the current one.
pub open spec fn new_central_url(old_url: Seq<char>, e: ConfigEdit) -> Option<Seq<char>> {
    match e.buttplug_ws_url {
        Some(u) => {
            let t = trim_seq(u@);
            if t.len() > 0 && t != old_url {
                Some(t)
            } else {
                None
            }
        },
        None => None,
    }
}

fn refilter_rules(rules: &mut Vec<(TriggerKind, TriggerConfig)>, roster: &Vec<Shocker>)
    ensures
        final(rules)@.len() == old(rules)@.len(),
        rules_well_formed(old(rules)@) ==> rules_well_formed(final(rules)@),
        forall|j: int|
            0 <= j < old(rules)@.len() ==> (#[trigger] final(rules)@[j]).0 == old(rules)@[j].0
                && final(rules)@[j].1@ == refiltered(old(rules)@[j].1@, roster_ids(roster@)),
{
    let ghost start = rules@;
    let mut k: usize = 0;
    while k < rules.len()
        invariant
            k <= rules.len(),
            rules@.len() == start.len(),
            forall|j: int|
                0 <= j < k ==> (#[trigger] rules@[j]).0 == start[j].0 && rules@[j].1@ == refiltered(
                    start[j].1@,
                    roster_ids(roster@),
                ),
            forall|j: int| k <= j < rules@.len() ==> #[trigger] rules@[j] == start[j],
        decreases rules.len() - k,
    {
        let kind = rules[k].0;
        let mut rule = rules[k].1.duplicate();
        let shock = match &rules[k].1.shock {
            Some(s) => {
                let mut next = s.duplicate();
                next.shocker_ids = match &s.shocker_ids {
                    Some(ids) => Some(filter_shocker_ids(ids.as_slice(), roster.as_slice())),
                    None => None,
                };
                Some(next)
            },
            None => None,
        };
        rule.shock = shock;
        rules.set(k, (kind, rule));
        k += 1;
    }
    proof {
        if rules_well_formed(start) {
            assert forall|j: int| 0 <= j < start.len() implies #[trigger] start[j].0 == rules@[j].0 by {}
            crate::config::lemma_same_keys_keep_unique(start, rules@);
        }
    }
}

/// Apply a settings edit and return the central toy server address to
/// switch to, if it changed. Gain is clamped into 0..=2, the cap into
/// 0..=1; the token is trimmed; a base URL is trimmed of whitespace and
/// trailing slashes and ignored when blank; a new roster is sanitized and
/// every rule's shock selection filtered against it; a blank DLL path
/// clears it.
pub fn apply_config_edit(config: &mut AppConfig, edit: ConfigEdit) -> (central: Option<String>)
    ensures
        match central {
            Some(u) => new_central_url(old(config).buttplug_ws_url@, edit) == Some(u@),
            None => new_central_url(old(config).buttplug_ws_url@, edit) is None,
        },
        final(config).master_gain == match edit.master_gain {
            Some(g) => clamp_int(g as int, 0, 2 * UNIT) as i64,
            None => old(config).master_gain,
        },
        final(config).max_strength_cap == match edit.max_strength_cap {
            Some(c) => clamp_int(c as int, 0, UNIT as int) as i64,
            None => old(config).max_strength_cap,
        },
        final(config).mute_while_dead == match edit.mute_while_dead {
            Some(b) => b,
            None => old(config).mute_while_dead,
        },
        final(config).debug_logging == match edit.debug_logging {
            Some(b) => b,
            None => old(config).debug_logging,
        },
        final(config).buttplug_ws_url@ == match new_central_url(old(config).buttplug_ws_url@, edit) {
            Some(u) => u,
            None => old(config).buttplug_ws_url@,
        },
        final(config).openshock.enabled == match edit.openshock_enabled {
            Some(b) => b,
            None => old(config).openshock.enabled,
        },
        final(config).openshock.api_token@ == match edit.openshock_api_token {
            Some(t) => trim_seq(t@),
            None => old(config).openshock.api_token@,
        },
        final(config).openshock.base_url@ == match edit.openshock_base_url {
            Some(u) => if trim_end_char_seq(trim_seq(u@), '/').len() > 0 {
                trim_end_char_seq(trim_seq(u@), '/')
            } else {
                old(config).openshock.base_url@
            },
            None => old(config).openshock.base_url@,
        },
        match edit.openshock_shockers {
            Some(entries) => {
                &&& roster_view(final(config).openshock.shockers@) == sanitized(args_view(entries@))
                &&& final(config).triggers@.len() == old(config).triggers@.len()
                &&& forall|j: int|
                    0 <= j < old(config).triggers@.len() ==> (#[trigger] final(config).triggers@[j]).0
                        == old(config).triggers@[j].0 && final(config).triggers@[j].1@ == refiltered(
                        old(config).triggers@[j].1@,
                        roster_ids(final(config).openshock.shockers@),
                    )
            },
            None => {
                &&& final(config).openshock.shockers@ == old(config).openshock.shockers@
                &&& final(config).triggers@ == old(config).triggers@
            },
        },
        match edit.dll_path {
            Some(p) => if trim_seq(p@).len() > 0 {
                final(config).dll_path is Some && final(config).dll_path->0@ == trim_seq(p@)
            } else {
                final(config).dll_path is None
            },
            None => final(config).dll_path == old(config).dll_path,
        },
        final(config).mod_http_port == old(config).mod_http_port,
        final(config).dll_event_port == old(config).dll_event_port,
        final(config).data_source == old(config).data_source,
        final(config).updates == old(config).updates,
        rules_well_formed(old(config).triggers@) ==> rules_well_formed(final(config).triggers@),
{
    let central = url_change(&edit.buttplug_ws_url, &config.buttplug_ws_url);
    config.master_gain = clamped_or_keep(edit.master_gain, config.master_gain, 2 * UNIT);
    config.max_strength_cap = clamped_or_keep(edit.max_strength_cap, config.max_strength_cap, UNIT);
    if let Some(value) = edit.mute_while_dead {
        config.mute_while_dead = value;
    }
    if let Some(value) = edit.debug_logging {
        config.debug_logging = value;
    }
    if let Some(url) = &central {
        config.buttplug_ws_url = url.clone();
    }
    if let Some(enabled) = edit.openshock_enabled {
        config.openshock.enabled = enabled;
    }
    if let Some(token) = &edit.openshock_api_token {
        config.openshock.api_token = trimmed(token);
    }
    if let Some(url) = base_url_value(&edit.openshock_base_url) {
        config.openshock.base_url = url;
    }
    let ConfigEdit { openshock_shockers, dll_path, .. } = edit;
    if let Some(entries) = openshock_shockers {
        config.openshock.shockers = sanitize_roster(entries);
        refilter_rules(&mut config.triggers, &config.openshock.shockers);
    }
    if let Some(path) = dll_path {
        config.dll_path = path_value(&path);
    }
    central
}

fn clamped_or_keep(value: Option<i64>, current: i64, hi: i64) -> (r: i64)
    requires
        hi >= 0,
    ensures
        r == match value {
            Some(v) => clamp_int(v as int, 0, hi as int) as i64,
            None => current,
        },
{
    match value {
        Some(v) => if v < 0 {
            0
        } else if v > hi {
            hi
        } else {
            v
        },
        None => current,
    }
}

fn url_change(url: &Option<String>, current: &String) -> (r: Option<String>)
    ensures
        match r {
            Some(u) => match url {
                Some(given) => trim_seq(given@).len() > 0 && trim_seq(given@) != current@ && u@ == trim_seq(given@),
                None => false,
            },
            None => match url {
                Some(given) => !(trim_seq(given@).len() > 0 && trim_seq(given@) != current@),
                None => true,
            },
        },
{
    match url {
        Some(given) => {
            let t = trim_chars(&chars_of(given.as_str()));
            if t.len() > 0 && !chars_eq(&t, &chars_of(current.as_str())) {
                Some(string_of(t.as_slice()))
            } else {
                None
            }
        },
        None => None,
    }
}

fn trimmed(s: &String) -> (r: String)
    ensures
        r@ == trim_seq(s@),
{
    string_of(trim_chars(&chars_of(s.as_str())).as_slice())
}

fn base_url_value(url: &Option<String>) -> (r: Option<String>)
    ensures
        match url {
            Some(u) => if trim_end_char_seq(trim_seq(u@), '/').len() > 0 {
                r is Some && r->0@ == trim_end_char_seq(trim_seq(u@), '/')
            } else {
                r is None
            },
            None => r is None,
        },
{
    match url {
        Some(u) => {
            let t = trim_end_char(&trim_chars(&chars_of(u.as_str())), '/');
            if t.len() > 0 {
                Some(string_of(t.as_slice()))
            } else {
                None
            }
        },
        None => None,
    }
}

fn path_value(path: &String) -> (r: Option<String>)
    ensures
        if trim_seq(path@).len() > 0 {
            r is Some && r->0@ == trim_seq(path@)
        } else {
            r is None
        },
{
    let t = trim_chars(&chars_of(path.as_str()));
    if t.len() > 0 {
        Some(string_of(t.as_slice()))
    } else {
        None
    }
}


// ---------------------------------------------------------------------------
// Listing the rules.

/// One rule as the front end shows it (strength in millionths).
#[derive(Debug, Clone)]
pub struct TriggerView {
    pub kind: String,
    pub enabled: bool,
    pub strength: i64,
    pub duration_ms: u64,
    pub retrigger_cooldown_ms: u64,
    pub pattern: String,
    pub vibrate_devices: Option<Vec<String>>,
    pub shock_enabled: bool,
    pub shock_intensity: u8,
    pub shock_duration_ms: u64,
    pub shock_kind: String,
    pub shock_shocker_ids: Option<Vec<String>>,
}

pub open spec fn pattern_lower(p: Pattern) -> Seq<char> {
    match p {
        Pattern::Vibrate => "vibrate"@,
        Pattern::Pulse => "pulse"@,
        Pattern::Ramp => "ramp"@,
    }
}

pub open spec fn opt_strings(v: Option<Vec<String>>) -> Option<Seq<Seq<char>>> {
    match v {
        Some(x) => Some(strings_view(x@)),
        None => None,
    }
}

/// The view shows the trigger's key and the rule's settings; without shock
/// settings it shows them disabled, at intensity 20 for 300 ms as a shock.
pub open spec fn view_matches(v: TriggerView, k: TriggerKind, r: TriggerConfigView) -> bool {
    &&& v.kind@ == crate::trigger::trigger_key(k)
    &&& v.enabled == r.enabled
    &&& v.strength == r.strength
    &&& v.duration_ms == r.duration_ms
    &&& v.retrigger_cooldown_ms == r.retrigger_cooldown_ms
    &&& v.pattern@ == pattern_lower(r.pattern)
    &&& opt_strings(v.vibrate_devices) == r.vibrate_devices
    &&& match r.shock {
        Some(s) => {
            &&& v.shock_enabled == s.enabled
            &&& v.shock_intensity == s.intensity
            &&& v.shock_duration_ms == s.duration_ms
            &&& v.shock_kind@ == crate::openshock::kind_name(s.kind)
            &&& opt_strings(v.shock_shocker_ids) == s.shocker_ids
        },
        None => {
            &&& !v.shock_enabled
            &&& v.shock_intensity == 20
            &&& v.shock_duration_ms == 300
            &&& v.shock_kind@ == "shock"@
            &&& v.shock_shocker_ids is None
        },
    }
}

/// The order rules are listed in: the plain triggers, then ability use by
/// slot, then ability readiness by slot.
pub open spec fn listed_kind(i: int) -> TriggerKind {
    if i == 0 {
        TriggerKind::Kill
    } else if i == 1 {
        TriggerKind::Death
    } else if i == 2 {
        TriggerKind::Assist
    } else if i == 3 {
        TriggerKind::Respawn
    } else if i == 4 {
        TriggerKind::Parry
    } else if i == 5 {
        TriggerKind::Parried
    } else if i == 6 {
        TriggerKind::PunchLanded
    } else if i == 7 {
        TriggerKind::PunchTaken
    } else if i < 264 {
        TriggerKind::AbilityUsed { slot: (i - 8) as u8 }
    } else {
        TriggerKind::AbilityReady { slot: (i - 264) as u8 }
    }
}

pub const LISTED_KINDS: usize = 520;

/// The listed triggers among the first `n` that have a rule of their own.
pub open spec fn shown_kinds(rules: Seq<(TriggerKind, TriggerConfig)>, n: nat) -> Seq<TriggerKind>
    decreases n,
{
    if n == 0 {
        Seq::empty()
    } else {
        let prev = shown_kinds(rules, (n - 1) as nat);
        let k = listed_kind(n - 1);
        if find_rule(rule_keys(rules), k) is Some {
            prev.push(k)
        } else {
            prev
        }
    }
}

fn listed(i: usize) -> (k: TriggerKind)
    requires
        i < LISTED_KINDS,
    ensures
        k == listed_kind(i as int),
{
    if i == 0 {
        TriggerKind::Kill
    } else if i == 1 {
        TriggerKind::Death
    } else if i == 2 {
        TriggerKind::Assist
    } else if i == 3 {
        TriggerKind::Respawn
    } else if i == 4 {
        TriggerKind::Parry
    } else if i == 5 {
        TriggerKind::Parried
    } else if i == 6 {
        TriggerKind::PunchLanded
    } else if i == 7 {
        TriggerKind::PunchTaken
    } else if i < 264 {
        TriggerKind::AbilityUsed { slot: (i - 8) as u8 }
    } else {
        TriggerKind::AbilityReady { slot: (i - 264) as u8 }
    }
}

fn view_of(k: TriggerKind, rule: &TriggerConfig) -> (v: TriggerView)
    ensures
        view_matches(v, k, rule@),
{
    let pattern = match rule.pattern {
        Pattern::Vibrate => string_of(chars_of("vibrate").as_slice()),
        Pattern::Pulse => string_of(chars_of("pulse").as_slice()),
        Pattern::Ramp => string_of(chars_of("ramp").as_slice()),
    };
    let (shock_enabled, shock_intensity, shock_duration_ms, shock_kind, shock_shocker_ids) = match &rule.shock {
        Some(s) => {
            let command = crate::openshock::ControlCommand { kind: s.kind, intensity: s.intensity, duration_ms: s.duration_ms };
            (
                s.enabled,
                s.intensity,
                s.duration_ms,
                string_of(chars_of(command.kind_str()).as_slice()),
                crate::shock::copy_optional_strings(&s.shocker_ids),
            )
        },
        None => (false, 20u8, 300u64, string_of(chars_of("shock").as_slice()), None),
    };
    TriggerView {
        kind: k.key(),
        enabled: rule.enabled,
        strength: rule.strength,
        duration_ms: rule.duration_ms,
        retrigger_cooldown_ms: rule.retrigger_cooldown_ms,
        pattern,
        vibrate_devices: crate::shock::copy_optional_strings(&rule.vibrate_devices),
        shock_enabled,
        shock_intensity,
        shock_duration_ms,
        shock_kind,
        shock_shocker_ids,
    }
}

/// The rules in listing order, each shown with its trigger's key.
pub fn trigger_views(config: &AppConfig) -> (views: Vec<TriggerView>)
    ensures
        views@.len() == shown_kinds(config.triggers@, LISTED_KINDS as nat).len(),
        forall|i: int|
            0 <= i < views@.len() ==> {
                let k = shown_kinds(config.triggers@, LISTED_KINDS as nat)[i];
                view_matches(#[trigger] views@[i], k, config.triggers@[find_rule(rule_keys(config.triggers@), k)->0].1@)
            },
{
    let mut views: Vec<TriggerView> = Vec::new();
    let mut i: usize = 0;
    while i < LISTED_KINDS
        invariant
            i <= LISTED_KINDS,
            views@.len() == shown_kinds(config.triggers@, i as nat).len(),
            forall|m: int|
                0 <= m < views@.len() ==> {
                    let k = shown_kinds(config.triggers@, i as nat)[m];
                    view_matches(#[trigger] views@[m], k, config.triggers@[find_rule(rule_keys(config.triggers@), k)->0].1@)
                },
        decreases LISTED_KINDS - i,
    {
        let k = listed(i);
        let ghost prev = shown_kinds(config.triggers@, i as nat);
        match find_rule_index(&config.triggers, k) {
            Some(at) => {
                let v = view_of(k, &config.triggers[at].1);
                views.push(v);
                assert(shown_kinds(config.triggers@, (i + 1) as nat) == prev.push(k));
            },
            None => {
                assert(shown_kinds(config.triggers@, (i + 1) as nat) == prev);
            },
        }
        i += 1;
    }
    views
}


// ---------------------------------------------------------------------------
// Test actions.

/// What firing a trigger for testing does: the haptic command, the toys it
/// goes to, the OpenShock command and shockers (when the rule has enabled
/// shock settings), and whether OpenShock is usable at all.
#[derive(Debug, Clone)]
pub struct TestFirePlan {
    pub command: crate::haptics::HapticCommand,
    pub vibrate_targets: Vec<String>,
    pub shock: Option<(crate::openshock::ControlCommand, Vec<String>)>,
    pub shock_configured: bool,
}

impl TestFirePlan {
    /// The OpenShock request is sent only when the rule has one and the
    /// account is usable.
    pub fn fires_shock(&self) -> (b: bool)
        ensures
            b == (self.shock is Some && self.shock_configured),
    {
        self.shock.is_some() && self.shock_configured
    }
}

/// Plan a test firing of `trigger`, given the names of the connected toys;
/// nothing happens when the trigger's rule is disabled.
pub fn plan_test_fire(config: &AppConfig, trigger: TriggerKind, connected: &[String]) -> (r: Option<TestFirePlan>)
    requires
        config.max_strength_cap >= 0,
    ensures
        crate::haptics::command_for(*config, trigger) is None ==> r is None,
        crate::haptics::command_for(*config, trigger) matches Some(command) ==> {
            let rule = crate::config::rule_for(config.triggers@, trigger);
            &&& r is Some
            &&& r->0.command == command
            &&& strings_view(r->0.vibrate_targets@) == crate::config::vibrate_targets_spec(
                rule.vibrate_devices,
                strings_view(connected@),
            )
            &&& r->0.shock_configured == crate::openshock::configured_spec(config.openshock)
            &&& match rule.shock {
                Some(s) => if s.enabled {
                    &&& r->0.shock is Some
                    &&& r->0.shock.unwrap().0 == (crate::openshock::ControlCommand {
                        kind: s.kind,
                        intensity: clamp_int(s.intensity as int, 1, 100) as u8,
                        duration_ms: clamp_int(s.duration_ms as int, 300, 30_000) as u64,
                    })
                    &&& strings_view(r->0.shock.unwrap().1@) == crate::shock::target_ids_spec(
                        s.shocker_ids,
                        config.openshock.shockers@,
                    )
                } else {
                    r->0.shock is None
                },
                None => r->0.shock is None,
            }
        },
{
    let command = match crate::haptics::HapticCommand::from_trigger(config, trigger) {
        Some(c) => c,
        None => return None,
    };
    let rule = config.trigger(trigger);
    let vibrate_targets = match &rule.vibrate_devices {
        Some(picks) => crate::config::resolve_vibrate_targets(Some(picks.as_slice()), connected),
        None => crate::config::resolve_vibrate_targets(None, connected),
    };
    let shock = match &rule.shock {
        Some(settings) => match crate::openshock::ControlCommand::from_shock(settings) {
            Some(c) => Some((c, settings.target_ids(config.openshock.shockers.as_slice()))),
            None => None,
        },
        None => None,
    };
    Some(
        TestFirePlan {
            command,
            vibrate_targets,
            shock,
            shock_configured: crate::openshock::configured(&config.openshock),
        },
    )
}

pub open spec fn test_prefix(kind: Seq<char>) -> Seq<char> {
    "test "@ + kind + ": "@
}

/// The log line of a test whose rule is disabled.
pub fn test_disabled_line(kind: &str) -> (s: String)
    ensures
        s@ == test_prefix(kind@) + "disabled in config"@,
{
    let mut out = chars_of("test ");
    push_str(&mut out, kind);
    push_str(&mut out, ": ");
    push_str(&mut out, "disabled in config");
    proof {
        assert(out@ =~= test_prefix(kind@) + "disabled in config"@);
    }
    string_of(out.as_slice())
}

/// The log line about the vibration part of a test firing.
pub open spec fn vibrate_report(kind: Seq<char>, plan: TestFirePlan) -> Seq<char> {
    let targets = strings_view(plan.vibrate_targets@);
    if targets.len() == 0 {
        test_prefix(kind) + "vibration skipped, no target toys selected or connected"@
    } else {
        test_prefix(kind) + "vibrate strength="@ + crate::config_watch::fixed2(plan.command.strength as int)
            + " duration_ms="@ + decimal_seq(plan.command.duration_ms as nat) + " pattern="@
            + crate::config_watch::pattern_debug(plan.command.pattern) + " toys="@ + decimal_seq(
            targets.len(),
        ) + " ["@ + crate::pipeline::join_comma(targets) + "]"@
    }
}

/// The log line about the OpenShock part of a test firing, given what the
/// request did (`None` when it was not sent).
pub open spec fn shock_report(kind: Seq<char>, plan: TestFirePlan, outcome: Option<Result<usize, String>>) -> Option<Seq<char>> {
    match outcome {
        Some(Ok(count)) => match plan.shock {
            Some((command, _)) => Some(
                test_prefix(kind) + "shock intensity="@ + decimal_seq(command.intensity as nat)
                    + " duration_ms="@ + decimal_seq(command.duration_ms as nat) + " shockers="@
                    + decimal_seq(count as nat),
            ),
            None => None,
        },
        Some(Err(error)) => Some(test_prefix(kind) + "shock failed: "@ + error@),
        None => if plan.shock is Some {
            Some(test_prefix(kind) + "shock trigger hit but openshock is not configured"@)
        } else {
            None
        },
    }
}

/// The log lines of a test firing.
pub fn test_fire_lines(kind: &str, plan: &TestFirePlan, outcome: Option<Result<usize, String>>) -> (lines: Vec<String>)
    requires
        outcome matches Some(Ok(_)) ==> plan.shock is Some,
    ensures
        crate::ui::lines_view(lines@) == seq![vibrate_report(kind@, *plan)] + match shock_report(kind@, *plan, outcome) {
            Some(l) => seq![l],
            None => Seq::empty(),
        },
{
    let mut first = chars_of("test ");
    push_str(&mut first, kind);
    push_str(&mut first, ": ");
    let ghost prefix = first@;
    assert(prefix =~= test_prefix(kind@));
    let n = plan.vibrate_targets.len();
    if n == 0 {
        push_str(&mut first, "vibration skipped, no target toys selected or connected");
    } else {
        push_str(&mut first, "vibrate strength=");
        crate::config_watch::push_fixed2_pub(&mut first, plan.command.strength);
        push_str(&mut first, " duration_ms=");
        crate::text::push_decimal(&mut first, plan.command.duration_ms);
        push_str(&mut first, " pattern=");
        crate::config_watch::push_pattern_pub(&mut first, plan.command.pattern);
        push_str(&mut first, " toys=");
        crate::text::push_decimal(&mut first, n as u64);
        push_str(&mut first, " [");
        push_joined(&mut first, plan.vibrate_targets.as_slice());
        push_str(&mut first, "]");
    }
    assert(first@ =~= vibrate_report(kind@, *plan));
    let mut lines: Vec<String> = Vec::new();
    lines.push(string_of(first.as_slice()));
    let second = match outcome {
        Some(Ok(count)) => {
            let mut out = chars_of("test ");
            push_str(&mut out, kind);
            push_str(&mut out, ": ");
            match &plan.shock {
                Some((command, _)) => {
                    push_str(&mut out, "shock intensity=");
                    crate::text::push_decimal(&mut out, command.intensity as u64);
                    push_str(&mut out, " duration_ms=");
                    crate::text::push_decimal(&mut out, command.duration_ms);
                    push_str(&mut out, " shockers=");
                    crate::text::push_decimal(&mut out, count as u64);
                },
                None => {},
            }
            Some(out)
        },
        Some(Err(error)) => {
            let mut out = chars_of("test ");
            push_str(&mut out, kind);
            push_str(&mut out, ": ");
            push_str(&mut out, "shock failed: ");
            push_str(&mut out, error.as_str());
            Some(out)
        },
        None => if plan.shock.is_some() {
            let mut out = chars_of("test ");
            push_str(&mut out, kind);
            push_str(&mut out, ": ");
            push_str(&mut out, "shock trigger hit but openshock is not configured");
            Some(out)
        } else {
            None
        },
    };
    let ghost one = crate::ui::lines_view(lines@);
    assert(one =~= seq![vibrate_report(kind@, *plan)]);
    match second {
        Some(out) => {
            assert(Some(out@) =~= shock_report(kind@, *plan, outcome));
            lines.push(string_of(out.as_slice()));
            assert(crate::ui::lines_view(lines@) =~= one.push(out@));
        },
        None => {},
    }
    lines
}

/// The command and log line of the toys test: half strength for half a
/// second on every connected toy; nothing when none is connected.
pub fn toys_test(devices: usize) -> (r: (Option<crate::haptics::HapticCommand>, String))
    ensures
        devices == 0 ==> r.0 is None && r.1@ == "toys test: no toys connected"@,
        devices > 0 ==> r.0 == Some(crate::haptics::HapticCommand { strength: 500_000, duration_ms: 500, pattern: Pattern::Vibrate })
            && r.1@ == "toys test: vibrate 50% 500ms on "@ + decimal_seq(devices as nat) + " toy"@ + (if devices == 1 {
            Seq::<char>::empty()
        } else {
            "s"@
        }),
{
    if devices == 0 {
        return (None, string_of(chars_of("toys test: no toys connected").as_slice()));
    }
    let mut out = chars_of("toys test: vibrate 50% 500ms on ");
    crate::text::push_decimal(&mut out, devices as u64);
    push_str(&mut out, " toy");
    if devices != 1 {
        push_str(&mut out, "s");
    } else {
        assert(out@ =~= out@ + Seq::<char>::empty());
    }
    (
        Some(crate::haptics::HapticCommand { strength: 500_000, duration_ms: 500, pattern: Pattern::Vibrate }),
        string_of(out.as_slice()),
    )
}

/// The OpenShock test request: a 300 ms shock at the kill rule's shock
/// intensity (20 without one, clamped into 1..=100) on every roster shocker
/// whose trimmed id is not blank; nothing when OpenShock is not usable.
pub open spec fn kill_shock_intensity(rules: Seq<(TriggerKind, TriggerConfig)>) -> int {
    let raw = match find_rule(rule_keys(rules), TriggerKind::Kill) {
        Some(i) => match rules[i].1@.shock {
            Some(s) => s.intensity as int,
            None => 20,
        },
        None => 20,
    };
    clamp_int(raw, 1, 100)
}

pub open spec fn roster_trimmed_ids(roster: Seq<Shocker>) -> Seq<Seq<char>>
    decreases roster.len(),
{
    if roster.len() == 0 {
        Seq::empty()
    } else {
        let prev = roster_trimmed_ids(roster.drop_last());
        let t = trim_seq(roster.last().id@);
        if t.len() == 0 {
            prev
        } else {
            prev.push(t)
        }
    }
}

pub fn plan_openshock_test(config: &AppConfig) -> (r: Option<(crate::openshock::ControlCommand, Vec<String>)>)
    ensures
        !crate::openshock::configured_spec(config.openshock) ==> r is None,
        crate::openshock::configured_spec(config.openshock) ==> r is Some && r.unwrap().0 == (crate::openshock::ControlCommand {
            kind: ShockKind::Shock,
            intensity: kill_shock_intensity(config.triggers@) as u8,
            duration_ms: 300,
        }) && strings_view(r.unwrap().1@) == roster_trimmed_ids(config.openshock.shockers@),
{
    if !crate::openshock::configured(&config.openshock) {
        return None;
    }
    let roster = &config.openshock.shockers;
    let mut ids: Vec<String> = Vec::new();
    let mut k: usize = 0;
    assert(strings_view(ids@) =~= roster_trimmed_ids(roster@.subrange(0, 0)));
    while k < roster.len()
        invariant
            k <= roster.len(),
            strings_view(ids@) == roster_trimmed_ids(roster@.subrange(0, k as int)),
        decreases roster.len() - k,
    {
        assert(roster@.subrange(0, k + 1).drop_last() =~= roster@.subrange(0, k as int));
        let t = trim_chars(&chars_of(roster[k].id.as_str()));
        if t.len() > 0 {
            let ghost before = strings_view(ids@);
            ids.push(string_of(t.as_slice()));
            assert(strings_view(ids@) =~= before.push(t@));
        }
        k += 1;
    }
    assert(roster@.subrange(0, k as int) =~= roster@);
    let raw: u8 = match find_rule_index(&config.triggers, TriggerKind::Kill) {
        Some(i) => match &config.triggers[i].1.shock {
            Some(s) => s.intensity,
            None => 20,
        },
        None => 20,
    };
    let intensity = if raw < 1 {
        1
    } else if raw > 100 {
        100
    } else {
        raw
    };
    Some((crate::openshock::ControlCommand { kind: ShockKind::Shock, intensity, duration_ms: 300 }, ids))
}

/// The log line after a toy action, given its outcome.
pub fn toy_action_line(label: &str, outcome: &Result<Vec<String>, String>) -> (s: String)
    ensures
        match outcome {
            Ok(names) => s@ == label@ + ": "@ + devices_text(strings_view(names@)),
            Err(error) => s@ == label@ + " failed: "@ + error@,
        },
{
    let mut out = chars_of(label);
    match outcome {
        Ok(names) => {
            push_str(&mut out, ": ");
            push_str(&mut out, describe_devices(names.as_slice()).as_str());
        },
        Err(error) => {
            push_str(&mut out, " failed: ");
            push_str(&mut out, error.as_str());
        },
    }
    string_of(out.as_slice())
}

} // verus!
