//! Application configuration: data source, trigger rules, OpenShock and update
//! settings, and the lookups and migrations over them.
//!
//! Fractional settings (rule strength, master gain, strength cap) are held in
//! millionths: `UNIT` (1_000_000) stands for 1.0.

use vstd::prelude::*;
use crate::shock::{
    ShockConfig, ShockConfigView, Shocker, copy_roster, copy_optional_strings, strings_view,
};
use crate::text::{chars_eq, chars_of, str_eq, string_of, trim_chars, trim_seq};
use crate::trigger::{Pattern, TriggerKind, family_of};

verus! {

/// One in fixed-point millionths.
pub const UNIT: i64 = 1_000_000;

pub const DEFAULT_DLL_EVENT_PORT: u16 = 24680;

/// Where game events are read from.
#[derive(Debug, Clone, Copy, PartialEq, Eq, Hash, Structural)]
pub enum DataSource {
    Mod,
    Dll,
}

pub open spec fn data_source_name(source: DataSource) -> Seq<char> {
    match source {
        DataSource::Mod => "mod"@,
        DataSource::Dll => "dll"@,
    }
}

pub open spec fn parse_data_source_spec(raw: Seq<char>) -> Option<DataSource> {
    if raw == "mod"@ {
        Some(DataSource::Mod)
    } else if raw == "dll"@ {
        Some(DataSource::Dll)
    } else {
        None
    }
}

impl DataSource {
    pub fn parse(raw: &str) -> (r: Option<DataSource>)
        ensures
            r == parse_data_source_spec(raw@),
    {
        if str_eq(raw, "mod") {
            Some(DataSource::Mod)
        } else if str_eq(raw, "dll") {
            Some(DataSource::Dll)
        } else {
            None
        }
    }

    pub fn as_str(self) -> (r: &'static str)
        ensures
            r@ == data_source_name(self),
    {
        match self {
            DataSource::Mod => "mod",
            DataSource::Dll => "dll",
        }
    }
}

impl Default for DataSource {
    fn default() -> (r: DataSource)
        ensures
            r == DataSource::Dll,
    {
        DataSource::Dll
    }
}

/// A data source's name parses back to that source.
pub proof fn lemma_data_source_roundtrip(source: DataSource)
    ensures
        parse_data_source_spec(data_source_name(source)) == Some(source),
{
    reveal_strlit("mod");
    reveal_strlit("dll");
    assert("dll"@[0] != "mod"@[0]);
}

/// One haptic rule.
#[derive(Debug, Clone, PartialEq)]
pub struct TriggerConfig {
    pub enabled: bool,
    /// Strength in millionths (`UNIT` is full strength).
    pub strength: i64,
    pub duration_ms: u64,
    pub retrigger_cooldown_ms: u64,
    pub pattern: Pattern,
    pub shock: Option<ShockConfig>,
    pub vibrate_devices: Option<Vec<String>>,
}

pub struct TriggerConfigView {
    pub enabled: bool,
    pub strength: i64,
    pub duration_ms: u64,
    pub retrigger_cooldown_ms: u64,
    pub pattern: Pattern,
    pub shock: Option<ShockConfigView>,
    pub vibrate_devices: Option<Seq<Seq<char>>>,
}

impl View for TriggerConfig {
    type V = TriggerConfigView;

    open spec fn view(&self) -> TriggerConfigView {
        TriggerConfigView {
            enabled: self.enabled,
            strength: self.strength,
            duration_ms: self.duration_ms,
            retrigger_cooldown_ms: self.retrigger_cooldown_ms,
            pattern: self.pattern,
            shock: match self.shock {
                Some(s) => Some(s@),
                None => None,
            },
            vibrate_devices: match self.vibrate_devices {
                Some(v) => Some(strings_view(v@)),
                None => None,
            },
        }
    }
}

/// The rule used when no rule is configured.
pub open spec fn default_rule() -> TriggerConfigView {
    TriggerConfigView {
        enabled: true,
        strength: 600_000,
        duration_ms: 800,
        retrigger_cooldown_ms: 500,
        pattern: Pattern::Vibrate,
        shock: None,
        vibrate_devices: None,
    }
}

/// `strength * gain` clamped into `0..=cap`, all in millionths.
pub open spec fn scaled_strength_spec(strength: int, gain: int, cap: int) -> int {
    let product = strength * gain;
    if product <= 0 {
        0
    } else if product / (UNIT as int) > cap {
        cap
    } else {
        product / (UNIT as int)
    }
}

/// A scaled strength never exceeds the cap nor drops below zero; at unit
/// gain a strength within the cap is kept as it is; and it never falls when
/// the gain or the strength rises.
pub proof fn lemma_scaled_strength_laws(strength: int, gain: int, cap: int, more_gain: int, more_strength: int)
    requires
        cap >= 0,
    ensures
        0 <= scaled_strength_spec(strength, gain, cap) <= cap,
        0 <= strength <= cap ==> scaled_strength_spec(strength, UNIT as int, cap) == strength,
        (strength >= 0 && gain <= more_gain) ==> scaled_strength_spec(strength, gain, cap)
            <= scaled_strength_spec(strength, more_gain, cap),
        (gain >= 0 && strength <= more_strength) ==> scaled_strength_spec(strength, gain, cap)
            <= scaled_strength_spec(more_strength, gain, cap),
{
    let u = UNIT as int;
    assert(strength * u / u == strength) by (nonlinear_arith)
        requires
            u == 1_000_000,
    ;
    if strength >= 0 && gain <= more_gain {
        assert(strength * gain <= strength * more_gain) by (nonlinear_arith)
            requires
                strength >= 0,
                gain <= more_gain,
        ;
        assert((strength * gain) / u <= (strength * more_gain) / u) by (nonlinear_arith)
            requires
                strength * gain <= strength * more_gain,
                u == 1_000_000,
        ;
    }
    if gain >= 0 && strength <= more_strength {
        assert(strength * gain <= more_strength * gain) by (nonlinear_arith)
            requires
                gain >= 0,
                strength <= more_strength,
        ;
        assert((strength * gain) / u <= (more_strength * gain) / u) by (nonlinear_arith)
            requires
                strength * gain <= more_strength * gain,
                u == 1_000_000,
        ;
    }
}

impl TriggerConfig {
    /// A copy of this rule.
    pub fn duplicate(&self) -> (r: TriggerConfig)
        ensures
            r@ == self@,
    {
        TriggerConfig {
            enabled: self.enabled,
            strength: self.strength,
            duration_ms: self.duration_ms,
            retrigger_cooldown_ms: self.retrigger_cooldown_ms,
            pattern: self.pattern,
            shock: match &self.shock {
                Some(s) => Some(s.duplicate()),
                None => None,
            },
            vibrate_devices: copy_optional_strings(&self.vibrate_devices),
        }
    }

    /// The default rule with its strength and duration replaced.
    pub fn preset(strength: i64, duration_ms: u64) -> (r: TriggerConfig)
        ensures
            r@ == (TriggerConfigView { strength, duration_ms, ..default_rule() }),
    {
        TriggerConfig { strength, duration_ms, ..TriggerConfig::default() }
    }

    /// Strength scaled by the master gain and clamped to `0..=cap` (all in
    /// millionths; the fractional part of the scaled value is dropped).
    pub fn scaled_strength(&self, master_gain: i64, cap: i64) -> (r: i64)
        requires
            cap >= 0,
        ensures
            r as int == scaled_strength_spec(self.strength as int, master_gain as int, cap as int),
            0 <= r <= cap,
    {
        proof {
            let a = self.strength as int;
            let b = master_gain as int;
            assert(-0x8000_0000_0000_0000_0000_0000_0000_0000 <= a * b <= 0x7fff_ffff_ffff_ffff_ffff_ffff_ffff_ffff) by (nonlinear_arith)
                requires
                    -0x8000_0000_0000_0000 <= a <= 0x7fff_ffff_ffff_ffff,
                    -0x8000_0000_0000_0000 <= b <= 0x7fff_ffff_ffff_ffff,
            ;
        }
        let product: i128 = (self.strength as i128) * (master_gain as i128);
        if product <= 0 {
            0
        } else {
            let scaled: i128 = product / (UNIT as i128);
            if scaled > cap as i128 {
                cap
            } else {
                proof {
                    assert(scaled <= cap);
                }
                scaled as i64
            }
        }
    }
}

impl Default for TriggerConfig {
    fn default() -> (r: TriggerConfig)
        ensures
            r@ == default_rule(),
    {
        TriggerConfig {
            enabled: true,
            strength: 600_000,
            duration_ms: 800,
            retrigger_cooldown_ms: 500,
            pattern: Pattern::Vibrate,
            shock: None,
            vibrate_devices: None,
        }
    }
}

/// Some pick, trimmed, equals `name`.
pub open spec fn picked(picks: Seq<Seq<char>>, name: Seq<char>) -> bool {
    exists|k: int| 0 <= k < picks.len() && trim_seq(#[trigger] picks[k]) == name
}

/// The connected toys that some pick names (picks are trimmed, names are not),
/// in connection order.
pub open spec fn picked_targets(connected: Seq<Seq<char>>, picks: Seq<Seq<char>>) -> Seq<Seq<char>>
    decreases connected.len(),
{
    if connected.len() == 0 {
        Seq::empty()
    } else {
        let prev = picked_targets(connected.drop_last(), picks);
        if picked(picks, connected.last()) {
            prev.push(connected.last())
        } else {
            prev
        }
    }
}

/// The toys a rule vibrates: every connected toy when no selection was ever
/// made, otherwise the connected toys the selection names.
pub open spec fn vibrate_targets_spec(
    selected: Option<Seq<Seq<char>>>,
    connected: Seq<Seq<char>>,
) -> Seq<Seq<char>> {
    match selected {
        None => connected,
        Some(picks) => picked_targets(connected, picks),
    }
}

fn is_picked(picks: &[String], name: &Vec<char>) -> (r: bool)
    ensures
        r == picked(strings_view(picks@), name@),
{
    let ghost pv = strings_view(picks@);
    let mut k: usize = 0;
    while k < picks.len()
        invariant
            k <= picks.len(),
            pv == strings_view(picks@),
            forall|m: int| 0 <= m < k ==> trim_seq(#[trigger] pv[m]) != name@,
        decreases picks.len() - k,
    {
        let t = trim_chars(&chars_of(picks[k].as_str()));
        assert(pv[k as int] == picks@[k as int]@);
        if chars_eq(&t, name) {
            return true;
        }
        k += 1;
    }
    false
}

/// The toys to vibrate for a rule, given the names of the connected toys.
pub fn resolve_vibrate_targets(selected: Option<&[String]>, connected: &[String]) -> (r: Vec<
    String,
>)
    ensures
        strings_view(r@) == vibrate_targets_spec(
            match selected {
                Some(p) => Some(strings_view(p@)),
                None => None,
            },
            strings_view(connected@),
        ),
{
    let ghost cv = strings_view(connected@);
    let mut out: Vec<String> = Vec::new();
    let mut k: usize = 0;
    while k < connected.len()
        invariant
            k <= connected.len(),
            cv == strings_view(connected@),
            strings_view(out@) == match selected {
                Some(p) => picked_targets(cv.subrange(0, k as int), strings_view(p@)),
                None => cv.subrange(0, k as int),
            },
        decreases connected.len() - k,
    {
        let ghost before = strings_view(out@);
        assert(cv.subrange(0, k + 1).drop_last() =~= cv.subrange(0, k as int));
        assert(cv.subrange(0, k + 1).last() == connected@[k as int]@);
        let keep = match selected {
            None => true,
            Some(picks) => is_picked(picks, &chars_of(connected[k].as_str())),
        };
        if keep {
            out.push(connected[k].clone());
            assert(strings_view(out@) =~= before.push(connected@[k as int]@));
        }
        k += 1;
    }
    assert(cv.subrange(0, k as int) =~= cv);
    out
}

/// The picked targets are connected toys, in connection order.
pub proof fn lemma_picked_targets_subsequence(connected: Seq<Seq<char>>, picks: Seq<Seq<char>>)
    ensures
        picked_targets(connected, picks).len() <= connected.len(),
        forall|k: int|
            0 <= k < picked_targets(connected, picks).len() ==> connected.contains(
                #[trigger] picked_targets(connected, picks)[k],
            ) && picked(picks, picked_targets(connected, picks)[k]),
    decreases connected.len(),
{
    if connected.len() > 0 {
        let init = connected.drop_last();
        lemma_picked_targets_subsequence(init, picks);
        let prev = picked_targets(init, picks);
        let r = picked_targets(connected, picks);
        assert forall|k: int| 0 <= k < r.len() implies connected.contains(#[trigger] r[k]) && picked(
            picks,
            r[k],
        ) by {
            if k < prev.len() {
                assert(r[k] == prev[k]);
                let j = choose|j: int| 0 <= j < init.len() && init[j] == prev[k];
                assert(connected[j] == init[j]);
            } else {
                assert(r[k] == connected.last());
                assert(connected[connected.len() - 1] == connected.last());
            }
        }
    }
}

/// OpenShock account settings.
#[derive(Debug, Clone, PartialEq)]
pub struct OpenShockConfig {
    pub enabled: bool,
    /// Open-Shock-Token header value.
    pub api_token: String,
    /// Base URL without trailing slash.
    pub base_url: String,
    /// Legacy single-shocker field; migrated into `shockers` on load.
    pub shocker_id: String,
    /// Every shocker triggers may target.
    pub shockers: Vec<Shocker>,
}

impl OpenShockConfig {
    pub fn duplicate(&self) -> (r: OpenShockConfig)
        ensures
            r.enabled == self.enabled,
            r.api_token == self.api_token,
            r.base_url == self.base_url,
            r.shocker_id == self.shocker_id,
            r.shockers@ == self.shockers@,
    {
        OpenShockConfig {
            enabled: self.enabled,
            api_token: self.api_token.clone(),
            base_url: self.base_url.clone(),
            shocker_id: self.shocker_id.clone(),
            shockers: copy_roster(&self.shockers),
        }
    }
}

impl Default for OpenShockConfig {
    fn default() -> (r: OpenShockConfig)
        ensures
            r.enabled == false,
            r.api_token@ == Seq::<char>::empty(),
            r.base_url@ == "https://api.openshock.app"@,
            r.shocker_id@ == Seq::<char>::empty(),
            r.shockers@.len() == 0,
    {
        OpenShockConfig {
            enabled: false,
            api_token: String::new(),
            base_url: string_of(chars_of("https://api.openshock.app").as_slice()),
            shocker_id: String::new(),
            shockers: Vec::new(),
        }
    }
}

/// Release update settings.
#[derive(Debug, Clone, PartialEq)]
pub struct UpdateConfig {
    pub enabled: bool,
    pub repo: String,
    pub auto_update_offsets: bool,
}

impl Default for UpdateConfig {
    fn default() -> (r: UpdateConfig)
        ensures
            r.enabled,
            r.repo@ == "a55uka/deadass"@,
            r.auto_update_offsets,
    {
        UpdateConfig {
            enabled: true,
            repo: string_of(chars_of("a55uka/deadass").as_slice()),
            auto_update_offsets: true,
        }
    }
}

/// The trigger keys of a rule table.
pub open spec fn rule_keys(rules: Seq<(TriggerKind, TriggerConfig)>) -> Seq<TriggerKind> {
    rules.map_values(|e: (TriggerKind, TriggerConfig)| e.0)
}

/// No trigger has two rules.
pub open spec fn rules_well_formed(rules: Seq<(TriggerKind, TriggerConfig)>) -> bool {
    forall|i: int, j: int| 0 <= i < j < rules.len() ==> rules[i].0 != rules[j].0
}

/// Index of the rule for exactly this trigger.
pub open spec fn find_rule(keys: Seq<TriggerKind>, kind: TriggerKind) -> Option<int>
    decreases keys.len(),
{
    if keys.len() == 0 {
        None
    } else if keys[0] == kind {
        Some(0)
    } else {
        match find_rule(keys.drop_first(), kind) {
            Some(i) => Some(i + 1),
            None => None,
        }
    }
}

/// Index of the first rule of the same family as this trigger.
pub open spec fn find_family_rule(keys: Seq<TriggerKind>, kind: TriggerKind) -> Option<int>
    decreases keys.len(),
{
    if keys.len() == 0 {
        None
    } else if family_of(keys[0]) == family_of(kind) {
        Some(0)
    } else {
        match find_family_rule(keys.drop_first(), kind) {
            Some(i) => Some(i + 1),
            None => None,
        }
    }
}

/// The rule that applies to a trigger: its own rule, else the first rule of
/// its family, else the default rule.
pub open spec fn rule_for(rules: Seq<(TriggerKind, TriggerConfig)>, kind: TriggerKind) -> TriggerConfigView {
    match find_rule(rule_keys(rules), kind) {
        Some(i) => rules[i].1@,
        None => match find_family_rule(rule_keys(rules), kind) {
            Some(i) => rules[i].1@,
            None => default_rule(),
        },
    }
}

/// The rule table with `rule` installed for `kind`: the trigger's own rule
/// replaced where it has one, else the rule added at the end.
pub open spec fn with_rule(rules: Seq<(TriggerKind, TriggerConfig)>, kind: TriggerKind, rule: TriggerConfig) -> Seq<
    (TriggerKind, TriggerConfig),
> {
    match find_rule(rule_keys(rules), kind) {
        Some(i) => rules.update(i, (kind, rule)),
        None => rules.push((kind, rule)),
    }
}

pub(crate) proof fn lemma_find_rule_push(keys: Seq<TriggerKind>, added: TriggerKind, kind: TriggerKind)
    ensures
        find_rule(keys, kind) is Some ==> find_rule(keys.push(added), kind) == find_rule(keys, kind),
        find_rule(keys, kind) is None && added == kind ==> find_rule(keys.push(added), kind) == Some(
            keys.len() as int,
        ),
    decreases keys.len(),
{
    if keys.len() > 0 {
        lemma_find_rule_push(keys.drop_first(), added, kind);
        assert(keys.push(added).drop_first() =~= keys.drop_first().push(added));
    }
}

/// Installing a rule for a trigger is what a later lookup of that trigger
/// gives back, and every other trigger that has a rule of its own keeps it.
pub proof fn lemma_installed_rule_is_read_back(
    rules: Seq<(TriggerKind, TriggerConfig)>,
    kind: TriggerKind,
    rule: TriggerConfig,
    other: TriggerKind,
)
    ensures
        rule_for(with_rule(rules, kind, rule), kind) == rule@,
        other != kind && find_rule(rule_keys(rules), other) is Some ==> rule_for(
            with_rule(rules, kind, rule),
            other,
        ) == rule_for(rules, other),
{
    let keys = rule_keys(rules);
    let after = with_rule(rules, kind, rule);
    lemma_find_rule_bounds(keys, kind);
    lemma_find_rule_bounds(keys, other);
    match find_rule(keys, kind) {
        Some(i) => {
            assert(rule_keys(after) =~= keys);
        },
        None => {
            assert(rule_keys(after) =~= keys.push(kind));
            lemma_find_rule_push(keys, kind, kind);
            lemma_find_rule_push(keys, kind, other);
        },
    }
}

/// Rules with the same keys in the same places are unique together.
pub proof fn lemma_same_keys_keep_unique(
    a: Seq<(TriggerKind, TriggerConfig)>,
    b: Seq<(TriggerKind, TriggerConfig)>,
)
    requires
        a.len() == b.len(),
        forall|j: int| 0 <= j < a.len() ==> #[trigger] a[j].0 == b[j].0,
        rules_well_formed(a),
    ensures
        rules_well_formed(b),
{
    assert forall|i: int, j: int| 0 <= i < j < b.len() implies b[i].0 != b[j].0 by {
        assert(a[i].0 == b[i].0);
        assert(a[j].0 == b[j].0);
    }
}

/// Installing a rule keeps every trigger to at most one rule.
pub proof fn lemma_with_rule_keeps_unique(
    rules: Seq<(TriggerKind, TriggerConfig)>,
    kind: TriggerKind,
    rule: TriggerConfig,
)
    requires
        rules_well_formed(rules),
    ensures
        rules_well_formed(with_rule(rules, kind, rule)),
{
    let keys = rule_keys(rules);
    lemma_find_rule_bounds(keys, kind);
    let after = with_rule(rules, kind, rule);
    match find_rule(keys, kind) {
        Some(i) => {
            assert(keys[i] == rules[i].0);
            assert forall|j: int| 0 <= j < rules.len() implies #[trigger] rules[j].0 == after[j].0 by {}
            lemma_same_keys_keep_unique(rules, after);
        },
        None => {
            assert forall|x: int, y: int| 0 <= x < y < after.len() implies after[x].0 != after[y].0 by {
                if y == rules.len() {
                    assert(keys[x] == rules[x].0);
                }
            }
        },
    }
}

pub(crate) proof fn lemma_find_rule_bounds(keys: Seq<TriggerKind>, kind: TriggerKind)
    ensures
        find_rule(keys, kind) matches Some(i) ==> 0 <= i < keys.len() && keys[i] == kind,
        find_rule(keys, kind) is None ==> forall|i: int| 0 <= i < keys.len() ==> keys[i] != kind,
        find_family_rule(keys, kind) matches Some(i) ==> 0 <= i < keys.len() && family_of(keys[i])
            == family_of(kind),
        find_family_rule(keys, kind) is None ==> forall|i: int|
            0 <= i < keys.len() ==> family_of(keys[i]) != family_of(kind),
    decreases keys.len(),
{
    if keys.len() > 0 {
        lemma_find_rule_bounds(keys.drop_first(), kind);
        assert forall|i: int| 0 < i < keys.len() implies keys[i] == keys.drop_first()[i - 1] by {}
    }
}

/// The whole application configuration.
#[derive(Debug, Clone)]
pub struct AppConfig {
    /// Master gain in millionths.
    pub master_gain: i64,
    /// Strength cap in millionths.
    pub max_strength_cap: i64,
    pub mute_while_dead: bool,
    pub mod_http_port: u16,
    pub buttplug_ws_url: String,
    pub debug_logging: bool,
    pub openshock: OpenShockConfig,
    pub updates: UpdateConfig,
    pub data_source: DataSource,
    pub dll_event_port: u16,
    pub dll_path: Option<String>,
    /// One rule per trigger.
    pub triggers: Vec<(TriggerKind, TriggerConfig)>,
}

pub(crate) fn find_rule_index(rules: &Vec<(TriggerKind, TriggerConfig)>, kind: TriggerKind) -> (r: Option<
    usize,
>)
    ensures
        r is None <==> find_rule(rule_keys(rules@), kind) is None,
        r matches Some(i) ==> find_rule(rule_keys(rules@), kind) == Some(i as int) && i < rules@.len(),
{
    let ghost keys = rule_keys(rules@);
    let mut k: usize = 0;
    while k < rules.len()
        invariant
            k <= rules.len(),
            keys == rule_keys(rules@),
            forall|m: int| 0 <= m < k ==> keys[m] != kind,
        decreases rules.len() - k,
    {
        if rules[k].0 == kind {
            proof {
                lemma_find_rule_bounds(keys, kind);
                lemma_first_of(keys, kind, k as int);
            }
            return Some(k);
        }
        k += 1;
    }
    proof {
        lemma_find_rule_bounds(keys, kind);
        if find_rule(keys, kind) is Some {
            let i = find_rule(keys, kind)->0;
            assert(keys[i] == kind);
        }
    }
    None
}

proof fn lemma_first_of(keys: Seq<TriggerKind>, kind: TriggerKind, k: int)
    requires
        0 <= k < keys.len(),
        keys[k] == kind,
        forall|m: int| 0 <= m < k ==> keys[m] != kind,
    ensures
        find_rule(keys, kind) == Some(k),
    decreases k,
{
    if k > 0 {
        let t = keys.drop_first();
        assert forall|m: int| 0 <= m < k - 1 implies t[m] != kind by {
            assert(t[m] == keys[m + 1]);
        }
        lemma_first_of(t, kind, k - 1);
    }
}

proof fn lemma_first_of_family(keys: Seq<TriggerKind>, kind: TriggerKind, k: int)
    requires
        0 <= k < keys.len(),
        family_of(keys[k]) == family_of(kind),
        forall|m: int| 0 <= m < k ==> family_of(keys[m]) != family_of(kind),
    ensures
        find_family_rule(keys, kind) == Some(k),
    decreases k,
{
    if k > 0 {
        let t = keys.drop_first();
        assert forall|m: int| 0 <= m < k - 1 implies family_of(t[m]) != family_of(kind) by {
            assert(t[m] == keys[m + 1]);
        }
        lemma_first_of_family(t, kind, k - 1);
    }
}

fn find_family_index(rules: &Vec<(TriggerKind, TriggerConfig)>, kind: TriggerKind) -> (r: Option<
    usize,
>)
    ensures
        r is None <==> find_family_rule(rule_keys(rules@), kind) is None,
        r matches Some(i) ==> find_family_rule(rule_keys(rules@), kind) == Some(i as int) && i < rules@.len(),
{
    let ghost keys = rule_keys(rules@);
    let family = kind.family();
    let mut k: usize = 0;
    while k < rules.len()
        invariant
            k <= rules.len(),
            keys == rule_keys(rules@),
            family == family_of(kind),
            forall|m: int| 0 <= m < k ==> family_of(keys[m]) != family_of(kind),
        decreases rules.len() - k,
    {
        if rules[k].0.family() == family {
            proof {
                lemma_find_rule_bounds(keys, kind);
                lemma_first_of_family(keys, kind, k as int);
            }
            return Some(k);
        }
        k += 1;
    }
    proof {
        lemma_find_rule_bounds(keys, kind);
        if find_family_rule(keys, kind) is Some {
            let i = find_family_rule(keys, kind)->0;
            assert(family_of(keys[i]) == family_of(kind));
        }
    }
    None
}

/// A preset: the default rule with its strength and duration replaced.
pub open spec fn preset_rule(strength: i64, duration_ms: u64) -> TriggerConfigView {
    TriggerConfigView { strength, duration_ms, ..default_rule() }
}

/// The keys and rules of a rule table.
pub open spec fn rule_views(rules: Seq<(TriggerKind, TriggerConfig)>) -> Seq<(TriggerKind, TriggerConfigView)> {
    rules.map_values(|e: (TriggerKind, TriggerConfig)| (e.0, e.1@))
}

/// Entry `8 + j` of the factory table: for slot `j / 2`, ability use
/// (550000, 400 ms) then ability ready (350000, 300 ms).
pub open spec fn slot_preset(j: int) -> (TriggerKind, TriggerConfigView) {
    if j % 2 == 0 {
        (TriggerKind::AbilityUsed { slot: (j / 2) as u8 }, preset_rule(550_000, 400))
    } else {
        (TriggerKind::AbilityReady { slot: (j / 2) as u8 }, preset_rule(350_000, 300))
    }
}

/// The factory rule table, in order: kill, death, assist, respawn, parry,
/// parried, punch landed, punch taken, then ability use and readiness for
/// slots 0 to 3.
pub open spec fn factory_rules() -> Seq<(TriggerKind, TriggerConfigView)> {
    seq![
        (TriggerKind::Kill, preset_rule(700_000, 900)),
        (TriggerKind::Death, preset_rule(400_000, 1500)),
        (TriggerKind::Assist, preset_rule(500_000, 700)),
        (TriggerKind::Respawn, preset_rule(300_000, 500)),
        (TriggerKind::Parry, preset_rule(700_000, 250)),
        (TriggerKind::Parried, preset_rule(500_000, 400)),
        (TriggerKind::PunchLanded, preset_rule(450_000, 200)),
        (TriggerKind::PunchTaken, preset_rule(400_000, 200)),
    ] + Seq::new(8, |j: int| slot_preset(j))
}

/// The rule the factory table gives a trigger: its preset, the ability
/// presets for every slot (slots beyond the table fall back to slot 0's).
pub open spec fn factory_rule_for(kind: TriggerKind) -> TriggerConfigView {
    match kind {
        TriggerKind::Kill => preset_rule(700_000, 900),
        TriggerKind::Death => preset_rule(400_000, 1500),
        TriggerKind::Assist => preset_rule(500_000, 700),
        TriggerKind::Respawn => preset_rule(300_000, 500),
        TriggerKind::Parry => preset_rule(700_000, 250),
        TriggerKind::Parried => preset_rule(500_000, 400),
        TriggerKind::PunchLanded => preset_rule(450_000, 200),
        TriggerKind::PunchTaken => preset_rule(400_000, 200),
        TriggerKind::AbilityUsed { .. } => preset_rule(550_000, 400),
        TriggerKind::AbilityReady { .. } => preset_rule(350_000, 300),
    }
}

/// Looking a trigger up in the factory table gives its preset.
pub proof fn lemma_factory_rule_for(rules: Seq<(TriggerKind, TriggerConfig)>, kind: TriggerKind)
    requires
        rule_views(rules) == factory_rules(),
    ensures
        rule_for(rules, kind) == factory_rule_for(kind),
{
    let keys = rule_keys(rules);
    let f = factory_rules();
    assert(rule_views(rules).len() == 16);
    assert forall|i: int| 0 <= i < 16 implies #[trigger] keys[i] == f[i].0 && rules[i].1@ == f[i].1 by {
        assert(rule_views(rules)[i] == f[i]);
    }
    assert forall|j: int| 0 <= j < 8 implies #[trigger] f[8 + j] == slot_preset(j) by {}
    lemma_find_rule_bounds(keys, kind);
    match kind {
        TriggerKind::Kill => lemma_first_of(keys, kind, 0),
        TriggerKind::Death => lemma_first_of(keys, kind, 1),
        TriggerKind::Assist => lemma_first_of(keys, kind, 2),
        TriggerKind::Respawn => lemma_first_of(keys, kind, 3),
        TriggerKind::Parry => lemma_first_of(keys, kind, 4),
        TriggerKind::Parried => lemma_first_of(keys, kind, 5),
        TriggerKind::PunchLanded => lemma_first_of(keys, kind, 6),
        TriggerKind::PunchTaken => lemma_first_of(keys, kind, 7),
        TriggerKind::AbilityUsed { slot } => {
            if slot < 4 {
                let idx = 8 + 2 * slot;
                assert(keys[idx] == slot_preset(2 * slot as int).0);
                assert forall|m: int| 0 <= m < idx implies keys[m] != kind by {
                    if m >= 8 {
                        assert(keys[m] == slot_preset(m - 8).0);
                    }
                }
                lemma_first_of(keys, kind, idx as int);
            } else {
                assert forall|m: int| 0 <= m < keys.len() implies keys[m] != kind by {
                    if m >= 8 {
                        assert(keys[m] == slot_preset(m - 8).0);
                    }
                }
                assert(keys[8] == slot_preset(0).0);
                lemma_first_of_family(keys, kind, 8);
            }
        },
        TriggerKind::AbilityReady { slot } => {
            if slot < 4 {
                let idx = 9 + 2 * slot;
                assert(keys[idx] == slot_preset(2 * slot + 1).0);
                assert forall|m: int| 0 <= m < idx implies keys[m] != kind by {
                    if m >= 8 {
                        assert(keys[m] == slot_preset(m - 8).0);
                    }
                }
                lemma_first_of(keys, kind, idx as int);
            } else {
                assert forall|m: int| 0 <= m < keys.len() implies keys[m] != kind by {
                    if m >= 8 {
                        assert(keys[m] == slot_preset(m - 8).0);
                    }
                }
                assert(keys[8] == slot_preset(0).0);
                assert(keys[9] == slot_preset(1).0);
                lemma_first_of_family(keys, kind, 9);
            }
        },
    }
}

/// The key of entry `i >= 8` of the factory table: used/ready pairs by slot.
spec fn slot_rule_key(i: int) -> TriggerKind {
    if (i - 8) % 2 == 0 {
        TriggerKind::AbilityUsed { slot: ((i - 8) / 2) as u8 }
    } else {
        TriggerKind::AbilityReady { slot: ((i - 8) / 2) as u8 }
    }
}

impl AppConfig {
    /// Migrate the legacy single `shocker_id` into the roster (only when the
    /// roster is empty and the trimmed id is not blank), then clear it.
    pub fn normalized(self) -> (r: AppConfig)
        ensures
            r.openshock.shocker_id@ == Seq::<char>::empty(),
            ({
                let legacy = trim_seq(self.openshock.shocker_id@);
                if self.openshock.shockers@.len() == 0 && legacy.len() > 0 {
                    &&& r.openshock.shockers@.len() == 1
                    &&& r.openshock.shockers@[0].id@ == legacy
                    &&& r.openshock.shockers@[0].name@ == "Shocker"@
                } else {
                    r.openshock.shockers@ == self.openshock.shockers@
                }
            }),
            r.openshock.enabled == self.openshock.enabled,
            r.openshock.api_token == self.openshock.api_token,
            r.openshock.base_url == self.openshock.base_url,
            r.master_gain == self.master_gain,
            r.max_strength_cap == self.max_strength_cap,
            r.mute_while_dead == self.mute_while_dead,
            r.mod_http_port == self.mod_http_port,
            r.buttplug_ws_url == self.buttplug_ws_url,
            r.debug_logging == self.debug_logging,
            r.updates == self.updates,
            r.data_source == self.data_source,
            r.dll_event_port == self.dll_event_port,
            r.dll_path == self.dll_path,
            r.triggers@ == self.triggers@,
    {
        let mut config = self;
        let legacy = trim_chars(&chars_of(config.openshock.shocker_id.as_str()));
        if config.openshock.shockers.len() == 0 && legacy.len() > 0 {
            config.openshock.shockers.push(
                Shocker {
                    id: string_of(legacy.as_slice()),
                    name: string_of(chars_of("Shocker").as_slice()),
                },
            );
        }
        config.openshock.shocker_id = String::new();
        config
    }

    /// The rule for a trigger: its own rule, else the first rule of its
    /// family, else the default rule.
    pub fn trigger(&self, kind: TriggerKind) -> (r: TriggerConfig)
        ensures
            r@ == rule_for(self.triggers@, kind),
    {
        match find_rule_index(&self.triggers, kind) {
            Some(i) => self.triggers[i].1.duplicate(),
            None => match find_family_index(&self.triggers, kind) {
                Some(i) => self.triggers[i].1.duplicate(),
                None => TriggerConfig::default(),
            },
        }
    }

    /// Install the rule for a trigger, replacing the trigger's own rule
    /// where it has one and adding it at the end otherwise.
    pub fn set_rule(&mut self, kind: TriggerKind, rule: TriggerConfig)
        ensures
            final(self).triggers@ == with_rule(old(self).triggers@, kind, rule),
            rules_well_formed(old(self).triggers@) ==> rules_well_formed(final(self).triggers@),
            final(self).openshock == old(self).openshock,
            final(self).master_gain == old(self).master_gain,
            final(self).max_strength_cap == old(self).max_strength_cap,
    {
        proof {
            if rules_well_formed(self.triggers@) {
                lemma_with_rule_keeps_unique(self.triggers@, kind, rule);
            }
        }
        match find_rule_index(&self.triggers, kind) {
            Some(i) => self.triggers.set(i, (kind, rule)),
            None => self.triggers.push((kind, rule)),
        }
    }

    /// The factory rule table: fixed presets for the plain triggers and for
    /// the four hero ability slots.
    pub fn default_triggers() -> (r: Vec<(TriggerKind, TriggerConfig)>)
        ensures
            rule_views(r@) == factory_rules(),
            rules_well_formed(r@),
            r@.len() == 16,
            forall|i: int| 0 <= i < r@.len() ==> (#[trigger] r@[i]).1@.shock is None,
    {
        let mut t: Vec<(TriggerKind, TriggerConfig)> = Vec::new();
        t.push((TriggerKind::Kill, TriggerConfig::preset(700_000, 900)));
        t.push((TriggerKind::Death, TriggerConfig::preset(400_000, 1500)));
        t.push((TriggerKind::Assist, TriggerConfig::preset(500_000, 700)));
        t.push((TriggerKind::Respawn, TriggerConfig::preset(300_000, 500)));
        t.push((TriggerKind::Parry, TriggerConfig::preset(700_000, 250)));
        t.push((TriggerKind::Parried, TriggerConfig::preset(500_000, 400)));
        t.push((TriggerKind::PunchLanded, TriggerConfig::preset(450_000, 200)));
        t.push((TriggerKind::PunchTaken, TriggerConfig::preset(400_000, 200)));
        let ghost table = factory_rules();
        assert(rule_views(t@) =~= table.subrange(0, 8));
        let mut slot: u8 = 0;
        while slot < 4
            invariant
                slot <= 4,
                t@.len() == 8 + 2 * slot,
                table == factory_rules(),
                rule_views(t@) == table.subrange(0, t@.len() as int),
                rules_well_formed(t@),
                forall|i: int| 0 <= i < t@.len() ==> (#[trigger] t@[i]).1@.shock is None,
                forall|i: int| 8 <= i < t@.len() ==> (#[trigger] t@[i]).0 == slot_rule_key(i),
                forall|i: int| 0 <= i < 8 ==> !((#[trigger] t@[i]).0 is AbilityUsed) && !(
                t@[i].0 is AbilityReady),
            decreases 4 - slot,
        {
            let ghost before = rule_views(t@);
            t.push((TriggerKind::AbilityUsed { slot }, TriggerConfig::preset(550_000, 400)));
            t.push((TriggerKind::AbilityReady { slot }, TriggerConfig::preset(350_000, 300)));
            proof {
                let n = 8 + 2 * slot;
                assert(table[n] == slot_preset(2 * slot as int));
                assert(table[n + 1] == slot_preset(2 * slot + 1));
                assert((2 * slot as int) / 2 == slot as int);
                assert((2 * slot + 1) / 2 == slot as int);
                assert(rule_views(t@) =~= table.subrange(0, n + 2));
            }
            slot += 1;
        }
        assert(table.subrange(0, 16) =~= table);
        t
    }

    /// A copy of this configuration: every setting and every rule the same.
    pub fn duplicate(&self) -> (r: AppConfig)
        ensures
            r.master_gain == self.master_gain,
            r.max_strength_cap == self.max_strength_cap,
            r.mute_while_dead == self.mute_while_dead,
            r.mod_http_port == self.mod_http_port,
            r.buttplug_ws_url == self.buttplug_ws_url,
            r.debug_logging == self.debug_logging,
            r.openshock.enabled == self.openshock.enabled,
            r.openshock.api_token == self.openshock.api_token,
            r.openshock.base_url == self.openshock.base_url,
            r.openshock.shocker_id == self.openshock.shocker_id,
            r.openshock.shockers@ == self.openshock.shockers@,
            r.updates == self.updates,
            r.data_source == self.data_source,
            r.dll_event_port == self.dll_event_port,
            r.dll_path == self.dll_path,
            rule_views(r.triggers@) == rule_views(self.triggers@),
    {
        let mut triggers: Vec<(TriggerKind, TriggerConfig)> = Vec::new();
        let mut k: usize = 0;
        while k < self.triggers.len()
            invariant
                k <= self.triggers.len(),
                triggers@.len() == k,
                forall|i: int|
                    0 <= i < k ==> (#[trigger] triggers@[i]).0 == self.triggers@[i].0
                        && triggers@[i].1@ == self.triggers@[i].1@,
            decreases self.triggers.len() - k,
        {
            triggers.push((self.triggers[k].0, self.triggers[k].1.duplicate()));
            k += 1;
        }
        assert(rule_views(triggers@) =~= rule_views(self.triggers@));
        AppConfig {
            master_gain: self.master_gain,
            max_strength_cap: self.max_strength_cap,
            mute_while_dead: self.mute_while_dead,
            mod_http_port: self.mod_http_port,
            buttplug_ws_url: self.buttplug_ws_url.clone(),
            debug_logging: self.debug_logging,
            openshock: self.openshock.duplicate(),
            updates: UpdateConfig {
                enabled: self.updates.enabled,
                repo: self.updates.repo.clone(),
                auto_update_offsets: self.updates.auto_update_offsets,
            },
            data_source: self.data_source,
            dll_event_port: self.dll_event_port,
            dll_path: match &self.dll_path {
                Some(p) => Some(p.clone()),
                None => None,
            },
            triggers,
        }
    }
}

impl Default for AppConfig {
    fn default() -> (r: AppConfig)
        ensures
            r.master_gain == UNIT,
            r.max_strength_cap == UNIT,
            r.mute_while_dead == false,
            r.mod_http_port == 24681,
            r.buttplug_ws_url@ == "ws://127.0.0.1:12345"@,
            r.debug_logging == false,
            r.openshock.enabled == false,
            r.openshock.shockers@.len() == 0,
            r.openshock.shocker_id@ == Seq::<char>::empty(),
            r.updates.enabled,
            r.data_source == DataSource::Dll,
            r.dll_event_port == DEFAULT_DLL_EVENT_PORT,
            r.dll_path is None,
            rules_well_formed(r.triggers@),
            r.triggers@.len() == 16,
            rule_views(r.triggers@) == factory_rules(),
            forall|k: TriggerKind| #[trigger] rule_for(r.triggers@, k) == factory_rule_for(k),
            r.updates.repo@ == "a55uka/deadass"@,
            r.updates.auto_update_offsets,
            r.openshock.api_token@ == Seq::<char>::empty(),
            r.openshock.base_url@ == "https://api.openshock.app"@,
    {
        let r = AppConfig {
            master_gain: UNIT,
            max_strength_cap: UNIT,
            mute_while_dead: false,
            mod_http_port: 24681,
            buttplug_ws_url: string_of(chars_of("ws://127.0.0.1:12345").as_slice()),
            debug_logging: false,
            openshock: OpenShockConfig::default(),
            updates: UpdateConfig::default(),
            data_source: DataSource::Dll,
            dll_event_port: DEFAULT_DLL_EVENT_PORT,
            dll_path: None,
            triggers: AppConfig::default_triggers(),
        };
        assert forall|k: TriggerKind| #[trigger] rule_for(r.triggers@, k) == factory_rule_for(k) by {
            lemma_factory_rule_for(r.triggers@, k);
        }
        r
    }
}

} // verus!
