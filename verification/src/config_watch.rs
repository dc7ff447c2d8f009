//! Describing what changed between two configurations, one line per changed
//! setting, trigger rules in key order and capped.

use vstd::prelude::*;
use crate::config::{
    AppConfig, DataSource, TriggerConfig, TriggerConfigView, UNIT, data_source_name, default_rule,
    find_rule, find_rule_index, lemma_find_rule_bounds, rule_keys, rule_views, rules_well_formed,
};
use crate::shock::{ShockConfig, Shocker, ShockerView, strings_view};
use crate::text::{chars_eq, chars_of, decimal_seq, digit_char, push_chars, push_decimal, push_str, str_eq, string_of};
use crate::trigger::{Pattern, TriggerKind, lemma_trigger_key_roundtrip, trigger_key};
use crate::ui::{AppState, capped_push, lines_view};

verus! {

/// Trigger change lines shown at most; the rest are counted.
pub const MAX_TRIGGER_LINES: usize = 6;

// ---------------------------------------------------------------------------
// Ordering of trigger keys (the order of their text).

/// `a` sorts before `b`, comparing characters by code, a proper prefix first.
pub open spec fn text_lt(a: Seq<char>, b: Seq<char>) -> bool
    decreases a.len(),
{
    if a.len() == 0 {
        b.len() > 0
    } else if b.len() == 0 {
        false
    } else if a[0] != b[0] {
        a[0] < b[0]
    } else {
        text_lt(a.drop_first(), b.drop_first())
    }
}

proof fn lemma_text_lt_irreflexive(a: Seq<char>)
    ensures
        !text_lt(a, a),
    decreases a.len(),
{
    if a.len() > 0 {
        lemma_text_lt_irreflexive(a.drop_first());
    }
}

proof fn lemma_text_lt_total(a: Seq<char>, b: Seq<char>)
    requires
        a != b,
    ensures
        text_lt(a, b) || text_lt(b, a),
    decreases a.len(),
{
    if a.len() > 0 && b.len() > 0 && a[0] == b[0] {
        if a.drop_first() == b.drop_first() {
            assert(a =~= seq![a[0]] + a.drop_first());
            assert(b =~= seq![b[0]] + b.drop_first());
        }
        lemma_text_lt_total(a.drop_first(), b.drop_first());
    } else if a.len() == 0 && b.len() == 0 {
        assert(a =~= b);
    } else if a.len() > 0 && b.len() > 0 {
    }
}

proof fn lemma_text_lt_transitive(a: Seq<char>, b: Seq<char>, c: Seq<char>)
    requires
        text_lt(a, b),
        text_lt(b, c),
    ensures
        text_lt(a, c),
    decreases a.len(),
{
    if a.len() > 0 && b.len() > 0 && c.len() > 0 && a[0] == b[0] && b[0] == c[0] {
        lemma_text_lt_transitive(a.drop_first(), b.drop_first(), c.drop_first());
    }
}

proof fn lemma_text_lt_asymmetric(a: Seq<char>, b: Seq<char>)
    requires
        text_lt(a, b),
    ensures
        !text_lt(b, a),
    decreases a.len(),
{
    if a.len() > 0 && b.len() > 0 && a[0] == b[0] {
        lemma_text_lt_asymmetric(a.drop_first(), b.drop_first());
    }
}

/// Compare two texts.
pub fn text_less(a: &Vec<char>, b: &Vec<char>) -> (r: bool)
    ensures
        r == text_lt(a@, b@),
{
    let mut k: usize = 0;
    assert(a@.subrange(0, a@.len() as int) =~= a@);
    assert(b@.subrange(0, b@.len() as int) =~= b@);
    while k < a.len() && k < b.len() && a[k] == b[k]
        invariant
            k <= a.len(),
            k <= b.len(),
            text_lt(a@, b@) == text_lt(a@.subrange(k as int, a@.len() as int), b@.subrange(k as int, b@.len() as int)),
        decreases a.len() - k,
    {
        let ghost ra = a@.subrange(k as int, a@.len() as int);
        let ghost rb = b@.subrange(k as int, b@.len() as int);
        assert(ra.drop_first() =~= a@.subrange(k + 1, a@.len() as int));
        assert(rb.drop_first() =~= b@.subrange(k + 1, b@.len() as int));
        k += 1;
    }
    let ghost ra = a@.subrange(k as int, a@.len() as int);
    let ghost rb = b@.subrange(k as int, b@.len() as int);
    if k == a.len() {
        k < b.len()
    } else if k == b.len() {
        false
    } else {
        assert(ra[0] == a@[k as int] && rb[0] == b@[k as int]);
        a[k] < b[k]
    }
}

/// Trigger `a`'s key sorts before `b`'s.
pub open spec fn key_lt(a: TriggerKind, b: TriggerKind) -> bool {
    text_lt(trigger_key(a), trigger_key(b))
}

/// Keys in strictly increasing key order.
pub open spec fn keys_sorted(keys: Seq<TriggerKind>) -> bool {
    forall|i: int, j: int| 0 <= i < j < keys.len() ==> key_lt(#[trigger] keys[i], #[trigger] keys[j])
}

/// `keys` lists, in key order, every trigger of either table once.
pub open spec fn sorted_union(keys: Seq<TriggerKind>, a: Seq<TriggerKind>, b: Seq<TriggerKind>) -> bool {
    &&& keys_sorted(keys)
    &&& forall|k: TriggerKind| keys.contains(k) <==> (a.contains(k) || b.contains(k))
}

proof fn lemma_key_lt_total(a: TriggerKind, b: TriggerKind)
    requires
        a != b,
    ensures
        key_lt(a, b) || key_lt(b, a),
{
    lemma_trigger_key_roundtrip(a);
    lemma_trigger_key_roundtrip(b);
    lemma_text_lt_total(trigger_key(a), trigger_key(b));
}

fn key_chars(k: TriggerKind) -> (r: Vec<char>)
    ensures
        r@ == trigger_key(k),
{
    let mut out: Vec<char> = Vec::new();
    k.push_key(&mut out);
    assert(out@ =~= trigger_key(k));
    out
}

/// Insert `k` into the sorted keys unless it is already there.
fn insert_key(keys: &mut Vec<TriggerKind>, k: TriggerKind)
    requires
        keys_sorted(old(keys)@),
    ensures
        keys_sorted(final(keys)@),
        forall|x: TriggerKind| final(keys)@.contains(x) <==> (old(keys)@.contains(x) || x == k),
{
    let text = key_chars(k);
    let mut p: usize = 0;
    let mut stop = false;
    while p < keys.len() && !stop
        invariant
            p <= keys.len(),
            keys@ == old(keys)@,
            keys_sorted(keys@),
            text@ == trigger_key(k),
            forall|i: int| 0 <= i < p ==> key_lt(#[trigger] keys@[i], k),
            stop ==> p < keys.len() && key_lt(k, keys@[p as int]),
        decreases keys.len() - p + (if stop {
            0int
        } else {
            1int
        }),
    {
        if keys[p] == k {
            return;
        }
        if text_less(&text, &key_chars(keys[p])) {
            stop = true;
        } else {
            proof {
                lemma_key_lt_total(keys@[p as int], k);
            }
            p += 1;
        }
    }
    let ghost before = keys@;
    keys.insert(p, k);
    proof {
        assert(keys@ =~= before.insert(p as int, k));
        assert forall|i: int, j: int| 0 <= i < j < keys@.len() implies key_lt(
            #[trigger] keys@[i],
            #[trigger] keys@[j],
        ) by {
            if j < p {
                assert(keys@[i] == before[i] && keys@[j] == before[j]);
            } else if j == p {
                assert(keys@[i] == before[i]);
            } else if i > p {
                assert(keys@[i] == before[i - 1] && keys@[j] == before[j - 1]);
            } else if i == p {
                assert(keys@[j] == before[j - 1]);
                assert(keys@[i] == k);
                assert(key_lt(k, before[p as int]));
                if j - 1 > p {
                    assert(key_lt(before[p as int], before[j - 1]));
                    lemma_text_lt_transitive(
                        trigger_key(k),
                        trigger_key(before[p as int]),
                        trigger_key(before[j - 1]),
                    );
                }
            } else {
                assert(keys@[i] == before[i] && keys@[j] == before[j - 1]);
            }
        }
        assert forall|x: TriggerKind| keys@.contains(x) <==> (before.contains(x) || x == k) by {
            if before.contains(x) {
                let i = choose|i: int| 0 <= i < before.len() && before[i] == x;
                if i < p {
                    assert(keys@[i] == x);
                } else {
                    assert(keys@[i + 1] == x);
                }
            }
            if x == k {
                assert(keys@[p as int] == k);
            }
            if keys@.contains(x) {
                let i = choose|i: int| 0 <= i < keys@.len() && keys@[i] == x;
                if i < p {
                    assert(before[i] == x);
                } else if i > p {
                    assert(before[i - 1] == x);
                }
            }
        }
    }
}


// ---------------------------------------------------------------------------
// Rendering of single changes.

pub open spec fn on_off(b: bool) -> Seq<char> {
    if b {
        "on"@
    } else {
        "off"@
    }
}

pub open spec fn on_off_change(o: bool, n: bool) -> Seq<char> {
    on_off(o) + " -> "@ + on_off(n)
}

/// Two decimal digits of `n < 100`.
pub open spec fn two_digits(n: nat) -> Seq<char> {
    seq![digit_char(n / 10), digit_char(n % 10)]
}

/// A non-negative millionths value in hundredths, rounded to the nearest
/// hundredth, ties to the even one.
pub open spec fn round_hundredths(a: int) -> int {
    let q = a / 10000;
    let r = a % 10000;
    if r > 5000 || (r == 5000 && q % 2 == 1) {
        q + 1
    } else {
        q
    }
}

/// A millionths value with two decimals, rounded to the nearest hundredth
/// (ties to even).
pub open spec fn fixed2(m: int) -> Seq<char> {
    let a = if m < 0 {
        -m
    } else {
        m
    };
    let h = round_hundredths(a);
    (if m < 0 {
        "-"@
    } else {
        Seq::empty()
    }) + decimal_seq((h / 100) as nat) + "."@ + two_digits((h % 100) as nat)
}

pub open spec fn fixed_change(o: int, n: int) -> Seq<char> {
    fixed2(o) + " -> "@ + fixed2(n)
}

pub open spec fn number_change(o: nat, n: nat) -> Seq<char> {
    decimal_seq(o) + " -> "@ + decimal_seq(n)
}

/// An empty text shown as `(empty)`.
pub open spec fn quote_none(s: Seq<char>) -> Seq<char> {
    if s.len() == 0 {
        "(empty)"@
    } else {
        s
    }
}

/// An unset path shown as `(default)`.
pub open spec fn path_or_default(p: Option<Seq<char>>) -> Seq<char> {
    match p {
        Some(s) => s,
        None => "(default)"@,
    }
}

pub open spec fn pattern_debug(p: Pattern) -> Seq<char> {
    match p {
        Pattern::Vibrate => "Vibrate"@,
        Pattern::Pulse => "Pulse"@,
        Pattern::Ramp => "Ramp"@,
    }
}

fn push_on_off(out: &mut Vec<char>, b: bool)
    ensures
        final(out)@ == old(out)@ + on_off(b),
{
    if b {
        push_str(out, "on");
    } else {
        push_str(out, "off");
    }
}

fn push_on_off_change(out: &mut Vec<char>, o: bool, n: bool)
    ensures
        final(out)@ == old(out)@ + on_off_change(o, n),
{
    let ghost start = out@;
    push_on_off(out, o);
    push_str(out, " -> ");
    push_on_off(out, n);
    assert(out@ =~= start + on_off_change(o, n));
}

fn push_fixed2(out: &mut Vec<char>, m: i64)
    ensures
        final(out)@ == old(out)@ + fixed2(m as int),
{
    let ghost start = out@;
    let a: u64 = if m < 0 {
        ((-(m + 1)) as u64) + 1
    } else {
        m as u64
    };
    assert(a as int == if m < 0 {
        -(m as int)
    } else {
        m as int
    });
    let q: u64 = a / 10000;
    let r: u64 = a % 10000;
    let h: u64 = if r > 5000 || (r == 5000 && q % 2 == 1) {
        q + 1
    } else {
        q
    };
    if m < 0 {
        push_str(out, "-");
    }
    let ghost signed = out@;
    push_decimal(out, h / 100);
    push_str(out, ".");
    let frac = h % 100;
    let tens = (frac / 10) as u8;
    let ones = (frac % 10) as u8;
    out.push((48u8 + tens) as char);
    out.push((48u8 + ones) as char);
    proof {
        reveal_strlit("-");
        reveal_strlit(".");
        assert(signed =~= start + (if m < 0 {
            "-"@
        } else {
            Seq::<char>::empty()
        }));
        assert(out@ =~= start + fixed2(m as int));
    }
}

fn push_fixed_change(out: &mut Vec<char>, o: i64, n: i64)
    ensures
        final(out)@ == old(out)@ + fixed_change(o as int, n as int),
{
    let ghost start = out@;
    push_fixed2(out, o);
    push_str(out, " -> ");
    push_fixed2(out, n);
    assert(out@ =~= start + fixed_change(o as int, n as int));
}

fn push_number_change(out: &mut Vec<char>, o: u64, n: u64)
    ensures
        final(out)@ == old(out)@ + number_change(o as nat, n as nat),
{
    let ghost start = out@;
    push_decimal(out, o);
    push_str(out, " -> ");
    push_decimal(out, n);
    assert(out@ =~= start + number_change(o as nat, n as nat));
}

fn push_pattern(out: &mut Vec<char>, p: Pattern)
    ensures
        final(out)@ == old(out)@ + pattern_debug(p),
{
    match p {
        Pattern::Vibrate => push_str(out, "Vibrate"),
        Pattern::Pulse => push_str(out, "Pulse"),
        Pattern::Ramp => push_str(out, "Ramp"),
    }
}


// ---------------------------------------------------------------------------
// Comparing rules.

fn strings_equal(a: &Vec<String>, b: &Vec<String>) -> (r: bool)
    ensures
        r == (strings_view(a@) == strings_view(b@)),
{
    if a.len() != b.len() {
        proof {
            assert(strings_view(a@).len() != strings_view(b@).len());
        }
        return false;
    }
    let mut k: usize = 0;
    while k < a.len()
        invariant
            k <= a.len() == b.len(),
            forall|i: int| 0 <= i < k ==> (#[trigger] a@[i])@ == b@[i]@,
        decreases a.len() - k,
    {
        if !chars_eq(&chars_of(a[k].as_str()), &chars_of(b[k].as_str())) {
            proof {
                assert(strings_view(a@)[k as int] != strings_view(b@)[k as int]);
            }
            return false;
        }
        k += 1;
    }
    assert(strings_view(a@) =~= strings_view(b@));
    true
}

fn optional_strings_equal(a: &Option<Vec<String>>, b: &Option<Vec<String>>) -> (r: bool)
    ensures
        r == ((match a {
            Some(v) => Some(strings_view(v@)),
            None => None::<Seq<Seq<char>>>,
        }) == (match b {
            Some(v) => Some(strings_view(v@)),
            None => None::<Seq<Seq<char>>>,
        })),
{
    match (a, b) {
        (Some(x), Some(y)) => strings_equal(x, y),
        (None, None) => true,
        _ => false,
    }
}

fn shock_equal(a: &ShockConfig, b: &ShockConfig) -> (r: bool)
    ensures
        r == (a@ == b@),
{
    a.enabled == b.enabled && a.intensity == b.intensity && a.duration_ms == b.duration_ms
        && a.kind == b.kind && optional_strings_equal(&a.shocker_ids, &b.shocker_ids)
}

/// Two rules say the same.
pub fn rules_equal(a: &TriggerConfig, b: &TriggerConfig) -> (r: bool)
    ensures
        r == (a@ == b@),
{
    let shock_same = match (&a.shock, &b.shock) {
        (Some(x), Some(y)) => shock_equal(x, y),
        (None, None) => true,
        _ => false,
    };
    a.enabled == b.enabled && a.strength == b.strength && a.duration_ms == b.duration_ms
        && a.retrigger_cooldown_ms == b.retrigger_cooldown_ms && a.pattern == b.pattern
        && shock_same && optional_strings_equal(&a.vibrate_devices, &b.vibrate_devices)
}

// ---------------------------------------------------------------------------
// The description.

/// `lines` with `line` appended when `cond` holds.
pub open spec fn add_if(lines: Seq<Seq<char>>, cond: bool, line: Seq<char>) -> Seq<Seq<char>> {
    if cond {
        lines.push(line)
    } else {
        lines
    }
}

/// The parts joined with `sep`.
pub open spec fn join_sep(parts: Seq<Seq<char>>, sep: Seq<char>) -> Seq<char>
    decreases parts.len(),
{
    if parts.len() == 0 {
        Seq::empty()
    } else if parts.len() == 1 {
        parts[0]
    } else {
        join_sep(parts.drop_last(), sep) + sep + parts.last()
    }
}

/// What changed in a rule, in field order (shock and device settings are
/// not described).
pub open spec fn rule_parts(o: TriggerConfigView, n: TriggerConfigView) -> Seq<Seq<char>> {
    let p0 = add_if(Seq::empty(), o.enabled != n.enabled, "enabled "@ + on_off_change(o.enabled, n.enabled));
    let p1 = add_if(p0, o.strength != n.strength, "strength "@ + fixed_change(o.strength as int, n.strength as int));
    let p2 = add_if(p1, o.duration_ms != n.duration_ms, "duration_ms "@ + number_change(o.duration_ms as nat, n.duration_ms as nat));
    let p3 = add_if(p2, o.retrigger_cooldown_ms != n.retrigger_cooldown_ms, "cooldown_ms "@ + number_change(o.retrigger_cooldown_ms as nat, n.retrigger_cooldown_ms as nat));
    add_if(p3, o.pattern != n.pattern, "pattern "@ + pattern_debug(o.pattern) + " -> "@ + pattern_debug(n.pattern))
}

/// The rule a table holds for exactly this trigger.
pub open spec fn rule_at(rules: Seq<(TriggerKind, TriggerConfig)>, k: TriggerKind) -> Option<TriggerConfigView> {
    match find_rule(rule_keys(rules), k) {
        Some(i) => Some(rules[i].1@),
        None => None,
    }
}

pub open spec fn rule_or_default(r: Option<TriggerConfigView>) -> TriggerConfigView {
    match r {
        Some(v) => v,
        None => default_rule(),
    }
}

/// One line per listed trigger whose rule changed in a described field; a
/// missing rule compares as the default rule.
pub open spec fn trigger_lines(
    keys: Seq<TriggerKind>,
    old_rules: Seq<(TriggerKind, TriggerConfig)>,
    new_rules: Seq<(TriggerKind, TriggerConfig)>,
) -> Seq<Seq<char>>
    decreases keys.len(),
{
    if keys.len() == 0 {
        Seq::empty()
    } else {
        let prev = trigger_lines(keys.drop_last(), old_rules, new_rules);
        let k = keys.last();
        let o = rule_at(old_rules, k);
        let n = rule_at(new_rules, k);
        let parts = rule_parts(rule_or_default(o), rule_or_default(n));
        if o == n || parts.len() == 0 {
            prev
        } else {
            prev.push(trigger_key(k) + " "@ + join_sep(parts, ", "@))
        }
    }
}

/// At most `MAX_TRIGGER_LINES` lines, then a count of the rest.
pub open spec fn capped(lines: Seq<Seq<char>>) -> Seq<Seq<char>> {
    if lines.len() > MAX_TRIGGER_LINES {
        lines.subrange(0, MAX_TRIGGER_LINES as int).push(
            "... and "@ + decimal_seq((lines.len() - MAX_TRIGGER_LINES) as nat) + " more trigger changes"@,
        )
    } else {
        lines
    }
}

pub open spec fn opt_text(s: Option<String>) -> Option<Seq<char>> {
    match s {
        Some(v) => Some(v@),
        None => None,
    }
}

/// The lines for the plain settings, in a fixed order.
pub open spec fn scalar_lines(o: AppConfig, n: AppConfig) -> Seq<Seq<char>> {
    let l0 = add_if(Seq::empty(), o.master_gain != n.master_gain, "master_gain "@ + fixed_change(o.master_gain as int, n.master_gain as int));
    let l1 = add_if(l0, o.max_strength_cap != n.max_strength_cap, "max_strength_cap "@ + fixed_change(o.max_strength_cap as int, n.max_strength_cap as int));
    let l2 = add_if(l1, o.mute_while_dead != n.mute_while_dead, "mute_while_dead "@ + on_off_change(o.mute_while_dead, n.mute_while_dead));
    let l3 = add_if(l2, o.debug_logging != n.debug_logging, "debug_logging "@ + on_off_change(o.debug_logging, n.debug_logging));
    let l4 = add_if(l3, o.mod_http_port != n.mod_http_port, "mod_http_port "@ + number_change(o.mod_http_port as nat, n.mod_http_port as nat));
    let l5 = add_if(l4, o.dll_event_port != n.dll_event_port, "dll_event_port "@ + number_change(o.dll_event_port as nat, n.dll_event_port as nat));
    let l6 = add_if(l5, o.buttplug_ws_url@ != n.buttplug_ws_url@, "buttplug_ws_url "@ + quote_none(o.buttplug_ws_url@) + " -> "@ + quote_none(n.buttplug_ws_url@));
    let l7 = add_if(l6, opt_text(o.dll_path) != opt_text(n.dll_path), "dll_path "@ + path_or_default(opt_text(o.dll_path)) + " -> "@ + path_or_default(opt_text(n.dll_path)));
    add_if(l7, o.data_source != n.data_source, "data_source "@ + data_source_name(o.data_source) + " -> "@ + data_source_name(n.data_source))
}

/// The whole description for the given key order.
pub open spec fn describe_change_spec(o: AppConfig, n: AppConfig, keys: Seq<TriggerKind>) -> Seq<Seq<char>> {
    scalar_lines(o, n) + capped(trigger_lines(keys, o.triggers@, n.triggers@))
}


/// Append a part to a `", "`-joined text.
fn push_part(joined: &mut Vec<char>, any: bool, part: &Vec<char>, Ghost(parts): Ghost<Seq<Seq<char>>>)
    requires
        old(joined)@ == join_sep(parts, ", "@),
        any == (parts.len() > 0),
    ensures
        final(joined)@ == join_sep(parts.push(part@), ", "@),
{
    if any {
        push_str(joined, ", ");
        proof {
            assert(parts.push(part@).drop_last() =~= parts);
        }
    } else {
        proof {
            assert(parts =~= Seq::<Seq<char>>::empty());
        }
    }
    let ghost before = joined@;
    push_chars(joined, part);
    proof {
        if any {
            assert(joined@ =~= join_sep(parts, ", "@) + ", "@ + part@);
        } else {
            assert(joined@ =~= part@);
        }
    }
}

/// The description of a changed rule, if any described field changed.
fn describe_rule(o: &TriggerConfig, n: &TriggerConfig) -> (r: Option<Vec<char>>)
    ensures
        rule_parts(o@, n@).len() == 0 ==> r is None,
        rule_parts(o@, n@).len() > 0 ==> r is Some && r->0@ == join_sep(rule_parts(o@, n@), ", "@),
{
    let mut joined: Vec<char> = Vec::new();
    let mut any = false;
    let ghost mut parts: Seq<Seq<char>> = Seq::empty();
    if o.enabled != n.enabled {
        let mut part: Vec<char> = Vec::new();
        push_str(&mut part, "enabled ");
        push_on_off_change(&mut part, o.enabled, n.enabled);
        push_part(&mut joined, any, &part, Ghost(parts));
        proof {
            parts = parts.push(part@);
        }
        any = true;
    }
    if o.strength != n.strength {
        let mut part: Vec<char> = Vec::new();
        push_str(&mut part, "strength ");
        push_fixed_change(&mut part, o.strength, n.strength);
        push_part(&mut joined, any, &part, Ghost(parts));
        proof {
            parts = parts.push(part@);
        }
        any = true;
    }
    if o.duration_ms != n.duration_ms {
        let mut part: Vec<char> = Vec::new();
        push_str(&mut part, "duration_ms ");
        push_number_change(&mut part, o.duration_ms, n.duration_ms);
        push_part(&mut joined, any, &part, Ghost(parts));
        proof {
            parts = parts.push(part@);
        }
        any = true;
    }
    if o.retrigger_cooldown_ms != n.retrigger_cooldown_ms {
        let mut part: Vec<char> = Vec::new();
        push_str(&mut part, "cooldown_ms ");
        push_number_change(&mut part, o.retrigger_cooldown_ms, n.retrigger_cooldown_ms);
        push_part(&mut joined, any, &part, Ghost(parts));
        proof {
            parts = parts.push(part@);
        }
        any = true;
    }
    if o.pattern != n.pattern {
        let mut part: Vec<char> = Vec::new();
        push_str(&mut part, "pattern ");
        push_pattern(&mut part, o.pattern);
        push_str(&mut part, " -> ");
        push_pattern(&mut part, n.pattern);
        push_part(&mut joined, any, &part, Ghost(parts));
        proof {
            parts = parts.push(part@);
        }
        any = true;
    }
    proof {
        assert(parts =~= rule_parts(o@, n@));
    }
    if any {
        Some(joined)
    } else {
        None
    }
}

fn rule_lookup(rules: &Vec<(TriggerKind, TriggerConfig)>, k: TriggerKind) -> (r: Option<usize>)
    ensures
        match rule_at(rules@, k) {
            Some(v) => r is Some && r->0 < rules@.len() && rules@[r->0 as int].1@ == v,
            None => r is None,
        },
{
    find_rule_index(rules, k)
}

/// The line for one trigger, if its rule changed in a described field.
fn trigger_line(
    k: TriggerKind,
    old_rules: &Vec<(TriggerKind, TriggerConfig)>,
    new_rules: &Vec<(TriggerKind, TriggerConfig)>,
) -> (r: Option<String>)
    ensures
        ({
            let o = rule_at(old_rules@, k);
            let n = rule_at(new_rules@, k);
            let parts = rule_parts(rule_or_default(o), rule_or_default(n));
            if o == n || parts.len() == 0 {
                r is None
            } else {
                r is Some && r->0@ == trigger_key(k) + " "@ + join_sep(parts, ", "@)
            }
        }),
{
    let oi = rule_lookup(old_rules, k);
    let ni = rule_lookup(new_rules, k);
    let same = match (oi, ni) {
        (Some(i), Some(j)) => rules_equal(&old_rules[i].1, &new_rules[j].1),
        (None, None) => true,
        _ => false,
    };
    if same {
        return None;
    }
    let empty = TriggerConfig::default();
    let o = match oi {
        Some(i) => &old_rules[i].1,
        None => &empty,
    };
    let n = match ni {
        Some(j) => &new_rules[j].1,
        None => &empty,
    };
    match describe_rule(o, n) {
        Some(detail) => {
            let mut line = key_chars(k);
            push_str(&mut line, " ");
            push_chars(&mut line, &detail);
            Some(string_of(line.as_slice()))
        },
        None => None,
    }
}


fn push_line(lines: &mut Vec<String>, line: Vec<char>)
    ensures
        lines_view(final(lines)@) == lines_view(old(lines)@).push(line@),
{
    let ghost before = lines_view(lines@);
    lines.push(string_of(line.as_slice()));
    assert(lines_view(lines@) =~= before.push(line@));
}

fn push_text_or(out: &mut Vec<char>, s: &Option<String>, fallback: &str)
    ensures
        final(out)@ == old(out)@ + match opt_text(*s) {
            Some(t) => t,
            None => fallback@,
        },
{
    match s {
        Some(t) => push_str(out, t.as_str()),
        None => push_str(out, fallback),
    }
}

fn scalar_change_lines(o: &AppConfig, n: &AppConfig) -> (lines: Vec<String>)
    ensures
        lines_view(lines@) == scalar_lines(*o, *n),
{
    let mut lines: Vec<String> = Vec::new();
    assert(lines_view(lines@) =~= Seq::<Seq<char>>::empty());
    if o.master_gain != n.master_gain {
        let mut l = chars_of("master_gain ");
        push_fixed_change(&mut l, o.master_gain, n.master_gain);
        push_line(&mut lines, l);
    }
    let ghost c0 = add_if(Seq::<Seq<char>>::empty(), o.master_gain != n.master_gain, "master_gain "@ + fixed_change(o.master_gain as int, n.master_gain as int));
    assert(lines_view(lines@) == c0);
    if o.max_strength_cap != n.max_strength_cap {
        let mut l = chars_of("max_strength_cap ");
        push_fixed_change(&mut l, o.max_strength_cap, n.max_strength_cap);
        push_line(&mut lines, l);
    }
    let ghost c1 = add_if(c0, o.max_strength_cap != n.max_strength_cap, "max_strength_cap "@ + fixed_change(o.max_strength_cap as int, n.max_strength_cap as int));
    assert(lines_view(lines@) == c1);
    if o.mute_while_dead != n.mute_while_dead {
        let mut l = chars_of("mute_while_dead ");
        push_on_off_change(&mut l, o.mute_while_dead, n.mute_while_dead);
        push_line(&mut lines, l);
    }
    let ghost c2 = add_if(c1, o.mute_while_dead != n.mute_while_dead, "mute_while_dead "@ + on_off_change(o.mute_while_dead, n.mute_while_dead));
    assert(lines_view(lines@) == c2);
    if o.debug_logging != n.debug_logging {
        let mut l = chars_of("debug_logging ");
        push_on_off_change(&mut l, o.debug_logging, n.debug_logging);
        push_line(&mut lines, l);
    }
    let ghost c3 = add_if(c2, o.debug_logging != n.debug_logging, "debug_logging "@ + on_off_change(o.debug_logging, n.debug_logging));
    assert(lines_view(lines@) == c3);
    if o.mod_http_port != n.mod_http_port {
        let mut l = chars_of("mod_http_port ");
        push_number_change(&mut l, o.mod_http_port as u64, n.mod_http_port as u64);
        push_line(&mut lines, l);
    }
    let ghost c4 = add_if(c3, o.mod_http_port != n.mod_http_port, "mod_http_port "@ + number_change(o.mod_http_port as nat, n.mod_http_port as nat));
    assert(lines_view(lines@) == c4);
    if o.dll_event_port != n.dll_event_port {
        let mut l = chars_of("dll_event_port ");
        push_number_change(&mut l, o.dll_event_port as u64, n.dll_event_port as u64);
        push_line(&mut lines, l);
    }
    let ghost c5 = add_if(c4, o.dll_event_port != n.dll_event_port, "dll_event_port "@ + number_change(o.dll_event_port as nat, n.dll_event_port as nat));
    assert(lines_view(lines@) == c5);
    let old_url = chars_of(o.buttplug_ws_url.as_str());
    let new_url = chars_of(n.buttplug_ws_url.as_str());
    if !chars_eq(&old_url, &new_url) {
        let mut l = chars_of("buttplug_ws_url ");
        if old_url.len() == 0 {
            push_str(&mut l, "(empty)");
        } else {
            push_chars(&mut l, &old_url);
        }
        push_str(&mut l, " -> ");
        if new_url.len() == 0 {
            push_str(&mut l, "(empty)");
        } else {
            push_chars(&mut l, &new_url);
        }
        push_line(&mut lines, l);
    }
    let ghost c6 = add_if(c5, o.buttplug_ws_url@ != n.buttplug_ws_url@, "buttplug_ws_url "@ + quote_none(o.buttplug_ws_url@) + " -> "@ + quote_none(n.buttplug_ws_url@));
    assert(lines_view(lines@) == c6);
    let same_path = match (&o.dll_path, &n.dll_path) {
        (Some(a), Some(b)) => chars_eq(&chars_of(a.as_str()), &chars_of(b.as_str())),
        (None, None) => true,
        _ => false,
    };
    if !same_path {
        let mut l = chars_of("dll_path ");
        push_text_or(&mut l, &o.dll_path, "(default)");
        push_str(&mut l, " -> ");
        push_text_or(&mut l, &n.dll_path, "(default)");
        push_line(&mut lines, l);
    }
    let ghost c7 = add_if(c6, opt_text(o.dll_path) != opt_text(n.dll_path), "dll_path "@ + path_or_default(opt_text(o.dll_path)) + " -> "@ + path_or_default(opt_text(n.dll_path)));
    assert(lines_view(lines@) == c7);
    if o.data_source != n.data_source {
        let mut l = chars_of("data_source ");
        push_str(&mut l, o.data_source.as_str());
        push_str(&mut l, " -> ");
        push_str(&mut l, n.data_source.as_str());
        push_line(&mut lines, l);
    }
    lines
}

/// Every trigger of either table once, in key order.
fn union_keys(
    a: &Vec<(TriggerKind, TriggerConfig)>,
    b: &Vec<(TriggerKind, TriggerConfig)>,
) -> (keys: Vec<TriggerKind>)
    ensures
        sorted_union(keys@, rule_keys(a@), rule_keys(b@)),
{
    let mut keys: Vec<TriggerKind> = Vec::new();
    let mut k: usize = 0;
    while k < a.len()
        invariant
            k <= a.len(),
            keys_sorted(keys@),
            forall|x: TriggerKind| keys@.contains(x) <==> rule_keys(a@).subrange(0, k as int).contains(x),
        decreases a.len() - k,
    {
        insert_key(&mut keys, a[k].0);
        proof {
            let pre = rule_keys(a@).subrange(0, k as int);
            let post = rule_keys(a@).subrange(0, k + 1);
            assert(post =~= pre.push(a@[k as int].0));
            assert forall|x: TriggerKind| post.contains(x) <==> (pre.contains(x) || x == a@[k as int].0) by {
                if post.contains(x) {
                    let i = choose|i: int| 0 <= i < post.len() && post[i] == x;
                    if i < k {
                        assert(pre[i] == x);
                    }
                }
                if pre.contains(x) {
                    let i = choose|i: int| 0 <= i < pre.len() && pre[i] == x;
                    assert(post[i] == x);
                }
                if x == a@[k as int].0 {
                    assert(post[k as int] == x);
                }
            }
        }
        k += 1;
    }
    assert(rule_keys(a@).subrange(0, k as int) =~= rule_keys(a@));
    let mut m: usize = 0;
    while m < b.len()
        invariant
            m <= b.len(),
            keys_sorted(keys@),
            forall|x: TriggerKind|
                keys@.contains(x) <==> (rule_keys(a@).contains(x) || rule_keys(b@).subrange(
                    0,
                    m as int,
                ).contains(x)),
        decreases b.len() - m,
    {
        insert_key(&mut keys, b[m].0);
        proof {
            let pre = rule_keys(b@).subrange(0, m as int);
            let post = rule_keys(b@).subrange(0, m + 1);
            assert(post =~= pre.push(b@[m as int].0));
            assert forall|x: TriggerKind| post.contains(x) <==> (pre.contains(x) || x == b@[m as int].0) by {
                if post.contains(x) {
                    let i = choose|i: int| 0 <= i < post.len() && post[i] == x;
                    if i < m {
                        assert(pre[i] == x);
                    }
                }
                if pre.contains(x) {
                    let i = choose|i: int| 0 <= i < pre.len() && pre[i] == x;
                    assert(post[i] == x);
                }
                if x == b@[m as int].0 {
                    assert(post[m as int] == x);
                }
            }
        }
        m += 1;
    }
    assert(rule_keys(b@).subrange(0, m as int) =~= rule_keys(b@));
    keys
}

/// A human-readable diff of two configurations, one line per changed
/// setting: the plain settings first, then each trigger whose rule changed
/// (in key order, at most `MAX_TRIGGER_LINES`, then a count of the rest).
pub fn describe_change(old: &AppConfig, new: &AppConfig) -> (lines: Vec<String>)
    ensures
        exists|keys: Seq<TriggerKind>|
            sorted_union(keys, rule_keys(old.triggers@), rule_keys(new.triggers@))
                && lines_view(lines@) == #[trigger] describe_change_spec(*old, *new, keys),
{
    let mut lines = scalar_change_lines(old, new);
    let keys = union_keys(&old.triggers, &new.triggers);
    let mut trigger: Vec<String> = Vec::new();
    let mut k: usize = 0;
    assert(lines_view(trigger@) =~= trigger_lines(keys@.subrange(0, 0), old.triggers@, new.triggers@));
    while k < keys.len()
        invariant
            k <= keys.len(),
            lines_view(trigger@) == trigger_lines(keys@.subrange(0, k as int), old.triggers@, new.triggers@),
        decreases keys.len() - k,
    {
        let ghost pre = keys@.subrange(0, k as int);
        assert(keys@.subrange(0, k + 1).drop_last() =~= pre);
        assert(keys@.subrange(0, k + 1).last() == keys@[k as int]);
        let ghost before = lines_view(trigger@);
        match trigger_line(keys[k], &old.triggers, &new.triggers) {
            Some(line) => {
                trigger.push(line);
                assert(lines_view(trigger@) =~= before.push(trigger@.last()@));
            },
            None => {},
        }
        k += 1;
    }
    assert(keys@.subrange(0, k as int) =~= keys@);
    let ghost all = lines_view(trigger@);
    let ghost scalar = lines_view(lines@);
    if trigger.len() > MAX_TRIGGER_LINES {
        let overflow = trigger.len() - MAX_TRIGGER_LINES;
        trigger.truncate(MAX_TRIGGER_LINES);
        let mut tail: Vec<char> = Vec::new();
        push_str(&mut tail, "... and ");
        push_decimal(&mut tail, overflow as u64);
        push_str(&mut tail, " more trigger changes");
        assert(lines_view(trigger@) =~= all.subrange(0, MAX_TRIGGER_LINES as int));
        push_line(&mut trigger, tail);
    }
    assert(lines_view(trigger@) =~= capped(all));
    let mut m: usize = 0;
    while m < trigger.len()
        invariant
            m <= trigger.len(),
            lines_view(trigger@) == capped(all),
            lines_view(lines@) == scalar + lines_view(trigger@).subrange(0, m as int),
        decreases trigger.len() - m,
    {
        let ghost before = lines_view(lines@);
        assert(lines_view(trigger@)[m as int] == trigger@[m as int]@);
        lines.push(trigger[m].clone());
        assert(lines_view(lines@) =~= before.push(trigger@[m as int]@));
        m += 1;
        assert(lines_view(lines@) =~= scalar + lines_view(trigger@).subrange(0, m as int));
    }
    assert(lines_view(trigger@).subrange(0, m as int) =~= capped(all));
    assert(lines_view(lines@) =~= describe_change_spec(*old, *new, keys@));
    lines
}


proof fn lemma_same_rules_no_lines(
    keys: Seq<TriggerKind>,
    a: Seq<(TriggerKind, TriggerConfig)>,
    b: Seq<(TriggerKind, TriggerConfig)>,
)
    requires
        rule_views(a) == rule_views(b),
    ensures
        trigger_lines(keys, a, b) == Seq::<Seq<char>>::empty(),
    decreases keys.len(),
{
    assert(rule_views(a).len() == a.len());
    assert(rule_views(b).len() == b.len());
    assert forall|i: int| 0 <= i < a.len() implies #[trigger] a[i].0 == b[i].0 && a[i].1@ == b[i].1@ by {
        assert(rule_views(a)[i] == rule_views(b)[i]);
    }
    assert(rule_keys(a) =~= rule_keys(b));
    if keys.len() > 0 {
        lemma_same_rules_no_lines(keys.drop_last(), a, b);
        let k = keys.last();
        crate::config::lemma_find_rule_bounds(rule_keys(a), k);
        assert(rule_at(a, k) == rule_at(b, k));
    }
}

/// A configuration compared with itself describes nothing.
pub proof fn lemma_identical_configs_describe_nothing(config: AppConfig, keys: Seq<TriggerKind>)
    ensures
        describe_change_spec(config, config, keys) == Seq::<Seq<char>>::empty(),
{
    lemma_same_rules_no_lines(keys, config.triggers@, config.triggers@);
    assert(describe_change_spec(config, config, keys) =~= Seq::<Seq<char>>::empty());
}

/// Configurations with the same rules differ only in their setting lines:
/// no trigger line is described.
pub proof fn lemma_same_rules_describe_settings_only(o: AppConfig, n: AppConfig, keys: Seq<TriggerKind>)
    requires
        rule_views(o.triggers@) == rule_views(n.triggers@),
    ensures
        describe_change_spec(o, n, keys) == scalar_lines(o, n),
{
    lemma_same_rules_no_lines(keys, o.triggers@, n.triggers@);
    assert(describe_change_spec(o, n, keys) =~= scalar_lines(o, n));
}

/// At most `MAX_TRIGGER_LINES` trigger lines are shown, plus one count line.
pub proof fn lemma_trigger_lines_capped(lines: Seq<Seq<char>>)
    ensures
        capped(lines).len() <= MAX_TRIGGER_LINES + 1,
        lines.len() <= MAX_TRIGGER_LINES ==> capped(lines) == lines,
{
}


/// Append a millionths value with two decimals.
pub fn push_fixed2_pub(out: &mut Vec<char>, m: i64)
    ensures
        final(out)@ == old(out)@ + fixed2(m as int),
{
    push_fixed2(out, m);
}

/// Append a pattern's name.
pub fn push_pattern_pub(out: &mut Vec<char>, p: Pattern)
    ensures
        final(out)@ == old(out)@ + pattern_debug(p),
{
    push_pattern(out, p);
}

// ---------------------------------------------------------------------------
// Reloading the configuration file.

/// Two rule tables hold the same rule for every trigger (the order of the
/// entries does not matter).
pub open spec fn same_rules(
    a: Seq<(TriggerKind, TriggerConfig)>,
    b: Seq<(TriggerKind, TriggerConfig)>,
) -> bool {
    forall|k: TriggerKind| #[trigger] rule_at(a, k) == rule_at(b, k)
}

/// The roster entries by their views.
pub open spec fn shockers_view(s: Seq<Shocker>) -> Seq<ShockerView> {
    s.map_values(|x: Shocker| x@)
}

/// Two configurations say the same: every setting, the roster in order,
/// and the same rule for every trigger.
pub open spec fn same_config(a: AppConfig, b: AppConfig) -> bool {
    &&& a.master_gain == b.master_gain
    &&& a.max_strength_cap == b.max_strength_cap
    &&& a.mute_while_dead == b.mute_while_dead
    &&& a.mod_http_port == b.mod_http_port
    &&& a.buttplug_ws_url@ == b.buttplug_ws_url@
    &&& a.debug_logging == b.debug_logging
    &&& a.openshock.enabled == b.openshock.enabled
    &&& a.openshock.api_token@ == b.openshock.api_token@
    &&& a.openshock.base_url@ == b.openshock.base_url@
    &&& a.openshock.shocker_id@ == b.openshock.shocker_id@
    &&& shockers_view(a.openshock.shockers@) == shockers_view(b.openshock.shockers@)
    &&& a.updates.enabled == b.updates.enabled
    &&& a.updates.repo@ == b.updates.repo@
    &&& a.updates.auto_update_offsets == b.updates.auto_update_offsets
    &&& a.data_source == b.data_source
    &&& a.dll_event_port == b.dll_event_port
    &&& opt_text(a.dll_path) == opt_text(b.dll_path)
    &&& same_rules(a.triggers@, b.triggers@)
}

/// Every configuration says the same as itself: a reloaded file that holds
/// the running configuration changes nothing.
pub proof fn lemma_same_config_reflexive(c: AppConfig)
    ensures
        same_config(c, c),
{
}

fn shockers_equal(a: &Vec<Shocker>, b: &Vec<Shocker>) -> (r: bool)
    ensures
        r == (shockers_view(a@) == shockers_view(b@)),
{
    if a.len() != b.len() {
        proof {
            assert(shockers_view(a@).len() != shockers_view(b@).len());
        }
        return false;
    }
    let mut i: usize = 0;
    while i < a.len()
        invariant
            a.len() == b.len(),
            i <= a.len(),
            forall|j: int| 0 <= j < i ==> (#[trigger] a@[j])@ == b@[j]@,
        decreases a.len() - i,
    {
        if !str_eq(a[i].id.as_str(), b[i].id.as_str()) || !str_eq(
            a[i].name.as_str(),
            b[i].name.as_str(),
        ) {
            proof {
                assert(shockers_view(a@)[i as int] != shockers_view(b@)[i as int]);
            }
            return false;
        }
        i += 1;
    }
    assert(shockers_view(a@) =~= shockers_view(b@));
    true
}

fn optional_text_equal(a: &Option<String>, b: &Option<String>) -> (r: bool)
    ensures
        r == (opt_text(*a) == opt_text(*b)),
{
    match (a, b) {
        (Some(x), Some(y)) => str_eq(x.as_str(), y.as_str()),
        (None, None) => true,
        _ => false,
    }
}

/// Whether every trigger that has a rule in `a` has the same rule in `b`.
fn rules_cover(a: &Vec<(TriggerKind, TriggerConfig)>, b: &Vec<(TriggerKind, TriggerConfig)>) -> (r:
    bool)
    ensures
        r == forall|i: int|
            0 <= i < a@.len() ==> rule_at(a@, #[trigger] a@[i].0) == rule_at(b@, a@[i].0),
{
    let mut i: usize = 0;
    while i < a.len()
        invariant
            i <= a.len(),
            forall|j: int|
                0 <= j < i ==> rule_at(a@, #[trigger] a@[j].0) == rule_at(b@, a@[j].0),
        decreases a.len() - i,
    {
        let k = a[i].0;
        let same = match (find_rule_index(a, k), find_rule_index(b, k)) {
            (Some(x), Some(y)) => rules_equal(&a[x].1, &b[y].1),
            (None, None) => true,
            _ => false,
        };
        if !same {
            return false;
        }
        i += 1;
    }
    true
}

/// Rule tables that agree on the triggers of each have the same rules.
proof fn lemma_cover_both_ways(a: Seq<(TriggerKind, TriggerConfig)>, b: Seq<(TriggerKind, TriggerConfig)>)
    requires
        forall|i: int| 0 <= i < a.len() ==> rule_at(a, #[trigger] a[i].0) == rule_at(b, a[i].0),
        forall|i: int| 0 <= i < b.len() ==> rule_at(b, #[trigger] b[i].0) == rule_at(a, b[i].0),
    ensures
        same_rules(a, b),
{
    assert forall|k: TriggerKind| #[trigger] rule_at(a, k) == rule_at(b, k) by {
        lemma_find_rule_bounds(rule_keys(a), k);
        lemma_find_rule_bounds(rule_keys(b), k);
        if let Some(i) = find_rule(rule_keys(a), k) {
            assert(a[i].0 == k);
        } else if let Some(j) = find_rule(rule_keys(b), k) {
            assert(b[j].0 == k);
        }
    }
}

/// Whether two configurations say the same.
pub fn configs_equal(a: &AppConfig, b: &AppConfig) -> (r: bool)
    ensures
        r == same_config(*a, *b),
{
    let plain = a.master_gain == b.master_gain && a.max_strength_cap == b.max_strength_cap
        && a.mute_while_dead == b.mute_while_dead && a.mod_http_port == b.mod_http_port
        && str_eq(a.buttplug_ws_url.as_str(), b.buttplug_ws_url.as_str())
        && a.debug_logging == b.debug_logging && a.openshock.enabled == b.openshock.enabled
        && str_eq(a.openshock.api_token.as_str(), b.openshock.api_token.as_str())
        && str_eq(a.openshock.base_url.as_str(), b.openshock.base_url.as_str())
        && str_eq(a.openshock.shocker_id.as_str(), b.openshock.shocker_id.as_str())
        && shockers_equal(&a.openshock.shockers, &b.openshock.shockers)
        && a.updates.enabled == b.updates.enabled
        && str_eq(a.updates.repo.as_str(), b.updates.repo.as_str())
        && a.updates.auto_update_offsets == b.updates.auto_update_offsets
        && a.data_source == b.data_source && a.dll_event_port == b.dll_event_port
        && optional_text_equal(&a.dll_path, &b.dll_path);
    if !plain {
        return false;
    }
    let forward = rules_cover(&a.triggers, &b.triggers);
    let backward = rules_cover(&b.triggers, &a.triggers);
    proof {
        if forward && backward {
            lemma_cover_both_ways(a.triggers@, b.triggers@);
        }
        if same_rules(a.triggers@, b.triggers@) {
            assert forall|i: int| 0 <= i < a.triggers@.len() implies rule_at(
                a.triggers@,
                #[trigger] a.triggers@[i].0,
            ) == rule_at(b.triggers@, a.triggers@[i].0) by {}
            assert forall|i: int| 0 <= i < b.triggers@.len() implies rule_at(
                b.triggers@,
                #[trigger] b.triggers@[i].0,
            ) == rule_at(a.triggers@, b.triggers@[i].0) by {
                assert(rule_at(a.triggers@, b.triggers@[i].0) == rule_at(b.triggers@, b.triggers@[i].0));
            }
        }
    }
    forward && backward
}

/// The history after each line was appended in turn.
pub open spec fn capped_push_all(lines: Seq<Seq<char>>, more: Seq<Seq<char>>) -> Seq<Seq<char>>
    decreases more.len(),
{
    if more.len() == 0 {
        lines
    } else {
        capped_push(capped_push_all(lines, more.drop_last()), more.last())
    }
}

/// The line logged when the file cannot be read or parsed.
pub open spec fn unparsed_line(path: Seq<char>) -> Seq<char> {
    "config "@ + path + " could not be parsed; keeping the running config"@
}

/// The line logged when a changed file was installed.
pub open spec fn reloaded_line(path: Seq<char>) -> Seq<char> {
    "config reloaded from "@ + path
}

/// Take in what the configuration file at `path` now holds. When it could
/// not be read or parsed (`None`), the running configuration stays and that
/// is logged; when it says the same as the running one, nothing happens;
/// otherwise it is installed (the revision bumped) and the reload and each
/// change line are logged.
pub fn apply_reload(state: &mut AppState, fresh: Option<AppConfig>, path: &str)
    ensures
        match fresh {
            None => {
                &&& final(state).config == old(state).config
                &&& final(state).config_rev == old(state).config_rev
                &&& lines_view(final(state).log_lines@) == capped_push(
                    lines_view(old(state).log_lines@),
                    unparsed_line(path@),
                )
                &&& final(state).last_log@ == unparsed_line(path@)
            },
            Some(f) => if same_config(old(state).config, f) {
                *final(state) == *old(state)
            } else {
                &&& final(state).config == f
                &&& final(state).config_rev == (if old(state).config_rev == u64::MAX {
                    0
                } else {
                    old(state).config_rev + 1
                })
                &&& exists|keys: Seq<TriggerKind>|
                    sorted_union(keys, rule_keys(old(state).config.triggers@), rule_keys(f.triggers@))
                        && lines_view(final(state).log_lines@) == #[trigger] capped_push_all(
                        capped_push(lines_view(old(state).log_lines@), reloaded_line(path@)),
                        describe_change_spec(old(state).config, f, keys),
                    )
            },
        },
        final(state).sources == old(state).sources,
        final(state).inject == old(state).inject,
        final(state).toys == old(state).toys,
        final(state).log_phase == old(state).log_phase,
        final(state).log_path == old(state).log_path,
{
    let fresh = match fresh {
        Some(f) => f,
        None => {
            let mut line = chars_of("config ");
            push_str(&mut line, path);
            push_str(&mut line, " could not be parsed; keeping the running config");
            state.push_log(string_of(line.as_slice()));
            return;
        },
    };
    if configs_equal(&state.config, &fresh) {
        return;
    }
    let ghost start = *state;
    let previous = state.replace_config(fresh);
    let ghost installed = *state;
    let mut line = chars_of("config reloaded from ");
    push_str(&mut line, path);
    state.push_log(string_of(line.as_slice()));
    let ghost first = lines_view(state.log_lines@);
    let changes = describe_change(&previous, &state.config);
    let ghost described = lines_view(changes@);
    let mut j: usize = 0;
    assert(described.subrange(0, 0) =~= Seq::<Seq<char>>::empty());
    while j < changes.len()
        invariant
            j <= changes.len(),
            described == lines_view(changes@),
            lines_view(state.log_lines@) == capped_push_all(first, described.subrange(0, j as int)),
            state.config == installed.config,
            state.config_rev == installed.config_rev,
            state.sources == start.sources,
            state.inject == start.inject,
            state.toys == start.toys,
            state.log_phase == start.log_phase,
            state.log_path == start.log_path,
        decreases changes.len() - j,
    {
        assert(described.subrange(0, j + 1).drop_last() =~= described.subrange(0, j as int));
        state.push_log(changes[j].clone());
        j += 1;
    }
    assert(described.subrange(0, changes.len() as int) =~= described);
    proof {
        let keys = choose|keys: Seq<TriggerKind>|
            sorted_union(keys, rule_keys(previous.triggers@), rule_keys(installed.config.triggers@))
                && lines_view(changes@) == #[trigger] describe_change_spec(
                previous,
                installed.config,
                keys,
            );
        assert(lines_view(state.log_lines@) == capped_push_all(
            capped_push(lines_view(start.log_lines@), reloaded_line(path@)),
            describe_change_spec(start.config, installed.config, keys),
        ));
    }
}

} // verus!
