//! Trigger keys: which game event a haptic rule reacts to, their textual keys
//! (`kill`, `ability_used:2`, ...) and the families used for fallback lookup.

use vstd::prelude::*;
use crate::event::EventKind;
use crate::text::{all_digits, chars_eq, chars_of, decimal_seq, digit_char, digit_value, digits_value, parse_uint, parse_uint_spec, push_decimal, push_str, slice_chars, str_eq, string_of};

verus! {

/// Vibration pattern of a haptic rule.
#[derive(Debug, Clone, Copy, PartialEq, Eq, Hash, Structural)]
pub enum Pattern {
    Vibrate,
    Pulse,
    Ramp,
}

/// The event a trigger rule reacts to; ability triggers carry their slot.
#[derive(Debug, Clone, Copy, PartialEq, Eq, Hash, Structural)]
pub enum TriggerKind {
    Kill,
    Death,
    Assist,
    AbilityUsed { slot: u8 },
    AbilityReady { slot: u8 },
    Parry,
    Parried,
    PunchLanded,
    PunchTaken,
    Respawn,
}

/// A trigger kind without its ability slot.
#[derive(Debug, Clone, Copy, PartialEq, Eq, Hash, Structural)]
pub enum TriggerFamily {
    Kill,
    Death,
    Assist,
    AbilityUsed,
    AbilityReady,
    Parry,
    Parried,
    PunchLanded,
    PunchTaken,
    Respawn,
}

pub open spec fn family_of(kind: TriggerKind) -> TriggerFamily {
    match kind {
        TriggerKind::Kill => TriggerFamily::Kill,
        TriggerKind::Death => TriggerFamily::Death,
        TriggerKind::Assist => TriggerFamily::Assist,
        TriggerKind::AbilityUsed { .. } => TriggerFamily::AbilityUsed,
        TriggerKind::AbilityReady { .. } => TriggerFamily::AbilityReady,
        TriggerKind::Parry => TriggerFamily::Parry,
        TriggerKind::Parried => TriggerFamily::Parried,
        TriggerKind::PunchLanded => TriggerFamily::PunchLanded,
        TriggerKind::PunchTaken => TriggerFamily::PunchTaken,
        TriggerKind::Respawn => TriggerFamily::Respawn,
    }
}

/// The trigger an event kind fires.
pub open spec fn trigger_of_event(kind: EventKind) -> TriggerKind {
    match kind {
        EventKind::Kill => TriggerKind::Kill,
        EventKind::Death => TriggerKind::Death,
        EventKind::Assist => TriggerKind::Assist,
        EventKind::AbilityUsed { slot } => TriggerKind::AbilityUsed { slot },
        EventKind::AbilityReady { slot } => TriggerKind::AbilityReady { slot },
        EventKind::Parry => TriggerKind::Parry,
        EventKind::Parried => TriggerKind::Parried,
        EventKind::PunchLanded => TriggerKind::PunchLanded,
        EventKind::PunchTaken => TriggerKind::PunchTaken,
        EventKind::Respawn => TriggerKind::Respawn,
    }
}

/// The textual key of a trigger, as written in config files.
pub open spec fn trigger_key(kind: TriggerKind) -> Seq<char> {
    match kind {
        TriggerKind::Kill => "kill"@,
        TriggerKind::Death => "death"@,
        TriggerKind::Assist => "assist"@,
        TriggerKind::Respawn => "respawn"@,
        TriggerKind::AbilityUsed { slot } => "ability_used:"@ + decimal_seq(slot as nat),
        TriggerKind::AbilityReady { slot } => "ability_ready:"@ + decimal_seq(slot as nat),
        TriggerKind::Parry => "parry"@,
        TriggerKind::Parried => "parried"@,
        TriggerKind::PunchLanded => "punch_landed"@,
        TriggerKind::PunchTaken => "punch_taken"@,
    }
}

/// Index of the first occurrence of `c` in `s`.
pub open spec fn first_index_of(s: Seq<char>, c: char) -> Option<int>
    decreases s.len(),
{
    if s.len() == 0 {
        None
    } else if s[0] == c {
        Some(0)
    } else {
        match first_index_of(s.drop_first(), c) {
            Some(i) => Some(i + 1),
            None => None,
        }
    }
}

/// The trigger a key names, if any: one of the fixed names, or
/// `ability_used:<slot>` / `ability_ready:<slot>` split at the first `:`
/// with a `u8` slot.
pub open spec fn parse_trigger_spec(raw: Seq<char>) -> Option<TriggerKind> {
    if raw == "kill"@ {
        Some(TriggerKind::Kill)
    } else if raw == "death"@ {
        Some(TriggerKind::Death)
    } else if raw == "assist"@ {
        Some(TriggerKind::Assist)
    } else if raw == "respawn"@ {
        Some(TriggerKind::Respawn)
    } else if raw == "parry"@ {
        Some(TriggerKind::Parry)
    } else if raw == "parried"@ {
        Some(TriggerKind::Parried)
    } else if raw == "punch_landed"@ {
        Some(TriggerKind::PunchLanded)
    } else if raw == "punch_taken"@ {
        Some(TriggerKind::PunchTaken)
    } else {
        match first_index_of(raw, ':') {
            None => None,
            Some(p) => {
                let name = raw.subrange(0, p);
                let slot = raw.subrange(p + 1, raw.len() as int);
                match parse_uint_spec(slot, 10, 255) {
                    None => None,
                    Some(n) => if name == "ability_used"@ {
                        Some(TriggerKind::AbilityUsed { slot: n as u8 })
                    } else if name == "ability_ready"@ {
                        Some(TriggerKind::AbilityReady { slot: n as u8 })
                    } else {
                        None
                    },
                }
            },
        }
    }
}

/// The message of a rejected trigger key.
pub open spec fn unknown_trigger_message(raw: Seq<char>) -> Seq<char> {
    "unknown trigger "@ + raw
}

fn unknown_trigger(raw: &str) -> (message: String)
    ensures
        message@ == unknown_trigger_message(raw@),
{
    let mut out: Vec<char> = Vec::new();
    push_str(&mut out, "unknown trigger ");
    push_str(&mut out, raw);
    string_of(out.as_slice())
}

pub(crate) fn find_char(v: &Vec<char>, c: char) -> (r: Option<usize>)
    ensures
        r is None <==> first_index_of(v@, c) is None,
        r matches Some(i) ==> first_index_of(v@, c) == Some(i as int) && i < v@.len() && v@[i as int]
            == c,
{
    let mut k: usize = 0;
    assert(v@.subrange(0, v@.len() as int) =~= v@);
    while k < v.len()
        invariant
            k <= v.len(),
            forall|m: int| 0 <= m < k ==> v@[m] != c,
            first_index_of(v@, c) == (match first_index_of(v@.subrange(k as int, v@.len() as int), c) {
                Some(i) => Some(i + k),
                None => None::<int>,
            }),
        decreases v.len() - k,
    {
        let ghost rest = v@.subrange(k as int, v@.len() as int);
        assert(rest.drop_first() =~= v@.subrange(k + 1, v@.len() as int));
        if v[k] == c {
            return Some(k);
        }
        k += 1;
    }
    assert(v@.subrange(k as int, v@.len() as int) =~= Seq::<char>::empty());
    None
}

impl TriggerKind {
    pub fn family(self) -> (f: TriggerFamily)
        ensures
            f == family_of(self),
    {
        match self {
            TriggerKind::Kill => TriggerFamily::Kill,
            TriggerKind::Death => TriggerFamily::Death,
            TriggerKind::Assist => TriggerFamily::Assist,
            TriggerKind::AbilityUsed { .. } => TriggerFamily::AbilityUsed,
            TriggerKind::AbilityReady { .. } => TriggerFamily::AbilityReady,
            TriggerKind::Parry => TriggerFamily::Parry,
            TriggerKind::Parried => TriggerFamily::Parried,
            TriggerKind::PunchLanded => TriggerFamily::PunchLanded,
            TriggerKind::PunchTaken => TriggerFamily::PunchTaken,
            TriggerKind::Respawn => TriggerFamily::Respawn,
        }
    }

    /// The trigger an event kind fires.
    pub fn from_event(kind: EventKind) -> (t: TriggerKind)
        ensures
            t == trigger_of_event(kind),
    {
        match kind {
            EventKind::Kill => TriggerKind::Kill,
            EventKind::Death => TriggerKind::Death,
            EventKind::Assist => TriggerKind::Assist,
            EventKind::AbilityUsed { slot } => TriggerKind::AbilityUsed { slot },
            EventKind::AbilityReady { slot } => TriggerKind::AbilityReady { slot },
            EventKind::Parry => TriggerKind::Parry,
            EventKind::Parried => TriggerKind::Parried,
            EventKind::PunchLanded => TriggerKind::PunchLanded,
            EventKind::PunchTaken => TriggerKind::PunchTaken,
            EventKind::Respawn => TriggerKind::Respawn,
        }
    }

    /// Append this trigger's key.
    pub fn push_key(self, out: &mut Vec<char>)
        ensures
            final(out)@ == old(out)@ + trigger_key(self),
    {
        match self {
            TriggerKind::Kill => push_str(out, "kill"),
            TriggerKind::Death => push_str(out, "death"),
            TriggerKind::Assist => push_str(out, "assist"),
            TriggerKind::Respawn => push_str(out, "respawn"),
            TriggerKind::AbilityUsed { slot } => {
                let ghost start = out@;
                push_str(out, "ability_used:");
                push_decimal(out, slot as u64);
                assert(out@ =~= start + ("ability_used:"@ + decimal_seq(slot as nat)));
            },
            TriggerKind::AbilityReady { slot } => {
                let ghost start = out@;
                push_str(out, "ability_ready:");
                push_decimal(out, slot as u64);
                assert(out@ =~= start + ("ability_ready:"@ + decimal_seq(slot as nat)));
            },
            TriggerKind::Parry => push_str(out, "parry"),
            TriggerKind::Parried => push_str(out, "parried"),
            TriggerKind::PunchLanded => push_str(out, "punch_landed"),
            TriggerKind::PunchTaken => push_str(out, "punch_taken"),
        }
    }

    /// The trigger's key, as it is shown and as config files name it.
    pub fn key(self) -> (s: String)
        ensures
            s@ == trigger_key(self),
    {
        let mut out: Vec<char> = Vec::new();
        self.push_key(&mut out);
        assert(out@ =~= trigger_key(self));
        string_of(out.as_slice())
    }

    /// Parse a trigger key; unknown keys are rejected with a message.
    pub fn parse(raw: &str) -> (r: Result<TriggerKind, String>)
        ensures
            match parse_trigger_spec(raw@) {
                Some(kind) => r == Ok::<TriggerKind, String>(kind),
                None => r matches Err(message) && message@ == unknown_trigger_message(raw@),
            },
    {
        let v = chars_of(raw);
        if str_eq(raw, "kill") {
            return Ok(TriggerKind::Kill);
        }
        if str_eq(raw, "death") {
            return Ok(TriggerKind::Death);
        }
        if str_eq(raw, "assist") {
            return Ok(TriggerKind::Assist);
        }
        if str_eq(raw, "respawn") {
            return Ok(TriggerKind::Respawn);
        }
        if str_eq(raw, "parry") {
            return Ok(TriggerKind::Parry);
        }
        if str_eq(raw, "parried") {
            return Ok(TriggerKind::Parried);
        }
        if str_eq(raw, "punch_landed") {
            return Ok(TriggerKind::PunchLanded);
        }
        if str_eq(raw, "punch_taken") {
            return Ok(TriggerKind::PunchTaken);
        }
        let p = match find_char(&v, ':') {
            Some(p) => p,
            None => return Err(unknown_trigger(raw)),
        };
        let name = slice_chars(&v, 0, p);
        let slot_text = slice_chars(&v, p + 1, v.len());
        assert(v@ == raw@);
        assert(first_index_of(raw@, ':') == Some(p as int));
        assert(slot_text@ == raw@.subrange(p + 1, raw@.len() as int));
        assert(name@ == raw@.subrange(0, p as int));
        let slot = match parse_uint(&slot_text, 10, 255) {
            Some(n) => n as u8,
            None => {
                assert(parse_uint_spec(slot_text@, 10, 255) is None);
                assert(parse_trigger_spec(raw@) is None);
                return Err(unknown_trigger(raw));
            },
        };
        let used = chars_of("ability_used");
        let ready = chars_of("ability_ready");
        if chars_eq(&name, &used) {
            Ok(TriggerKind::AbilityUsed { slot })
        } else if chars_eq(&name, &ready) {
            Ok(TriggerKind::AbilityReady { slot })
        } else {
            Err(unknown_trigger(raw))
        }
    }
}

pub(crate) proof fn lemma_decimal_digits(n: nat)
    ensures
        decimal_seq(n).len() >= 1,
        all_digits(decimal_seq(n), 10),
        digits_value(decimal_seq(n), 10) == n,
        decimal_seq(n)[0] != '+',
        forall|k: int| 0 <= k < decimal_seq(n).len() ==> #[trigger] decimal_seq(n)[k] != ':',
    decreases n,
{
    let d = decimal_seq(n);
    if n < 10 {
        assert(digit_value(digit_char(n), 10) == Some(n));
        assert(d.drop_last() =~= Seq::<char>::empty());
        assert(digits_value(d.drop_last(), 10) == 0);
        assert(d.last() == digit_char(n));
    } else {
        lemma_decimal_digits(n / 10);
        let prev = decimal_seq(n / 10);
        assert(d.drop_last() =~= prev);
        assert(digit_value(digit_char(n % 10), 10) == Some(n % 10));
        assert(d.last() == digit_char(n % 10));
        assert(digits_value(d, 10) == digits_value(prev, 10) * 10 + n % 10);
        assert((n / 10) * 10 + n % 10 == n);
        assert forall|k: int| 0 <= k < d.len() implies (#[trigger] digit_value(d[k], 10)) is Some by {
            if k < prev.len() {
                assert(d[k] == prev[k]);
            }
        }
        assert forall|k: int| 0 <= k < d.len() implies #[trigger] d[k] != ':' by {
            if k < prev.len() {
                assert(d[k] == prev[k]);
            }
        }
        assert(d[0] == prev[0]);
    }
}

pub(crate) proof fn lemma_first_index_concat(a: Seq<char>, b: Seq<char>, c: char)
    requires
        forall|k: int| 0 <= k < a.len() ==> #[trigger] a[k] != c,
        b.len() > 0,
        b[0] == c,
    ensures
        first_index_of(a + b, c) == Some(a.len() as int),
    decreases a.len(),
{
    if a.len() == 0 {
        assert(a + b =~= b);
    } else {
        let t = a.drop_first();
        assert forall|k: int| 0 <= k < t.len() implies #[trigger] t[k] != c by {
            assert(t[k] == a[k + 1]);
        }
        lemma_first_index_concat(t, b, c);
        assert((a + b).drop_first() =~= t + b);
        assert((a + b)[0] == a[0]);
    }
}

proof fn lemma_slot_key_parses(prefix: Seq<char>, name: Seq<char>, slot: u8)
    requires
        prefix == name.push(':'),
        forall|k: int| 0 <= k < name.len() ==> #[trigger] name[k] != ':',
    ensures
        ({
            let raw = prefix + decimal_seq(slot as nat);
            &&& first_index_of(raw, ':') == Some(name.len() as int)
            &&& raw.subrange(0, name.len() as int) == name
            &&& raw.subrange(name.len() as int + 1, raw.len() as int) == decimal_seq(slot as nat)
            &&& parse_uint_spec(decimal_seq(slot as nat), 10, 255) == Some(slot as nat)
            &&& raw.len() > name.len() + 1
        }),
{
    let d = decimal_seq(slot as nat);
    lemma_decimal_digits(slot as nat);
    let raw = prefix + d;
    assert(raw =~= name + seq![':'].add(d));
    lemma_first_index_concat(name, seq![':'].add(d), ':');
    assert(raw.subrange(0, name.len() as int) =~= name);
    assert(raw.subrange(name.len() as int + 1, raw.len() as int) =~= d);
    if d.len() > 1 {
        assert(d[0] != '+');
    }
}

/// Every trigger's key parses back to that trigger.
pub proof fn lemma_trigger_key_roundtrip(kind: TriggerKind)
    ensures
        parse_trigger_spec(trigger_key(kind)) == Some(kind),
{
    reveal_strlit("kill");
    reveal_strlit("death");
    reveal_strlit("assist");
    reveal_strlit("respawn");
    reveal_strlit("parry");
    reveal_strlit("parried");
    reveal_strlit("punch_landed");
    reveal_strlit("punch_taken");
    reveal_strlit("ability_used");
    reveal_strlit("ability_ready");
    reveal_strlit("ability_used:");
    reveal_strlit("ability_ready:");
    match kind {
        TriggerKind::AbilityUsed { slot } => {
            assert("ability_used:"@ =~= "ability_used"@.push(':'));
            lemma_slot_key_parses("ability_used:"@, "ability_used"@, slot);
        },
        TriggerKind::AbilityReady { slot } => {
            assert("ability_ready:"@ =~= "ability_ready"@.push(':'));
            lemma_slot_key_parses("ability_ready:"@, "ability_ready"@, slot);
            assert("ability_ready"@ != "ability_used"@);
        },
        _ => {},
    }
}

impl core::str::FromStr for TriggerKind {
    type Err = String;

    fn from_str(raw: &str) -> (r: Result<TriggerKind, String>)
        ensures
            match parse_trigger_spec(raw@) {
                Some(kind) => r == Ok::<TriggerKind, String>(kind),
                None => r matches Err(message) && message@ == unknown_trigger_message(raw@),
            },
    {
        TriggerKind::parse(raw)
    }
}

impl From<EventKind> for TriggerKind {
    fn from(kind: EventKind) -> (t: TriggerKind) {
        TriggerKind::from_event(kind)
    }
}

impl vstd::std_specs::convert::FromSpecImpl<EventKind> for TriggerKind {
    open spec fn obeys_from_spec() -> bool {
        true
    }

    open spec fn from_spec(kind: EventKind) -> TriggerKind {
        trigger_of_event(kind)
    }
}

} // verus!
