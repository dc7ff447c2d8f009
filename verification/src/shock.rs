//! OpenShock rule settings: the shocker roster, per-trigger shock settings and
//! which roster shockers a rule targets.

use vstd::prelude::*;
use crate::text::{chars_eq, chars_of, string_of, trim_chars, trim_seq};

verus! {

/// OpenShock control type.
#[derive(Debug, Clone, Copy, PartialEq, Eq, Hash, Structural)]
pub enum ShockKind {
    Shock,
    Vibrate,
    Sound,
}

/// A shocker in the user's roster.
#[derive(Debug, Clone, PartialEq, Eq)]
pub struct Shocker {
    pub id: String,
    pub name: String,
}

pub struct ShockerView {
    pub id: Seq<char>,
    pub name: Seq<char>,
}

impl View for Shocker {
    type V = ShockerView;

    open spec fn view(&self) -> ShockerView {
        ShockerView { id: self.id@, name: self.name@ }
    }
}

/// The characters of each string.
pub open spec fn strings_view(v: Seq<String>) -> Seq<Seq<char>> {
    v.map_values(|s: String| s@)
}

/// The ids of each roster entry.
pub open spec fn roster_ids(roster: Seq<Shocker>) -> Seq<Seq<char>> {
    roster.map_values(|s: Shocker| s.id@)
}

/// Shock settings of one trigger rule.
#[derive(Debug, Clone, PartialEq)]
pub struct ShockConfig {
    pub enabled: bool,
    /// 1-100 once clamped (the OpenShock API range).
    pub intensity: u8,
    /// 300-30000 ms once clamped (the OpenShock API range).
    pub duration_ms: u64,
    pub kind: ShockKind,
    /// Which roster shockers fire, by id. `None` means every roster shocker;
    /// an explicit empty list means none.
    pub shocker_ids: Option<Vec<String>>,
}

pub struct ShockConfigView {
    pub enabled: bool,
    pub intensity: u8,
    pub duration_ms: u64,
    pub kind: ShockKind,
    pub shocker_ids: Option<Seq<Seq<char>>>,
}

impl View for ShockConfig {
    type V = ShockConfigView;

    open spec fn view(&self) -> ShockConfigView {
        ShockConfigView {
            enabled: self.enabled,
            intensity: self.intensity,
            duration_ms: self.duration_ms,
            kind: self.kind,
            shocker_ids: match self.shocker_ids {
                Some(ids) => Some(strings_view(ids@)),
                None => None,
            },
        }
    }
}

pub open spec fn clamp_int(x: int, lo: int, hi: int) -> int {
    if x < lo {
        lo
    } else if x > hi {
        hi
    } else {
        x
    }
}

/// A copy of the strings.
pub fn copy_strings(v: &Vec<String>) -> (r: Vec<String>)
    ensures
        strings_view(r@) == strings_view(v@),
        r@ == v@,
{
    let mut r: Vec<String> = Vec::new();
    let mut k: usize = 0;
    while k < v.len()
        invariant
            k <= v.len(),
            r@ == v@.subrange(0, k as int),
        decreases v.len() - k,
    {
        r.push(v[k].clone());
        k += 1;
        assert(r@ =~= v@.subrange(0, k as int));
    }
    assert(v@.subrange(0, k as int) =~= v@);
    r
}

/// A copy of an optional list of strings.
pub fn copy_optional_strings(v: &Option<Vec<String>>) -> (r: Option<Vec<String>>)
    ensures
        r is Some <==> v is Some,
        r is Some ==> r->0@ == v->0@,
{
    match v {
        Some(list) => Some(copy_strings(list)),
        None => None,
    }
}

impl Shocker {
    /// A copy of this roster entry.
    pub fn duplicate(&self) -> (r: Shocker)
        ensures
            r == *self,
    {
        Shocker { id: self.id.clone(), name: self.name.clone() }
    }
}

/// A copy of a roster.
pub fn copy_roster(v: &Vec<Shocker>) -> (r: Vec<Shocker>)
    ensures
        r@ == v@,
{
    let mut r: Vec<Shocker> = Vec::new();
    let mut k: usize = 0;
    while k < v.len()
        invariant
            k <= v.len(),
            r@ == v@.subrange(0, k as int),
        decreases v.len() - k,
    {
        r.push(v[k].duplicate());
        k += 1;
        assert(r@ =~= v@.subrange(0, k as int));
    }
    assert(v@.subrange(0, k as int) =~= v@);
    r
}

/// The trimmed roster ids that are not blank, in roster order (duplicates kept).
pub open spec fn roster_targets(ids: Seq<Seq<char>>) -> Seq<Seq<char>>
    decreases ids.len(),
{
    if ids.len() == 0 {
        Seq::empty()
    } else {
        let prev = roster_targets(ids.drop_last());
        let t = trim_seq(ids.last());
        if t.len() == 0 {
            prev
        } else {
            prev.push(t)
        }
    }
}

/// Some roster id, trimmed, equals `id`.
pub open spec fn roster_has(ids: Seq<Seq<char>>, id: Seq<char>) -> bool {
    exists|k: int| 0 <= k < ids.len() && trim_seq(#[trigger] ids[k]) == id
}

/// The selected ids that survive filtering: trimmed, non-blank, present in the
/// roster (by trimmed id), first occurrence only, in selection order.
pub open spec fn filter_ids_spec(ids: Seq<Seq<char>>, roster: Seq<Seq<char>>) -> Seq<Seq<char>>
    decreases ids.len(),
{
    if ids.len() == 0 {
        Seq::empty()
    } else {
        let prev = filter_ids_spec(ids.drop_last(), roster);
        let t = trim_seq(ids.last());
        if t.len() == 0 || prev.contains(t) || !roster_has(roster, t) {
            prev
        } else {
            prev.push(t)
        }
    }
}

fn roster_contains(roster: &[Shocker], id: &Vec<char>) -> (r: bool)
    ensures
        r == roster_has(roster_ids(roster@), id@),
{
    let ghost ids = roster_ids(roster@);
    let mut k: usize = 0;
    while k < roster.len()
        invariant
            k <= roster.len(),
            ids == roster_ids(roster@),
            forall|m: int| 0 <= m < k ==> trim_seq(#[trigger] ids[m]) != id@,
        decreases roster.len() - k,
    {
        let rid = trim_chars(&chars_of(roster[k].id.as_str()));
        assert(ids[k as int] == roster@[k as int].id@);
        if chars_eq(&rid, id) {
            return true;
        }
        k += 1;
    }
    false
}

fn selected_contains(selected: &Vec<Vec<char>>, id: &Vec<char>) -> (r: bool)
    ensures
        r == selected@.map_values(|v: Vec<char>| v@).contains(id@),
{
    let ghost sv = selected@.map_values(|v: Vec<char>| v@);
    let mut k: usize = 0;
    while k < selected.len()
        invariant
            k <= selected.len(),
            sv == selected@.map_values(|v: Vec<char>| v@),
            forall|m: int| 0 <= m < k ==> #[trigger] sv[m] != id@,
        decreases selected.len() - k,
    {
        if chars_eq(&selected[k], id) {
            assert(sv[k as int] == id@);
            return true;
        }
        k += 1;
    }
    false
}

fn strings_from_chars(v: &Vec<Vec<char>>) -> (r: Vec<String>)
    ensures
        strings_view(r@) == v@.map_values(|c: Vec<char>| c@),
{
    let mut r: Vec<String> = Vec::new();
    let mut k: usize = 0;
    while k < v.len()
        invariant
            k <= v.len(),
            r@.len() == k,
            forall|m: int| 0 <= m < k ==> (#[trigger] r@[m])@ == v@[m]@,
        decreases v.len() - k,
    {
        let item = string_of(v[k].as_slice());
        r.push(item);
        k += 1;
    }
    assert(strings_view(r@) =~= v@.map_values(|c: Vec<char>| c@));
    r
}

/// Keep the selected shocker ids that name a roster shocker: ids are
/// trimmed, blank ones and repeats dropped, first-seen order kept.
pub fn filter_shocker_ids(ids: &[String], roster: &[Shocker]) -> (selected: Vec<String>)
    ensures
        strings_view(selected@) == filter_ids_spec(strings_view(ids@), roster_ids(roster@)),
{
    let ghost iv = strings_view(ids@);
    let ghost rv = roster_ids(roster@);
    let mut picked: Vec<Vec<char>> = Vec::new();
    let mut k: usize = 0;
    while k < ids.len()
        invariant
            k <= ids.len(),
            iv == strings_view(ids@),
            rv == roster_ids(roster@),
            picked@.map_values(|v: Vec<char>| v@) == filter_ids_spec(iv.subrange(0, k as int), rv),
        decreases ids.len() - k,
    {
        let ghost before = picked@.map_values(|v: Vec<char>| v@);
        let id = trim_chars(&chars_of(ids[k].as_str()));
        assert(iv.subrange(0, k + 1).drop_last() =~= iv.subrange(0, k as int));
        assert(iv.subrange(0, k + 1).last() == ids@[k as int]@);
        if id.len() == 0 || selected_contains(&picked, &id) {
        } else if roster_contains(roster, &id) {
            picked.push(id);
            assert(picked@.map_values(|v: Vec<char>| v@) =~= before.push(trim_seq(ids@[k as int]@)));
        }
        k += 1;
    }
    assert(iv.subrange(0, k as int) =~= iv);
    strings_from_chars(&picked)
}

/// Ids in `s` are pairwise distinct.
pub open spec fn distinct(s: Seq<Seq<char>>) -> bool {
    forall|i: int, j: int| 0 <= i < j < s.len() ==> s[i] != s[j]
}

/// Filtering keeps only non-blank, trimmed roster ids, each at most once.
pub proof fn lemma_filter_ids_sound(ids: Seq<Seq<char>>, roster: Seq<Seq<char>>)
    ensures
        distinct(filter_ids_spec(ids, roster)),
        forall|k: int|
            0 <= k < filter_ids_spec(ids, roster).len() ==> {
                let id = #[trigger] filter_ids_spec(ids, roster)[k];
                &&& id.len() > 0
                &&& roster_has(roster, id)
            },
    decreases ids.len(),
{
    if ids.len() > 0 {
        lemma_filter_ids_sound(ids.drop_last(), roster);
        let prev = filter_ids_spec(ids.drop_last(), roster);
        let t = trim_seq(ids.last());
        let r = filter_ids_spec(ids, roster);
        if !(t.len() == 0 || prev.contains(t) || !roster_has(roster, t)) {
            assert forall|i: int, j: int| 0 <= i < j < r.len() implies r[i] != r[j] by {
                if j == prev.len() {
                    assert(r[j] == t);
                    assert(r[i] == prev[i]);
                    if r[i] == r[j] {
                        assert(prev.contains(t));
                    }
                } else {
                    assert(r[i] == prev[i] && r[j] == prev[j]);
                }
            }
            assert forall|k: int| 0 <= k < r.len() implies {
                let id = #[trigger] r[k];
                &&& id.len() > 0
                &&& roster_has(roster, id)
            } by {
                if k < prev.len() {
                    assert(r[k] == prev[k]);
                }
            }
        }
    }
}

/// Roster members in order: trimmed ids, blanks skipped.
fn roster_target_ids(roster: &[Shocker]) -> (r: Vec<String>)
    ensures
        strings_view(r@) == roster_targets(roster_ids(roster@)),
{
    let ghost rv = roster_ids(roster@);
    let mut picked: Vec<Vec<char>> = Vec::new();
    let mut k: usize = 0;
    while k < roster.len()
        invariant
            k <= roster.len(),
            rv == roster_ids(roster@),
            picked@.map_values(|v: Vec<char>| v@) == roster_targets(rv.subrange(0, k as int)),
        decreases roster.len() - k,
    {
        let ghost before = picked@.map_values(|v: Vec<char>| v@);
        let id = trim_chars(&chars_of(roster[k].id.as_str()));
        assert(rv.subrange(0, k + 1).drop_last() =~= rv.subrange(0, k as int));
        assert(rv.subrange(0, k + 1).last() == roster@[k as int].id@);
        if id.len() > 0 {
            picked.push(id);
            assert(picked@.map_values(|v: Vec<char>| v@) =~= before.push(
                trim_seq(roster@[k as int].id@),
            ));
        }
        k += 1;
    }
    assert(rv.subrange(0, k as int) =~= rv);
    strings_from_chars(&picked)
}

/// The shockers a rule fires: the whole roster when no selection was ever
/// made, otherwise the filtered selection.
pub open spec fn target_ids_spec(selection: Option<Seq<Seq<char>>>, roster: Seq<Shocker>) -> Seq<
    Seq<char>,
> {
    match selection {
        None => roster_targets(roster_ids(roster)),
        Some(ids) => filter_ids_spec(ids, roster_ids(roster)),
    }
}

impl ShockConfig {
    /// A copy of these settings.
    pub fn duplicate(&self) -> (r: ShockConfig)
        ensures
            r@ == self@,
    {
        ShockConfig {
            enabled: self.enabled,
            intensity: self.intensity,
            duration_ms: self.duration_ms,
            kind: self.kind,
            shocker_ids: copy_optional_strings(&self.shocker_ids),
        }
    }

    /// Intensity and duration clamped into the OpenShock API range.
    pub fn clamped(&self) -> (r: ShockConfig)
        ensures
            r.enabled == self.enabled,
            r.kind == self.kind,
            r.intensity as int == clamp_int(self.intensity as int, 1, 100),
            r.duration_ms as int == clamp_int(self.duration_ms as int, 300, 30_000),
            r@.shocker_ids == self@.shocker_ids,
    {
        let intensity = if self.intensity < 1 {
            1
        } else if self.intensity > 100 {
            100
        } else {
            self.intensity
        };
        let duration_ms = if self.duration_ms < 300 {
            300
        } else if self.duration_ms > 30_000 {
            30_000
        } else {
            self.duration_ms
        };
        ShockConfig {
            enabled: self.enabled,
            intensity,
            duration_ms,
            kind: self.kind,
            shocker_ids: copy_optional_strings(&self.shocker_ids),
        }
    }

    /// The ids of the roster shockers this rule fires.
    pub fn target_ids(&self, roster: &[Shocker]) -> (r: Vec<String>)
        ensures
            strings_view(r@) == target_ids_spec(self@.shocker_ids, roster@),
    {
        match &self.shocker_ids {
            None => roster_target_ids(roster),
            Some(ids) => filter_shocker_ids(ids.as_slice(), roster),
        }
    }
}

impl Default for ShockConfig {
    fn default() -> (r: ShockConfig)
        ensures
            r.enabled == false,
            r.intensity == 20,
            r.duration_ms == 300,
            r.kind == ShockKind::Shock,
            r.shocker_ids is None,
    {
        ShockConfig {
            enabled: false,
            intensity: 20,
            duration_ms: 300,
            kind: ShockKind::Shock,
            shocker_ids: None,
        }
    }
}

} // verus!
