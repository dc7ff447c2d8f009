//! Finding the running game under Wine/Proton: recognising its executable,
//! finding its Wine prefix from its environment, and naming Linux paths the
//! way Wine sees them.

use vstd::prelude::*;
use crate::text::{chars_of, has_prefix, push_chars, push_str, slice_chars, starts_with, string_of};

verus! {

/// A running process that may be the game.
#[derive(Debug, Clone)]
pub struct DiscoveredGame {
    pub pid: u32,
    pub exe: String,
    pub prefix: Option<String>,
}

/// Where the game's console log is, and whether it exists yet.
#[derive(Debug, Clone)]
pub struct ConsoleLogLocation {
    pub path: String,
    pub already_created: bool,
}

/// The code of a character with ASCII upper case folded to lower case.
pub open spec fn ascii_lower(c: char) -> u32 {
    if 'A' <= c && c <= 'Z' {
        (c as u32 + 32) as u32
    } else {
        c as u32
    }
}

/// Equal up to ASCII case (`str::eq_ignore_ascii_case`).
pub open spec fn eq_ignore_ascii_case_spec(a: Seq<char>, b: Seq<char>) -> bool {
    a.len() == b.len() && forall|i: int| 0 <= i < a.len() ==> ascii_lower(#[trigger] a[i]) == ascii_lower(b[i])
}

fn lower(c: char) -> (r: u32)
    ensures
        r == ascii_lower(c),
{
    if 'A' <= c && c <= 'Z' {
        (c as u32) + 32
    } else {
        c as u32
    }
}

pub fn eq_ignore_ascii_case(a: &str, b: &str) -> (r: bool)
    ensures
        r == eq_ignore_ascii_case_spec(a@, b@),
{
    chars_eq_ignore_ascii_case(&chars_of(a), &chars_of(b))
}

/// ASCII-case-insensitive equality of two character sequences.
pub(crate) fn chars_eq_ignore_ascii_case(x: &Vec<char>, y: &Vec<char>) -> (r: bool)
    ensures
        r == eq_ignore_ascii_case_spec(x@, y@),
{
    if x.len() != y.len() {
        return false;
    }
    let mut k: usize = 0;
    while k < x.len()
        invariant
            k <= x.len() == y.len(),
            forall|i: int| 0 <= i < k ==> ascii_lower(#[trigger] x@[i]) == ascii_lower(y@[i]),
        decreases x.len() - k,
    {
        if lower(x[k]) != lower(y[k]) {
            return false;
        }
        k += 1;
    }
    true
}

/// Whether an executable's file name is the game's (`deadlock.exe`, any
/// ASCII case).
pub fn is_deadlock_name(file_name: &str) -> (b: bool)
    ensures
        b == eq_ignore_ascii_case_spec(file_name@, "deadlock.exe"@),
{
    eq_ignore_ascii_case(file_name, "deadlock.exe")
}

/// A Linux path as Wine names it: on drive `Z:` with backslashes.
pub open spec fn wine_path_spec(path: Seq<char>) -> Seq<char> {
    "Z:"@ + path.map_values(|c: char| if c == '/' {
        '\\'
    } else {
        c
    })
}

pub fn to_wine_path(linux_path: &str) -> (r: String)
    ensures
        r@ == wine_path_spec(linux_path@),
{
    let path = chars_of(linux_path);
    let mut out: Vec<char> = Vec::new();
    push_str(&mut out, "Z:");
    let ghost start = out@;
    let mut k: usize = 0;
    while k < path.len()
        invariant
            k <= path.len(),
            path@ == linux_path@,
            start == "Z:"@,
            out@ == start + path@.subrange(0, k as int).map_values(|c: char| if c == '/' {
                '\\'
            } else {
                c
            }),
        decreases path.len() - k,
    {
        let c = path[k];
        out.push(if c == '/' { '\\' } else { c });
        k += 1;
        assert(out@ =~= start + path@.subrange(0, k as int).map_values(|c: char| if c == '/' {
            '\\'
        } else {
            c
        }));
    }
    assert(path@.subrange(0, k as int) =~= path@);
    string_of(out.as_slice())
}

/// `dir` joined with the relative name `name` (one `/` between them unless
/// `dir` is empty or already ends with one).
pub open spec fn join_path(dir: Seq<char>, name: Seq<char>) -> Seq<char> {
    if dir.len() == 0 {
        name
    } else if dir.last() == '/' {
        dir + name
    } else {
        dir + "/"@ + name
    }
}

/// The value of `KEY=value` environment entries for one key, the last
/// entry winning.
pub open spec fn env_value(entries: Seq<Seq<char>>, key: Seq<char>) -> Option<Seq<char>>
    decreases entries.len(),
{
    if entries.len() == 0 {
        None
    } else {
        let e = entries.last();
        if has_prefix(e, key) {
            Some(e.subrange(key.len() as int, e.len() as int))
        } else {
            env_value(entries.drop_last(), key)
        }
    }
}

/// The game's Wine prefix from its environment: `WINEPREFIX`, else the
/// `pfx` directory of `STEAM_COMPAT_DATA_PATH`.
pub open spec fn prefix_from_environ_spec(entries: Seq<Seq<char>>) -> Option<Seq<char>> {
    match env_value(entries, "WINEPREFIX="@) {
        Some(v) => Some(v),
        None => match env_value(entries, "STEAM_COMPAT_DATA_PATH="@) {
            Some(v) => Some(join_path(v, "pfx"@)),
            None => None,
        },
    }
}

fn last_value(entries: &Vec<String>, key: &str) -> (r: Option<Vec<char>>)
    ensures
        match env_value(entries@.map_values(|e: String| e@), key@) {
            Some(v) => r is Some && r->0@ == v,
            None => r is None,
        },
{
    let ghost views = entries@.map_values(|e: String| e@);
    let k_chars = chars_of(key);
    let mut k: usize = entries.len();
    assert(views.subrange(0, k as int) =~= views);
    while k > 0
        invariant
            k <= entries.len(),
            views == entries@.map_values(|e: String| e@),
            k_chars@ == key@,
            env_value(views, key@) == env_value(views.subrange(0, k as int), key@),
        decreases k,
    {
        let e = chars_of(entries[k - 1].as_str());
        assert(views.subrange(0, k as int).last() == e@);
        if starts_with(&e, &k_chars) {
            return Some(slice_chars(&e, k_chars.len(), e.len()));
        }
        assert(views.subrange(0, k as int).drop_last() =~= views.subrange(0, k - 1));
        k -= 1;
    }
    None
}

fn join(dir: &Vec<char>, name: &str) -> (r: Vec<char>)
    ensures
        r@ == join_path(dir@, name@),
{
    let mut out: Vec<char> = Vec::new();
    push_chars(&mut out, dir);
    if dir.len() > 0 && dir[dir.len() - 1] != '/' {
        out.push('/');
        proof {
            reveal_strlit("/");
            assert(out@ =~= dir@ + "/"@);
        }
    }
    push_str(&mut out, name);
    out
}

/// The Wine prefix named by a process's environment entries.
pub fn prefix_from_environ(entries: &Vec<String>) -> (r: Option<String>)
    ensures
        match prefix_from_environ_spec(entries@.map_values(|e: String| e@)) {
            Some(p) => r is Some && r->0@ == p,
            None => r is None,
        },
{
    if let Some(v) = last_value(entries, "WINEPREFIX=") {
        return Some(string_of(v.as_slice()));
    }
    match last_value(entries, "STEAM_COMPAT_DATA_PATH=") {
        Some(v) => Some(string_of(join(&v, "pfx").as_slice())),
        None => None,
    }
}

} // verus!
