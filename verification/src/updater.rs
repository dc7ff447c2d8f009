//! Release checks: reading version tags, deciding whether a release is newer
//! than the running build, and picking release assets.

use vstd::prelude::*;
use crate::text::{
    chars_eq, chars_of, parse_uint, parse_uint_spec, slice_chars, string_of, trim_chars, trim_seq,
};
use crate::trigger::{find_char, first_index_of, lemma_decimal_digits, lemma_first_index_concat};
use crate::text::{all_digits, digit_value, trim_end_seq, trim_start_seq};
use crate::text::{decimal_seq, push_decimal, push_str, push_chars, str_eq};

verus! {

pub const DEFAULT_REPO: &'static str = "a55uka/deadass";

/// The offsets file a release may carry.
pub const OFFSETS_ASSET: &'static str = "deadass-offsets.toml";

/// The binaries a release may carry, staged for the next start.
pub fn binary_assets() -> (r: Vec<&'static str>)
    ensures
        r@.len() == 3,
        r@[0]@ == "deadass-desktop.exe"@,
        r@[1]@ == "deadass_dll.dll"@,
        r@[2]@ == "deadass-companion.exe"@,
{
    let r = vec!["deadass-desktop.exe", "deadass_dll.dll", "deadass-companion.exe"];
    proof {
        reveal_strlit("deadass-desktop.exe");
        reveal_strlit("deadass_dll.dll");
        reveal_strlit("deadass-companion.exe");
    }
    r
}

/// One downloadable file of a release.
#[derive(Debug, Clone)]
pub struct ReleaseAsset {
    pub name: String,
    pub browser_download_url: String,
    pub size: u64,
}

/// A published release.
#[derive(Debug, Clone)]
pub struct Release {
    pub tag_name: String,
    pub name: Option<String>,
    pub assets: Vec<ReleaseAsset>,
}

/// The outcome of comparing the running version with a release tag.
#[derive(Debug, Clone, PartialEq, Eq)]
pub enum UpdateCheck {
    Available { version: String },
    UpToDate { version: String },
}

/// `s` without its leading `v` characters.
pub open spec fn strip_leading_v(s: Seq<char>) -> Seq<char>
    decreases s.len(),
{
    if s.len() > 0 && s[0] == 'v' {
        strip_leading_v(s.drop_first())
    } else {
        s
    }
}

/// The text of a tag that names its version: trimmed, leading `v`s removed.
pub open spec fn tag_version_text(tag: Seq<char>) -> Seq<char> {
    strip_leading_v(trim_seq(tag))
}

/// The dot-separated field of `s` that starts at its beginning.
pub open spec fn up_to_dot(s: Seq<char>) -> Seq<char> {
    match first_index_of(s, '.') {
        Some(i) => s.subrange(0, i),
        None => s,
    }
}

/// A decimal `u64` field.
pub open spec fn number_field(s: Seq<char>) -> Option<u64> {
    match parse_uint_spec(s, 10, u64::MAX as nat) {
        Some(n) => Some(n as u64),
        None => None,
    }
}

/// The (major, minor, patch) a tag names: at least `major.minor`, the patch
/// defaulting to 0, fields after the patch ignored.
pub open spec fn version_tuple_spec(tag: Seq<char>) -> Option<(u64, u64, u64)> {
    let raw = tag_version_text(tag);
    match first_index_of(raw, '.') {
        None => None,
        Some(i) => {
            let major = number_field(raw.subrange(0, i));
            let rest = raw.subrange(i + 1, raw.len() as int);
            let (minor, patch) = match first_index_of(rest, '.') {
                None => (number_field(rest), Some(0u64)),
                Some(j) => (
                    number_field(rest.subrange(0, j)),
                    number_field(up_to_dot(rest.subrange(j + 1, rest.len() as int))),
                ),
            };
            if major is Some && minor is Some && patch is Some {
                Some((major->0, minor->0, patch->0))
            } else {
                None
            }
        },
    }
}

fn strip_v(v: &Vec<char>) -> (r: Vec<char>)
    ensures
        r@ == strip_leading_v(v@),
{
    let mut k: usize = 0;
    assert(v@.subrange(0, v@.len() as int) =~= v@);
    while k < v.len() && v[k] == 'v'
        invariant
            k <= v.len(),
            strip_leading_v(v@) == strip_leading_v(v@.subrange(k as int, v@.len() as int)),
        decreases v.len() - k,
    {
        assert(v@.subrange(k as int, v@.len() as int).drop_first() =~= v@.subrange(
            k + 1,
            v@.len() as int,
        ));
        k += 1;
    }
    slice_chars(v, k, v.len())
}

fn tag_text(tag: &str) -> (r: Vec<char>)
    ensures
        r@ == tag_version_text(tag@),
{
    strip_v(&trim_chars(&chars_of(tag)))
}

fn number(s: &Vec<char>) -> (r: Option<u64>)
    ensures
        r == number_field(s@),
{
    parse_uint(s, 10, u64::MAX)
}

/// The version a tag names, as (major, minor, patch).
pub fn version_tuple(tag: &str) -> (r: Option<(u64, u64, u64)>)
    ensures
        r == version_tuple_spec(tag@),
{
    let raw = tag_text(tag);
    let i = find_char(&raw, '.')?;
    let major = number(&slice_chars(&raw, 0, i))?;
    let rest = slice_chars(&raw, i + 1, raw.len());
    match find_char(&rest, '.') {
        None => {
            let minor = number(&rest)?;
            Some((major, minor, 0))
        },
        Some(j) => {
            let minor = number(&slice_chars(&rest, 0, j))?;
            let tail = slice_chars(&rest, j + 1, rest.len());
            let patch_text = match find_char(&tail, '.') {
                Some(m) => slice_chars(&tail, 0, m),
                None => tail,
            };
            let patch = number(&patch_text)?;
            Some((major, minor, patch))
        },
    }
}

/// Lexicographic order of version triples.
pub open spec fn newer(a: (u64, u64, u64), b: (u64, u64, u64)) -> bool {
    a.0 > b.0 || (a.0 == b.0 && (a.1 > b.1 || (a.1 == b.1 && a.2 > b.2)))
}

/// Whether `latest` is newer than `current`.
pub fn is_newer(latest: (u64, u64, u64), current: (u64, u64, u64)) -> (b: bool)
    ensures
        b == newer(latest, current),
{
    if latest.0 != current.0 {
        latest.0 > current.0
    } else if latest.1 != current.1 {
        latest.1 > current.1
    } else {
        latest.2 > current.2
    }
}

/// A version's place in release order: major counts before minor, minor
/// before patch, each field ranging over all of `u64`.
pub open spec fn release_rank(v: (u64, u64, u64)) -> int {
    v.0 * 0x1_0000_0000_0000_0000_0000_0000_0000_0000int + v.1 * 0x1_0000_0000_0000_0000int + v.2
}

/// A version is newer than another exactly when it comes later in release
/// order; of two different versions exactly one is the newer, and no version
/// is newer than itself.
pub proof fn lemma_newer_is_release_order(a: (u64, u64, u64), b: (u64, u64, u64))
    ensures
        newer(a, b) == (release_rank(a) > release_rank(b)),
        a != b ==> (newer(a, b) != newer(b, a)),
        !newer(a, a),
        (a.0 == b.0 && a.1 == b.1) ==> (newer(a, b) == (a.2 > b.2)),
{
}

/// Compare the running version with a release tag. Both must name a version;
/// the reported version is the tag's text without surrounding whitespace
/// and leading `v`s.
pub fn compare(current: &str, tag: &str) -> (r: Option<UpdateCheck>)
    ensures
        (version_tuple_spec(current@) is None || version_tuple_spec(tag@) is None) ==> r is None,
        (version_tuple_spec(current@) is Some && version_tuple_spec(tag@) is Some) ==> {
            let newer_tag = newer(version_tuple_spec(tag@)->0, version_tuple_spec(current@)->0);
            match r {
                Some(UpdateCheck::Available { version }) => newer_tag && version@
                    == tag_version_text(tag@),
                Some(UpdateCheck::UpToDate { version }) => !newer_tag && version@
                    == tag_version_text(tag@),
                None => false,
            }
        },
{
    let current_version = version_tuple(current)?;
    let latest = version_tuple(tag)?;
    let version = string_of(tag_text(tag).as_slice());
    if is_newer(latest, current_version) {
        Some(UpdateCheck::Available { version })
    } else {
        Some(UpdateCheck::UpToDate { version })
    }
}

/// The index of the first asset with the given name.
pub open spec fn first_asset_named(assets: Seq<ReleaseAsset>, name: Seq<char>) -> Option<int>
    decreases assets.len(),
{
    if assets.len() == 0 {
        None
    } else if assets[0].name@ == name {
        Some(0)
    } else {
        match first_asset_named(assets.drop_first(), name) {
            Some(i) => Some(i + 1),
            None => None,
        }
    }
}

/// The first asset of a release with the given name.
pub fn asset_by_name<'a>(release: &'a Release, name: &str) -> (r: Option<&'a ReleaseAsset>)
    ensures
        match first_asset_named(release.assets@, name@) {
            Some(i) => r == Some(&release.assets@[i]),
            None => r is None,
        },
{
    let wanted = chars_of(name);
    let mut k: usize = 0;
    assert(release.assets@.subrange(0, release.assets@.len() as int) =~= release.assets@);
    while k < release.assets.len()
        invariant
            k <= release.assets.len(),
            wanted@ == name@,
            first_asset_named(release.assets@, name@) == (match first_asset_named(
                release.assets@.subrange(k as int, release.assets@.len() as int),
                name@,
            ) {
                Some(i) => Some(i + k),
                None => None::<int>,
            }),
        decreases release.assets.len() - k,
    {
        let ghost rest = release.assets@.subrange(k as int, release.assets@.len() as int);
        assert(rest.drop_first() =~= release.assets@.subrange(k + 1, release.assets@.len() as int));
        let asset = &release.assets[k];
        if chars_eq(&chars_of(asset.name.as_str()), &wanted) {
            return Some(asset);
        }
        k += 1;
    }
    assert(release.assets@.subrange(k as int, release.assets@.len() as int) =~= Seq::<
        ReleaseAsset,
    >::empty());
    None
}


/// Index of the last occurrence of `c` in `s`.
pub open spec fn last_index_of(s: Seq<char>, c: char) -> Option<int>
    decreases s.len(),
{
    if s.len() == 0 {
        None
    } else if s.last() == c {
        Some(s.len() - 1)
    } else {
        last_index_of(s.drop_last(), c)
    }
}

/// A file name's stem and extension, split as `Path::file_stem` and
/// `Path::extension` split it: at the last dot, unless that dot starts the
/// name (and `..` has none).
pub open spec fn stem_and_extension(name: Seq<char>) -> Option<(Seq<char>, Seq<char>)> {
    if name == ".."@ {
        None
    } else {
        match last_index_of(name, '.') {
            Some(i) => if i > 0 {
                Some((name.subrange(0, i), name.subrange(i + 1, name.len() as int)))
            } else {
                None
            },
            None => None,
        }
    }
}

fn last_dot(v: &Vec<char>) -> (r: Option<usize>)
    ensures
        r matches Some(j) ==> j < v@.len() && last_index_of(v@, '.') == Some(j as int),
        r is None ==> last_index_of(v@, '.') is None,
{
    let mut j: usize = v.len();
    assert(v@.subrange(0, j as int) =~= v@);
    while j > 0
        invariant
            j <= v.len(),
            last_index_of(v@, '.') == last_index_of(v@.subrange(0, j as int), '.'),
        decreases j,
    {
        if v[j - 1] == '.' {
            return Some(j - 1);
        }
        assert(v@.subrange(0, j as int).drop_last() =~= v@.subrange(0, j - 1));
        j -= 1;
    }
    None
}

fn split_stem(v: &Vec<char>) -> (r: Option<(Vec<char>, Vec<char>)>)
    ensures
        match stem_and_extension(v@) {
            Some((stem, ext)) => r matches Some((a, b)) && a@ == stem && b@ == ext,
            None => r is None,
        },
{
    proof {
        reveal_strlit("..");
    }
    if v.len() == 2 && v[0] == '.' && v[1] == '.' {
        assert(v@ =~= ".."@);
        return None;
    }
    assert(v@ != ".."@) by {
        if v@ == ".."@ {
            assert(v@.len() == 2 && v@[0] == '.' && v@[1] == '.');
        }
    }
    match last_dot(v) {
        Some(i) => if i > 0 {
            let stem = slice_chars(v, 0, i);
            let ext = slice_chars(v, i + 1, v.len());
            assert(stem_and_extension(v@) == Some((stem@, ext@)));
            Some((stem, ext))
        } else {
            None
        },
        None => None,
    }
}

/// The name a download is staged under next to `target_file` (a file name
/// without directory): its extension, or `bin` when it has none, followed
/// by `.update` takes the extension's place. A target without a file name
/// (empty, `.` or `..`) is left as it is, as `Path::with_extension` leaves it.
pub open spec fn staged_name_spec(target_file: Seq<char>) -> Seq<char> {
    if target_file.len() == 0 || target_file == "."@ || target_file == ".."@ {
        target_file
    } else {
        match stem_and_extension(target_file) {
            Some((stem, ext)) => stem + "."@ + ext + ".update"@,
            None => target_file + ".bin.update"@,
        }
    }
}

pub fn staged_name(target_file: &str) -> (r: String)
    ensures
        r@ == staged_name_spec(target_file@),
{
    let v = chars_of(target_file);
    if v.len() == 0 || str_eq(target_file, ".") || str_eq(target_file, "..") {
        return string_of(v.as_slice());
    }
    let mut out: Vec<char> = Vec::new();
    match split_stem(&v) {
        Some((stem, ext)) => {
            push_chars(&mut out, &stem);
            push_str(&mut out, ".");
            push_chars(&mut out, &ext);
            push_str(&mut out, ".update");
        },
        None => {
            push_chars(&mut out, &v);
            push_str(&mut out, ".bin.update");
        },
    }
    string_of(out.as_slice())
}

proof fn lemma_last_index_concat(a: Seq<char>, b: Seq<char>, c: char, j: int)
    requires
        last_index_of(b, c) == Some(j),
    ensures
        last_index_of(a + b, c) == Some(a.len() + j),
    decreases b.len(),
{
    if b.len() > 0 {
        assert((a + b).last() == b.last());
        if b.last() != c {
            assert((a + b).drop_last() =~= a + b.drop_last());
            lemma_last_index_concat(a, b.drop_last(), c, j);
        }
    }
}

proof fn lemma_last_index_found(s: Seq<char>, c: char)
    ensures
        last_index_of(s, c) matches Some(i) ==> 0 <= i < s.len() && s[i] == c,
    decreases s.len(),
{
    if s.len() > 0 && s.last() != c {
        lemma_last_index_found(s.drop_last(), c);
    }
}

/// A staged download names the file it replaces: staging a file with an
/// extension and reading the staged name back gives the file itself; a file
/// without one comes back with the `bin` extension it was staged under.
pub proof fn lemma_staged_name_roundtrip(target: Seq<char>)
    requires
        target.len() > 0,
        target != "."@,
        target != ".."@,
    ensures
        staged_target_spec(staged_name_spec(target)) == Some(
            if stem_and_extension(target) is Some {
                target
            } else {
                target + ".bin"@
            },
        ),
{
    reveal_strlit(".");
    reveal_strlit("..");
    reveal_strlit(".update");
    reveal_strlit("update");
    reveal_strlit(".bin");
    reveal_strlit(".bin.update");
    let suffix = ".update"@;
    assert(last_index_of(suffix, '.') == Some(0int)) by {
        reveal_with_fuel(last_index_of, 8);
        assert(suffix.drop_last().drop_last().drop_last().drop_last().drop_last().drop_last() =~= seq!['.']);
    }
    let base = match stem_and_extension(target) {
        Some((stem, ext)) => stem + "."@ + ext,
        None => target + ".bin"@,
    };
    lemma_last_index_found(target, '.');
    if stem_and_extension(target) is Some {
        assert(base =~= target);
        assert(staged_name_spec(target) =~= base + suffix);
    } else {
        assert(staged_name_spec(target) =~= base + suffix);
    }
    let staged = base + suffix;
    lemma_last_index_concat(base, suffix, '.', 0);
    assert(staged != ".."@) by {
        assert(staged.len() > 2);
    }
    assert(staged.subrange(0, base.len() as int) =~= base);
    assert(staged.subrange(base.len() as int + 1, staged.len() as int) =~= "update"@);
}

/// The file a staged update replaces: the stem of a file name whose
/// extension is `update`; other names are not staged updates.
pub open spec fn staged_target_spec(file_name: Seq<char>) -> Option<Seq<char>> {
    match stem_and_extension(file_name) {
        Some((stem, ext)) => if ext == "update"@ {
            Some(stem)
        } else {
            None
        },
        None => None,
    }
}

pub fn staged_target(file_name: &str) -> (r: Option<String>)
    ensures
        match staged_target_spec(file_name@) {
            Some(stem) => r matches Some(t) && t@ == stem,
            None => r is None,
        },
{
    match split_stem(&chars_of(file_name)) {
        Some((stem, ext)) => if chars_eq(&ext, &chars_of("update")) {
            Some(string_of(stem.as_slice()))
        } else {
            None
        },
        None => None,
    }
}

/// The name the replaced file is kept under.
pub fn backup_name(stem: &str) -> (r: String)
    ensures
        r@ == stem@ + ".old"@,
{
    let mut out = chars_of(stem);
    push_str(&mut out, ".old");
    string_of(out.as_slice())
}

/// What is known of the latest release.
#[derive(Debug, Clone, PartialEq, Eq)]
pub struct ReleaseStatus {
    pub checked: bool,
    /// The latest release's version, when its tag names one.
    pub latest_version: Option<String>,
    /// The newer version on offer, if any.
    pub available: Option<String>,
}

impl ReleaseStatus {
    /// Note a release check: the latest version as `a.b.c` when the tag
    /// names one; a newer release is on offer, an older or equal one clears
    /// the offer, and an unreadable version leaves it as it was.
    pub fn note_release(&mut self, current: &str, tag: &str)
        ensures
            final(self).checked,
            match version_tuple_spec(tag@) {
                Some(v) => final(self).latest_version matches Some(t) && t@ == version_text_spec(v),
                None => final(self).latest_version is None,
            },
            (version_tuple_spec(current@) is None || version_tuple_spec(tag@) is None)
                ==> final(self).available == old(self).available,
            (version_tuple_spec(current@) is Some && version_tuple_spec(tag@) is Some) ==> if newer(
                version_tuple_spec(tag@)->0,
                version_tuple_spec(current@)->0,
            ) {
                final(self).available matches Some(a) && a@ == tag_version_text(tag@)
            } else {
                final(self).available is None
            },
    {
        self.checked = true;
        self.latest_version = match version_tuple(tag) {
            Some(v) => Some(version_text(v)),
            None => None,
        };
        match compare(current, tag) {
            Some(UpdateCheck::Available { version }) => {
                self.available = Some(version);
            },
            Some(UpdateCheck::UpToDate { version: _ }) => {
                self.available = None;
            },
            None => {},
        }
    }
}

/// A version triple as text (`major.minor.patch`).
pub fn version_text(v: (u64, u64, u64)) -> (s: String)
    ensures
        s@ == version_text_spec(v),
{
    let mut out: Vec<char> = Vec::new();
    push_decimal(&mut out, v.0);
    push_str(&mut out, ".");
    push_decimal(&mut out, v.1);
    push_str(&mut out, ".");
    push_decimal(&mut out, v.2);
    string_of(out.as_slice())
}

/// The line logged when a newer release is found.
pub fn update_available_line(version: &str, current: &str) -> (s: String)
    ensures
        s@ == "update available: v"@ + version@ + " (running v"@ + current@
            + ") — downloading in background"@,
{
    let mut out = chars_of("update available: v");
    push_str(&mut out, version);
    push_str(&mut out, " (running v");
    push_str(&mut out, current);
    push_str(&mut out, ") — downloading in background");
    string_of(out.as_slice())
}

/// The line logged once an application update is staged: the tag without
/// its leading `v`s.
pub fn app_update_line(tag: &str) -> (s: String)
    ensures
        s@ == "app update v"@ + strip_leading_v(tag@) + " staged — restart deadass to apply"@,
{
    let mut out = chars_of("app update v");
    push_chars(&mut out, &strip_v(&chars_of(tag)));
    push_str(&mut out, " staged — restart deadass to apply");
    string_of(out.as_slice())
}

proof fn lemma_plain_decimal(n: nat)
    requires
        n <= u64::MAX,
    ensures
        decimal_seq(n).len() >= 1,
        number_field(decimal_seq(n)) == Some(n as u64),
        forall|k: int| 0 <= k < decimal_seq(n).len() ==> '0' <= #[trigger] decimal_seq(n)[k] <= '9',
{
    let d = decimal_seq(n);
    lemma_decimal_digits(n);
    assert forall|k: int| 0 <= k < d.len() implies '0' <= #[trigger] d[k] <= '9' by {
        assert(digit_value(d[k], 10) is Some);
    }
}

proof fn lemma_char_absent(s: Seq<char>, c: char)
    requires
        forall|k: int| 0 <= k < s.len() ==> #[trigger] s[k] != c,
    ensures
        first_index_of(s, c) is None,
    decreases s.len(),
{
    if s.len() > 0 {
        let t = s.drop_first();
        assert forall|k: int| 0 <= k < t.len() implies #[trigger] t[k] != c by {
            assert(t[k] == s[k + 1]);
        }
        lemma_char_absent(t, c);
    }
}

/// The text `a.b.c` of a version.
pub open spec fn version_text_spec(v: (u64, u64, u64)) -> Seq<char> {
    decimal_seq(v.0 as nat) + "."@ + decimal_seq(v.1 as nat) + "."@ + decimal_seq(v.2 as nat)
}

/// A version written as `a.b.c`, with or without a leading `v`, reads back
/// as the same version.
#[verifier::spinoff_prover]
pub proof fn lemma_version_text_roundtrip(v: (u64, u64, u64))
    ensures
        version_tuple_spec(version_text_spec(v)) == Some(v),
        version_tuple_spec("v"@ + version_text_spec(v)) == Some(v),
{
    reveal_strlit(".");
    reveal_strlit("v");
    let d0 = decimal_seq(v.0 as nat);
    let d1 = decimal_seq(v.1 as nat);
    let d2 = decimal_seq(v.2 as nat);
    lemma_plain_decimal(v.0 as nat);
    lemma_plain_decimal(v.1 as nat);
    lemma_plain_decimal(v.2 as nat);
    let t = version_text_spec(v);
    let tail = seq!['.'] + d1 + seq!['.'] + d2;
    assert(t =~= d0 + tail);
    assert(t[0] == d0[0]);
    assert(t.last() == d2.last());
    assert(trim_start_seq(t) == t);
    assert(trim_end_seq(t) == t);
    assert(tag_version_text(t) == t);
    let vt = "v"@ + t;
    assert(vt[0] == 'v');
    assert(vt.last() == t.last());
    assert(trim_start_seq(vt) == vt);
    assert(trim_end_seq(vt) == vt);
    assert(vt.drop_first() =~= t);
    assert(strip_leading_v(vt) == strip_leading_v(t));
    assert(tag_version_text(vt) == t);
    lemma_first_index_concat(d0, tail, '.');
    assert(t.subrange(0, d0.len() as int) =~= d0);
    let rest = t.subrange(d0.len() as int + 1, t.len() as int);
    let tail2 = seq!['.'] + d2;
    assert(rest =~= d1 + tail2);
    lemma_first_index_concat(d1, tail2, '.');
    assert(rest.subrange(0, d1.len() as int) =~= d1);
    assert(rest.subrange(d1.len() as int + 1, rest.len() as int) =~= d2);
    lemma_char_absent(d2, '.');
    assert(up_to_dot(d2) == d2);
}

} // verus!
