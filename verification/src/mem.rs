//! Reading another process's memory map: the lines of its maps listing and
//! where a module is mapped lowest.

use vstd::prelude::*;
use crate::text::{
    chars_of, find_sub, first_occurrence, is_whitespace, parse_uint, parse_uint_spec, slice_chars,
    string_of, unicode_white_space,
};
use crate::trigger::{find_char, first_index_of};

verus! {

/// One mapping of a process.
#[derive(Debug, Clone)]
pub struct MemoryRegion {
    pub start: u64,
    pub end: u64,
    pub pathname: Option<String>,
}

/// The whitespace-separated words of `s` (what `str::split_whitespace`
/// yields), continuing from a word in progress and the words found so far.
pub open spec fn words_from(s: Seq<char>, cur: Seq<char>, acc: Seq<Seq<char>>) -> Seq<Seq<char>>
    decreases s.len(),
{
    let flushed = if cur.len() > 0 {
        acc.push(cur)
    } else {
        acc
    };
    if s.len() == 0 {
        flushed
    } else if unicode_white_space(s[0]) {
        words_from(s.drop_first(), Seq::empty(), flushed)
    } else {
        words_from(s.drop_first(), cur.push(s[0]), acc)
    }
}

pub open spec fn words(s: Seq<char>) -> Seq<Seq<char>> {
    words_from(s, Seq::empty(), Seq::empty())
}

/// The characters of each word.
pub open spec fn word_views(ws: Seq<Vec<char>>) -> Seq<Seq<char>> {
    ws.map_values(|w: Vec<char>| w@)
}

/// The words of a line, in order.
pub fn split_words(v: &Vec<char>) -> (r: Vec<Vec<char>>)
    ensures
        word_views(r@) == words(v@),
{
    let mut acc: Vec<Vec<char>> = Vec::new();
    let mut cur: Vec<char> = Vec::new();
    let mut k: usize = 0;
    assert(v@.subrange(0, v@.len() as int) =~= v@);
    assert(word_views(acc@) =~= Seq::<Seq<char>>::empty());
    while k < v.len()
        invariant
            k <= v.len(),
            words(v@) == words_from(v@.subrange(k as int, v@.len() as int), cur@, word_views(acc@)),
        decreases v.len() - k,
    {
        let ghost rest = v@.subrange(k as int, v@.len() as int);
        let ghost old_acc = word_views(acc@);
        let ghost old_cur = cur@;
        assert(rest.drop_first() =~= v@.subrange(k + 1, v@.len() as int));
        assert(rest[0] == v@[k as int]);
        if is_whitespace(v[k]) {
            if cur.len() > 0 {
                let word = cur;
                acc.push(word);
                cur = Vec::new();
                assert(word_views(acc@) =~= old_acc.push(old_cur));
            } else {
                assert(old_cur =~= Seq::<char>::empty());
            }
            assert(cur@ =~= Seq::<char>::empty());
            assert(words_from(rest, old_cur, old_acc) == words_from(
                rest.drop_first(),
                cur@,
                word_views(acc@),
            ));
        } else {
            cur.push(v[k]);
            assert(words_from(rest, old_cur, old_acc) == words_from(
                rest.drop_first(),
                cur@,
                word_views(acc@),
            ));
        }
        k += 1;
    }
    assert(v@.subrange(k as int, v@.len() as int) =~= Seq::<char>::empty());
    let ghost old_acc = word_views(acc@);
    let ghost old_cur = cur@;
    if cur.len() > 0 {
        acc.push(cur);
        assert(word_views(acc@) =~= old_acc.push(old_cur));
    }
    acc
}

/// The region a maps line describes: its first word is `start-end` in
/// hexadecimal; the pathname is the line's last word after the first when it
/// starts with `/`.
pub open spec fn parse_maps_line_spec(line: Seq<char>) -> Option<(u64, u64, Option<Seq<char>>)> {
    let ws = words(line);
    if ws.len() == 0 {
        None
    } else {
        let range = ws[0];
        match first_index_of(range, '-') {
            None => None,
            Some(i) => {
                let start = parse_uint_spec(range.subrange(0, i), 16, u64::MAX as nat);
                let end = parse_uint_spec(range.subrange(i + 1, range.len() as int), 16, u64::MAX as nat);
                if start is None || end is None {
                    None
                } else {
                    let pathname = if ws.len() >= 2 && ws.last().len() > 0 && ws.last()[0] == '/' {
                        Some(ws.last())
                    } else {
                        None
                    };
                    Some((start->0 as u64, end->0 as u64, pathname))
                }
            },
        }
    }
}

/// Parse one line of a process's maps listing.
pub fn parse_maps_line(line: &str) -> (r: Option<MemoryRegion>)
    ensures
        match parse_maps_line_spec(line@) {
            None => r is None,
            Some((start, end, pathname)) => r is Some && r->0.start == start && r->0.end == end
                && match pathname {
                Some(p) => r->0.pathname is Some && r->0.pathname->0@ == p,
                None => r->0.pathname is None,
            },
        },
{
    let chars = chars_of(line);
    let ws = split_words(&chars);
    proof {
        assert(ws@.len() == words(line@).len());
    }
    if ws.len() == 0 {
        return None;
    }
    let range = &ws[0];
    proof {
        assert(word_views(ws@)[0] == ws@[0]@);
    }
    let i = match find_char(range, '-') {
        Some(i) => i,
        None => return None,
    };
    let start = match parse_uint(&slice_chars(range, 0, i), 16, u64::MAX) {
        Some(s) => s,
        None => return None,
    };
    let end = match parse_uint(&slice_chars(range, i + 1, range.len()), 16, u64::MAX) {
        Some(e) => e,
        None => return None,
    };
    let n = ws.len();
    let pathname = if n >= 2 && ws[n - 1].len() > 0 && ws[n - 1][0] == '/' {
        proof {
            assert(word_views(ws@)[n - 1] == ws@[n - 1]@);
        }
        Some(string_of(ws[n - 1].as_slice()))
    } else {
        proof {
            assert(word_views(ws@)[n - 1] == ws@[n - 1]@);
        }
        None
    };
    Some(MemoryRegion { start, end, pathname })
}

/// The region's pathname mentions the module.
pub open spec fn mentions(region: MemoryRegion, module: Seq<char>) -> bool {
    region.pathname is Some && first_occurrence(region.pathname->0@, module) is Some
}

/// The lowest start of the regions whose pathname mentions `module`.
pub open spec fn lowest_start(regions: Seq<MemoryRegion>, module: Seq<char>) -> Option<u64>
    decreases regions.len(),
{
    if regions.len() == 0 {
        None
    } else {
        let rest = lowest_start(regions.drop_last(), module);
        let r = regions.last();
        if !mentions(r, module) {
            rest
        } else {
            match rest {
                Some(m) => Some(if r.start < m {
                    r.start
                } else {
                    m
                }),
                None => Some(r.start),
            }
        }
    }
}

/// Where a module is mapped lowest among the regions (its base address).
pub fn module_base(regions: &[MemoryRegion], module: &str) -> (r: Option<u64>)
    ensures
        r == lowest_start(regions@, module@),
{
    let wanted = chars_of(module);
    let mut best: Option<u64> = None;
    let mut k: usize = 0;
    while k < regions.len()
        invariant
            k <= regions.len(),
            wanted@ == module@,
            best == lowest_start(regions@.subrange(0, k as int), module@),
        decreases regions.len() - k,
    {
        assert(regions@.subrange(0, k + 1).drop_last() =~= regions@.subrange(0, k as int));
        let region = &regions[k];
        let hit = match &region.pathname {
            Some(p) => find_sub(&chars_of(p.as_str()), &wanted).is_some(),
            None => false,
        };
        if hit {
            best = match best {
                Some(m) => Some(if region.start < m {
                    region.start
                } else {
                    m
                }),
                None => Some(region.start),
            };
        }
        k += 1;
    }
    assert(regions@.subrange(0, k as int) =~= regions@);
    best
}

} // verus!
