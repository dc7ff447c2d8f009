//! Following the game's console log: where reading resumes after the file
//! grew or was truncated, and how read bytes are cut into complete lines.

use vstd::prelude::*;

verus! {

/// Bytes read per chunk.
pub const READ_CHUNK: usize = 16 * 1024;

/// Index of the first newline in `s`.
pub open spec fn first_newline(s: Seq<u8>) -> Option<int>
    decreases s.len(),
{
    if s.len() == 0 {
        None
    } else if s[0] == 10u8 {
        Some(0)
    } else {
        match first_newline(s.drop_first()) {
            Some(i) => Some(i + 1),
            None => None,
        }
    }
}

/// The complete lines of `s` (each with its newline) and the unfinished rest.
pub open spec fn split_lines(s: Seq<u8>) -> (Seq<Seq<u8>>, Seq<u8>)
    decreases s.len(),
{
    match first_newline(s) {
        None => (Seq::empty(), s),
        Some(i) => {
            if 0 <= i < s.len() {
                let (lines, rest) = split_lines(s.subrange(i + 1, s.len() as int));
                (seq![s.subrange(0, i + 1)] + lines, rest)
            } else {
                (Seq::empty(), s)
            }
        },
    }
}

proof fn lemma_first_newline_bounds(s: Seq<u8>)
    ensures
        first_newline(s) matches Some(i) ==> 0 <= i < s.len() && s[i] == 10u8 && forall|j: int|
            0 <= j < i ==> s[j] != 10u8,
        first_newline(s) is None ==> forall|j: int| 0 <= j < s.len() ==> s[j] != 10u8,
    decreases s.len(),
{
    if s.len() > 0 {
        lemma_first_newline_bounds(s.drop_first());
        assert forall|j: int| 0 < j < s.len() implies s[j] == s.drop_first()[j - 1] by {}
    }
}

/// How far the log has been read and the bytes of an unfinished line.
pub struct TailCursor {
    offset: Option<u64>,
    pending: Vec<u8>,
}

impl TailCursor {
    pub closed spec fn offset_spec(&self) -> Option<u64> {
        self.offset
    }

    pub closed spec fn pending_spec(&self) -> Seq<u8> {
        self.pending@
    }

    /// Nothing read yet.
    pub fn fresh() -> (t: TailCursor)
        ensures
            t.offset_spec() is None,
            t.pending_spec().len() == 0,
    {
        TailCursor { offset: None, pending: Vec::new() }
    }

    /// Forget everything (the file disappeared).
    pub fn reset(&mut self)
        ensures
            final(self).offset_spec() is None,
            final(self).pending_spec().len() == 0,
    {
        self.offset = None;
        self.pending.clear();
    }

    /// The first time the file is seen, skip what it already holds. Returns
    /// whether this call set the starting point.
    pub fn baseline_once(&mut self, length: u64) -> (set: bool)
        ensures
            set == old(self).offset_spec() is None,
            set ==> final(self).offset_spec() == Some(length) && final(self).pending_spec().len() == 0,
            !set ==> final(self).offset_spec() == old(self).offset_spec() && final(self).pending_spec()
                == old(self).pending_spec(),
    {
        if self.offset.is_some() {
            return false;
        }
        self.offset = Some(length);
        self.pending.clear();
        true
    }

    /// Where reading resumes in a file of `length` bytes: the saved offset,
    /// or the start when there is none or the file shrank below it.
    pub fn resume_at(&self, length: u64) -> (at: u64)
        ensures
            at == match self.offset_spec() {
                Some(o) => if length >= o {
                    o
                } else {
                    0
                },
                None => 0,
            },
    {
        match self.offset {
            Some(o) => if length >= o {
                o
            } else {
                0
            },
            None => 0,
        }
    }

    /// Record how far the file has been read.
    pub fn set_offset(&mut self, at: u64)
        ensures
            final(self).offset_spec() == Some(at),
            final(self).pending_spec() == old(self).pending_spec(),
    {
        self.offset = Some(at);
    }

    /// Append read bytes and take out every complete line, in order, each
    /// with its newline; an unfinished line stays pending.
    pub fn feed(&mut self, chunk: &[u8]) -> (lines: Vec<Vec<u8>>)
        ensures
            lines@.map_values(|l: Vec<u8>| l@) == split_lines(old(self).pending_spec() + chunk@).0,
            final(self).pending_spec() == split_lines(old(self).pending_spec() + chunk@).1,
            final(self).offset_spec() == old(self).offset_spec(),
    {
        let ghost all = self.pending@ + chunk@;
        let mut k: usize = 0;
        while k < chunk.len()
            invariant
                k <= chunk.len(),
                self.pending@ == old(self).pending@ + chunk@.subrange(0, k as int),
                self.offset == old(self).offset,
            decreases chunk.len() - k,
        {
            self.pending.push(chunk[k]);
            k += 1;
            assert(self.pending@ =~= old(self).pending@ + chunk@.subrange(0, k as int));
        }
        assert(chunk@.subrange(0, k as int) =~= chunk@);
        let mut lines: Vec<Vec<u8>> = Vec::new();
        let mut start: usize = 0;
        let mut i: usize = 0;
        let ghost buf = self.pending@;
        assert(buf == all);
        assert(buf.subrange(0, buf.len() as int) =~= buf);
        while i < self.pending.len()
            invariant
                start <= i <= self.pending.len(),
                self.pending@ == buf,
                self.offset == old(self).offset,
                forall|j: int| start <= j < i ==> buf[j] != 10u8,
                split_lines(buf) == (lines@.map_values(|l: Vec<u8>| l@) + split_lines(
                    buf.subrange(start as int, buf.len() as int),
                ).0, split_lines(buf.subrange(start as int, buf.len() as int)).1),
            decreases self.pending.len() - i,
        {
            if self.pending[i] == 10u8 {
                let ghost rest = buf.subrange(start as int, buf.len() as int);
                proof {
                    lemma_first_newline_bounds(rest);
                    assert forall|j: int| 0 <= j < i - start implies rest[j] != 10u8 by {
                        assert(rest[j] == buf[start + j]);
                    }
                    assert(rest[i - start] == 10u8);
                    assert(first_newline(rest) == Some((i - start) as int));
                    assert(rest.subrange((i - start) + 1, rest.len() as int) =~= buf.subrange(
                        i + 1,
                        buf.len() as int,
                    ));
                    assert(rest.subrange(0, (i - start) + 1) =~= buf.subrange(start as int, i + 1));
                }
                let mut line: Vec<u8> = Vec::new();
                let mut m: usize = start;
                while m <= i
                    invariant
                        start <= m <= i + 1,
                        i < self.pending.len(),
                        self.pending@ == buf,
                        line@ == buf.subrange(start as int, m as int),
                    decreases i + 1 - m,
                {
                    line.push(self.pending[m]);
                    m += 1;
                    assert(line@ =~= buf.subrange(start as int, m as int));
                }
                let ghost before = lines@.map_values(|l: Vec<u8>| l@);
                lines.push(line);
                proof {
                    assert(lines@.map_values(|l: Vec<u8>| l@) =~= before.push(
                        buf.subrange(start as int, i + 1),
                    ));
                    let tail = split_lines(buf.subrange(i + 1, buf.len() as int));
                    assert(split_lines(rest) == (seq![buf.subrange(start as int, i + 1)] + tail.0, tail.1));
                    assert(before + split_lines(rest).0 =~= lines@.map_values(|l: Vec<u8>| l@) + tail.0);
                }
                start = i + 1;
            }
            i += 1;
        }
        let ghost rest = buf.subrange(start as int, buf.len() as int);
        proof {
            lemma_first_newline_bounds(rest);
            assert forall|j: int| 0 <= j < rest.len() implies rest[j] != 10u8 by {
                assert(rest[j] == buf[start + j]);
            }
            assert(first_newline(rest) is None);
            assert(lines@.map_values(|l: Vec<u8>| l@) + Seq::<Seq<u8>>::empty() =~= lines@.map_values(
                |l: Vec<u8>| l@,
            ));
        }
        let mut remaining: Vec<u8> = Vec::new();
        let mut m: usize = start;
        while m < self.pending.len()
            invariant
                start <= m <= self.pending.len(),
                self.pending@ == buf,
                remaining@ == buf.subrange(start as int, m as int),
            decreases self.pending.len() - m,
        {
            remaining.push(self.pending[m]);
            m += 1;
            assert(remaining@ =~= buf.subrange(start as int, m as int));
        }
        self.pending = remaining;
        lines
    }
}

} // verus!
