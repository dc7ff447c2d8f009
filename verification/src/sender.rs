//! The in-game sender's addressing and framing: events travel to the
//! companion as one encoded record per line.

use vstd::prelude::*;
use crate::text::{decimal_seq, push_decimal, push_str, string_of};

verus! {

/// Where the sampler delivers its events.
pub struct EventSender {
    endpoint: String,
}

pub open spec fn endpoint_for(port: u16) -> Seq<char> {
    "127.0.0.1:"@ + decimal_seq(port as nat)
}

/// The lines, each followed by a newline, in order; lines that could not be
/// encoded are skipped.
pub open spec fn framed(lines: Seq<Option<Seq<u8>>>) -> Seq<u8>
    decreases lines.len(),
{
    if lines.len() == 0 {
        Seq::empty()
    } else {
        framed(lines.drop_last()) + match lines.last() {
            Some(line) => line.push(10u8),
            None => Seq::empty(),
        }
    }
}

impl EventSender {
    pub closed spec fn endpoint_spec(&self) -> Seq<char> {
        self.endpoint@
    }

    /// A sender for the companion's event port on the loopback address.
    pub fn new(port: u16) -> (s: EventSender)
        ensures
            s.endpoint_spec() == endpoint_for(port),
    {
        let mut out: Vec<char> = Vec::new();
        push_str(&mut out, "127.0.0.1:");
        push_decimal(&mut out, port as u64);
        EventSender { endpoint: string_of(out.as_slice()) }
    }

    pub fn endpoint(&self) -> (s: &str)
        ensures
            s@ == self.endpoint_spec(),
    {
        self.endpoint.as_str()
    }

    /// Frame encoded events: each encoded record on a line of its own.
    pub fn frame(lines: &Vec<Option<Vec<u8>>>) -> (framed_bytes: Vec<u8>)
        ensures
            framed_bytes@ == framed(lines@.map_values(|l: Option<Vec<u8>>| match l {
                Some(v) => Some(v@),
                None => None,
            })),
    {
        let ghost views = lines@.map_values(|l: Option<Vec<u8>>| match l {
            Some(v) => Some(v@),
            None => None,
        });
        let mut out: Vec<u8> = Vec::new();
        let mut k: usize = 0;
        while k < lines.len()
            invariant
                k <= lines.len(),
                views == lines@.map_values(|l: Option<Vec<u8>>| match l {
                    Some(v) => Some(v@),
                    None => None,
                }),
                out@ == framed(views.subrange(0, k as int)),
            decreases lines.len() - k,
        {
            let ghost before = out@;
            assert(views.subrange(0, k + 1).drop_last() =~= views.subrange(0, k as int));
            match &lines[k] {
                Some(line) => {
                    let mut m: usize = 0;
                    while m < line.len()
                        invariant
                            m <= line.len(),
                            out@ == before + line@.subrange(0, m as int),
                        decreases line.len() - m,
                    {
                        out.push(line[m]);
                        m += 1;
                        assert(out@ =~= before + line@.subrange(0, m as int));
                    }
                    out.push(10u8);
                    assert(line@.subrange(0, m as int) =~= line@);
                    assert(out@ =~= before + line@.push(10u8));
                },
                None => {
                    assert(out@ =~= before + Seq::<u8>::empty());
                },
            }
            k += 1;
        }
        assert(views.subrange(0, k as int) =~= views);
        out
    }
}

} // verus!
