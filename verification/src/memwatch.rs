//! The memory watchdog: reading what is available, and when to give up.
//!
//! Device allocations share the host's memory. A machine that runs out of it hangs; a process that exits
//! frees everything at once. So the process ends itself when memory stays low.
use vstd::prelude::*;

use crate::text::{
    begins_with, chars_of, has_prefix, is_white, number_in, parse_number, pieces, split, tail,
    views,
};

verus! {

/// The lines of a text.
pub open spec fn lines_of(s: Seq<char>) -> Seq<Seq<char>> {
    pieces(s, |c: char| c == '\n')
}

/// Index of the first line that begins with `p`; the number of lines where there is none.
pub open spec fn first_line_with(lines: Seq<Seq<char>>, p: Seq<char>) -> int
    decreases lines.len(),
{
    if lines.len() == 0 {
        0
    } else {
        let i = first_line_with(lines.drop_last(), p);
        if i < lines.len() - 1 {
            i
        } else if has_prefix(lines.last(), p) {
            lines.len() - 1
        } else {
            lines.len() as int
        }
    }
}

/// The words of a line: the pieces between white space that are not empty.
pub open spec fn words_of(s: Seq<char>) -> Seq<Seq<char>> {
    nonempty(pieces(s, |c: char| is_white(c)))
}

/// The pieces that are not empty.
pub open spec fn nonempty(p: Seq<Seq<char>>) -> Seq<Seq<char>>
    decreases p.len(),
{
    if p.len() == 0 {
        p
    } else if p.last().len() == 0 {
        nonempty(p.drop_last())
    } else {
        nonempty(p.drop_last()).push(p.last())
    }
}

/// Bytes that the kernel's memory table says are available.
pub open spec fn available_in(table: Seq<char>) -> Option<nat> {
    let ls = lines_of(table);
    let i = first_line_with(ls, "MemAvailable:"@);
    if 0 <= i < ls.len() {
        let ws = words_of(ls[i]);
        if ws.len() > 1 {
            match number_in(ws[1], u64::MAX as nat) {
                Some(kb) => if kb * 1024 <= u64::MAX {
                    Some(kb * 1024)
                } else {
                    None
                },
                None => None,
            }
        } else {
            None
        }
    } else {
        None
    }
}

proof fn lemma_first_line(lines: Seq<Seq<char>>, p: Seq<char>, i: int)
    requires
        0 <= i <= lines.len(),
        i < lines.len() ==> has_prefix(lines[i], p),
        forall|k: int| 0 <= k < i ==> !has_prefix(#[trigger] lines[k], p),
    ensures
        first_line_with(lines, p) == i,
    decreases lines.len(),
{
    if lines.len() > 0 {
        let d = lines.drop_last();
        if i < lines.len() {
            if i < d.len() {
                assert forall|k: int| 0 <= k < i implies !has_prefix(#[trigger] d[k], p) by {
                    assert(d[k] == lines[k]);
                }
                assert(d[i] == lines[i]);
                lemma_first_line(d, p, i);
            } else {
                assert forall|k: int| 0 <= k < d.len() implies !has_prefix(#[trigger] d[k], p) by {
                    assert(d[k] == lines[k]);
                }
                lemma_first_line(d, p, d.len() as int);
            }
        } else {
            assert forall|k: int| 0 <= k < d.len() implies !has_prefix(#[trigger] d[k], p) by {
                assert(d[k] == lines[k]);
            }
            lemma_first_line(d, p, d.len() as int);
            assert(!has_prefix(lines[lines.len() - 1], p));
        }
    }
}

/// The non-empty pieces of a line between white space.
fn words(line: &[char]) -> (r: Vec<Vec<char>>)
    ensures
        views(r@) == words_of(line@),
{
    let ghost sep = |c: char| is_white(c);
    let ps: Vec<Vec<char>> = crate::vocab::split_white(line);
    let ghost all = views(ps@);
    let mut r: Vec<Vec<char>> = Vec::new();
    let mut i: usize = 0;
    proof {
        assert(views(r@) =~= nonempty(all.take(0)));
    }
    while i < ps.len()
        invariant
            i <= ps@.len(),
            all == views(ps@),
            views(r@) == nonempty(all.take(i as int)),
        decreases ps@.len() - i,
    {
        let ghost t = all.take(i + 1);
        proof {
            assert(t.drop_last() =~= all.take(i as int));
            assert(t.last() == ps@[i as int]@);
        }
        if ps[i].len() > 0 {
            let w: Vec<char> = tail(ps[i].as_slice(), 0);
            let ghost had = r@;
            r.push(w);
            proof {
                assert(w@ =~= ps@[i as int]@);
                assert(views(r@) =~= views(had).push(w@));
            }
        }
        i = i + 1;
    }
    proof {
        assert(all.take(all.len() as int) =~= all);
    }
    r
}

/// Bytes that the kernel's memory table says are available.
pub fn mem_available_bytes(table: &str) -> (r: Option<u64>)
    ensures
        match r {
            Some(n) => available_in(table@) == Some(n as nat),
            None => available_in(table@) is None,
        },
{
    let c: Vec<char> = chars_of(table);
    let ls: Vec<Vec<char>> = split(c.as_slice(), '\n', '\n');
    let ghost v = views(ls@);
    proof {
        assert(v == lines_of(table@)) by {
            let a = |c: char| c == '\n' || c == '\n';
            let b = |c: char| c == '\n';
            assert(a =~= b);
        }
    }
    let mut i: usize = 0;
    while i < ls.len() && !begins_with(ls[i].as_slice(), "MemAvailable:")
        invariant
            i <= ls@.len(),
            v == views(ls@),
            forall|k: int| 0 <= k < i ==> !has_prefix(#[trigger] v[k], "MemAvailable:"@),
        decreases ls@.len() - i,
    {
        proof {
            assert(v[i as int] == ls@[i as int]@);
        }
        i = i + 1;
    }
    proof {
        if i < ls@.len() {
            assert(v[i as int] == ls@[i as int]@);
        }
        lemma_first_line(v, "MemAvailable:"@, i as int);
    }
    if i == ls.len() {
        return None;
    }
    let ws: Vec<Vec<char>> = words(ls[i].as_slice());
    if ws.len() <= 1 {
        return None;
    }
    proof {
        assert(views(ws@)[1] == ws@[1]@);
    }
    match parse_number(ws[1].as_slice(), u64::MAX) {
        Some(kb) => if kb <= u64::MAX / 1024 {
            Some(kb * 1024)
        } else {
            None
        },
        None => None,
    }
}

/// Samples below the floor in a row that end the process: one may be a spike that passes by itself.
pub const STRIKES: u32 = 2;

/// What the watchdog remembers.
pub struct Watch {
    /// Least memory seen; none yet.
    pub least: Option<u64>,
    pub strikes: u32,
}

impl Watch {
    /// Nothing seen yet.
    pub fn new() -> (w: Watch)
        ensures
            w.least is None,
            w.strikes == 0,
    {
        Watch { least: None, strikes: 0 }
    }

    /// Takes a sample. Returns whether the process must end.
    pub fn sample(&mut self, available: u64, floor: u64) -> (end: bool)
        requires
            old(self).strikes < STRIKES,
        ensures
            final(self).least == Some(
                match old(self).least {
                    Some(m) => if m <= available {
                        m
                    } else {
                        available
                    },
                    None => available,
                },
            ),
            final(self).strikes == (if available < floor {
                (old(self).strikes + 1) as u32
            } else {
                0
            }),
            end == (final(self).strikes >= STRIKES),
    {
        self.least = Some(
            match self.least {
                Some(m) => if m <= available {
                    m
                } else {
                    available
                },
                None => available,
            },
        );
        if available < floor {
            self.strikes = self.strikes + 1;
        } else {
            self.strikes = 0;
        }
        self.strikes >= STRIKES
    }
}

} // verus!
