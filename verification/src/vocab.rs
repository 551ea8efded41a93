//! Which rows of the output head the drafter keeps.
use vstd::prelude::*;

use crate::mma::MMA_M;
use crate::seqs::min_int;
use crate::text::{chars_of, is_white, number_in, parse_number, pieces, views, white};

verus! {

/// Rows at the top of the id range that always stay: the special tokens live there.
pub const VOCAB_TAIL: usize = 512;

/// First id of the tail that always stays. One vocabulary keeps its specials in a larger block.
pub open spec fn tail_start(vocab: int) -> int {
    if vocab == 120832 {
        120000
    } else if vocab >= VOCAB_TAIL {
        vocab - VOCAB_TAIL
    } else {
        0
    }
}

/// Ids `lo..hi`.
pub open spec fn id_range(lo: int, hi: int) -> Seq<u32> {
    Seq::new((hi - lo) as nat, |i: int| (lo + i) as u32)
}

/// The first `n` ids of a vocabulary, from the start again where it has fewer: every one is a real id.
pub open spec fn first_ids(n: int, vocab: int) -> Seq<u32> {
    Seq::new(n as nat, |i: int| (i % vocab) as u32)
}

/// The rows that a draft head keeps.
pub open spec fn draft_rows_of(top: int, vocab: int) -> Seq<u32> {
    first_ids(kept_top(top, vocab), vocab) + id_range(tail_start(vocab), vocab)
}

/// How many leading ids are kept: `top` of them (or all below the tail), and as many more as fill the
/// last tile of rows.
pub open spec fn kept_top(top: int, vocab: int) -> int {
    let t = min_int(top, tail_start(vocab));
    let total = t + (vocab - tail_start(vocab));
    t + (if total % 16 == 0 {
        0
    } else {
        16 - total % 16
    })
}

fn first_tail_id(vocab: usize) -> (s: usize)
    ensures
        s == tail_start(vocab as int),
        s <= vocab,
{
    if vocab == 120832 {
        120000
    } else if vocab >= VOCAB_TAIL {
        vocab - VOCAB_TAIL
    } else {
        0
    }
}

fn push_ids(rows: &mut Vec<u32>, lo: usize, hi: usize)
    requires
        lo <= hi <= u32::MAX,
    ensures
        final(rows)@ == old(rows)@ + id_range(lo as int, hi as int),
{
    let mut i: usize = lo;
    proof {
        assert(rows@ =~= old(rows)@ + id_range(lo as int, lo as int));
    }
    while i < hi
        invariant
            lo <= i <= hi <= u32::MAX,
            rows@ == old(rows)@ + id_range(lo as int, i as int),
        decreases hi - i,
    {
        rows.push(i as u32);
        i = i + 1;
        proof {
            assert(rows@ =~= old(rows)@ + id_range(lo as int, i as int));
        }
    }
}

/// The rows a draft head keeps: the `top` most frequent tokens, filled up to whole tiles with the next
/// most frequent ones, and the tail with the special tokens.
pub fn draft_vocab_rows(top: usize, vocab: usize) -> (rows: Vec<u32>)
    requires
        vocab <= u32::MAX,
    ensures
        rows@ == draft_rows_of(top as int, vocab as int),
{
    let start: usize = first_tail_id(vocab);
    let least: usize = if top <= start {
        top
    } else {
        start
    };
    let over: usize = (least + (vocab - start)) % MMA_M;
    let t: usize = if over == 0 {
        least
    } else {
        least + (MMA_M - over)
    };
    let mut rows: Vec<u32> = Vec::new();
    let mut i: usize = 0;
    while i < t
        invariant
            i <= t,
            t == kept_top(top as int, vocab as int),
            vocab <= u32::MAX,
            t > 0 ==> vocab > 0,
            rows@ == first_ids(i as int, vocab as int),
        decreases t - i,
    {
        rows.push((i % vocab) as u32);
        i = i + 1;
        proof {
            assert(rows@ =~= first_ids(i as int, vocab as int));
        }
    }
    push_ids(&mut rows, start, vocab);
    rows
}

/// The draft rows fill whole tiles, as few as can be, with real ids: the `top` first ones and all of the
/// tail are among them. None occurs twice unless the filling ran into the tail, and a vocabulary of whole
/// tiles gives them in ascending order.
pub proof fn law_draft_rows(top: int, vocab: int)
    requires
        0 <= top,
        0 <= vocab <= u32::MAX,
    ensures
        ({
            let rows = draft_rows_of(top, vocab);
            let asked = min_int(top, tail_start(vocab)) + (vocab - tail_start(vocab));
            &&& rows.len() % 16 == 0
            &&& asked <= rows.len() < asked + 16
            &&& forall|i: int| 0 <= i < rows.len() ==> #[trigger] rows[i] < vocab
            &&& forall|id: u32|
                id < min_int(top, vocab) || tail_start(vocab) <= id < vocab ==> #[trigger] rows.contains(
                    id,
                )
            &&& kept_top(top, vocab) <= tail_start(vocab) ==> rows.no_duplicates()
            &&& vocab % 16 == 0 ==> forall|i: int, j: int|
                0 <= i < j < rows.len() ==> #[trigger] rows[i] < #[trigger] rows[j]
        }),
{
    let t = kept_top(top, vocab);
    let s = tail_start(vocab);
    let rows = draft_rows_of(top, vocab);
    assert(rows.len() == t + (vocab - s));
    assert(vocab >= 16 ==> t <= vocab);
    assert forall|i: int| 0 <= i < rows.len() implies #[trigger] rows[i] == (if i < t {
        i % vocab
    } else {
        s + (i - t)
    }) && rows[i] < vocab && (vocab >= 16 && i < t && i < vocab ==> rows[i] == i) by {
        if i < t && vocab >= 16 && i < vocab {
            vstd::arithmetic::div_mod::lemma_small_mod(i as nat, vocab as nat);
        }
        if i < t {
            assert(vocab > 0);
            vstd::arithmetic::div_mod::lemma_mod_bound(i, vocab);
        }
    }
    assert forall|id: u32| id < min_int(top, vocab) || tail_start(vocab) <= id < vocab implies
        #[trigger] rows.contains(id) by {
        if id < s {
            assert(vocab >= 16);
            assert(rows[id as int] == id);
        } else {
            assert(rows[t + id - s] == id);
        }
    }
}

/// Ids in `lo..hi` that `keep` picks, in order.
pub open spec fn picked(lo: int, hi: int, keep: spec_fn(int) -> bool) -> Seq<u32>
    decreases hi - lo,
{
    if hi <= lo {
        Seq::empty()
    } else if keep(hi - 1) {
        picked(lo, hi - 1, keep).push((hi - 1) as u32)
    } else {
        picked(lo, hi - 1, keep)
    }
}

/// `id` is written in decimal among the white-space-separated words of `txt`.
pub open spec fn lists_id(txt: Seq<char>, id: int) -> bool {
    let ws = pieces(txt, |c: char| is_white(c));
    exists|j: int|
        0 <= j < ws.len() && number_in(#[trigger] ws[j], u32::MAX as nat) == Some(id as nat)
}

/// The ids that a list names, in order.
pub open spec fn listed_ids(txt: Seq<char>, vocab: int) -> Seq<u32> {
    picked(0, vocab, |i: int| lists_id(txt, i))
}

/// The ids of the tail that a list does not name.
pub open spec fn unlisted_tail(txt: Seq<char>, vocab: int) -> Seq<u32> {
    picked(tail_start(vocab), vocab, |i: int| !lists_id(txt, i))
}

/// The ids below the tail that a list does not name.
pub open spec fn free_ids(txt: Seq<char>, vocab: int) -> Seq<u32> {
    picked(0, tail_start(vocab), |i: int| !lists_id(txt, i))
}

/// `n` rows to fill up with: the free ids, and where they run out the ids from the start again.
pub open spec fn filling(free: Seq<u32>, n: int, vocab: int) -> Seq<u32> {
    Seq::new(
        n as nat,
        |k: int|
            if k < free.len() {
                free[k]
            } else {
                ((k - free.len()) % vocab) as u32
            },
    )
}

/// Rows that complete the last tile.
pub open spec fn missing(len: int) -> int {
    (16 - len % 16) % 16
}

/// The rows that a list of ids asks for: the listed ids in order, then the ids of the tail that are
/// not listed, then the smallest ids not yet there until the last tile is full. Where a vocabulary has
/// no more ids, some are repeated: every row is a real one.
pub open spec fn rows_of_list(txt: Seq<char>, vocab: int) -> Seq<u32> {
    let base = listed_ids(txt, vocab) + unlisted_tail(txt, vocab);
    base + filling(free_ids(txt, vocab), missing(base.len() as int), vocab)
}

proof fn lemma_picked_range(lo: int, hi: int, keep: spec_fn(int) -> bool)
    requires
        0 <= lo <= hi <= u32::MAX,
    ensures
        picked(lo, hi, keep).len() <= hi - lo,
        forall|k: int| 0 <= k < picked(lo, hi, keep).len() ==> lo <= #[trigger] picked(lo, hi, keep)[k]
            < hi && keep(picked(lo, hi, keep)[k] as int),
        forall|id: u32| lo <= id < hi && keep(id as int) ==> #[trigger] picked(lo, hi, keep).contains(id),
    decreases hi - lo,
{
    if hi > lo {
        lemma_picked_range(lo, hi - 1, keep);
        let p = picked(lo, hi - 1, keep);
        let q = picked(lo, hi, keep);
        assert forall|id: u32| lo <= id < hi && keep(id as int) implies #[trigger] q.contains(id) by {
            if id < hi - 1 {
                assert(p.contains(id));
                let k = choose|k: int| 0 <= k < p.len() && p[k] == id;
                assert(q[k] == id);
            } else {
                assert(q[q.len() - 1] == id);
            }
        }
    }
}

/// The rows of a list fill whole tiles with real ids, and every listed id and all of the tail are among
/// them.
pub proof fn law_listed_rows(txt: Seq<char>, vocab: int)
    requires
        0 <= vocab <= u32::MAX,
    ensures
        ({
            let rows = rows_of_list(txt, vocab);
            &&& rows.len() % 16 == 0
            &&& forall|i: int| 0 <= i < rows.len() ==> #[trigger] rows[i] < vocab
            &&& forall|id: u32|
                id < vocab && (lists_id(txt, id as int) || tail_start(vocab) <= id)
                    ==> #[trigger] rows.contains(id)
        }),
{
    let named = |i: int| lists_id(txt, i);
    let other = |i: int| !lists_id(txt, i);
    let s = tail_start(vocab);
    lemma_picked_range(0, vocab, named);
    lemma_picked_range(s, vocab, other);
    lemma_picked_range(0, s, other);
    let (listed, tail, free) = (listed_ids(txt, vocab), unlisted_tail(txt, vocab), free_ids(txt, vocab));
    assert(listed == picked(0, vocab, named));
    assert(tail == picked(s, vocab, other));
    assert(free == picked(0, s, other));
    let base = listed + tail;
    let rows = rows_of_list(txt, vocab);
    assert forall|i: int| 0 <= i < rows.len() implies #[trigger] rows[i] < vocab by {
        if i < listed.len() {
            assert(rows[i] == listed[i]);
        } else if i < base.len() {
            assert(rows[i] == tail[i - listed.len()]);
        } else {
            let k = i - base.len();
            assert(vocab > 0);
            if k < free.len() {
                assert(rows[i] == free[k]);
            } else {
                vstd::arithmetic::div_mod::lemma_mod_bound(k - free.len(), vocab);
            }
        }
    }
    assert forall|id: u32| id < vocab && (lists_id(txt, id as int) || s <= id) implies
        #[trigger] rows.contains(id) by {
        if lists_id(txt, id as int) {
            assert(named(id as int));
            assert(listed.contains(id));
            let k = choose|k: int| 0 <= k < listed.len() && listed[k] == id;
            assert(rows[k] == id);
        } else {
            assert(other(id as int));
            assert(tail.contains(id));
            let k = choose|k: int| 0 <= k < tail.len() && tail[k] == id;
            assert(rows[listed.len() + k] == id);
        }
    }
}

/// The pieces of a text between white space.
pub(crate) fn split_white(s: &[char]) -> (r: Vec<Vec<char>>)
    ensures
        views(r@) == pieces(s@, |c: char| is_white(c)),
{
    let ghost by = |c: char| is_white(c);
    let mut r: Vec<Vec<char>> = Vec::new();
    let mut cur: Vec<char> = Vec::new();
    let mut i: usize = 0;
    proof {
        assert(s@.take(0) =~= Seq::<char>::empty());
        assert(views(r@).push(cur@) =~= pieces(s@.take(0), by));
    }
    while i < s.len()
        invariant
            i <= s.len(),
            by == (|c: char| is_white(c)),
            views(r@).push(cur@) == pieces(s@.take(i as int), by),
        decreases s.len() - i,
    {
        let c: char = s[i];
        let ghost r0 = r@;
        let ghost cur0 = cur@;
        proof {
            assert(s@.take(i + 1).drop_last() =~= s@.take(i as int));
            assert(s@.take(i + 1).last() == c);
        }
        if white(c) {
            let done: Vec<char> = cur;
            r.push(done);
            cur = Vec::new();
            proof {
                assert(views(r@) =~= views(r0).push(cur0));
            }
        } else {
            cur.push(c);
            proof {
                let p = views(r0).push(cur0);
                assert(p.drop_last() =~= views(r0));
                assert(views(r0).push(cur@) =~= p.drop_last().push(p.last().push(c)));
            }
        }
        i = i + 1;
    }
    let ghost r0 = r@;
    r.push(cur);
    proof {
        assert(s@.take(s@.len() as int) =~= s@);
        assert(views(r@) =~= views(r0).push(cur@));
    }
    r
}

/// Appends the ids in `lo..hi` whose mark equals `want`.
fn push_marked(rows: &mut Vec<u32>, seen: &Vec<bool>, lo: usize, hi: usize, want: bool)
    requires
        lo <= hi <= seen.len() <= u32::MAX,
    ensures
        final(rows)@ == old(rows)@ + picked(lo as int, hi as int, |i: int| seen@[i] == want),
{
    let ghost keep = |i: int| seen@[i] == want;
    let mut i: usize = lo;
    proof {
        assert(rows@ =~= old(rows)@ + picked(lo as int, lo as int, keep));
    }
    while i < hi
        invariant
            lo <= i <= hi <= seen.len() <= u32::MAX,
            keep == (|i: int| seen@[i] == want),
            rows@ == old(rows)@ + picked(lo as int, i as int, keep),
        decreases hi - i,
    {
        let ghost before = rows@;
        if seen[i] == want {
            rows.push(i as u32);
        }
        i = i + 1;
        proof {
            assert(rows@ =~= old(rows)@ + picked(lo as int, i as int, keep));
        }
    }
}

proof fn lemma_picked_ext(lo: int, hi: int, a: spec_fn(int) -> bool, b: spec_fn(int) -> bool)
    requires
        forall|i: int| lo <= i < hi ==> #[trigger] a(i) == b(i),
    ensures
        picked(lo, hi, a) == picked(lo, hi, b),
    decreases hi - lo,
{
    if hi > lo {
        assert(a(hi - 1) == b(hi - 1));
        lemma_picked_ext(lo, hi - 1, a, b);
    }
}

/// The rows that a list of ids asks for.
///
/// The special-token tail is added so that a list without it stays usable, and ids in order fill the
/// last tile of rows.
pub fn draft_vocab_rows_text(txt: &str, vocab: usize) -> (rows: Vec<u32>)
    requires
        vocab <= u32::MAX,
    ensures
        rows@ == rows_of_list(txt@, vocab as int),
{
    let c: Vec<char> = chars_of(txt);
    let ws: Vec<Vec<char>> = split_white(c.as_slice());
    let ghost v = views(ws@);
    let mut seen: Vec<bool> = crate::seqs::filled(vocab, false);
    let mut j: usize = 0;
    while j < ws.len()
        invariant
            j <= ws.len(),
            v == views(ws@),
            v == pieces(txt@, |c: char| is_white(c)),
            seen@.len() == vocab,
            forall|i: int|
                0 <= i < vocab ==> (#[trigger] seen@[i] <==> exists|q: int|
                    0 <= q < j && number_in(#[trigger] v[q], u32::MAX as nat) == Some(i as nat)),
        decreases ws.len() - j,
    {
        let n: Option<u64> = parse_number(ws[j].as_slice(), u32::MAX as u64);
        let ghost seen0 = seen@;
        proof {
            assert(v[j as int] == ws@[j as int]@);
        }
        match n {
            Some(x) => {
                if x < vocab as u64 {
                    seen.set(x as usize, true);
                }
            },
            None => {},
        }
        proof {
            assert forall|i: int| 0 <= i < vocab implies (#[trigger] seen@[i] <==> exists|q: int|
                0 <= q < j + 1 && number_in(#[trigger] v[q], u32::MAX as nat) == Some(i as nat)) by {
                if seen@[i] {
                    if seen0[i] {
                        let q = choose|q: int|
                            0 <= q < j && number_in(#[trigger] v[q], u32::MAX as nat) == Some(
                                i as nat,
                            );
                        assert(number_in(v[q], u32::MAX as nat) == Some(i as nat));
                    } else {
                        assert(number_in(v[j as int], u32::MAX as nat) == Some(i as nat));
                    }
                } else {
                    assert(!seen0[i]);
                    assert forall|q: int| 0 <= q < j + 1 implies number_in(
                        #[trigger] v[q],
                        u32::MAX as nat,
                    ) != Some(i as nat) by {
                        if q == j {
                            assert(number_in(v[j as int], u32::MAX as nat) != Some(i as nat));
                        }
                    }
                }
            }
        }
        j = j + 1;
    }
    let start: usize = first_tail_id(vocab);
    let mut rows: Vec<u32> = Vec::new();
    let mut free: Vec<u32> = Vec::new();
    push_marked(&mut rows, &seen, 0, vocab, true);
    push_marked(&mut rows, &seen, start, vocab, false);
    push_marked(&mut free, &seen, 0, start, false);
    let ghost base = listed_ids(txt@, vocab as int) + unlisted_tail(txt@, vocab as int);
    proof {
        assert forall|i: int| 0 <= i < vocab implies (#[trigger] seen@[i]) == lists_id(txt@, i) by {}
        let (marked, unmarked) = (|i: int| seen@[i] == true, |i: int| seen@[i] == false);
        let (named, other) = (|i: int| lists_id(txt@, i), |i: int| !lists_id(txt@, i));
        lemma_picked_ext(0, vocab as int, marked, named);
        lemma_picked_ext(start as int, vocab as int, unmarked, other);
        lemma_picked_ext(0, start as int, unmarked, other);
        lemma_picked_range(0, vocab as int, named);
        lemma_picked_range(start as int, vocab as int, other);
        assert(rows@ =~= base);
        assert(free@ =~= free_ids(txt@, vocab as int));
    }
    let ghost need = missing(base.len() as int);
    let mut k: usize = 0;
    proof {
        assert(rows@ =~= base + filling(free@, 0, vocab as int));
    }
    while rows.len() % MMA_M != 0
        invariant
            base.len() > 0 ==> vocab > 0,
            vocab <= u32::MAX,
            rows@ == base + filling(free@, k as int, vocab as int),
            need == missing(base.len() as int),
            k <= need,
        decreases need - k,
    {
        proof {
            assert(vocab > 0);
        }
        let id: u32 = if k < free.len() {
            free[k]
        } else {
            ((k - free.len()) % vocab) as u32
        };
        rows.push(id);
        k = k + 1;
        proof {
            assert(rows@ =~= base + filling(free@, k as int, vocab as int));
        }
    }
    rows
}

} // verus!
