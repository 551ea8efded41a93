//! Numbers as bit patterns: reading tensor bytes, bf16 and f32, and the order of bf16 values.
use vstd::prelude::*;

verus! {

// ---- bytes ----

/// The 16-bit word at index `i`, low byte first.
pub open spec fn half_at(raw: Seq<u8>, i: int) -> int {
    raw[2 * i] + raw[2 * i + 1] * 256
}

/// The 32-bit word at index `i`, low byte first.
pub open spec fn word_at(raw: Seq<u8>, i: int) -> int {
    raw[4 * i] + raw[4 * i + 1] * 0x100 + raw[4 * i + 2] * 0x1_0000 + raw[4 * i + 3] * 0x100_0000
}

/// Bytes as 16-bit words, low byte first.
pub fn halves_of(raw: &[u8]) -> (r: Vec<u16>)
    requires
        raw@.len() % 2 == 0,
    ensures
        r@ == Seq::new((raw@.len() / 2) as nat, |i: int| half_at(raw@, i) as u16),
{
    let size: usize = raw.len();
    let n: usize = size / 2;
    let mut r: Vec<u16> = Vec::new();
    let mut i: usize = 0;
    while i < n
        invariant
            i <= n,
            size == raw@.len(),
            n == size / 2,
            raw@.len() % 2 == 0,
            r@ == Seq::new(i as nat, |i: int| half_at(raw@, i) as u16),
        decreases n - i,
    {
        r.push(raw[2 * i] as u16 + raw[2 * i + 1] as u16 * 256);
        i = i + 1;
        proof {
            assert(r@ =~= Seq::new(i as nat, |i: int| half_at(raw@, i) as u16));
        }
    }
    r
}

/// Bytes as 32-bit words, low byte first.
pub fn words_of(raw: &[u8]) -> (r: Vec<u32>)
    requires
        raw@.len() % 4 == 0,
    ensures
        r@ == Seq::new((raw@.len() / 4) as nat, |i: int| word_at(raw@, i) as u32),
{
    let size: usize = raw.len();
    let n: usize = size / 4;
    let mut r: Vec<u32> = Vec::new();
    let mut i: usize = 0;
    while i < n
        invariant
            i <= n,
            size == raw@.len(),
            n == size / 4,
            raw@.len() % 4 == 0,
            r@ == Seq::new(i as nat, |i: int| word_at(raw@, i) as u32),
        decreases n - i,
    {
        r.push(
            raw[4 * i] as u32 + raw[4 * i + 1] as u32 * 0x100 + raw[4 * i + 2] as u32 * 0x1_0000
                + raw[4 * i + 3] as u32 * 0x100_0000,
        );
        i = i + 1;
        proof {
            assert(r@ =~= Seq::new(i as nat, |i: int| word_at(raw@, i) as u32));
        }
    }
    r
}

// ---- bf16 and f32 ----

/// The bit pattern is no number.
pub open spec fn is_nan(b: u16) -> bool {
    b & 0x7FFF > 0x7F80
}

/// The f32 bits of a bf16: the same high half; what is no number becomes quiet.
pub open spec fn widened(b: u16) -> u32 {
    if is_nan(b) {
        ((b as u32) | 0x40) << 16
    } else {
        (b as u32) << 16
    }
}

/// The bf16 bits of an f32: the high half, rounded to the nearest, ties to even; what is no number
/// becomes quiet.
pub open spec fn narrowed(x: u32) -> u16 {
    if x & 0x7FFF_FFFF > 0x7F80_0000 {
        ((x >> 16) | 0x40) as u16
    } else if x & 0x8000 != 0 && x & 0x1_7FFF != 0 {
        ((x >> 16) + 1) as u16
    } else {
        (x >> 16) as u16
    }
}

/// The f32 bits of a bf16.
///
/// Calls `half::bf16::to_f32`. It keeps the bits as the high half of the result and sets the top mantissa
/// bit of what is no number.
#[verifier::external_body]
pub(crate) fn widen(b: u16) -> (r: u32)
    ensures
        r == widened(b),
{
    half::bf16::from_bits(b).to_f32().to_bits()
}

/// The bf16 bits of an f32.
pub fn narrow(x: u32) -> (r: u16)
    ensures
        r == narrowed(x),
{
    if x & 0x7FFF_FFFF > 0x7F80_0000 {
        proof {
            assert((x >> 16) | 0x40 <= 0xFFFF) by (bit_vector);
        }
        ((x >> 16) | 0x40) as u16
    } else if x & 0x8000 != 0 && x & 0x1_7FFF != 0 {
        proof {
            assert((x >> 16) + 1 <= 0xFFFF) by (bit_vector)
                requires
                    !(x & 0x7FFF_FFFF > 0x7F80_0000),
            ;
        }
        ((x >> 16) + 1) as u16
    } else {
        proof {
            assert(x >> 16 <= 0xFFFF) by (bit_vector);
        }
        (x >> 16) as u16
    }
}

/// Widening loses nothing: narrowing gives the same number back.
pub proof fn law_widening_is_exact(b: u16)
    ensures
        narrowed(widened(b)) == if is_nan(b) {
            b | 0x40
        } else {
            b
        },
{
    let w = b as u32;
    if b & 0x7FFF > 0x7F80 {
        let x = (w | 0x40) << 16;
        assert(x & 0x7FFF_FFFF > 0x7F80_0000 && ((x >> 16) | 0x40) as u16 == b | 0x40)
            by (bit_vector)
            requires
                b & 0x7FFF > 0x7F80,
                w == b as u32,
                x == (w | 0x40) << 16,
        ;
    } else {
        let x = w << 16;
        assert(!(x & 0x7FFF_FFFF > 0x7F80_0000) && x & 0x8000 == 0 && (x >> 16) as u16 == b)
            by (bit_vector)
            requires
                !(b & 0x7FFF > 0x7F80),
                w == b as u32,
                x == w << 16,
        ;
    }
}

/// A stored tensor as f32 bits: 32-bit words as they are, 16-bit words widened.
pub fn to_f32_bits(raw: &[u8], wide: bool) -> (r: Vec<u32>)
    requires
        raw@.len() % (if wide {
            4nat
        } else {
            2nat
        }) == 0,
    ensures
        wide ==> r@ == Seq::new((raw@.len() / 4) as nat, |i: int| word_at(raw@, i) as u32),
        !wide ==> r@ == Seq::new(
            (raw@.len() / 2) as nat,
            |i: int| widened(half_at(raw@, i) as u16),
        ),
{
    if wide {
        return words_of(raw);
    }
    let h: Vec<u16> = halves_of(raw);
    let mut r: Vec<u32> = Vec::new();
    let mut i: usize = 0;
    while i < h.len()
        invariant
            i <= h@.len(),
            h@ == Seq::new((raw@.len() / 2) as nat, |i: int| half_at(raw@, i) as u16),
            r@ == Seq::new(i as nat, |i: int| widened(half_at(raw@, i) as u16)),
        decreases h@.len() - i,
    {
        r.push(widen(h[i]));
        i = i + 1;
        proof {
            assert(r@ =~= Seq::new(i as nat, |i: int| widened(half_at(raw@, i) as u16)));
        }
    }
    r
}

/// A stored tensor as bf16 bits: 16-bit words as they are, 32-bit words narrowed.
pub fn to_bf16_bits(raw: &[u8], wide: bool) -> (r: Vec<u16>)
    requires
        raw@.len() % (if wide {
            4nat
        } else {
            2nat
        }) == 0,
    ensures
        !wide ==> r@ == Seq::new((raw@.len() / 2) as nat, |i: int| half_at(raw@, i) as u16),
        wide ==> r@ == Seq::new(
            (raw@.len() / 4) as nat,
            |i: int| narrowed(word_at(raw@, i) as u32),
        ),
{
    if !wide {
        return halves_of(raw);
    }
    let w: Vec<u32> = words_of(raw);
    let mut r: Vec<u16> = Vec::new();
    let mut i: usize = 0;
    while i < w.len()
        invariant
            i <= w@.len(),
            w@ == Seq::new((raw@.len() / 4) as nat, |i: int| word_at(raw@, i) as u32),
            r@ == Seq::new(i as nat, |i: int| narrowed(word_at(raw@, i) as u32)),
        decreases w@.len() - i,
    {
        r.push(narrow(w[i]));
        i = i + 1;
        proof {
            assert(r@ =~= Seq::new(i as nat, |i: int| narrowed(word_at(raw@, i) as u32)));
        }
    }
    r
}

// ---- order ----

/// Where a bf16 number stands in the order of numbers; both zeros stand at zero.
pub open spec fn rank_of(b: u16) -> int {
    if b & 0x8000 != 0 {
        -((b & 0x7FFF) as int)
    } else {
        (b & 0x7FFF) as int
    }
}

/// Where minus infinity stands.
pub const LOWEST: i32 = -0x7F80;

fn rank(b: u16) -> (r: i32)
    ensures
        r == rank_of(b),
        -0x7FFF <= r <= 0x7FFF,
{
    proof {
        assert(b & 0x7FFF <= 0x7FFF) by (bit_vector);
    }
    let m: i32 = (b & 0x7FFF) as i32;
    if b & 0x8000 != 0 {
        -m
    } else {
        m
    }
}

/// The entry counts in a comparison: it is a number above minus infinity.
pub open spec fn counts(b: u16) -> bool {
    !is_nan(b) && rank_of(b) > LOWEST
}

/// The largest entry of a column and the runner-up.
pub struct TopTwo {
    /// The first largest entry; zero where no entry counts.
    pub first: usize,
    /// Its place in the order, and the runner-up's; minus infinity where there is none.
    pub best: i32,
    pub second: i32,
}

/// `t` is the first largest entry among the first `n` and the largest of the others.
pub open spec fn is_top_two(col: Seq<u16>, n: int, t: TopTwo) -> bool {
    let any = exists|i: int| 0 <= i < n && counts(#[trigger] col[i]);
    &&& !any ==> t.first == 0 && t.best == LOWEST && t.second == LOWEST
    &&& any ==> {
        &&& t.first < n
        &&& counts(col[t.first as int])
        &&& t.best == rank_of(col[t.first as int])
        &&& forall|i: int| 0 <= i < n && counts(#[trigger] col[i]) ==> rank_of(col[i]) <= t.best
        &&& forall|i: int|
            0 <= i < t.first && counts(#[trigger] col[i]) ==> rank_of(col[i]) < t.best
        &&& forall|i: int|
            0 <= i < n && i != t.first && counts(#[trigger] col[i]) ==> rank_of(col[i]) <= t.second
        &&& t.second == LOWEST || exists|i: int|
            0 <= i < n && i != t.first && counts(#[trigger] col[i]) && rank_of(col[i]) == t.second
        &&& t.second <= t.best
    }
}

/// The largest entry of a column and the runner-up.
pub fn top_two(col: &[u16]) -> (t: TopTwo)
    ensures
        is_top_two(col@, col@.len() as int, t),
{
    let mut t: TopTwo = TopTwo { first: 0, best: LOWEST, second: LOWEST };
    let mut i: usize = 0;
    while i < col.len()
        invariant
            i <= col@.len(),
            is_top_two(col@, i as int, t),
            LOWEST <= t.second <= t.best,
        decreases col@.len() - i,
    {
        let b: u16 = col[i];
        let ghost was = t;
        let nan: bool = b & 0x7FFF > 0x7F80;
        let r: i32 = rank(b);
        let ghost had = exists|k: int| 0 <= k < i && counts(#[trigger] col@[k]);
        if !nan && r > t.best {
            t = TopTwo { first: i, best: r, second: t.best };
        } else if !nan && r > t.second {
            t = TopTwo { first: t.first, best: t.best, second: r };
        }
        i = i + 1;
        proof {
            assert(col@[i - 1] == b);
            let any = exists|k: int| 0 <= k < i && counts(#[trigger] col@[k]);
            if had {
                let k = choose|k: int| 0 <= k < i - 1 && counts(#[trigger] col@[k]);
                assert(0 <= k < i && counts(col@[k]));
            }
            if counts(b) {
                assert(0 <= i - 1 < i && counts(col@[i - 1]));
                assert(any);
                if !had {
                    assert forall|k: int| 0 <= k < i - 1 implies !counts(#[trigger] col@[k]) by {}
                }
            } else if any {
                let k = choose|k: int| 0 <= k < i && counts(#[trigger] col@[k]);
                assert(k != i - 1);
                assert(0 <= k < i - 1 && counts(col@[k]));
            }
            if had && counts(b) && r > was.best {
                assert(0 <= was.first < i && was.first != t.first && counts(
                    col@[was.first as int],
                ) && rank_of(col@[was.first as int]) == t.second);
            }
            if had && !(was.second == LOWEST) {
                let k = choose|k: int|
                    0 <= k < i - 1 && k != was.first && counts(#[trigger] col@[k]) && rank_of(
                        col@[k],
                    ) == was.second;
                assert(0 <= k < i && counts(col@[k]));
            }
        }
    }
    t
}

// ---- the best rows ----

/// Where a bf16 pattern stands in the total order of its f32: numbers by value with minus zero below
/// plus zero, patterns that are no numbers at the ends.
pub open spec fn total_rank(b: u16) -> int {
    let q = if is_nan(b) {
        b | 0x40
    } else {
        b
    };
    if q & 0x8000 != 0 {
        -1 - (q & 0x7FFF) as int
    } else {
        (q & 0x7FFF) as int
    }
}

fn total(b: u16) -> (r: i32)
    ensures
        r == total_rank(b),
{
    let q: u16 = if b & 0x7FFF > 0x7F80 {
        b | 0x40
    } else {
        b
    };
    proof {
        assert(q & 0x7FFF <= 0x7FFF) by (bit_vector);
    }
    let m: i32 = (q & 0x7FFF) as i32;
    if q & 0x8000 != 0 {
        -1 - m
    } else {
        m
    }
}

/// `rows` are best rows of `col`, best first: no row that is left out stands above one that is in.
pub open spec fn are_best(col: Seq<u16>, rows: Seq<usize>) -> bool {
    &&& rows.no_duplicates()
    &&& forall|i: int| 0 <= i < rows.len() ==> #[trigger] rows[i] < col.len()
    &&& forall|i: int, j: int|
        0 <= i < j < rows.len() ==> total_rank(col[#[trigger] rows[i] as int]) >= total_rank(
            col[#[trigger] rows[j] as int],
        )
    &&& forall|i: int, r: int|
        0 <= i < rows.len() && 0 <= r < col.len() && !rows.contains(r as usize) ==> total_rank(
            col[#[trigger] rows[i] as int],
        ) >= total_rank(#[trigger] col[r])
}

fn listed(rows: &[usize], r: usize) -> (b: bool)
    ensures
        b == rows@.contains(r),
{
    let mut i: usize = 0;
    while i < rows.len()
        invariant
            i <= rows@.len(),
            forall|k: int| 0 <= k < i ==> #[trigger] rows@[k] != r,
        decreases rows@.len() - i,
    {
        if rows[i] == r {
            return true;
        }
        i = i + 1;
    }
    false
}

/// The `k` best rows of a column of logits, best first; all rows where there are fewer. Which of equal
/// rows come first is not fixed by the order; here the earlier ones do.
pub fn best_rows(col: &[u16], k: usize) -> (rows: Vec<usize>)
    ensures
        rows@.len() == if k <= col@.len() {
            k as int
        } else {
            col@.len() as int
        },
        are_best(col@, rows@),
{
    let mut rows: Vec<usize> = Vec::new();
    while rows.len() < k && rows.len() < col.len()
        invariant
            rows@.len() <= k,
            rows@.len() <= col@.len(),
            are_best(col@, rows@),
        decreases k - rows@.len(),
    {
        let ghost had = rows@;
        let mut best: Option<usize> = None;
        let mut r: usize = 0;
        while r < col.len()
            invariant
                r <= col@.len(),
                rows@ == had,
                match best {
                    None => forall|q: int| 0 <= q < r ==> rows@.contains(#[trigger] (q as usize)),
                    Some(b) => b < r && !rows@.contains(b) && forall|q: int|
                        0 <= q < r && !rows@.contains(q as usize) ==> total_rank(col@[b as int])
                            >= total_rank(#[trigger] col@[q]),
                },
            decreases col@.len() - r,
        {
            if !listed(rows.as_slice(), r) {
                match best {
                    None => {
                        best = Some(r);
                        proof {
                            assert forall|q: int| 0 <= q < r + 1 && !rows@.contains(
                                q as usize,
                            ) implies total_rank(col@[r as int]) >= total_rank(
                                #[trigger] col@[q],
                            ) by {
                                if q < r {
                                    assert(rows@.contains(q as usize));
                                }
                            }
                        }
                    },
                    Some(b) => {
                        if total(col[r]) > total(col[b]) {
                            best = Some(r);
                        }
                    },
                }
            }
            r = r + 1;
        }
        match best {
            None => {
                proof {
                    lemma_full(rows@, col@.len() as int);
                }
                return rows;
            },
            Some(b) => {
                rows.push(b);
                proof {
                    let n = rows@;
                    assert forall|i: int, j: int| 0 <= i < j < n.len() implies total_rank(
                        col@[#[trigger] n[i] as int],
                    ) >= total_rank(col@[#[trigger] n[j] as int]) by {
                        if j == had.len() {
                            assert(n[i] == had[i]);
                            assert(!had.contains((b as int) as usize));
                        } else {
                            assert(n[i] == had[i] && n[j] == had[j]);
                        }
                    }
                    assert forall|i: int, q: int|
                        0 <= i < n.len() && 0 <= q < col@.len() && !n.contains(
                            q as usize,
                        ) implies total_rank(col@[#[trigger] n[i] as int]) >= total_rank(
                        #[trigger] col@[q],
                    ) by {
                        assert(!had.contains(q as usize)) by {
                            if had.contains(q as usize) {
                                let z = choose|z: int| 0 <= z < had.len() && had[z] == q as usize;
                                assert(n[z] == q as usize);
                            }
                        }
                        if i < had.len() {
                            assert(n[i] == had[i]);
                        }
                    }
                    assert(n.no_duplicates()) by {
                        assert forall|i: int, j: int| 0 <= i < n.len() && 0 <= j < n.len() && i
                            != j implies n[i] != n[j] by {
                            if i == had.len() {
                                assert(had[j] == n[j]);
                            } else if j == had.len() {
                                assert(had[i] == n[i]);
                            } else {
                                assert(had[i] == n[i] && had[j] == n[j]);
                            }
                        }
                    }
                }
            },
        }
    }
    rows
}

/// A list that holds every index below `n` is not shorter than `n`.
proof fn lemma_full(rows: Seq<usize>, n: int)
    requires
        0 <= n <= usize::MAX,
        forall|q: int| 0 <= q < n ==> rows.contains(#[trigger] (q as usize)),
    ensures
        rows.len() >= n,
    decreases n,
{
    if n > 0 {
        let last = (n - 1) as usize;
        assert(rows.contains(((n - 1) as int) as usize));
        let i = choose|i: int| 0 <= i < rows.len() && rows[i] == last;
        let d = rows.remove(i);
        assert forall|q: int| 0 <= q < n - 1 implies d.contains(#[trigger] (q as usize)) by {
            assert(rows.contains(q as usize));
            let k = choose|k: int| 0 <= k < rows.len() && rows[k] == q as usize;
            if k < i {
                assert(d[k] == q as usize);
            } else {
                assert(d[k - 1] == q as usize);
            }
        }
        lemma_full(d, n - 1);
    }
}

} // verus!
