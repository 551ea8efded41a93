//! The hashed n-gram embedding: row ids, the table on disk, and its reader's plan.
//!
//! For every token some rows of a very large table are looked up, indexed by hashes of the token's
//! 2-gram, 3-gram and longer contexts. A device kernel computes the same ids from the same tables.
use vstd::prelude::*;

use crate::config::Config;

verus! {

/// Step of the splitmix generator.
pub const SPLITMIX_GAMMA: u64 = 0x9E37_79B9_7F4A_7C15;

const SPLITMIX_M1: u64 = 0xBF58_476D_1CE4_E5B9;

const SPLITMIX_M2: u64 = 0x94D0_49BB_1331_11EB;

const PRIME_1: u64 = 10007;

/// Longest n-gram that a row id is computed for.
pub const MAX_NGRAM: usize = 8;

// ---- multipliers ----

/// One step of the splitmix generator.
pub open spec fn mix(v: u64) -> u64 {
    let a = v.wrapping_add(SPLITMIX_GAMMA);
    let b = (a ^ (a >> 30)).wrapping_mul(0xBF58_476D_1CE4_E5B9);
    let c = (b ^ (b >> 27)).wrapping_mul(0x94D0_49BB_1331_11EB);
    c ^ (c >> 31)
}

/// One step of the splitmix generator.
pub fn splitmix64(v: u64) -> (r: u64)
    ensures
        r == mix(v),
{
    let a: u64 = v.wrapping_add(SPLITMIX_GAMMA);
    let b: u64 = (a ^ (a >> 30)).wrapping_mul(SPLITMIX_M1);
    let c: u64 = (b ^ (b >> 27)).wrapping_mul(SPLITMIX_M2);
    c ^ (c >> 31)
}

/// Half the largest multiplier that no token of the vocabulary overflows; at least one.
pub open spec fn half_bound(unigram_vocab: u64) -> u64 {
    let m = if unigram_vocab == 0 {
        0x7FFF_FFFF_FFFF_FFFFu64
    } else {
        0x7FFF_FFFF_FFFF_FFFFu64 / unigram_vocab
    };
    if m / 2 == 0 {
        1
    } else {
        m / 2
    }
}

/// The seed of a layer.
pub open spec fn layer_seed(index: u64, seed: u64) -> u64 {
    seed.wrapping_add(10007u64.wrapping_mul(index))
}

/// The multiplier of n-gram position `i`.
pub open spec fn multiplier(unigram_vocab: u64, index: u64, seed: u64, i: int) -> i64 {
    let v = ((layer_seed(index, seed) + SPLITMIX_GAMMA * (i + 1)) % 0x1_0000_0000_0000_0000) as u64;
    (2 * (mix(v) % half_bound(unigram_vocab)) + 1) as i64
}

/// One odd multiplier per n-gram position.
pub fn layer_multipliers(
    unigram_vocab: u64,
    ngram_size: usize,
    ple_layer_index: u64,
    seed: u64,
) -> (r: Vec<i64>)
    ensures
        r@ == Seq::new(
            ngram_size as nat,
            |i: int| multiplier(unigram_vocab, ple_layer_index, seed, i),
        ),
{
    let most: u64 = if unigram_vocab == 0 {
        i64::MAX as u64
    } else {
        i64::MAX as u64 / unigram_vocab
    };
    let half: u64 = if most / 2 == 0 {
        1
    } else {
        most / 2
    };
    let base: u64 = seed.wrapping_add(PRIME_1.wrapping_mul(ple_layer_index));
    let ghost f = |i: int| multiplier(unigram_vocab, ple_layer_index, seed, i);
    let mut r: Vec<i64> = Vec::new();
    let mut i: usize = 0;
    while i < ngram_size
        invariant
            i <= ngram_size,
            half == half_bound(unigram_vocab),
            1 <= half <= 0x3FFF_FFFF_FFFF_FFFF,
            base == layer_seed(ple_layer_index, seed),
            f == (|i: int| multiplier(unigram_vocab, ple_layer_index, seed, i)),
            r@ == Seq::new(i as nat, f),
        decreases ngram_size - i,
    {
        proof {
            let n = i + 1;
            assert(SPLITMIX_GAMMA * n <= 0x9E37_79B9_7F4A_7C15 * 0x1_0000_0000_0000_0000)
                by (nonlinear_arith)
                requires
                    0 <= n <= 0x1_0000_0000_0000_0000,
                    SPLITMIX_GAMMA == 0x9E37_79B9_7F4A_7C15u64,
            ;
            assert(0 <= SPLITMIX_GAMMA * n) by (nonlinear_arith)
                requires
                    n >= 0,
            ;
        }
        let wide: u128 = base as u128 + SPLITMIX_GAMMA as u128 * (i as u128 + 1);
        let v: u64 = (wide % 0x1_0000_0000_0000_0000) as u64;
        let m: u64 = splitmix64(v) % half;
        r.push((2 * m + 1) as i64);
        i = i + 1;
        proof {
            assert(r@ =~= Seq::new(i as nat, f));
        }
    }
    r
}

/// Multipliers are odd and positive, and no token of the vocabulary overflows its product.
pub proof fn law_multipliers_never_overflow(
    unigram_vocab: u64,
    index: u64,
    seed: u64,
    i: int,
    token: int,
)
    requires
        1 <= unigram_vocab <= i64::MAX,
        0 <= token < unigram_vocab,
    ensures
        multiplier(unigram_vocab, index, seed, i) % 2 == 1,
        multiplier(unigram_vocab, index, seed, i) >= 1,
        token * multiplier(unigram_vocab, index, seed, i) <= i64::MAX,
{
    let v = ((layer_seed(index, seed) + SPLITMIX_GAMMA * (i + 1)) % 0x1_0000_0000_0000_0000) as u64;
    let hb = half_bound(unigram_vocab) as int;
    let top = i64::MAX as int;
    let vocab = unigram_vocab as int;
    let most = top / vocab;
    let m = mix(v) as int % hb;
    assert(1 <= most && most * vocab <= top && most <= top) by (nonlinear_arith)
        requires
            most == top / vocab,
            1 <= vocab <= top,
    ;
    let k = 2 * m + 1;
    assert(0 <= m < hb);
    assert(k <= most);
    assert(token * k <= most * vocab) by (nonlinear_arith)
        requires
            0 <= token < vocab,
            1 <= k <= most,
    ;
}

// ---- primes ----

/// `v` has no divisor but one and itself.
pub open spec fn prime(v: int) -> bool {
    v >= 2 && forall|d: int| 2 <= d < v ==> #[trigger] (v % d) != 0
}

/// No number from 2 up to, not including, `d` divides `v`.
pub open spec fn undivided(v: int, d: int) -> bool {
    forall|k: int| 2 <= k < d ==> #[trigger] (v % k) != 0
}

/// A number without a divisor up to its root is prime.
proof fn lemma_root(v: int, d: int)
    requires
        v >= 2,
        d >= 2,
        undivided(v, d),
        d * d > v,
    ensures
        prime(v),
{
    assert forall|k: int| 2 <= k < v implies #[trigger] (v % k) != 0 by {
        if k >= d && v % k == 0 {
            let q = v / k;
            assert(v == k * q) by (nonlinear_arith)
                requires
                    v % k == 0,
                    q == v / k,
                    k >= 2,
            ;
            assert(q < d) by (nonlinear_arith)
                requires
                    v == k * q,
                    k >= d,
                    d * d > v,
                    d >= 2,
            ;
            assert(q >= 2) by (nonlinear_arith)
                requires
                    v == k * q,
                    2 <= k < v,
            ;
            assert(v % q == 0) by (nonlinear_arith)
                requires
                    v == k * q,
                    q >= 2,
            ;
            assert(v % q != 0);
        }
    }
}

/// Whether `v` is prime.
pub fn is_prime(v: u64) -> (b: bool)
    ensures
        b == prime(v as int),
{
    if v < 2 {
        return false;
    }
    if v % 2 == 0 {
        proof {
            if v > 2 {
                assert(v as int % 2 == 0);
            }
        }
        return v == 2;
    }
    let mut d: u64 = 3;
    proof {
        assert(undivided(v as int, 3)) by {
            assert forall|k: int| 2 <= k < 3 implies #[trigger] (v as int % k) != 0 by {
                assert(k == 2);
            }
        }
    }
    while d <= v / d
        invariant
            3 <= d,
            d % 2 == 1,
            v >= 2,
            v % 2 == 1,
            undivided(v as int, d as int),
        decreases v - d,
    {
        proof {
            assert(v as int / d as int * (d as int) <= v as int) by (nonlinear_arith)
                requires
                    d >= 1,
            ;
            assert(3 * d <= d * d && d * d <= v) by (nonlinear_arith)
                requires
                    d >= 3,
                    d <= v as int / d as int,
                    v as int / d as int * (d as int) <= v as int,
            ;
        }
        if v % d == 0 {
            proof {
                assert(v as int % d as int == 0);
            }
            return false;
        }
        proof {
            let n = d + 2;
            assert forall|k: int| 2 <= k < n implies #[trigger] (v as int % k) != 0 by {
                if k == d + 1 {
                    lemma_even_divisor(v as int, k);
                }
            }
        }
        d = d + 2;
    }
    proof {
        assert(d * d > v) by (nonlinear_arith)
            requires
                d > v as int / d as int,
                d >= 3,
        ;
        lemma_root(v as int, d as int);
    }
    true
}

proof fn lemma_even_divisor(v: int, k: int)
    requires
        v % 2 == 1,
        k % 2 == 0,
        k >= 2,
    ensures
        v % k != 0,
{
    if v % k == 0 {
        let (q, h) = (v / k, k / 2);
        assert(v == k * q) by (nonlinear_arith)
            requires
                v % k == 0,
                q == v / k,
                k >= 2,
        ;
        assert(k * q == 2 * (h * q)) by (nonlinear_arith)
            requires
                k == 2 * h,
        ;
    }
}

/// How far the search still has to go: at two it stops at the latest.
pub open spec fn way_to_two(p: u64) -> int {
    if p <= 2 {
        2 - p
    } else {
        0x1_0000_0000_0000_0002 - p
    }
}

proof fn lemma_two_is_prime()
    ensures
        prime(2),
{
}

/// The first prime from `p` on. Past the last prime of 64 bits the search starts over.
pub open spec fn prime_from(p: u64) -> u64
    decreases way_to_two(p),
    via prime_from_stops
{
    if prime(p as int) {
        p
    } else {
        prime_from(p.wrapping_add(1))
    }
}

#[via_fn]
proof fn prime_from_stops(p: u64) {
    lemma_two_is_prime();
}

/// The `count`-th prime after `start`.
pub open spec fn nth_prime(start: u64, count: nat) -> u64
    decreases count,
{
    if count == 0 {
        start
    } else {
        prime_from(nth_prime(start, (count - 1) as nat).wrapping_add(1))
    }
}

/// The `count`-th prime strictly greater than `start`.
pub fn nth_prime_after(start: u64, count: usize) -> (r: u64)
    ensures
        r == nth_prime(start, count as nat),
{
    let mut p: u64 = start;
    let mut n: usize = 0;
    while n < count
        invariant
            n <= count,
            p == nth_prime(start, n as nat),
        decreases count - n,
    {
        p = p.wrapping_add(1);
        let ghost from = p;
        while !is_prime(p)
            invariant
                prime_from(p) == prime_from(from),
            decreases way_to_two(p),
        {
            proof {
                lemma_two_is_prime();
            }
            p = p.wrapping_add(1);
        }
        n = n + 1;
    }
    p
}

/// The search skips no prime: what it finds is prime, and nothing between is. Past the last prime of 64
/// bits it finds two.
pub proof fn law_next_prime_is_next(p: u64)
    ensures
        prime(prime_from(p) as int),
        prime_from(p) >= p ==> forall|q: int| p <= q < prime_from(p) ==> !#[trigger] prime(q),
        prime_from(p) < p ==> prime_from(p) == 2 && forall|q: int|
            p <= q <= u64::MAX ==> !#[trigger] prime(q),
    decreases way_to_two(p),
{
    lemma_two_is_prime();
    if !prime(p as int) {
        let n = p.wrapping_add(1);
        law_next_prime_is_next(n);
        if p == u64::MAX {
            assert(n == 0);
            assert(prime_from(0) == 2) by {
                assert(!prime(0) && !prime(1));
                assert(prime_from(2) == 2);
                assert(prime_from(1) == prime_from(2));
                assert(prime_from(0) == prime_from(1));
            }
        }
    }
}

// ---- row ids ----

/// The hash tables of one layer.
pub struct PleHash {
    pub ngram_size: usize,
    pub heads_per_ngram: usize,
    /// One per n-gram position.
    pub multipliers: Vec<i64>,
    /// Rows of each head: consecutive primes.
    pub head_vocab: Vec<i64>,
    /// First row of each head.
    pub head_offset: Vec<i64>,
    /// Rows of the table, padded.
    pub total_rows: usize,
    pub eos: i32,
}

/// Rows of the first `n` heads together.
pub open spec fn rows_before(base: u64, n: nat) -> nat
    decreases n,
{
    if n == 0 {
        0
    } else {
        rows_before(base, (n - 1) as nat) + nth_prime((base - 1) as u64, n) as nat
    }
}

/// `n` rounded up to a multiple of `div`.
pub open spec fn padded(n: int, div: int) -> int {
    (n + div - 1) / div * div
}

/// The heads' tables can be held: every row has a number.
pub open spec fn tables_fit(cfg: &Config) -> bool {
    let rows = rows_before(cfg.ple_vocab_base as u64, cfg.spec_ple_heads() as nat);
    &&& rows <= i64::MAX
    &&& padded(rows as int, cfg.ple_vocab_divisor as int) <= usize::MAX
}

impl PleHash {
    /// Heads follow each other without gap or overlap, and the table holds them all.
    pub open spec fn wf(&self) -> bool {
        &&& self.ngram_size >= 1
        &&& self.multipliers@.len() == self.ngram_size
        &&& self.head_vocab@.len() == (self.ngram_size - 1) * self.heads_per_ngram
        &&& self.head_offset@.len() == self.head_vocab@.len()
        &&& self.total_rows >= 0
        &&& forall|h: int|
            0 <= h < self.head_vocab@.len() ==> {
                &&& #[trigger] self.head_vocab@[h] >= 1
                &&& self.head_offset@[h] >= 0
                &&& self.head_offset@[h] + self.head_vocab@[h] <= i64::MAX
                &&& self.head_offset@[h] + self.head_vocab@[h] <= self.total_rows
                &&& h + 1 < self.head_vocab@.len() ==> self.head_offset@[h + 1] == self.head_offset@[h]
                    + self.head_vocab@[h]
            }
    }

    /// The tables of a model's first layer; none where their rows cannot be numbered.
    pub fn new(cfg: &Config) -> (r: Option<PleHash>)
        requires
            cfg.ple_ngram_size >= 1,
            cfg.ple_vocab_base >= 1,
            cfg.ple_vocab_divisor >= 1,
            cfg.spec_ple_heads() <= usize::MAX,
        ensures
            r is Some <==> tables_fit(cfg),
            r matches Some(t) ==> {
                let n = cfg.spec_ple_heads() as nat;
                let base = cfg.ple_vocab_base as u64;
                &&& t.wf()
                &&& t.ngram_size == cfg.ple_ngram_size
                &&& t.heads_per_ngram == cfg.ple_heads_per_ngram
                &&& t.multipliers@ == Seq::new(
                    cfg.ple_ngram_size as nat,
                    |i: int| multiplier(cfg.vocab_size as u64, 0, cfg.ple_seed, i),
                )
                &&& t.head_vocab@ == Seq::new(
                    n,
                    |k: int| nth_prime((base - 1) as u64, (k + 1) as nat) as i64,
                )
                &&& t.head_offset@ == Seq::new(n, |k: int| rows_before(base, k as nat) as i64)
                &&& t.total_rows == padded(
                    rows_before(base, n) as int,
                    cfg.ple_vocab_divisor as int,
                )
                &&& t.eos == cfg.eos_token_id as i32
            },
    {
        let heads: usize = cfg.ple_heads();
        let base: u64 = cfg.ple_vocab_base as u64;
        let ghost start = (base - 1) as u64;
        let ghost fv = |k: int| nth_prime(start, (k + 1) as nat) as i64;
        let ghost fo = |k: int| rows_before(base, k as nat) as i64;
        let mut head_vocab: Vec<i64> = Vec::new();
        let mut head_offset: Vec<i64> = Vec::new();
        let mut total: u64 = 0;
        let mut p: u64 = base - 1;
        let mut k: usize = 0;
        while k < heads
            invariant
                k <= heads,
                heads == cfg.spec_ple_heads(),
                base == cfg.ple_vocab_base,
                start == base - 1,
                fv == (|k: int| nth_prime(start, (k + 1) as nat) as i64),
                fo == (|k: int| rows_before(base, k as nat) as i64),
                p == nth_prime(start, k as nat),
                total == rows_before(base, k as nat),
                total <= i64::MAX,
                head_vocab@ == Seq::new(k as nat, fv),
                head_offset@ == Seq::new(k as nat, fo),
                forall|h: int|
                    0 <= h < k ==> {
                        &&& #[trigger] head_vocab@[h] == nth_prime(start, (h + 1) as nat)
                        &&& head_vocab@[h] >= 1
                        &&& head_offset@[h] == rows_before(base, h as nat)
                        &&& rows_before(base, (h + 1) as nat) <= total
                    },
            decreases heads - k,
        {
            let ghost q = p;
            p = nth_prime_after(p, 1);
            proof {
                reveal_with_fuel(nth_prime, 2);
                assert(p == nth_prime(start, (k + 1) as nat));
                law_next_prime_is_next(q.wrapping_add(1));
                assert(rows_before(base, (k + 1) as nat) == total + p);
                lemma_rows_grow(base, (k + 1) as nat, heads as nat);
            }
            if p > i64::MAX as u64 - total {
                return None;
            }
            head_vocab.push(p as i64);
            head_offset.push(total as i64);
            total = total + p;
            k = k + 1;
            proof {
                assert(head_vocab@ =~= Seq::new(k as nat, fv));
                assert(head_offset@ =~= Seq::new(k as nat, fo));
                assert forall|h: int| 0 <= h < k implies {
                    &&& #[trigger] head_vocab@[h] == nth_prime(start, (h + 1) as nat)
                    &&& head_vocab@[h] >= 1
                    &&& head_offset@[h] == rows_before(base, h as nat)
                    &&& rows_before(base, (h + 1) as nat) <= total
                } by {
                    lemma_rows_grow(base, (h + 1) as nat, k as nat);
                }
            }
        }
        let div: u64 = cfg.ple_vocab_divisor as u64;
        let ghost rows = total as int;
        let q: u64 = total / div + if total % div == 0 {
            0
        } else {
            1
        };
        proof {
            lemma_round_up(total as int, div as int);
            assert(q == (total + div - 1) / div as int);
            assert(0 <= q * div) by (nonlinear_arith);
        }
        let total_rows: usize = match q.checked_mul(div) {
            Some(t) => if t > usize::MAX as u64 {
                return None;
            } else {
                t as usize
            },
            None => {
                return None;
            },
        };
        proof {
            assert(rows <= q * div) by (nonlinear_arith)
                requires
                    q == (rows + div - 1) / div as int,
                    div >= 1,
            ;
            assert forall|h: int| 0 <= h < head_vocab@.len() implies {
                &&& #[trigger] head_vocab@[h] >= 1
                &&& head_offset@[h] >= 0
                &&& head_offset@[h] + head_vocab@[h] <= i64::MAX
                &&& head_offset@[h] + head_vocab@[h] <= total_rows
                &&& h + 1 < head_vocab@.len() ==> head_offset@[h + 1] == head_offset@[h]
                    + head_vocab@[h]
            } by {
                assert(head_vocab@[h] == nth_prime(start, (h + 1) as nat));
                assert(rows_before(base, (h + 1) as nat) == rows_before(base, h as nat) + nth_prime(
                    start,
                    (h + 1) as nat,
                ));
                if h + 1 < head_vocab@.len() {
                    assert(head_vocab@[h + 1] == nth_prime(start, (h + 2) as nat));
                }
            }
        }
        let eos: i32 = #[verifier::truncate]
        (cfg.eos_token_id as i32);
        Some(
            PleHash {
                ngram_size: cfg.ple_ngram_size,
                heads_per_ngram: cfg.ple_heads_per_ngram,
                multipliers: layer_multipliers(
                    cfg.vocab_size as u64,
                    cfg.ple_ngram_size,
                    0,
                    cfg.ple_seed,
                ),
                head_vocab,
                head_offset,
                total_rows,
                eos,
            },
        )
    }

    /// Heads of the table.
    pub fn ngram_heads(&self) -> (n: usize)
        ensures
            n == self.head_vocab@.len(),
    {
        self.head_vocab.len()
    }

    /// The table that the device reads: multipliers, then rows, then first rows.
    pub fn device_table(&self) -> (t: Vec<i64>)
        ensures
            t@ == self.multipliers@ + self.head_vocab@ + self.head_offset@,
    {
        let mut t: Vec<i64> = Vec::new();
        crate::seqs::extend_range(&mut t, self.multipliers.as_slice(), 0, self.multipliers.len());
        crate::seqs::extend_range(&mut t, self.head_vocab.as_slice(), 0, self.head_vocab.len());
        crate::seqs::extend_range(&mut t, self.head_offset.as_slice(), 0, self.head_offset.len());
        proof {
            let (a, b, c) = (self.multipliers@, self.head_vocab@, self.head_offset@);
            assert(a.subrange(0, a.len() as int) =~= a);
            assert(b.subrange(0, b.len() as int) =~= b);
            assert(c.subrange(0, c.len() as int) =~= c);
            assert(t@ =~= a + b + c);
        }
        t
    }

    /// An end token stands between the token and the one `p` back, or is that one.
    pub open spec fn cut_off(&self, ctx: Seq<i32>, p: int) -> bool {
        exists|q: int| 1 <= q <= p && #[trigger] ctx[ctx.len() - 1 - q] == self.eos
    }

    /// The token `p` back, as the hash sees it: an end token resets the context of all that follows.
    pub open spec fn back(&self, ctx: Seq<i32>, p: int) -> i64 {
        if p > 0 && self.cut_off(ctx, p) {
            self.eos as i64
        } else {
            ctx[ctx.len() - 1 - p] as i64
        }
    }

    /// The hash of the last `n` tokens.
    pub open spec fn mixed(&self, ctx: Seq<i32>, n: int) -> i64
        decreases n,
    {
        if n <= 1 {
            self.back(ctx, 0).wrapping_mul(self.multipliers@[0])
        } else {
            self.mixed(ctx, n - 1) ^ self.back(ctx, n - 1).wrapping_mul(self.multipliers@[n - 1])
        }
    }

    /// The row of head `h`: the head's n-gram hash, reduced to the head's rows.
    pub open spec fn row_of(&self, ctx: Seq<i32>, h: int) -> int {
        let n = h / self.heads_per_ngram as int + 2;
        self.mixed(ctx, n) as int % self.head_vocab@[h] as int + self.head_offset@[h]
    }

    /// Row ids of one token. `ctx` holds the token and what precedes it, oldest first.
    pub fn row_ids(&self, ctx: &[i32], out: &mut Vec<i64>)
        requires
            self.wf(),
            self.ngram_size <= MAX_NGRAM,
            ctx@.len() == self.ngram_size,
            old(out)@.len() == self.head_vocab@.len(),
        ensures
            final(out)@.len() == self.head_vocab@.len(),
            forall|h: int|
                0 <= h < self.head_vocab@.len() ==> #[trigger] final(out)@[h] == self.row_of(
                    ctx@,
                    h,
                ),
    {
        let n: usize = self.ngram_size;
        let hp: usize = self.heads_per_ngram;
        let heads: usize = self.head_vocab.len();
        let mut shifted: Vec<i64> = vec![ctx[n - 1] as i64];
        let mut blocked: bool = false;
        let mut p: usize = 1;
        while p < n
            invariant
                1 <= p <= n,
                n == self.ngram_size,
                n == ctx@.len(),
                shifted@.len() == p,
                blocked == self.cut_off(ctx@, p - 1),
                forall|q: int| 0 <= q < p ==> #[trigger] shifted@[q] == self.back(ctx@, q),
            decreases n - p,
        {
            let t: i32 = ctx[n - 1 - p];
            let ghost was = blocked;
            if t == self.eos {
                blocked = true;
            }
            proof {
                if was {
                    let q = choose|q: int|
                        1 <= q <= p - 1 && #[trigger] ctx@[ctx@.len() - 1 - q] == self.eos;
                    assert(1 <= q <= p && ctx@[ctx@.len() - 1 - q] == self.eos);
                }
                if t == self.eos {
                    assert(ctx@[ctx@.len() - 1 - p] == self.eos);
                }
                if self.cut_off(ctx@, p as int) {
                    let q = choose|q: int|
                        1 <= q <= p && #[trigger] ctx@[ctx@.len() - 1 - q] == self.eos;
                    if q < p {
                        assert(1 <= q <= p - 1 && ctx@[ctx@.len() - 1 - q] == self.eos);
                    }
                }
                assert(blocked == self.cut_off(ctx@, p as int));
            }
            if blocked {
                shifted.push(self.eos as i64);
            } else {
                shifted.push(t as i64);
            }
            p = p + 1;
        }
        let mut mixed: i64 = shifted[0].wrapping_mul(self.multipliers[0]);
        let mut ng: usize = 2;
        while ng <= n
            invariant
                2 <= ng <= n + 1,
                self.wf(),
                heads == self.head_vocab@.len(),
                n == self.ngram_size,
                n <= MAX_NGRAM,
                hp == self.heads_per_ngram,
                n == ctx@.len(),
                shifted@.len() == n,
                forall|q: int| 0 <= q < n ==> #[trigger] shifted@[q] == self.back(ctx@, q),
                mixed == self.mixed(ctx@, ng - 1),
                out@.len() == self.head_vocab@.len(),
                forall|h: int|
                    0 <= h < (ng - 2) * hp ==> #[trigger] out@[h] == self.row_of(ctx@, h),
            decreases n + 1 - ng,
        {
            mixed = mixed ^ shifted[ng - 1].wrapping_mul(self.multipliers[ng - 1]);
            proof {
                assert(shifted@[ng - 1] == self.back(ctx@, ng - 1));
                assert(mixed == self.mixed(ctx@, ng as int));
                assert((ng - 1) * hp == (ng - 2) * hp + hp) by (nonlinear_arith);
                assert((ng - 1) * hp <= (n - 1) * hp && 0 <= (ng - 2) * hp) by (nonlinear_arith)
                    requires
                        2 <= ng <= n,
                        hp >= 0,
                ;
            }
            let start: usize = (ng - 2) * hp;
            let mut j: usize = 0;
            while j < hp
                invariant
                    j <= hp,
                    2 <= ng <= n,
                    self.wf(),
                    heads == self.head_vocab@.len(),
                    n == self.ngram_size,
                    hp == self.heads_per_ngram,
                    start == (ng - 2) * hp,
                    start + hp <= heads,
                    mixed == self.mixed(ctx@, ng as int),
                    out@.len() == self.head_vocab@.len(),
                    forall|h: int| 0 <= h < start + j ==> #[trigger] out@[h] == self.row_of(ctx@, h),
                decreases hp - j,
            {
                let h: usize = start + j;
                proof {
                    assert(self.head_vocab@[h as int] >= 1);
                    let (a, b) = (h as int, hp as int);
                    let c = ng - 2;
                    assert(a / b == c) by (nonlinear_arith)
                        requires
                            a == c * b + j,
                            0 <= j < b,
                            c >= 0,
                    ;
                    let (x, m) = (mixed as int, self.head_vocab@[h as int] as int);
                    assert(0 <= x % m < m) by (nonlinear_arith)
                        requires
                            m >= 1,
                    ;
                }
                let v: i64 = self.head_vocab[h];
                let r: i64 = mixed.checked_rem_euclid(v).unwrap();
                let id: i64 = r + self.head_offset[h];
                out.set(h, id);
                j = j + 1;
            }
            ng = ng + 1;
            proof {
                assert(start + hp == (ng - 2) * hp);
            }
        }
        proof {
            assert(ng == n + 1 || n == 1);
            if n == 1 {
                assert((n - 1) * hp == 0) by (nonlinear_arith)
                    requires
                        n == 1,
                ;
            }
        }
    }

    /// A row id lies within its head, and the heads' rows do not overlap: heads never share a row.
    pub proof fn law_heads_do_not_share_rows(&self, a: Seq<i32>, b: Seq<i32>, g: int, h: int)
        requires
            self.wf(),
            0 <= g < h < self.head_vocab@.len(),
        ensures
            0 <= self.row_of(a, g) < self.row_of(b, h) < self.total_rows,
    {
        assert(self.head_vocab@[g] >= 1);
        assert(self.head_vocab@[h] >= 1);
        let n1 = g / self.heads_per_ngram as int + 2;
        let n2 = h / self.heads_per_ngram as int + 2;
        let (x, m) = (self.mixed(a, n1) as int, self.head_vocab@[g] as int);
        let (y, k) = (self.mixed(b, n2) as int, self.head_vocab@[h] as int);
        assert(0 <= x % m < m) by (nonlinear_arith)
            requires
                m >= 1,
        ;
        assert(0 <= y % k < k) by (nonlinear_arith)
            requires
                k >= 1,
        ;
        self.lemma_offsets_grow(g, h);
    }

    proof fn lemma_offsets_grow(&self, g: int, h: int)
        requires
            self.wf(),
            0 <= g < h < self.head_vocab@.len(),
        ensures
            self.head_offset@[g] + self.head_vocab@[g] <= self.head_offset@[h],
        decreases h - g,
    {
        assert(self.head_vocab@[g] >= 1);
        if g + 1 < h {
            assert(self.head_vocab@[g + 1] >= 1);
            self.lemma_offsets_grow(g + 1, h);
        }
    }

    /// An end token resets the context: two contexts that agree from the latest end token on, the token
    /// itself aside, have the same rows, whatever came before.
    pub proof fn law_end_token_resets_context(&self, a: Seq<i32>, b: Seq<i32>, e: int, h: int)
        requires
            self.wf(),
            a.len() == self.ngram_size,
            b.len() == self.ngram_size,
            1 <= e < self.ngram_size,
            a[a.len() - 1 - e] == self.eos,
            b[b.len() - 1 - e] == self.eos,
            forall|q: int|
                0 <= q < e ==> #[trigger] a[a.len() - 1 - q] == b[b.len() - 1 - q],
            0 <= h < self.head_vocab@.len(),
        ensures
            self.row_of(a, h) == self.row_of(b, h),
    {
        let n = h / self.heads_per_ngram as int + 2;
        self.lemma_same_mix(a, b, e, n);
    }

    proof fn lemma_same_mix(&self, a: Seq<i32>, b: Seq<i32>, e: int, n: int)
        requires
            self.wf(),
            a.len() == self.ngram_size,
            b.len() == self.ngram_size,
            1 <= e < self.ngram_size,
            a[a.len() - 1 - e] == self.eos,
            b[b.len() - 1 - e] == self.eos,
            forall|q: int|
                0 <= q < e ==> #[trigger] a[a.len() - 1 - q] == b[b.len() - 1 - q],
        ensures
            self.mixed(a, n) == self.mixed(b, n),
        decreases n,
    {
        let p = if n <= 1 {
            0
        } else {
            n - 1
        };
        if n > 1 {
            self.lemma_same_mix(a, b, e, n - 1);
        }
        if p >= e {
            assert(1 <= e <= p && a[a.len() - 1 - e] == self.eos);
            assert(1 <= e <= p && b[b.len() - 1 - e] == self.eos);
        } else {
            assert(a[a.len() - 1 - p] == b[b.len() - 1 - p]);
            if self.cut_off(a, p) {
                let q = choose|q: int| 1 <= q <= p && #[trigger] a[a.len() - 1 - q] == self.eos;
                assert(1 <= q <= p && b[b.len() - 1 - q] == self.eos);
            }
            if self.cut_off(b, p) {
                let q = choose|q: int| 1 <= q <= p && #[trigger] b[b.len() - 1 - q] == self.eos;
                assert(a[a.len() - 1 - q] == b[b.len() - 1 - q]);
                assert(1 <= q <= p && a[a.len() - 1 - q] == self.eos);
            }
        }
    }
}

proof fn lemma_rows_grow(base: u64, k: nat, n: nat)
    requires
        k <= n,
    ensures
        rows_before(base, k) <= rows_before(base, n),
    decreases n,
{
    if k < n {
        lemma_rows_grow(base, k, (n - 1) as nat);
    }
}

proof fn lemma_round_up(n: int, d: int)
    requires
        n >= 0,
        d >= 1,
    ensures
        (n + d - 1) / d == n / d + (if n % d == 0 {
            0int
        } else {
            1
        }),
{
    let (q, r) = (n / d, n % d);
    assert(n == q * d + r && 0 <= r < d) by (nonlinear_arith)
        requires
            q == n / d,
            r == n % d,
            d >= 1,
    ;
    if r == 0 {
        assert((n + d - 1) / d == q) by (nonlinear_arith)
            requires
                n == q * d,
                d >= 1,
        ;
    } else {
        assert((n + d - 1) / d == q + 1) by (nonlinear_arith)
            requires
                n == q * d + r,
                1 <= r < d,
        ;
    }
}

} // verus!
