//! Probes and benches: what they run, what they record, and how they judge it.
use vstd::prelude::*;

use crate::gpu::model::MAX_PEN_TOKENS;
use crate::gpu::mtp::{accept_prefix, is_accepted_len, CKPT_SLOT};
use crate::gpu::topo::MAX_VERIFY;
use crate::seqs::{fill, filled, min_int, slice_copy};
use crate::text::{append, begins_with, chars_of, decimal, has_prefix, string_of, texts, to_decimal, trim, trimmed};

verus! {

// ---- acceptance ----

/// One judged draft.
pub struct AcceptSample<F> {
    /// Position in the draft chain, from one.
    pub depth_idx: usize,
    /// The model's probability of its own token there, and its lead over the runner-up.
    pub target_top1_p: F,
    pub target_margin: F,
    pub accepted: bool,
    /// The model's token was among the draft head's best two, or three.
    pub covered_top2: bool,
    pub covered_top3: bool,
}

/// The first three of a ranked list, the first repeated where there are fewer.
pub fn top_three(ranked: &[u32]) -> (t: (u32, u32, u32))
    requires
        ranked@.len() >= 1,
    ensures
        t.0 == ranked@[0],
        t.1 == if ranked@.len() > 1 {
            ranked@[1]
        } else {
            ranked@[0]
        },
        t.2 == if ranked@.len() > 2 {
            ranked@[2]
        } else {
            ranked@[0]
        },
{
    let a: u32 = ranked[0];
    let b: u32 = if ranked.len() > 1 {
        ranked[1]
    } else {
        a
    };
    let c: u32 = if ranked.len() > 2 {
        ranked[2]
    } else {
        a
    };
    (a, b, c)
}

/// The sample at position `i` of a chain of which `nacc` drafts were accepted.
pub open spec fn sample_at<F>(
    preds: Seq<u32>,
    conf: Seq<(F, F)>,
    top3: Seq<(u32, u32, u32)>,
    nacc: int,
    i: int,
) -> AcceptSample<F> {
    let t = preds[i];
    AcceptSample {
        depth_idx: (i + 1) as usize,
        target_top1_p: conf[i].0,
        target_margin: conf[i].1,
        accepted: i < nacc,
        covered_top2: t == top3[i].0 || t == top3[i].1,
        covered_top3: t == top3[i].0 || t == top3[i].1 || t == top3[i].2,
    }
}

/// Judges a draft chain. Only positions on the correct prefix count, up to and including the first
/// rejection: past it the drafts follow a token that the model did not choose, and their failure says
/// nothing of the draft head. Returns the samples and the number of accepted drafts.
pub fn accept_samples<F: Copy>(
    drafts: &[u32],
    preds: &[u32],
    conf: &[(F, F)],
    top3: &[(u32, u32, u32)],
) -> (r: (Vec<AcceptSample<F>>, usize))
    requires
        preds@.len() >= drafts@.len(),
        conf@.len() >= drafts@.len(),
        top3@.len() >= drafts@.len(),
    ensures
        is_accepted_len(drafts@, preds@, r.1 as int),
        r.0@ == Seq::new(
            min_int(drafts@.len() as int, r.1 + 1) as nat,
            |i: int| sample_at(preds@, conf@, top3@, r.1 as int, i),
        ),
{
    let nacc: usize = accept_prefix(drafts, preds);
    let n: usize = if nacc < drafts.len() {
        nacc + 1
    } else {
        drafts.len()
    };
    let mut r: Vec<AcceptSample<F>> = Vec::new();
    let mut i: usize = 0;
    while i < n
        invariant
            i <= n <= drafts@.len(),
            preds@.len() >= drafts@.len(),
            conf@.len() >= drafts@.len(),
            top3@.len() >= drafts@.len(),
            r@ == Seq::new(
                i as nat,
                |i: int| sample_at(preds@, conf@, top3@, nacc as int, i),
            ),
        decreases n - i,
    {
        let t: u32 = preds[i];
        let (a, b, c) = top3[i];
        let covered_top2: bool = t == a || t == b;
        r.push(
            AcceptSample {
                depth_idx: i + 1,
                target_top1_p: conf[i].0,
                target_margin: conf[i].1,
                accepted: i < nacc,
                covered_top2,
                covered_top3: covered_top2 || t == c,
            },
        );
        i = i + 1;
        proof {
            assert(r@ =~= Seq::new(
                i as nat,
                |i: int| sample_at(preds@, conf@, top3@, nacc as int, i),
            ));
        }
    }
    (r, nacc)
}

/// A sample that was accepted was covered, where the first of the ranked list is the draft.
pub proof fn law_accepted_is_covered<F>(
    drafts: Seq<u32>,
    preds: Seq<u32>,
    conf: Seq<(F, F)>,
    top3: Seq<(u32, u32, u32)>,
    nacc: int,
    i: int,
)
    requires
        is_accepted_len(drafts, preds, nacc),
        0 <= i < drafts.len(),
        top3[i].0 == drafts[i],
        sample_at(preds, conf, top3, nacc, i).accepted,
    ensures
        sample_at(preds, conf, top3, nacc, i).covered_top2,
        sample_at(preds, conf, top3, nacc, i).covered_top3,
{
    assert(drafts[i] == preds[i]);
}

// ---- tallies of a sampling trial ----

/// Sum of a histogram.
pub open spec fn total(h: Seq<u64>) -> int
    decreases h.len(),
{
    if h.len() == 0 {
        0
    } else {
        total(h.drop_last()) + h.last()
    }
}

/// How often `t` occurs among `tokens`.
pub open spec fn occurrences(tokens: Seq<u32>, t: int) -> int
    decreases tokens.len(),
{
    if tokens.len() == 0 {
        0
    } else {
        occurrences(tokens.drop_last(), t) + (if tokens.last() == t {
            1int
        } else {
            0
        })
    }
}

/// A histogram over the vocabulary.
pub struct Tally {
    pub hist: Vec<u64>,
    pub n: u64,
}

impl Tally {
    /// Every draw is counted once.
    pub open spec fn wf(&self) -> bool {
        total(self.hist@) == self.n
    }

    /// An empty tally.
    pub fn new(vocab: usize) -> (t: Tally)
        ensures
            t.wf(),
            t.n == 0,
            t.hist@.len() == vocab,
            forall|i: int| 0 <= i < vocab ==> #[trigger] t.hist@[i] == 0,
    {
        let hist: Vec<u64> = crate::seqs::filled(vocab, 0u64);
        proof {
            lemma_total_zero(hist@);
        }
        Tally { hist, n: 0 }
    }

    /// Counts one draw.
    pub fn add(&mut self, token: u32)
        requires
            old(self).wf(),
            token < old(self).hist@.len(),
            old(self).n < u64::MAX,
        ensures
            final(self).wf(),
            final(self).n == old(self).n + 1,
            final(self).hist@ == old(self).hist@.update(
                token as int,
                (old(self).hist@[token as int] + 1) as u64,
            ),
    {
        let i: usize = token as usize;
        proof {
            lemma_total_at(self.hist@, i as int);
            lemma_total_update(self.hist@, i as int);
        }
        let c: u64 = self.hist[i] + 1;
        self.hist.set(i, c);
        self.n = self.n + 1;
    }
}

proof fn lemma_total_zero(h: Seq<u64>)
    requires
        forall|i: int| 0 <= i < h.len() ==> #[trigger] h[i] == 0,
    ensures
        total(h) == 0,
    decreases h.len(),
{
    if h.len() > 0 {
        lemma_total_zero(h.drop_last());
    }
}

proof fn lemma_total_at(h: Seq<u64>, i: int)
    requires
        0 <= i < h.len(),
    ensures
        h[i] <= total(h),
        0 <= total(h),
    decreases h.len(),
{
    reveal_with_fuel(total, 2);
    let d = h.drop_last();
    if i < d.len() {
        lemma_total_at(d, i);
        assert(d[i] == h[i]);
    } else if d.len() > 0 {
        lemma_total_at(d, 0);
    }
}

proof fn lemma_total_update(h: Seq<u64>, i: int)
    requires
        0 <= i < h.len(),
        h[i] < u64::MAX,
    ensures
        total(h.update(i, (h[i] + 1) as u64)) == total(h) + 1,
    decreases h.len(),
{
    let u = h.update(i, (h[i] + 1) as u64);
    let d = h.drop_last();
    if i < d.len() {
        lemma_total_update(d, i);
        assert(u.drop_last() =~= d.update(i, (d[i] + 1) as u64));
    } else {
        assert(u.drop_last() =~= d);
    }
}

/// Columns of one launch of a sampling trial. The last column of a verify carries the bonus.
pub const TRIAL_COLUMNS: usize = 32;

/// What a sampling trial has drawn: with the plain sampler, by judging a draft, and as the bonus.
pub struct SampleTrial {
    pub x_draft: u32,
    pub trials: usize,
    pub done: usize,
    pub launches: usize,
    pub accepted: u64,
    pub sampler: Tally,
    pub mtp: Tally,
    pub bonus: Tally,
}

/// What judging a draft emits: the draft where it was accepted, else its replacement.
pub open spec fn judged(x_draft: u32, accept: Seq<bool>, resid: Seq<u32>, n: int) -> Seq<u32> {
    Seq::new(
        n as nat,
        |c: int|
            if accept[c] {
                x_draft
            } else {
                resid[c]
            },
    )
}

/// Accepted drafts among the first `n`.
pub open spec fn accepted_upto(accept: Seq<bool>, n: int) -> int
    decreases n,
{
    if n <= 0 {
        0
    } else {
        accepted_upto(accept, n - 1) + (if accept[n - 1] {
            1int
        } else {
            0
        })
    }
}

/// `b` counts `tokens` on top of `a`.
pub open spec fn counts_on(a: Tally, tokens: Seq<u32>, b: Tally) -> bool {
    &&& b.n == a.n + tokens.len()
    &&& b.hist@.len() == a.hist@.len()
    &&& forall|t: int|
        0 <= t < a.hist@.len() ==> #[trigger] b.hist@[t] == a.hist@[t] + occurrences(tokens, t)
}

fn count_all(t: &mut Tally, tokens: &[u32])
    requires
        old(t).wf(),
        old(t).n + tokens@.len() <= u64::MAX,
        forall|i: int| 0 <= i < tokens@.len() ==> #[trigger] tokens@[i] < old(t).hist@.len(),
    ensures
        final(t).wf(),
        counts_on(*old(t), tokens@, *final(t)),
{
    let ghost was = *t;
    let mut i: usize = 0;
    while i < tokens.len()
        invariant
            i <= tokens@.len(),
            t.wf(),
            was.n + tokens@.len() <= u64::MAX,
            forall|i: int| 0 <= i < tokens@.len() ==> #[trigger] tokens@[i] < was.hist@.len(),
            counts_on(was, tokens@.take(i as int), *t),
        decreases tokens@.len() - i,
    {
        proof {
            assert(tokens@[i as int] < was.hist@.len());
        }
        let ghost before = t.hist@;
        t.add(tokens[i]);
        i = i + 1;
        proof {
            let s = tokens@.take(i as int);
            assert(s.drop_last() =~= tokens@.take(i - 1));
            assert forall|k: int| 0 <= k < was.hist@.len() implies #[trigger] t.hist@[k]
                == was.hist@[k] + occurrences(s, k) by {
                assert(before[k] == was.hist@[k] + occurrences(tokens@.take(i - 1), k));
                if k == tokens@[i - 1] {
                    lemma_total_at(before, k);
                }
            }
        }
    }
    proof {
        assert(tokens@.take(tokens@.len() as int) =~= tokens@);
    }
}

impl SampleTrial {
    /// The tallies agree with the counters.
    pub open spec fn wf(&self) -> bool {
        &&& self.sampler.wf() && self.mtp.wf() && self.bonus.wf()
        &&& self.mtp.n == self.done
        &&& self.done <= self.trials
        &&& self.launches <= self.done
        &&& self.accepted <= self.done
        &&& self.bonus.n == self.launches
        &&& self.sampler.n == self.launches * 32
        &&& self.mtp.hist@.len() == self.sampler.hist@.len()
        &&& self.bonus.hist@.len() == self.sampler.hist@.len()
        &&& self.x_draft < self.mtp.hist@.len()
    }

    /// A trial of `trials` judgements of one draft.
    pub fn new(x_draft: u32, vocab: usize, trials: usize) -> (r: SampleTrial)
        requires
            x_draft < vocab,
        ensures
            r.wf(),
            r.x_draft == x_draft,
            r.trials == trials,
            r.done == 0,
            r.launches == 0,
            r.accepted == 0,
            r.sampler.hist@.len() == vocab,
    {
        SampleTrial {
            x_draft,
            trials,
            done: 0,
            launches: 0,
            accepted: 0,
            sampler: Tally::new(vocab),
            mtp: Tally::new(vocab),
            bonus: Tally::new(vocab),
        }
    }

    /// Another launch is due.
    pub fn wants_launch(&self) -> (b: bool)
        ensures
            b == (self.done < self.trials),
    {
        self.done < self.trials
    }

    /// Number of column `c` of the next launch, over all launches: what its random numbers are keyed by.
    pub fn column_key(&self, c: usize) -> (k: u64)
        requires
            c < TRIAL_COLUMNS,
            self.launches * 32 + 31 <= u64::MAX,
        ensures
            k == self.launches * 32 + c,
    {
        self.launches as u64 * TRIAL_COLUMNS as u64 + c as u64
    }

    /// Records a launch: a draw of the plain sampler per column, then the judgement of the draft in every
    /// column but the last, as far as trials are left, and the bonus in the last.
    pub fn record(&mut self, sampler: &[u32], accept: &[bool], resid: &[u32])
        requires
            old(self).wf(),
            old(self).done < old(self).trials,
            (old(self).launches + 1) * 32 <= u64::MAX,
            sampler@.len() == 32,
            accept@.len() >= 31,
            resid@.len() == 32,
            forall|i: int|
                0 <= i < 32 ==> #[trigger] sampler@[i] < old(self).sampler.hist@.len(),
            forall|i: int| 0 <= i < 32 ==> #[trigger] resid@[i] < old(self).sampler.hist@.len(),
        ensures
            ({
                let m = min_int(31, old(self).trials - old(self).done);
                &&& final(self).wf()
                &&& final(self).x_draft == old(self).x_draft
                &&& final(self).trials == old(self).trials
                &&& final(self).done == old(self).done + m
                &&& final(self).launches == old(self).launches + 1
                &&& final(self).accepted == old(self).accepted + accepted_upto(accept@, m)
                &&& counts_on(old(self).sampler, sampler@, final(self).sampler)
                &&& counts_on(
                    old(self).mtp,
                    judged(old(self).x_draft, accept@, resid@, m),
                    final(self).mtp,
                )
                &&& counts_on(old(self).bonus, seq![resid@[31]], final(self).bonus)
            }),
    {
        count_all(&mut self.sampler, sampler);
        let left: usize = self.trials - self.done;
        let m: usize = if left < TRIAL_COLUMNS - 1 {
            left
        } else {
            TRIAL_COLUMNS - 1
        };
        let mut emitted: Vec<u32> = Vec::new();
        let mut yes: u64 = 0;
        let mut c: usize = 0;
        while c < m
            invariant
                c <= m <= 31,
                accept@.len() >= 31,
                resid@.len() == 32,
                self.x_draft == old(self).x_draft,
                emitted@ == judged(self.x_draft, accept@, resid@, c as int),
                yes == accepted_upto(accept@, c as int),
                yes <= c,
            decreases m - c,
        {
            if accept[c] {
                yes = yes + 1;
                emitted.push(self.x_draft);
            } else {
                emitted.push(resid[c]);
            }
            c = c + 1;
            proof {
                assert(emitted@ =~= judged(self.x_draft, accept@, resid@, c as int));
            }
        }
        proof {
            assert forall|i: int| 0 <= i < emitted@.len() implies #[trigger] emitted@[i]
                < self.mtp.hist@.len() by {
                assert(resid@[i] < self.sampler.hist@.len());
            }
        }
        count_all(&mut self.mtp, emitted.as_slice());
        let ghost b0 = self.bonus;
        proof {
            assert(resid@[31] < self.bonus.hist@.len());
        }
        self.bonus.add(resid[TRIAL_COLUMNS - 1]);
        self.accepted = self.accepted + yes;
        self.done = self.done + m;
        self.launches = self.launches + 1;
        proof {
            let one = seq![resid@[31]];
            assert(one.drop_last() =~= Seq::<u32>::empty());
            assert(one.last() == resid@[31]);
            reveal_with_fuel(occurrences, 2);
            assert forall|t: int| 0 <= t < b0.hist@.len() implies #[trigger] self.bonus.hist@[t]
                == b0.hist@[t] + occurrences(one, t) by {
                lemma_total_at(b0.hist@, t);
            }
        }
    }
}

// ---- latency ----

/// Tokens whose latency is set aside: they carry one-time costs.
pub const LATENCY_WARMUP: usize = 16;

/// `s` ascends.
pub open spec fn ascends(s: Seq<u64>) -> bool {
    forall|i: int, j: int| 0 <= i < j < s.len() ==> s[i] <= s[j]
}

/// Sorts a list of times.
pub fn sorted(v: &[u64]) -> (r: Vec<u64>)
    ensures
        ascends(r@),
        r@.to_multiset() == v@.to_multiset(),
        r@.len() == v@.len(),
{
    let mut r: Vec<u64> = Vec::new();
    proof {
        assert(r@ =~= v@.take(0));
    }
    let mut i: usize = 0;
    while i < v.len()
        invariant
            i <= v@.len(),
            ascends(r@),
            r@.to_multiset() == v@.take(i as int).to_multiset(),
            r@.len() == i,
        decreases v@.len() - i,
    {
        let x: u64 = v[i];
        let mut j: usize = r.len();
        while j > 0 && r[j - 1] > x
            invariant
                j <= r@.len(),
                forall|k: int| j <= k < r@.len() ==> #[trigger] r@[k] > x,
            decreases j,
        {
            j = j - 1;
        }
        let ghost old_r = r@;
        r.insert(j, x);
        proof {
            broadcast use vstd::seq_lib::group_to_multiset_ensures;
            assert(v@.take(i + 1) =~= v@.take(i as int).push(x));
            assert(old_r.insert(j as int, x).to_multiset() == old_r.to_multiset().insert(x)) by {
                vstd::seq_lib::to_multiset_insert(old_r, j as int, x);
            }
            assert forall|a: int, b: int| 0 <= a < b < r@.len() implies r@[a] <= r@[b] by {
                let pa = if a < j {
                    a
                } else {
                    a - 1
                };
                let pb = if b < j {
                    b
                } else {
                    b - 1
                };
                if a != j && b != j {
                    assert(old_r[pa] <= old_r[pb]);
                } else if a == j {
                    assert(old_r[pb] > x);
                } else if j > 0 {
                    assert(old_r[j - 1] <= x);
                    if a < j - 1 {
                        assert(old_r[a] <= old_r[j - 1]);
                    }
                }
            }
        }
        i = i + 1;
    }
    proof {
        assert(v@.take(v@.len() as int) =~= v@);
    }
    r
}

/// Token times split for a report: the warm-up as it was, the rest sorted. Too short a run gives none.
pub fn split_latency(times: &[u64]) -> (r: Option<(Vec<u64>, Vec<u64>)>)
    ensures
        match r {
            None => times@.len() <= 20,
            Some((warm, steady)) => {
                &&& times@.len() > 20
                &&& warm@ == times@.subrange(0, 16)
                &&& ascends(steady@)
                &&& steady@.to_multiset() == times@.subrange(16, times@.len() as int).to_multiset()
                &&& steady@.len() == times@.len() - 16
            },
        },
{
    if times.len() <= LATENCY_WARMUP + 4 {
        return None;
    }
    let warm: Vec<u64> = slice_copy(times, 0, LATENCY_WARMUP);
    let rest: Vec<u64> = slice_copy(times, LATENCY_WARMUP, times.len());
    Some((warm, sorted(rest.as_slice())))
}

/// The upper median of a list of times.
pub fn median(v: &[u64]) -> (m: u64)
    requires
        v@.len() >= 1,
    ensures
        exists|s: Seq<u64>| #[trigger]
            ascends(s) && s.to_multiset() == v@.to_multiset() && s.len() == v@.len() && m
                == s[v@.len() as int / 2],
{
    let s: Vec<u64> = sorted(v);
    let m: u64 = s[s.len() / 2];
    proof {
        assert(ascends(s@));
    }
    m
}

// ---- comparing a verify with decodes ----

/// Column `i` of a verify must predict the token that decoding gave after it.
pub fn verify_matches(preds: &[u32], decoded: &[u32], depth: usize) -> (r: Vec<bool>)
    requires
        depth <= preds@.len(),
        depth < decoded@.len(),
    ensures
        r@ == Seq::new(depth as nat, |i: int| preds@[i] == decoded@[i + 1]),
{
    let mut r: Vec<bool> = Vec::new();
    let mut i: usize = 0;
    while i < depth
        invariant
            i <= depth,
            depth <= preds@.len(),
            depth < decoded@.len(),
            r@ == Seq::new(i as nat, |i: int| preds@[i] == decoded@[i + 1]),
        decreases depth - i,
    {
        r.push(preds[i] == decoded[i + 1]);
        i = i + 1;
        proof {
            assert(r@ =~= Seq::new(i as nat, |i: int| preds@[i] == decoded@[i + 1]));
        }
    }
    r
}

/// A plain greedy decode that a probe compares with.
pub struct DecodeRun {
    /// The tokens so far; the last one is decoded next.
    pub tokens: Vec<u32>,
    /// Its position.
    pub pos: usize,
}

impl DecodeRun {
    /// Starts with the token that a prefill of `pos` tokens predicted.
    pub fn start(first: u32, pos: usize) -> (r: DecodeRun)
        ensures
            r.tokens@ == seq![first],
            r.pos == pos,
    {
        let tokens: Vec<u32> = vec![first];
        proof {
            assert(tokens@ =~= seq![first]);
        }
        DecodeRun { tokens, pos }
    }

    /// The next decode: token, position, and keys that it sees.
    pub fn next(&self) -> (r: (u32, usize, usize))
        requires
            self.tokens@.len() >= 1,
            self.pos < usize::MAX,
        ensures
            r == (self.tokens@.last(), self.pos, (self.pos + 1) as usize),
    {
        (self.tokens[self.tokens.len() - 1], self.pos, self.pos + 1)
    }

    /// Takes the token that the decode gave.
    pub fn push(&mut self, token: u32)
        requires
            old(self).pos < usize::MAX,
        ensures
            final(self).tokens@ == old(self).tokens@.push(token),
            final(self).pos == old(self).pos + 1,
    {
        self.tokens.push(token);
        self.pos = self.pos + 1;
    }

    /// The first `depth` tokens: what a verify is given.
    pub fn verify_input(&self, depth: usize) -> (r: Vec<u32>)
        requires
            depth <= self.tokens@.len(),
        ensures
            r@ == self.tokens@.take(depth as int),
    {
        crate::seqs::prefix(self.tokens.as_slice(), depth)
    }
}

/// What a state probe does or compares.
#[allow(inconsistent_fields)]
#[derive(Clone, Copy, Debug, PartialEq, Eq, Structural)]
pub enum ProbeStep {
    Clear { slot: usize },
    Prefill { slot: usize },
    /// One decode of `token` at `pos` in `slot`.
    Decode { slot: usize, token: u32, pos: usize },
    /// A verify of `token` twice at `pos`, with snapshots from slot `ckpt` on.
    VerifyTwice { slot: usize, token: u32, pos: usize, ckpt: usize },
    /// Copy the recurrent state between slots.
    Restore { from: usize, to: usize },
    /// The recurrent state of two slots must be the same.
    SameState { a: usize, b: usize },
    /// The KV entries of two slots at positions `0 ..= last` must be the same.
    SameKv { a: usize, b: usize, last: usize },
}

/// Both slots start from the same prompt.
pub open spec fn probe_setup() -> Seq<ProbeStep> {
    seq![
        ProbeStep::Clear { slot: 0 },
        ProbeStep::Prefill { slot: 0 },
        ProbeStep::Clear { slot: 1 },
        ProbeStep::Prefill { slot: 1 },
    ]
}

/// A rejected draft must leave no trace. Slot 1 decodes the committed token once: the reference. Slot 0
/// verifies it with a draft that is rejected, and snapshots into slot 2. The snapshot must be the
/// reference; rolling back must give the snapshot, hence the reference; and the committed KV must agree.
pub open spec fn reject_steps(plen: usize, committed: u32) -> Seq<ProbeStep> {
    seq![
        ProbeStep::Decode { slot: 1, token: committed, pos: plen },
        ProbeStep::VerifyTwice { slot: 0, token: committed, pos: plen, ckpt: 2 },
        ProbeStep::SameState { a: 2, b: 1 },
        ProbeStep::Restore { from: 2, to: 0 },
        ProbeStep::SameState { a: 0, b: 2 },
        ProbeStep::SameState { a: 0, b: 1 },
        ProbeStep::SameKv { a: 0, b: 1, last: plen },
    ]
}

/// The same once more from the rolled-back state, with the token that the verify predicted.
pub open spec fn reject_again_steps(plen: usize, bonus: u32) -> Seq<ProbeStep> {
    let pos = (plen + 1) as usize;
    seq![
        ProbeStep::Decode { slot: 1, token: bonus, pos },
        ProbeStep::VerifyTwice { slot: 0, token: bonus, pos, ckpt: 2 },
        ProbeStep::Restore { from: 2, to: 0 },
        ProbeStep::SameState { a: 0, b: 1 },
        ProbeStep::SameKv { a: 0, b: 1, last: pos },
    ]
}

/// The set-up of a state probe.
pub fn setup_probe() -> (r: Vec<ProbeStep>)
    ensures
        r@ == probe_setup(),
{
    let r: Vec<ProbeStep> = vec![
        ProbeStep::Clear { slot: 0 },
        ProbeStep::Prefill { slot: 0 },
        ProbeStep::Clear { slot: 1 },
        ProbeStep::Prefill { slot: 1 },
    ];
    proof {
        assert(r@ =~= probe_setup());
    }
    r
}

/// The reject probe after its set-up; `committed` is what both prefills predicted.
pub fn probe_reject_path(plen: usize, committed: u32) -> (r: Vec<ProbeStep>)
    ensures
        r@ == reject_steps(plen, committed),
{
    let r: Vec<ProbeStep> = vec![
        ProbeStep::Decode { slot: 1, token: committed, pos: plen },
        ProbeStep::VerifyTwice { slot: 0, token: committed, pos: plen, ckpt: 2 },
        ProbeStep::SameState { a: 2, b: 1 },
        ProbeStep::Restore { from: 2, to: 0 },
        ProbeStep::SameState { a: 0, b: 2 },
        ProbeStep::SameState { a: 0, b: 1 },
        ProbeStep::SameKv { a: 0, b: 1, last: plen },
    ];
    proof {
        assert(r@ =~= reject_steps(plen, committed));
    }
    r
}

/// The second round of the reject probe.
pub fn probe_reject_again(plen: usize, bonus: u32) -> (r: Vec<ProbeStep>)
    requires
        plen < usize::MAX,
    ensures
        r@ == reject_again_steps(plen, bonus),
{
    let pos: usize = plen + 1;
    let r: Vec<ProbeStep> = vec![
        ProbeStep::Decode { slot: 1, token: bonus, pos },
        ProbeStep::VerifyTwice { slot: 0, token: bonus, pos, ckpt: 2 },
        ProbeStep::Restore { from: 2, to: 0 },
        ProbeStep::SameState { a: 0, b: 1 },
        ProbeStep::SameKv { a: 0, b: 1, last: pos },
    ];
    proof {
        assert(r@ =~= reject_again_steps(plen, bonus));
    }
    r
}

/// The entries of a KV cache that hold positions `0 ..= last` of lane `slot`: one run per head.
pub open spec fn kv_run(nkv: int, stride: int, hd: int, slot: int, last: int, head: int) -> (int, int) {
    let base = (slot * nkv + head) * stride * hd;
    (base, base + (last + 1) * hd)
}

/// The entries of a KV cache that hold positions `0 ..= last` of lane `slot`: one run per head.
pub fn kv_runs(nkv: usize, stride: usize, hd: usize, slot: usize, last: usize) -> (r: Vec<(usize, usize)>)
    requires
        last < stride,
        slot < usize::MAX,
        hd >= 1,
        (slot + 1) * nkv <= usize::MAX,
        (slot + 1) * nkv * stride <= usize::MAX,
        (slot + 1) * nkv * stride * hd <= usize::MAX,
    ensures
        r@.len() == nkv,
        forall|h: int|
            0 <= h < nkv ==> {
                let k = kv_run(
                    nkv as int,
                    stride as int,
                    hd as int,
                    slot as int,
                    last as int,
                    h,
                );
                (#[trigger] r@[h]).0 == k.0 && r@[h].1 == k.1
            },
{
    let mut r: Vec<(usize, usize)> = Vec::new();
    let mut h: usize = 0;
    while h < nkv
        invariant
            h <= nkv,
            last < stride,
            hd >= 1,
            slot < usize::MAX,
            (slot + 1) * nkv <= usize::MAX,
            (slot + 1) * nkv * stride <= usize::MAX,
            (slot + 1) * nkv * stride * hd <= usize::MAX,
            r@.len() == h,
            forall|k: int|
                0 <= k < h ==> {
                    let v = kv_run(
                        nkv as int,
                        stride as int,
                        hd as int,
                        slot as int,
                        last as int,
                        k,
                    );
                    (#[trigger] r@[k]).0 == v.0 && r@[k].1 == v.1
                },
        decreases nkv - h,
    {
        proof {
            let (s, n, st, d, l, hh) = (
                slot as int,
                nkv as int,
                stride as int,
                hd as int,
                last as int,
                h as int,
            );
            assert((s + 1) * n == s * n + n) by (nonlinear_arith);
            assert(0 <= s * n) by (nonlinear_arith)
                requires
                    s >= 0,
                    n >= 0,
            ;
            let q = s * n + hh;
            assert(q + 1 <= (s + 1) * n);
            assert(q * st + st <= (s + 1) * n * st && 0 <= q * st) by (nonlinear_arith)
                requires
                    0 <= q,
                    q + 1 <= (s + 1) * n,
                    st >= 0,
            ;
            assert(q * st * d + st * d <= (s + 1) * n * st * d && 0 <= q * st * d)
                by (nonlinear_arith)
                requires
                    q * st + st <= (s + 1) * n * st,
                    0 <= q * st,
                    d >= 1,
            ;
            assert((l + 1) * d <= st * d && 0 <= (l + 1) * d) by (nonlinear_arith)
                requires
                    0 <= l + 1 <= st,
                    d >= 1,
            ;
        }
        let base: usize = (slot * nkv + h) * stride * hd;
        r.push((base, base + (last + 1) * hd));
        h = h + 1;
    }
    r
}

// ---- the step profile ----

/// Draft depths that the depth policy chooses between.
pub open spec fn depths() -> Seq<usize> {
    seq![2usize, 3, 4, 5, 6, 8]
}

/// Draft depths that the depth policy chooses between.
pub fn auto_depths() -> (r: Vec<usize>)
    ensures
        r@ == depths(),
{
    let r: Vec<usize> = vec![2, 3, 4, 5, 6, 8];
    proof {
        assert(r@ =~= depths());
    }
    r
}

/// One thing that the step profile times.
#[allow(inconsistent_fields)]
#[derive(Clone, Copy, Debug, PartialEq, Eq, Structural)]
pub enum ProfileCase {
    /// A plain decode step: what a token costs without drafting.
    Decode,
    DraftStep,
    DraftArgmax,
    PenaltyUpload,
    /// Trunk and logits of a verify of `n` columns, with or without snapshots.
    VerifyCore { n: usize, ckpt: bool },
    VerifyBackbone,
    VerifyGreedy,
    /// A whole sampling verify at draft depth `n`.
    VerifySample { n: usize },
    Rollback,
    Reprime,
}

impl ProfileCase {
    /// The row's label.
    pub open spec fn spec_label(&self) -> Seq<char> {
        match *self {
            ProfileCase::Decode => "decode step (batch=1, baseline)"@,
            ProfileCase::DraftStep => "  mtp_draft_step (MTP layer fwd)"@,
            ProfileCase::DraftArgmax => "  argmax_hidden (LM head + dtoh)"@,
            ProfileCase::PenaltyUpload => "  penalty upload (5 htod + sync)"@,
            ProfileCase::VerifyCore { n, ckpt } => "verify_core N="@ + decimal(n as nat) + if ckpt {
                ", +ckpt"@
            } else {
                ", no ckpt"@
            },
            ProfileCase::VerifyBackbone => "verify_forward_core (backbone+logits, N=2)"@,
            ProfileCase::VerifyGreedy => "verify_forward (greedy: +argmax+dtoh)"@,
            ProfileCase::VerifySample { n } => "verify_forward_sample N="@ + decimal(n as nat),
            ProfileCase::Rollback => "  copy_gdn_slot (GDN rollback)"@,
            ProfileCase::Reprime => "  mtp_reprime (batched, N=depth)"@,
        }
    }

    /// The row's label.
    pub fn label(&self) -> (s: String)
        ensures
            s@ == self.spec_label(),
    {
        match *self {
            ProfileCase::Decode => "decode step (batch=1, baseline)".to_owned(),
            ProfileCase::DraftStep => "  mtp_draft_step (MTP layer fwd)".to_owned(),
            ProfileCase::DraftArgmax => "  argmax_hidden (LM head + dtoh)".to_owned(),
            ProfileCase::PenaltyUpload => "  penalty upload (5 htod + sync)".to_owned(),
            ProfileCase::VerifyCore { n, ckpt } => {
                let mut s: String = "verify_core N=".to_owned();
                let d: Vec<char> = to_decimal(n as u64);
                append(&mut s, string_of(d.as_slice()).as_str());
                if ckpt {
                    append(&mut s, ", +ckpt");
                } else {
                    append(&mut s, ", no ckpt");
                }
                s
            },
            ProfileCase::VerifyBackbone => "verify_forward_core (backbone+logits, N=2)".to_owned(),
            ProfileCase::VerifyGreedy => "verify_forward (greedy: +argmax+dtoh)".to_owned(),
            ProfileCase::VerifySample { n } => sample_label(n),
            ProfileCase::Rollback => "  copy_gdn_slot (GDN rollback)".to_owned(),
            ProfileCase::Reprime => "  mtp_reprime (batched, N=depth)".to_owned(),
        }
    }
}

/// What a case launches.
#[allow(inconsistent_fields)]
pub enum ProfileLaunch {
    /// One decode step of `token` at `pos`, over a context of `context` positions.
    Decode { token: u32, pos: usize, context: usize },
    /// One step of the draft head.
    Draft { token: u32, pos: usize },
    /// The head's best token.
    Argmax,
    /// The penalty tables of `columns` columns, with `entries` tokens in all.
    Penalties { columns: usize, entries: usize },
    /// The trunk and the logits of a verify, or its best tokens too.
    Verify { tokens: Vec<u32>, pos: usize, ckpt: Option<usize>, greedy: bool },
    /// A sampling verify, whose columns after the first are the drafts.
    Sample { tokens: Vec<u32>, pos: usize, ckpt: Option<usize>, drafts: Vec<u32>, seeds: Vec<u32> },
    /// The recurrent state of a slot, copied over another's.
    CopyState { from: usize, to: usize },
    /// The draft head over the accepted tokens.
    Reprime { tokens: Vec<u32>, pos: usize },
}

/// Columns of a case that does not name its own.
pub const PROFILE_COLUMNS: usize = 2;

impl ProfileCase {
    /// `l` is what the case launches behind a prompt of `plen` tokens that predicted `first`.
    pub open spec fn launches(&self, first: u32, plen: int, l: ProfileLaunch) -> bool {
        let snapshots = Some(CKPT_SLOT);
        match (*self, l) {
            (ProfileCase::Decode, ProfileLaunch::Decode { token, pos, context }) => token == first && pos
                == plen && context == plen + 1,
            (ProfileCase::DraftStep, ProfileLaunch::Draft { token, pos }) => token == first && pos
                == plen - 1,
            (ProfileCase::DraftArgmax, ProfileLaunch::Argmax) => true,
            (ProfileCase::PenaltyUpload, ProfileLaunch::Penalties { columns, entries }) => columns
                == PROFILE_COLUMNS && entries == PROFILE_COLUMNS * MAX_PEN_TOKENS,
            (
                ProfileCase::VerifyCore { n, ckpt },
                ProfileLaunch::Verify { tokens, pos, ckpt: slot, greedy },
            ) => tokens@ == fill(n as nat, first) && pos == plen && slot == (if ckpt {
                snapshots
            } else {
                None
            }) && !greedy,
            (ProfileCase::VerifyBackbone, ProfileLaunch::Verify { tokens, pos, ckpt, greedy }) => tokens@
                == fill(PROFILE_COLUMNS as nat, first) && pos == plen && ckpt == snapshots && !greedy,
            (ProfileCase::VerifyGreedy, ProfileLaunch::Verify { tokens, pos, ckpt, greedy }) => tokens@
                == fill(PROFILE_COLUMNS as nat, first) && pos == plen && ckpt == snapshots && greedy,
            (
                ProfileCase::VerifySample { n },
                ProfileLaunch::Sample { tokens, pos, ckpt, drafts, seeds },
            ) => tokens@ == fill(n as nat, first) && pos == plen && ckpt == snapshots && drafts@ == fill(
                (n - 1) as nat,
                first,
            ) && seeds@ == Seq::new(n as nat, |i: int| i as u32),
            (ProfileCase::Rollback, ProfileLaunch::CopyState { from, to }) => from == CKPT_SLOT && to == 0,
            (ProfileCase::Reprime, ProfileLaunch::Reprime { tokens, pos }) => tokens@ == fill(
                PROFILE_COLUMNS as nat,
                first,
            ) && pos == plen - 1,
            _ => false,
        }
    }

    /// What the case launches behind a prompt of `plen` tokens that predicted `first`.
    pub fn launch(&self, first: u32, plen: usize) -> (l: ProfileLaunch)
        requires
            1 <= plen < usize::MAX,
            *self matches ProfileCase::VerifySample { n } ==> 1 <= n <= u32::MAX,
        ensures
            self.launches(first, plen as int, l),
    {
        match *self {
            ProfileCase::Decode => ProfileLaunch::Decode { token: first, pos: plen, context: plen + 1 },
            ProfileCase::DraftStep => ProfileLaunch::Draft { token: first, pos: plen - 1 },
            ProfileCase::DraftArgmax => ProfileLaunch::Argmax,
            ProfileCase::PenaltyUpload => ProfileLaunch::Penalties {
                columns: PROFILE_COLUMNS,
                entries: PROFILE_COLUMNS * MAX_PEN_TOKENS,
            },
            ProfileCase::VerifyCore { n, ckpt } => ProfileLaunch::Verify {
                tokens: filled(n, first),
                pos: plen,
                ckpt: if ckpt {
                    Some(CKPT_SLOT)
                } else {
                    None
                },
                greedy: false,
            },
            ProfileCase::VerifyBackbone => ProfileLaunch::Verify {
                tokens: filled(PROFILE_COLUMNS, first),
                pos: plen,
                ckpt: Some(CKPT_SLOT),
                greedy: false,
            },
            ProfileCase::VerifyGreedy => ProfileLaunch::Verify {
                tokens: filled(PROFILE_COLUMNS, first),
                pos: plen,
                ckpt: Some(CKPT_SLOT),
                greedy: true,
            },
            ProfileCase::VerifySample { n } => {
                let mut seeds: Vec<u32> = Vec::new();
                let mut i: usize = 0;
                while i < n
                    invariant
                        i <= n <= u32::MAX,
                        seeds@ == Seq::new(i as nat, |i: int| i as u32),
                    decreases n - i,
                {
                    seeds.push(i as u32);
                    i = i + 1;
                    proof {
                        assert(seeds@ =~= Seq::new(i as nat, |i: int| i as u32));
                    }
                }
                ProfileLaunch::Sample {
                    tokens: filled(n, first),
                    pos: plen,
                    ckpt: Some(CKPT_SLOT),
                    drafts: filled(n - 1, first),
                    seeds,
                }
            },
            ProfileCase::Rollback => ProfileLaunch::CopyState { from: CKPT_SLOT, to: 0 },
            ProfileCase::Reprime => ProfileLaunch::Reprime {
                tokens: filled(PROFILE_COLUMNS, first),
                pos: plen - 1,
            },
        }
    }
}

fn sample_label(n: usize) -> (s: String)
    ensures
        s@ == "verify_forward_sample N="@ + decimal(n as nat),
{
    let mut s: String = "verify_forward_sample N=".to_owned();
    let d: Vec<char> = to_decimal(n as u64);
    append(&mut s, string_of(d.as_slice()).as_str());
    s
}

/// What the step profile times, in order.
pub open spec fn profile_table() -> Seq<ProfileCase> {
    seq![
        ProfileCase::Decode,
        ProfileCase::DraftStep,
        ProfileCase::DraftArgmax,
        ProfileCase::PenaltyUpload,
        ProfileCase::VerifyCore { n: 1, ckpt: false },
        ProfileCase::VerifyCore { n: 1, ckpt: true },
        ProfileCase::VerifyCore { n: 2, ckpt: false },
        ProfileCase::VerifyCore { n: 2, ckpt: true },
        ProfileCase::VerifyCore { n: 4, ckpt: false },
        ProfileCase::VerifyCore { n: 4, ckpt: true },
        ProfileCase::VerifyCore { n: 8, ckpt: false },
        ProfileCase::VerifyCore { n: 8, ckpt: true },
        ProfileCase::VerifyBackbone,
        ProfileCase::VerifyGreedy,
        ProfileCase::VerifySample { n: 2 },
        ProfileCase::VerifySample { n: 3 },
        ProfileCase::VerifySample { n: 4 },
        ProfileCase::VerifySample { n: 5 },
        ProfileCase::VerifySample { n: 6 },
        ProfileCase::VerifySample { n: 8 },
        ProfileCase::Rollback,
        ProfileCase::Reprime,
    ]
}

/// What the step profile times, in order: the full sampling verify at every depth that the policy may
/// choose, since the cost of one width says nothing of another.
pub fn profile_mtp() -> (r: Vec<ProfileCase>)
    ensures
        r@ == profile_table(),
{
    let r: Vec<ProfileCase> = vec![
        ProfileCase::Decode,
        ProfileCase::DraftStep,
        ProfileCase::DraftArgmax,
        ProfileCase::PenaltyUpload,
        ProfileCase::VerifyCore { n: 1, ckpt: false },
        ProfileCase::VerifyCore { n: 1, ckpt: true },
        ProfileCase::VerifyCore { n: 2, ckpt: false },
        ProfileCase::VerifyCore { n: 2, ckpt: true },
        ProfileCase::VerifyCore { n: 4, ckpt: false },
        ProfileCase::VerifyCore { n: 4, ckpt: true },
        ProfileCase::VerifyCore { n: 8, ckpt: false },
        ProfileCase::VerifyCore { n: 8, ckpt: true },
        ProfileCase::VerifyBackbone,
        ProfileCase::VerifyGreedy,
        ProfileCase::VerifySample { n: 2 },
        ProfileCase::VerifySample { n: 3 },
        ProfileCase::VerifySample { n: 4 },
        ProfileCase::VerifySample { n: 5 },
        ProfileCase::VerifySample { n: 6 },
        ProfileCase::VerifySample { n: 8 },
        ProfileCase::Rollback,
        ProfileCase::Reprime,
    ];
    proof {
        assert(r@ =~= profile_table());
    }
    r
}

/// Every depth that the policy may choose is profiled as a whole sampling verify, no verify is wider
/// than the machine allows, and none needs more state slots than the profile's caller reserves.
pub proof fn law_profile_covers_the_policy(d: int)
    requires
        0 <= d < depths().len(),
    ensures
        profile_table().contains(ProfileCase::VerifySample { n: depths()[d] }),
        depths()[d] <= MAX_VERIFY,
        depths()[d] <= crate::gpu::model::PROFILE_MAX_N,
        depths()[d] <= crate::gpu::model::MAX_AUTO_DEPTH,
{
    assert(profile_table()[14 + d] == ProfileCase::VerifySample { n: depths()[d] });
}

/// `i` is the first row whose label, trimmed, begins with `key`.
pub open spec fn is_row(labels: Seq<Seq<char>>, key: Seq<char>, i: Option<usize>) -> bool {
    match i {
        Some(i) => i < labels.len() && has_prefix(trimmed(labels[i as int]), key) && forall|j: int|
            0 <= j < i ==> !has_prefix(trimmed(#[trigger] labels[j]), key),
        None => forall|j: int|
            0 <= j < labels.len() ==> !has_prefix(trimmed(#[trigger] labels[j]), key),
    }
}

/// The first row whose label, trimmed, begins with `key`.
pub fn find_row(labels: &[String], key: &str) -> (i: Option<usize>)
    ensures
        is_row(texts(labels@), key@, i),
{
    let ghost ls = texts(labels@);
    let mut i: usize = 0;
    while i < labels.len()
        invariant
            i <= labels@.len(),
            ls == texts(labels@),
            forall|j: int| 0 <= j < i ==> !has_prefix(trimmed(#[trigger] ls[j]), key@),
        decreases labels@.len() - i,
    {
        let c: Vec<char> = chars_of(labels[i].as_str());
        let t: Vec<char> = trim(c.as_slice());
        proof {
            assert(ls[i as int] == c@);
        }
        if begins_with(t.as_slice(), key) {
            return Some(i);
        }
        i = i + 1;
    }
    None
}

/// The rows that a step's cost is composed of: a draft and its choice of token for every draft, the
/// verify, the rollback and the re-prime.
pub struct StepRows {
    pub depth: usize,
    pub draft: Option<usize>,
    pub argmax: Option<usize>,
    pub verify: Option<usize>,
    pub rollback: Option<usize>,
    pub reprime: Option<usize>,
}

/// The rows of a profile that give the cost of a step at every depth, and that of a plain decode.
pub fn calibrate_mtp_r(labels: &[String]) -> (r: (Option<usize>, Vec<StepRows>))
    ensures
        is_row(texts(labels@), "decode step"@, r.0),
        r.1@.len() == depths().len(),
        forall|d: int|
            0 <= d < depths().len() ==> {
                let s = #[trigger] r.1@[d];
                &&& s.depth == depths()[d]
                &&& is_row(texts(labels@), "mtp_draft_step"@, s.draft)
                &&& is_row(texts(labels@), "argmax_hidden"@, s.argmax)
                &&& is_row(
                    texts(labels@),
                    "verify_forward_sample N="@ + decimal(depths()[d] as nat),
                    s.verify,
                )
                &&& is_row(texts(labels@), "copy_gdn_slot"@, s.rollback)
                &&& is_row(texts(labels@), "mtp_reprime"@, s.reprime)
            },
{
    let ds: Vec<usize> = auto_depths();
    let decode: Option<usize> = find_row(labels, "decode step");
    let draft: Option<usize> = find_row(labels, "mtp_draft_step");
    let argmax: Option<usize> = find_row(labels, "argmax_hidden");
    let rollback: Option<usize> = find_row(labels, "copy_gdn_slot");
    let reprime: Option<usize> = find_row(labels, "mtp_reprime");
    let mut rows: Vec<StepRows> = Vec::new();
    let mut d: usize = 0;
    while d < ds.len()
        invariant
            d <= ds@.len(),
            ds@ == depths(),
            rows@.len() == d,
            is_row(texts(labels@), "mtp_draft_step"@, draft),
            is_row(texts(labels@), "argmax_hidden"@, argmax),
            is_row(texts(labels@), "copy_gdn_slot"@, rollback),
            is_row(texts(labels@), "mtp_reprime"@, reprime),
            forall|k: int|
                0 <= k < d ==> {
                    let s = #[trigger] rows@[k];
                    &&& s.depth == depths()[k]
                    &&& is_row(texts(labels@), "mtp_draft_step"@, s.draft)
                    &&& is_row(texts(labels@), "argmax_hidden"@, s.argmax)
                    &&& is_row(
                        texts(labels@),
                        "verify_forward_sample N="@ + decimal(depths()[k] as nat),
                        s.verify,
                    )
                    &&& is_row(texts(labels@), "copy_gdn_slot"@, s.rollback)
                    &&& is_row(texts(labels@), "mtp_reprime"@, s.reprime)
                },
        decreases ds@.len() - d,
    {
        let key: String = sample_label(ds[d]);
        let verify: Option<usize> = find_row(labels, key.as_str());
        rows.push(StepRows { depth: ds[d], draft, argmax, verify, rollback, reprime });
        d = d + 1;
    }
    (decode, rows)
}

} // verus!
