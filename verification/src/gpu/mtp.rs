//! Speculative decoding: proposing drafts, accepting what the model agrees with, and the state that
//! carries from one step to the next.
use vstd::prelude::*;

use crate::gpu::verify::{chain_parent, chain_parents};
use crate::seqs::{extend_range, min_int, prefix};

verus! {

/// The first `n` tokens that greedy decoding emits after `ctx`, for a model that continues a context
/// with `next`.
pub open spec fn greedy(next: spec_fn(Seq<u32>) -> u32, ctx: Seq<u32>, n: nat) -> Seq<u32>
    decreases n,
{
    if n == 0 {
        Seq::empty()
    } else {
        let g = greedy(next, ctx, (n - 1) as nat);
        g.push(next(ctx + g))
    }
}

/// `k` is the length of the longest prefix of `drafts` that `preds` agrees with.
pub open spec fn is_accepted_len(drafts: Seq<u32>, preds: Seq<u32>, k: int) -> bool {
    &&& 0 <= k <= drafts.len()
    &&& forall|i: int| 0 <= i < k ==> #[trigger] drafts[i] == preds[i]
    &&& k < drafts.len() ==> drafts[k] != preds[k]
}

/// What a step emits: the accepted drafts and the model's own next token.
pub open spec fn emitted(drafts: Seq<u32>, preds: Seq<u32>, k: int) -> Seq<u32> {
    drafts.take(k).push(preds[k])
}

/// Verify column `i` predicts what the model says after `ctx` and the first `i` drafts.
pub open spec fn predictions_of(
    next: spec_fn(Seq<u32>) -> u32,
    ctx: Seq<u32>,
    drafts: Seq<u32>,
    preds: Seq<u32>,
) -> bool {
    &&& preds.len() == drafts.len() + 1
    &&& forall|i: int|
        0 <= i <= drafts.len() ==> #[trigger] preds[i] == next(ctx + drafts.take(i))
}

/// Greedy decoding in two legs is greedy decoding.
pub proof fn lemma_greedy_split(next: spec_fn(Seq<u32>) -> u32, ctx: Seq<u32>, a: nat, b: nat)
    ensures
        greedy(next, ctx, a + b) == greedy(next, ctx, a) + greedy(
            next,
            ctx + greedy(next, ctx, a),
            b,
        ),
        greedy(next, ctx, a).len() == a,
    decreases a + b,
{
    if b == 0 {
        if a > 0 {
            lemma_greedy_split(next, ctx, (a - 1) as nat, 0);
        }
        assert(greedy(next, ctx, a) + Seq::<u32>::empty() =~= greedy(next, ctx, a));
    } else {
        lemma_greedy_split(next, ctx, a, (b - 1) as nat);
        let g = greedy(next, ctx, a);
        let h = greedy(next, ctx + g, (b - 1) as nat);
        assert(greedy(next, ctx, (a + b - 1) as nat) == g + h);
        assert(ctx + (g + h) =~= (ctx + g) + h);
        assert((g + h).push(next(ctx + (g + h))) =~= g + h.push(next(ctx + g + h)));
    }
}

/// Greedy speculation is lossless: whatever was drafted, the tokens a step emits are exactly the next
/// tokens of greedy decoding.
pub proof fn law_chain_step_is_lossless(
    next: spec_fn(Seq<u32>) -> u32,
    ctx: Seq<u32>,
    drafts: Seq<u32>,
    preds: Seq<u32>,
    k: int,
)
    requires
        predictions_of(next, ctx, drafts, preds),
        is_accepted_len(drafts, preds, k),
    ensures
        emitted(drafts, preds, k) == greedy(next, ctx, (k + 1) as nat),
{
    lemma_accepted_prefix(next, ctx, drafts, preds, k, k);
}

proof fn lemma_accepted_prefix(
    next: spec_fn(Seq<u32>) -> u32,
    ctx: Seq<u32>,
    drafts: Seq<u32>,
    preds: Seq<u32>,
    k: int,
    i: int,
)
    requires
        predictions_of(next, ctx, drafts, preds),
        is_accepted_len(drafts, preds, k),
        0 <= i <= k,
    ensures
        drafts.take(i) == greedy(next, ctx, i as nat),
    decreases i,
{
    if i > 0 {
        lemma_accepted_prefix(next, ctx, drafts, preds, k, i - 1);
        assert(drafts.take(i) =~= drafts.take(i - 1).push(drafts[i - 1]));
        assert(drafts[i - 1] == preds[i - 1]);
    } else {
        assert(drafts.take(0) =~= Seq::<u32>::empty());
    }
}

/// Length of the longest prefix of `drafts` that `preds` agrees with.
pub fn accept_prefix(drafts: &[u32], preds: &[u32]) -> (k: usize)
    requires
        preds.len() >= drafts.len(),
    ensures
        is_accepted_len(drafts@, preds@, k as int),
{
    let mut k: usize = 0;
    while k < drafts.len() && preds[k] == drafts[k]
        invariant
            k <= drafts.len() <= preds.len(),
            forall|i: int| 0 <= i < k ==> #[trigger] drafts@[i] == preds@[i],
        decreases drafts.len() - k,
    {
        k = k + 1;
    }
    k
}

/// Where a re-prime column takes its hidden state from.
#[derive(Clone, Copy, Debug, PartialEq, Eq, Structural)]
pub enum HiddenSource {
    /// The hidden state saved before the verify.
    Saved,
    /// A column of the verify's output.
    VerifyColumn(usize),
}

/// One draft-head forward that rewrites its KV entry from the model's real hidden state.
#[derive(Clone, Copy, Debug, PartialEq, Eq, Structural)]
pub struct Reprime {
    pub source: HiddenSource,
    pub token: u32,
    pub pos: usize,
}

/// The re-prime of prefix position `k` after a verify of `committed` and `drafts` at `main_pos`.
pub open spec fn reprime_at(committed: u32, drafts: Seq<u32>, main_pos: int, k: int) -> Reprime {
    if k == 0 {
        Reprime { source: HiddenSource::Saved, token: committed, pos: (main_pos - 1) as usize }
    } else {
        Reprime {
            source: HiddenSource::VerifyColumn((k - 1) as usize),
            token: drafts[k - 1],
            pos: (main_pos - 1 + k) as usize,
        }
    }
}

/// First checkpoint slot of a verify: column `t` leaves its recurrent state in slot `CKPT_SLOT + t`.
pub const CKPT_SLOT: usize = 2;

/// What a settled step asks of the device.
pub struct Settled {
    /// Accepted drafts.
    pub accepted: usize,
    /// The model's own token after the accepted drafts.
    pub bonus: u32,
    /// Checkpoint slot to restore; `None` when every draft was accepted.
    pub rollback: Option<usize>,
    /// Verify column whose hidden state seeds the next draft.
    pub hidden_col: usize,
    /// Draft-head rewrites over the accepted prefix, in order.
    pub reprime: Vec<Reprime>,
}

/// A greedy speculative generation in progress.
pub struct MtpRun {
    /// Tokens emitted so far, the prefill's first token among them.
    pub out: Vec<u32>,
    /// The last emitted token, which the next verify processes first.
    pub committed: u32,
    /// Position at which `committed` will be verified.
    pub main_pos: usize,
    /// Position of the next draft-head KV write.
    pub mtp_pos: usize,
    /// Verify width: the committed token and `depth - 1` drafts.
    pub depth: usize,
    /// Emission target.
    pub max_new: usize,
    pub steps: usize,
    pub drafted: usize,
    pub accepted: usize,
}

impl MtpRun {
    /// The cursor is consistent: the draft head is one position behind the model, and until the
    /// target is reached the committed token is the last one emitted.
    pub open spec fn wf(&self) -> bool {
        &&& self.out@.len() >= 1
        &&& self.out@.len() < self.max_new ==> self.committed == self.out@.last()
        &&& self.main_pos >= 1
        &&& self.mtp_pos == self.main_pos - 1
        &&& self.depth >= 1
        &&& self.accepted <= self.drafted
    }

    /// Another step of `depth` columns fits the machine's counters.
    pub open spec fn fits(&self) -> bool {
        &&& self.main_pos + self.depth <= usize::MAX
        &&& self.steps < usize::MAX
        &&& self.drafted + self.depth <= usize::MAX
        &&& self.out@.len() + self.depth <= usize::MAX
        &&& self.depth <= usize::MAX - CKPT_SLOT
    }

    /// Starts after a prefill of `plen` tokens that predicted `first`.
    pub fn start(first: u32, plen: usize, depth: usize, max_new: usize) -> (r: MtpRun)
        requires
            plen >= 1,
            depth >= 1,
        ensures
            r.wf(),
            r.out@ == seq![first],
            r.committed == first,
            r.main_pos == plen,
            r.mtp_pos == plen - 1,
            r.depth == depth,
            r.max_new == max_new,
            r.steps == 0,
            r.drafted == 0,
            r.accepted == 0,
    {
        MtpRun {
            out: vec![first],
            committed: first,
            main_pos: plen,
            mtp_pos: plen - 1,
            depth,
            max_new,
            steps: 0,
            drafted: 0,
            accepted: 0,
        }
    }

    /// Another step is due.
    pub fn wants_step(&self) -> (b: bool)
        ensures
            b == (self.out@.len() < self.max_new),
    {
        self.out.len() < self.max_new
    }

    /// The next verify could not be followed by another one within a KV cache of `kv_stride`.
    pub fn kv_exhausted(&self, kv_stride: usize) -> (b: bool)
        requires
            self.main_pos + self.depth + 2 <= usize::MAX,
        ensures
            b == (self.main_pos + self.depth + 2 >= kv_stride),
    {
        self.main_pos + self.depth + 2 >= kv_stride
    }

    /// The columns of the next verify.
    pub fn verify_input(&self, drafts: &[u32]) -> (v: Vec<u32>)
        ensures
            v@ == seq![self.committed] + drafts@,
    {
        let mut v: Vec<u32> = vec![self.committed];
        extend_range(&mut v, drafts, 0, drafts.len());
        proof {
            assert(drafts@.subrange(0, drafts.len() as int) =~= drafts@);
        }
        v
    }

    /// What the draft head runs on next, after `drafts`: the last token of the chain and its position. The
    /// chain starts at the committed token; nothing is due once it fills the verify.
    pub fn next_draft(&self, drafts: &[u32]) -> (r: Option<(u32, usize)>)
        requires
            self.mtp_pos + self.depth <= usize::MAX,
        ensures
            r == (if drafts@.len() + 1 < self.depth {
                Some(
                    (
                        if drafts@.len() == 0 {
                            self.committed
                        } else {
                            drafts@.last()
                        },
                        (self.mtp_pos + drafts@.len()) as usize,
                    ),
                )
            } else {
                None
            }),
    {
        let v: Vec<u32> = self.verify_input(drafts);
        chain_step(v.as_slice(), self.mtp_pos, self.depth)
    }

    /// The draft that follows `drafts`, where the head guesses `best`: the n-gram lookup sees all that was
    /// realized of `prompt`, and the drafts behind it.
    pub fn choose_draft(&self, prompt: &[u32], drafts: &[u32], best: u32, ngram: usize) -> (t: u32)
        ensures
            is_proposal(best, prompt@ + self.out@ + drafts@, ngram as int, t),
    {
        let mut work: Vec<u32> = lookup_context(prompt, self.out.as_slice());
        extend_range(&mut work, drafts, 0, drafts.len());
        proof {
            assert(drafts@.subrange(0, drafts@.len() as int) =~= drafts@);
        }
        propose(best, work.as_slice(), ngram)
    }

    /// Accepts the drafts that the verify agrees with, emits them and the bonus token, and moves the
    /// cursor past them.
    ///
    /// The accepted drafts are emitted even where they overshoot the target; the bonus is not.
    pub fn settle(&mut self, drafts: &[u32], preds: &[u32]) -> (s: Settled)
        requires
            old(self).wf(),
            old(self).fits(),
            old(self).out@.len() < old(self).max_new,
            drafts.len() + 1 == old(self).depth,
            preds.len() == drafts.len() + 1,
        ensures
            final(self).wf(),
            is_accepted_len(drafts@, preds@, s.accepted as int),
            s.bonus == preds@[s.accepted as int],
            s.rollback == (if s.accepted + 1 == old(self).depth {
                None::<usize>
            } else {
                Some((CKPT_SLOT + s.accepted) as usize)
            }),
            s.hidden_col == s.accepted,
            s.reprime@ == Seq::new(
                (s.accepted + 1) as nat,
                |k: int| reprime_at(old(self).committed, drafts@, old(self).main_pos as int, k),
            ),
            final(self).out@ == (if old(self).out@.len() + s.accepted < old(self).max_new {
                old(self).out@ + emitted(drafts@, preds@, s.accepted as int)
            } else {
                old(self).out@ + drafts@.take(s.accepted as int)
            }),
            final(self).committed == s.bonus,
            final(self).main_pos == old(self).main_pos + s.accepted + 1,
            final(self).mtp_pos == old(self).main_pos + s.accepted,
            final(self).depth == old(self).depth,
            final(self).max_new == old(self).max_new,
            final(self).steps == old(self).steps + 1,
            final(self).drafted == old(self).drafted + drafts.len(),
            final(self).accepted == old(self).accepted + s.accepted,
    {
        let ghost out0 = self.out@;
        let ghost start = *self;
        let nacc: usize = accept_prefix(drafts, preds);
        let bonus: u32 = preds[nacc];
        extend_range(&mut self.out, drafts, 0, nacc);
        proof {
            assert(drafts@.subrange(0, nacc as int) =~= drafts@.take(nacc as int));
        }
        if self.out.len() < self.max_new {
            self.out.push(bonus);
            proof {
                assert(self.out@ =~= out0 + emitted(drafts@, preds@, nacc as int));
            }
        }
        let rollback: Option<usize> = if nacc + 1 != self.depth {
            Some(CKPT_SLOT + nacc)
        } else {
            None
        };
        let mut reprime: Vec<Reprime> = vec![
            Reprime { source: HiddenSource::Saved, token: self.committed, pos: self.main_pos - 1 },
        ];
        let mut k: usize = 1;
        while k <= nacc
            invariant
                1 <= k <= nacc + 1,
                nacc <= drafts.len(),
                self.committed == start.committed,
                self.main_pos == start.main_pos,
                start.main_pos >= 1,
                start.main_pos + drafts.len() + 1 <= usize::MAX,
                reprime@ == Seq::new(
                    k as nat,
                    |k: int| reprime_at(start.committed, drafts@, start.main_pos as int, k),
                ),
            decreases nacc + 1 - k,
        {
            reprime.push(
                Reprime {
                    source: HiddenSource::VerifyColumn(k - 1),
                    token: drafts[k - 1],
                    pos: self.main_pos - 1 + k,
                },
            );
            k = k + 1;
        }
        self.mtp_pos = self.main_pos + nacc;
        self.main_pos = self.main_pos + (nacc + 1);
        self.committed = bonus;
        self.steps = self.steps + 1;
        self.drafted = self.drafted + drafts.len();
        self.accepted = self.accepted + nacc;
        Settled { accepted: nacc, bonus, rollback, hidden_col: nacc, reprime }
    }
}

/// A whole run is lossless: if what was emitted so far is greedy decoding of `prompt`, and the verify
/// predicts with the same model, then what is emitted after the step is greedy decoding of `prompt`.
pub proof fn law_run_stays_lossless(
    next: spec_fn(Seq<u32>) -> u32,
    prompt: Seq<u32>,
    out: Seq<u32>,
    drafts: Seq<u32>,
    preds: Seq<u32>,
    k: int,
)
    requires
        out == greedy(next, prompt, out.len()),
        predictions_of(next, prompt + out, drafts, preds),
        is_accepted_len(drafts, preds, k),
    ensures
        out + emitted(drafts, preds, k) == greedy(next, prompt, (out.len() + k + 1) as nat),
        out + drafts.take(k) == greedy(next, prompt, (out.len() + k) as nat),
{
    law_chain_step_is_lossless(next, prompt + out, drafts, preds, k);
    lemma_accepted_prefix(next, prompt + out, drafts, preds, k, k);
    lemma_greedy_split(next, prompt, out.len(), (k + 1) as nat);
    lemma_greedy_split(next, prompt, out.len(), k as nat);
}

/// Every step makes progress: it emits at least one token until the target is reached.
pub proof fn law_step_emits(before: MtpRun, after: MtpRun, drafts: Seq<u32>, preds: Seq<u32>, k: int)
    requires
        before.out@.len() < before.max_new,
        is_accepted_len(drafts, preds, k),
        after.out@ == (if before.out@.len() + k < before.max_new {
            before.out@ + emitted(drafts, preds, k)
        } else {
            before.out@ + drafts.take(k)
        }),
    ensures
        after.out@.len() > before.out@.len(),
        after.out@.take(before.out@.len() as int) == before.out@,
{
    assert(after.out@.take(before.out@.len() as int) =~= before.out@);
}

/// The two streams of a lossless check, cut to the length both have.
pub fn common_prefix_streams(mtp: &[u32], seq: &[u32]) -> (r: (Vec<u32>, Vec<u32>))
    ensures
        r.0@ == mtp@.take(min_int(mtp.len() as int, seq.len() as int)),
        r.1@ == seq@.take(min_int(mtp.len() as int, seq.len() as int)),
{
    let n: usize = if mtp.len() <= seq.len() {
        mtp.len()
    } else {
        seq.len()
    };
    (prefix(mtp, n), prefix(seq, n))
}

// ---- prompt lookup ----

/// The last `n` tokens of `ctx` also stand at `j`, before the end.
pub open spec fn ngram_at(ctx: Seq<u32>, n: int, j: int) -> bool {
    &&& 0 <= j < ctx.len() - n
    &&& ctx.subrange(j, j + n) == ctx.subrange(ctx.len() - n, ctx.len() as int)
}

/// What followed the most recent earlier occurrence of the last `n` tokens.
pub open spec fn is_ngram_next(ctx: Seq<u32>, n: int, found: Option<u32>) -> bool {
    match found {
        Some(t) => exists|j: int| #[trigger]
            ngram_at(ctx, n, j) && t == ctx[j + n] && forall|i: int|
                j < i ==> !ngram_at(ctx, n, i),
        None => forall|j: int| !ngram_at(ctx, n, j),
    }
}

/// Two windows of `ctx` hold the same tokens.
fn same_window(ctx: &[u32], a: usize, b: usize, n: usize) -> (eq: bool)
    requires
        a + n <= ctx.len(),
        b + n <= ctx.len(),
    ensures
        eq == (ctx@.subrange(a as int, a + n) == ctx@.subrange(b as int, b + n)),
{
    let mut i: usize = 0;
    while i < n
        invariant
            i <= n,
            a + n <= ctx.len(),
            b + n <= ctx.len(),
            ctx@.subrange(a as int, a + i) == ctx@.subrange(b as int, b + i),
        decreases n - i,
    {
        if ctx[a + i] != ctx[b + i] {
            proof {
                assert(ctx@.subrange(a as int, a + n)[i as int] != ctx@.subrange(b as int, b + n)[
                    i as int
                ]);
            }
            return false;
        }
        i = i + 1;
        proof {
            let wa = ctx@.subrange(a as int, a + i);
            let wb = ctx@.subrange(b as int, b + i);
            assert(wa =~= ctx@.subrange(a as int, a + i - 1).push(ctx@[a + i - 1]));
            assert(wb =~= ctx@.subrange(b as int, b + i - 1).push(ctx@[b + i - 1]));
        }
    }
    true
}

/// The token that followed the most recent earlier occurrence of the last `ngram` tokens.
pub fn ngram_next(ctx: &[u32], ngram: usize) -> (found: Option<u32>)
    requires
        1 <= ngram <= ctx.len(),
    ensures
        is_ngram_next(ctx@, ngram as int, found),
{
    let ts: usize = ctx.len() - ngram;
    let mut j: usize = ts;
    while j > 0
        invariant
            ts == ctx.len() - ngram,
            1 <= ngram <= ctx.len(),
            j <= ts,
            forall|i: int| j <= i ==> !ngram_at(ctx@, ngram as int, i),
        decreases j,
    {
        j = j - 1;
        if same_window(ctx, j, ts, ngram) {
            proof {
                assert(ngram_at(ctx@, ngram as int, j as int));
            }
            return Some(ctx[j + ngram]);
        }
        proof {
            assert(!ngram_at(ctx@, ngram as int, j as int));
        }
    }
    None
}

/// `t` is what the context copies on with, where a copy length is set and something matches; else it is
/// the head's guess.
pub open spec fn is_proposal(head: u32, work: Seq<u32>, ngram: int, t: u32) -> bool {
    if 1 <= ngram <= work.len() {
        is_ngram_next(work, ngram, Some(t)) || (is_ngram_next(work, ngram, None) && t == head)
    } else {
        t == head
    }
}

/// The draft to verify: an exact copy where the context offers one, else the head's guess.
pub fn propose(head: u32, work: &[u32], ngram: usize) -> (t: u32)
    ensures
        is_proposal(head, work@, ngram as int, t),
{
    if ngram > 0 && work.len() >= ngram {
        let f: Option<u32> = ngram_next(work, ngram);
        match f {
            Some(x) => x,
            None => head,
        }
    } else {
        head
    }
}

/// All that was realized of a prompt: the context of an n-gram lookup.
pub fn lookup_context(prompt: &[u32], out: &[u32]) -> (r: Vec<u32>)
    ensures
        r@ == prompt@ + out@,
{
    let mut r: Vec<u32> = Vec::new();
    extend_range(&mut r, prompt, 0, prompt.len());
    extend_range(&mut r, out, 0, out.len());
    proof {
        assert(prompt@.subrange(0, prompt@.len() as int) =~= prompt@);
        assert(out@.subrange(0, out@.len() as int) =~= out@);
        assert(r@ =~= prompt@ + out@);
    }
    r
}

/// What the draft head runs on next, for a chain of `len` tokens whose first stands at `pos`: the chain's
/// last token and its position, until the chain is whole.
pub fn chain_step(chain: &[u32], pos: usize, len: usize) -> (r: Option<(u32, usize)>)
    requires
        chain@.len() >= 1,
        pos + len <= usize::MAX,
    ensures
        r == (if chain@.len() < len {
            Some((chain@.last(), (pos + chain@.len() - 1) as usize))
        } else {
            None
        }),
{
    if chain.len() < len {
        Some((chain[chain.len() - 1], pos + (chain.len() - 1)))
    } else {
        None
    }
}

/// The best of a ranked list that is not `best`; `best` where there is no other.
pub fn second_best(best: u32, ranked: &[u32]) -> (t: u32)
    ensures
        t == best ==> forall|j: int| 0 <= j < ranked@.len() ==> #[trigger] ranked@[j] == best,
        t != best ==> exists|i: int|
            0 <= i < ranked@.len() && #[trigger] ranked@[i] == t && forall|j: int|
                0 <= j < i ==> #[trigger] ranked@[j] == best,
{
    let mut i: usize = 0;
    while i < ranked.len()
        invariant
            i <= ranked@.len(),
            forall|j: int| 0 <= j < i ==> #[trigger] ranked@[j] == best,
        decreases ranked@.len() - i,
    {
        if ranked[i] != best {
            return ranked[i];
        }
        i = i + 1;
    }
    best
}

// ---- fork-then-chain drafts ----

/// Parent array of a fork at the root: branch `a` in columns `1..=na`, branch `b` after it.
pub open spec fn fork_parent(na: int, nb: int) -> Seq<i32> {
    Seq::new(
        (1 + na + nb) as nat,
        |c: int|
            if c == 0 {
                -1i32
            } else if c == 1 + na {
                0i32
            } else {
                (c - 1) as i32
            },
    )
}

/// Parents of a fork at the root with branches of `na` and `nb` columns.
pub fn fork_parents(na: usize, nb: usize) -> (parent: Vec<i32>)
    requires
        1 + na + nb <= i32::MAX,
    ensures
        parent@ == fork_parent(na as int, nb as int),
{
    let n: usize = 1 + na + nb;
    let mut parent: Vec<i32> = Vec::new();
    let mut c: usize = 0;
    while c < n
        invariant
            n == 1 + na + nb,
            n <= i32::MAX,
            c <= n,
            parent@ == fork_parent(na as int, nb as int).take(c as int),
        decreases n - c,
    {
        let p: i32 = if c == 0 {
            -1
        } else if c == 1 + na {
            0
        } else {
            (c - 1) as i32
        };
        parent.push(p);
        c = c + 1;
        proof {
            let f = fork_parent(na as int, nb as int);
            assert(f.take(c as int) =~= f.take(c - 1).push(p));
        }
    }
    proof {
        let f = fork_parent(na as int, nb as int);
        assert(f.take(n as int) =~= f);
    }
    parent
}

/// Parents and tokens of the chains `a` and `b` under the committed token. A second branch that is
/// missing, or that starts as the first does, leaves the plain chain.
pub open spec fn forked(committed: u32, a: Seq<u32>, b: Seq<u32>) -> (Seq<i32>, Seq<u32>) {
    if b.len() == 0 || b[0] == a[0] {
        (chain_parent((a.len() + 1) as nat), seq![committed] + a)
    } else {
        (fork_parent(a.len() as int, b.len() as int), seq![committed] + a + b)
    }
}

/// Joins the head's chain `a` and the copied chain `b` under the committed token.
pub fn fork_tree(committed: u32, a: &[u32], b: &[u32]) -> (r: (Vec<i32>, Vec<u32>))
    requires
        a.len() >= 1,
        1 + a.len() + b.len() <= i32::MAX,
    ensures
        (r.0@, r.1@) == forked(committed, a@, b@),
{
    let na: usize = a.len();
    let nb: usize = b.len();
    let mut tokens: Vec<u32> = vec![committed];
    extend_range(&mut tokens, a, 0, na);
    proof {
        assert(a@.subrange(0, na as int) =~= a@);
    }
    if nb == 0 || b[0] == a[0] {
        return (chain_parents(na + 1), tokens);
    }
    extend_range(&mut tokens, b, 0, nb);
    proof {
        assert(b@.subrange(0, nb as int) =~= b@);
    }
    let parent: Vec<i32> = fork_parents(na, nb);
    (parent, tokens)
}

/// A fork-then-chain draft: the head's chain `a`, and beside it a chain of the head from another first
/// token. That token is the head's second best, `second[0]`, or what `work` copies on with where a copy
/// length is set and something matches; the rest of `second` is the head's chain from it. Branches that
/// start with the same token leave the plain chain.
pub fn mtp_fork_draft(committed: u32, a: &[u32], second: &[u32], work: &[u32], ngram: usize) -> (r: (
    Vec<i32>,
    Vec<u32>,
))
    requires
        a.len() >= 1,
        second.len() >= 1,
        1 + a.len() + second.len() <= i32::MAX,
    ensures
        exists|t: u32| #[trigger]
            is_proposal(second@[0], work@, ngram as int, t) && (r.0@, r.1@) == forked(
                committed,
                a@,
                second@.update(0, t),
            ),
        ngram == 0 && second@[0] != a@[0] ==> (r.0@, r.1@) == (
            fork_parent(a.len() as int, second.len() as int),
            seq![committed] + a@ + second@,
        ),
{
    let t: u32 = propose(second[0], work, ngram);
    let mut b: Vec<u32> = prefix(second, second.len());
    b.set(0, t);
    proof {
        assert(second@.take(second.len() as int) =~= second@);
        assert(second@.update(0, second@[0]) =~= second@);
    }
    fork_tree(committed, a, b.as_slice())
}

/// A fork of two chains of `depth - 1` columns that start differently has `2 * depth - 1` columns: the
/// root, whose two children start the two chains, and in each chain every column follows the one before.
pub proof fn law_fork_has_two_branches(committed: u32, a: Seq<u32>, b: Seq<u32>, depth: int)
    requires
        2 <= depth,
        2 * depth <= i32::MAX,
        a.len() == depth - 1,
        b.len() == depth - 1,
        a[0] != b[0],
    ensures
        ({
            let (parent, tokens) = forked(committed, a, b);
            &&& parent.len() == 2 * depth - 1
            &&& tokens.len() == 2 * depth - 1
            &&& parent[0] == -1
            &&& tokens[0] == committed
            &&& forall|c: int|
                0 <= c < parent.len() ==> (#[trigger] parent[c] == 0 <==> c == 1 || c == depth)
            &&& forall|k: int|
                0 <= k < depth - 1 ==> tokens[1 + k] == #[trigger] a[k]
            &&& forall|k: int|
                0 <= k < depth - 1 ==> tokens[depth + k] == #[trigger] b[k]
            &&& forall|c: int|
                1 <= c < parent.len() && c != 1 && c != depth ==> #[trigger] parent[c] == c - 1
        }),
{
}

/// What follows a context's last tokens is decided by the context.
proof fn lemma_next_is_unique(ctx: Seq<u32>, n: int, p: Option<u32>, q: Option<u32>)
    requires
        is_ngram_next(ctx, n, p),
        is_ngram_next(ctx, n, q),
    ensures
        p == q,
{
    if let (Some(s), Some(t)) = (p, q) {
        let j = choose|j: int| #[trigger]
            ngram_at(ctx, n, j) && s == ctx[j + n] && forall|i: int|
                j < i ==> !ngram_at(ctx, n, i);
        let k = choose|k: int| #[trigger]
            ngram_at(ctx, n, k) && t == ctx[k + n] && forall|i: int|
                k < i ==> !ngram_at(ctx, n, i);
        assert(j == k);
    }
}

/// What is proposed is decided by the head's guess and the context.
pub proof fn law_proposal_is_unique(head: u32, work: Seq<u32>, ngram: int, t: u32, u: u32)
    requires
        is_proposal(head, work, ngram, t),
        is_proposal(head, work, ngram, u),
    ensures
        t == u,
{
    if 1 <= ngram <= work.len() {
        let f = if is_ngram_next(work, ngram, Some(t)) {
            Some(t)
        } else {
            None
        };
        let g = if is_ngram_next(work, ngram, Some(u)) {
            Some(u)
        } else {
            None
        };
        lemma_next_is_unique(work, ngram, f, g);
    }
}

} // verus!
