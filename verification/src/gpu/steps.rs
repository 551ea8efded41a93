//! Steps around the passes: uploads, drafting, scoring, and what is read back.
use vstd::prelude::*;

use crate::gpu::ffn::dense;
use crate::gpu::forward::{Frame, Pass};
use crate::gpu::gemm::{gemm_act, gemm_ops};
use crate::gpu::model::{Ffn, GpuModel, GpuMoe, W};
use crate::gpu::passes::DraftPenalty;
use crate::gpu::program::{
    at, borrow16, borrow32, chain, get16, get32, give16, give32, int32, ptr, put16, put32, temp, tmp,
    Block, Call, DecodeBuf, Op, Ptr, Region, Scratch, Table, WeightId,
};
use crate::gpu::topo::MAX_VERIFY;
use crate::seqs::{extend_range, fill, filled, max_int};
use crate::shard::pad_redzone;

verus! {

// ---- a step with host positions ----

/// Largest position of a batch, plus one; one for an empty batch.
pub open spec fn visible(pos: Seq<usize>) -> int
    decreases pos.len(),
{
    if pos.len() == 0 {
        1
    } else {
        max_int(visible(pos.drop_last()), pos.last() + 1)
    }
}

/// The positions of a run of `n` columns from `pos_start` on, as a prefill, a re-prime or a priming pass
/// uploads them.
pub fn pass_positions(pos_start: usize, n: usize) -> (r: Vec<i32>)
    requires
        pos_start + n <= i32::MAX,
    ensures
        r@ == Seq::new(n as nat, |i: int| (pos_start + i) as i32),
{
    let mut r: Vec<i32> = Vec::new();
    let mut k: usize = 0;
    while k < n
        invariant
            k <= n,
            pos_start + n <= i32::MAX,
            r@ == Seq::new(k as nat, |i: int| (pos_start + i) as i32),
        decreases n - k,
    {
        r.push((pos_start + k) as i32);
        k = k + 1;
        proof {
            assert(r@ =~= Seq::new(k as nat, |i: int| (pos_start + i) as i32));
        }
    }
    r
}

/// What a step with host positions uploads and runs.
pub struct HostStep {
    pub pos: Vec<i32>,
    pub slots: Vec<i32>,
    pub ops: Vec<Op>,
    /// The buffer that holds the result.
    pub out: usize,
}

impl GpuModel {
    /// The frame of a step with host positions: the embeddings are buffer 0, angles 3 and 4, positions
    /// 5, slots 6.
    pub open spec fn host_frame(&self, max_pc: int, kv_stride: usize, n: int) -> Frame {
        Frame {
            pass: Pass::Decode { pos: temp(5), slots: temp(6), max_pc: max_pc as usize },
            n: n as usize,
            kv_stride,
            cos: temp(3),
            sin: temp(4),
            residual: 0,
            normed: 1,
            first: 7,
        }
    }

    /// A step of the lanes from `slot` on, at the given positions, can be planned.
    pub open spec fn host_step_ok(&self, pos: Seq<usize>, slot: usize, kv_stride: usize) -> bool {
        &&& slot + pos.len() <= i32::MAX
        &&& forall|i: int| 0 <= i < pos.len() ==> #[trigger] pos[i] < i32::MAX
        &&& self.layers@.len() >= 1
        &&& self.rope_ok(pos.len() as int)
        &&& self.frame_ok(self.host_frame(visible(pos), kv_stride, pos.len() as int))
    }

    /// `r` runs the lanes from `slot` on, at the given positions.
    pub open spec fn is_host_step(
        &self,
        pos: Seq<usize>,
        slot: usize,
        kv_stride: usize,
        r: HostStep,
    ) -> bool {
        let n = pos.len() as int;
        let f = self.host_frame(visible(pos), kv_stride, n);
        let rd = self.cfg.rotary_dim as int;
        &&& r.pos@ == Seq::new(n as nat, |i: int| pos[i] as i32)
        &&& r.slots@ == Seq::new(n as nat, |i: int| (slot + i) as i32)
        &&& r.ops@ == seq![
            Op::UploadNew { table: Table::Pos, id: 5 },
            Op::UploadNew { table: Table::SlotIds, id: 6 },
            get32(3, rd * n),
            get32(4, rd * n),
            Op::Sync,
            self.rope_op(temp(3), temp(4), temp(5), n),
        ] + self.trunk_ops(f, 2) + seq![Op::Sync, put32(3, rd * n), put32(4, rd * n)]
        &&& r.out == self.trunk_out(f, 2)
    }

    /// One step of the first lanes, one position each.
    pub fn forward_batch(&self, pos_host: &[usize], kv_stride: usize) -> (r: HostStep)
        requires
            self.host_step_ok(pos_host@, 0, kv_stride),
        ensures
            self.is_host_step(pos_host@, 0, kv_stride, r),
    {
        self.forward_batch_core(pos_host, 0, kv_stride)
    }

    /// One token at `pos` into one lane.
    pub fn forward_into_slot(&self, pos: usize, slot: usize, kv_stride: usize) -> (r: HostStep)
        requires
            self.host_step_ok(seq![pos], slot, kv_stride),
        ensures
            self.is_host_step(seq![pos], slot, kv_stride, r),
    {
        let one: Vec<usize> = vec![pos];
        proof {
            assert(one@ =~= seq![pos]);
        }
        self.forward_batch_core(one.as_slice(), slot, kv_stride)
    }

    /// One step of `n` lanes from `slot` on, at the given positions.
    pub fn forward_batch_core(&self, pos_host: &[usize], slot: usize, kv_stride: usize) -> (r: HostStep)
        requires
            self.host_step_ok(pos_host@, slot, kv_stride),
        ensures
            self.is_host_step(pos_host@, slot, kv_stride, r),
    {
        let n: usize = pos_host.len();
        let rd: usize = self.cfg.rotary_dim;
        let mut pos: Vec<i32> = Vec::new();
        let mut slots: Vec<i32> = Vec::new();
        let mut max_pc: usize = 1;
        let mut i: usize = 0;
        while i < n
            invariant
                i <= n,
                n == pos_host@.len(),
                slot + n <= i32::MAX,
                forall|i: int| 0 <= i < pos_host@.len() ==> #[trigger] pos_host@[i] < i32::MAX,
                pos@ == Seq::new(i as nat, |i: int| pos_host@[i] as i32),
                slots@ == Seq::new(i as nat, |i: int| (slot + i) as i32),
                max_pc == visible(pos_host@.take(i as int)),
                max_pc <= i32::MAX,
            decreases n - i,
        {
            proof {
                assert(pos_host@[i as int] < i32::MAX);
                assert(pos_host@.take(i + 1).drop_last() =~= pos_host@.take(i as int));
            }
            let p: usize = pos_host[i];
            pos.push(p as i32);
            slots.push((slot + i) as i32);
            if p + 1 > max_pc {
                max_pc = p + 1;
            }
            i = i + 1;
            proof {
                assert(pos@ =~= Seq::new(i as nat, |i: int| pos_host@[i] as i32));
                assert(slots@ =~= Seq::new(i as nat, |i: int| (slot + i) as i32));
            }
        }
        proof {
            assert(pos_host@.take(n as int) =~= pos_host@);
            assert(0 <= rd * n) by (nonlinear_arith);
        }
        let f: Frame = Frame {
            pass: Pass::Decode { pos: tmp(5), slots: tmp(6), max_pc },
            n,
            kv_stride,
            cos: tmp(3),
            sin: tmp(4),
            residual: 0,
            normed: 1,
            first: 7,
        };
        let mut ops: Vec<Op> = vec![
            Op::UploadNew { table: Table::Pos, id: 5 },
            Op::UploadNew { table: Table::SlotIds, id: 6 },
            borrow32(3, rd * n),
            borrow32(4, rd * n),
            Op::Sync,
            self.rope(tmp(3), tmp(4), tmp(5), n),
        ];
        let (trunk, out) = self.forward_batch_dev(f, 2);
        chain(&mut ops, trunk);
        let last: Vec<Op> = vec![Op::Sync, give32(3, rd * n), give32(4, rd * n)];
        chain(&mut ops, last);
        HostStep { pos, slots, ops, out }
    }

    /// What embeds `n` uploaded tokens.
    pub open spec fn embed_batch_ops(&self, n: int) -> Seq<Op> {
        seq![
            Op::UploadNew { table: Table::Tokens, id: 1 },
            Op::Alloc16 { id: 0, len: (self.cfg.hidden_size * n) as usize },
            self.embed_op(temp(0), temp(1), n),
        ]
    }

    /// Embeds tokens: they are uploaded to buffer 1, and their embeddings are buffer 0.
    pub fn embed_batch(&self, n: usize) -> (r: Vec<Op>)
        requires
            dense(self.embed),
            self.cfg.hidden_size <= i32::MAX,
            n <= i32::MAX,
            self.cfg.hidden_size * n <= usize::MAX,
        ensures
            r@ == self.embed_batch_ops(n as int),
    {
        proof {
            assert(0 <= self.cfg.hidden_size * n) by (nonlinear_arith);
        }
        let r: Vec<Op> = vec![
            Op::UploadNew { table: Table::Tokens, id: 1 },
            Op::Alloc16 { id: 0, len: self.cfg.hidden_size * n },
            self.embed_gather(tmp(0), tmp(1), n),
        ];
        proof {
            assert(r@ =~= seq![
                Op::UploadNew { table: Table::Tokens, id: 1 },
                Op::Alloc16 { id: 0, len: (self.cfg.hidden_size * n) as usize },
                self.embed_op(temp(0), temp(1), n as int),
            ]);
        }
        r
    }

    // ---- drafting ----

    /// The head that drafts are chosen with, and its rows.
    pub open spec fn draft_head_of(&self) -> (W, WeightId, int) {
        match self.draft_head {
            Some(w) => (w, WeightId::DraftHead, self.draft_ids@.len() as int),
            None => (self.head().0, self.head().1, self.cfg.vocab_size as int),
        }
    }

    fn draft_source(&self) -> (r: (W, WeightId, usize))
        ensures
            r.0 == self.draft_head_of().0,
            r.1 == self.draft_head_of().1,
            r.2 == self.draft_head_of().2,
    {
        match self.draft_head {
            Some(w) => (w, WeightId::DraftHead, self.draft_ids.len()),
            None => match self.lm_head {
                Some(w) => (w, WeightId::LmHead, self.cfg.vocab_size),
                None => (self.embed, WeightId::Embed, self.cfg.vocab_size),
            },
        }
    }

    /// Draft logits of one hidden state into buffer `id`.
    pub open spec fn draft_logits_ops(&self, hidden: Ptr, id: int) -> Seq<Op> {
        let (w, wid, vocab) = self.draft_head_of();
        seq![get16(id, vocab)] + gemm_ops(
            w,
            wid,
            hidden,
            temp(id),
            self.cfg.hidden_size as int,
            vocab,
            1,
        )
    }

    /// The draft head can run.
    pub open spec fn draft_ok(&self) -> bool {
        &&& dense(self.draft_head_of().0)
        &&& self.draft_head_of().2 <= i32::MAX
        &&& self.cfg.hidden_size <= i32::MAX
    }

    fn draft_logits(&self, hidden: Ptr, id: usize) -> (r: Vec<Op>)
        requires
            self.draft_ok(),
        ensures
            r@ == self.draft_logits_ops(hidden, id as int),
    {
        let (w, wid, vocab) = self.draft_source();
        let mut r: Vec<Op> = vec![borrow16(id, vocab)];
        proof {
            assert(r@ =~= seq![get16(id as int, vocab as int)]);
        }
        chain(&mut r, gemm_act(w, wid, hidden, tmp(id), self.cfg.hidden_size, vocab, 1));
        r
    }

    /// What finds the greedy draft after a hidden state.
    pub open spec fn argmax_hidden_ops(&self, hidden: Ptr) -> Seq<Op> {
        self.draft_logits_ops(hidden, 0) + seq![
            Op::Launch(
                Call::Argmax {
                    out: at(Region::Scratch(Scratch::Tok)),
                    logits: temp(0),
                    vocab: self.draft_head_of().2 as i32,
                    n: 1,
                },
            ),
            put16(0, self.draft_head_of().2),
            Op::Sync,
        ]
    }

    /// The greedy draft after a hidden state; its row lands in scratch, and `draft_token` names the
    /// token. Drafts are only ever proposed, so a smaller vocabulary costs acceptance, never output.
    pub fn argmax_hidden(&self, hidden: Ptr) -> (r: Vec<Op>)
        requires
            self.draft_ok(),
        ensures
            r@ == self.argmax_hidden_ops(hidden),
    {
        let vocab: usize = self.draft_vocab();
        let mut r: Vec<Op> = self.draft_logits(hidden, 0);
        let last: Vec<Op> = vec![
            Op::Launch(
                Call::Argmax {
                    out: ptr(Region::Scratch(Scratch::Tok)),
                    logits: tmp(0),
                    vocab: int32(vocab),
                    n: 1,
                },
            ),
            give16(0, vocab),
            Op::Sync,
        ];
        chain(&mut r, last);
        r
    }

    /// What hands the draft logits of a hidden state to the host.
    pub open spec fn topk_hidden_ops(&self, hidden: Ptr) -> Seq<Op> {
        self.draft_logits_ops(hidden, 0) + seq![
            Op::Sync,
            put16(0, self.draft_head_of().2),
        ]
    }

    /// The draft logits of a hidden state, read back to the host from buffer 0.
    pub fn topk_hidden(&self, hidden: Ptr) -> (r: Vec<Op>)
        requires
            self.draft_ok(),
        ensures
            r@ == self.topk_hidden_ops(hidden),
    {
        let vocab: usize = self.draft_vocab();
        let mut r: Vec<Op> = self.draft_logits(hidden, 0);
        let last: Vec<Op> = vec![Op::Sync, give16(0, vocab)];
        chain(&mut r, last);
        r
    }

    /// The penalty of a draft, where there is one.
    pub open spec fn draft_penalty_ops(&self, p: Option<DraftPenalty>) -> Seq<Op> {
        match p {
            Some(p) => seq![
                Op::Launch(
                    Call::RepPenalty {
                        logits: temp(41),
                        tokens: at(Region::Raw(p.tokens_ptr)),
                        counts: at(Region::Raw(p.counts_ptr)),
                        rep: at(Region::Raw(p.rep_pen_ptr)),
                        presence: at(Region::Raw(p.presence_ptr)),
                        freq: at(Region::Raw(p.freq_ptr)),
                        vocab: self.draft_head_of().2 as i32,
                        n: 1,
                    },
                ),
            ],
            None => Seq::<Op>::empty(),
        }
    }

    /// What turns a draft step's hidden state, buffer 40, into a sampled draft: its row is buffer 42 and
    /// its probability buffer 43. The probability is that of the very distribution that was sampled,
    /// also where the draft head keeps only part of the vocabulary.
    pub open spec fn sample_draft_ops(&self, p: Option<DraftPenalty>) -> Seq<Op> {
        let vocab = self.draft_head_of().2;
        self.draft_logits_ops(temp(40), 41) + self.draft_penalty_ops(p) + seq![
            Op::Alloc { id: 42, len: 1 },
            get32(43, 1),
            get32(44, 1),
            Op::Alloc { id: 45, len: 1 },
            get32(46, 1),
            Op::Alloc { id: 47, len: 1 },
            Op::Upload { table: Table::Temps, dst: temp(44) },
            Op::Upload { table: Table::TopK, dst: temp(45) },
            Op::Upload { table: Table::TopP, dst: temp(46) },
            Op::Upload { table: Table::Seeds, dst: temp(47) },
        ] + seq![
            Op::Sync,
            Op::Launch(
                Call::SampleProb {
                    out: temp(42),
                    prob: temp(43),
                    logits: temp(41),
                    temps: temp(44),
                    topk: temp(45),
                    topp: temp(46),
                    seeds: temp(47),
                    vocab: vocab as i32,
                    n: 1,
                },
            ),
            put16(41, vocab),
            put32(44, 1),
            put32(46, 1),
            Op::Sync,
            put32(43, 1),
        ]
    }

    /// What turns a draft step's hidden state into a sampled draft.
    pub(crate) fn mtp_sample_draft(&self, p: Option<DraftPenalty>) -> (r: Vec<Op>)
        requires
            self.draft_ok(),
        ensures
            r@ == self.sample_draft_ops(p),
    {
        let vocab: usize = self.draft_vocab();
        let mut r: Vec<Op> = self.draft_logits(tmp(40), 41);
        let pen: Vec<Op> = match p {
            Some(p) => vec![
                Op::Launch(
                    Call::RepPenalty {
                        logits: tmp(41),
                        tokens: ptr(Region::Raw(p.tokens_ptr)),
                        counts: ptr(Region::Raw(p.counts_ptr)),
                        rep: ptr(Region::Raw(p.rep_pen_ptr)),
                        presence: ptr(Region::Raw(p.presence_ptr)),
                        freq: ptr(Region::Raw(p.freq_ptr)),
                        vocab: int32(vocab),
                        n: 1,
                    },
                ),
            ],
            None => Vec::new(),
        };
        chain(&mut r, pen);
        let last: Vec<Op> = vec![
            Op::Alloc { id: 42, len: 1 },
            borrow32(43, 1),
            borrow32(44, 1),
            Op::Alloc { id: 45, len: 1 },
            borrow32(46, 1),
            Op::Alloc { id: 47, len: 1 },
            Op::Upload { table: Table::Temps, dst: tmp(44) },
            Op::Upload { table: Table::TopK, dst: tmp(45) },
            Op::Upload { table: Table::TopP, dst: tmp(46) },
            Op::Upload { table: Table::Seeds, dst: tmp(47) },
            Op::Sync,
            Op::Launch(
                Call::SampleProb {
                    out: tmp(42),
                    prob: tmp(43),
                    logits: tmp(41),
                    temps: tmp(44),
                    topk: tmp(45),
                    topp: tmp(46),
                    seeds: tmp(47),
                    vocab: int32(vocab),
                    n: 1,
                },
            ),
            give16(41, vocab),
            give32(44, 1),
            give32(46, 1),
            Op::Sync,
            give32(43, 1),
        ];
        chain(&mut r, last);
        proof {
            assert(r@ =~= self.sample_draft_ops(p));
        }
        r
    }

    /// A draft step and the draft sampled from it.
    pub open spec fn sampled_draft_ops(
        &self,
        hidden: Ptr,
        pos: usize,
        kc: Ptr,
        vc: Ptr,
        kv_stride: usize,
        p: Option<DraftPenalty>,
    ) -> Seq<Op> {
        self.draft_pass_ops(hidden, pos, kc, vc, kv_stride) + seq![
            put32(0, self.cfg.rotary_dim as int),
            put32(1, self.cfg.rotary_dim as int),
        ] + self.sample_draft_ops(p)
    }

    /// One draft step at position `pos` and the draft sampled from it: the next hidden state is buffer
    /// 40, the draft 42, its probability 43.
    pub fn mtp_draft_step_sample(
        &self,
        hidden: Ptr,
        pos: usize,
        kc: Ptr,
        vc: Ptr,
        kv_stride: usize,
        p: Option<DraftPenalty>,
    ) -> (r: Vec<Op>)
        requires
            self.draft_step_ok(hidden, pos, kc, vc, kv_stride),
            self.draft_ok(),
        ensures
            r@ == self.sampled_draft_ops(hidden, pos, kc, vc, kv_stride, p),
    {
        let rd: usize = self.cfg.rotary_dim;
        let mut r: Vec<Op> = self.draft_pass(hidden, pos, kc, vc, kv_stride);
        let angles: Vec<Op> = vec![give32(0, rd), give32(1, rd)];
        chain(&mut r, angles);
        chain(&mut r, self.mtp_sample_draft(p));
        r
    }

    // ---- scoring a window ----

    /// The logits of a prefilled window: its pre-norm residual is buffer 1, the logits are buffer 2.
    pub open spec fn window_logits_ops(&self, n: int) -> Seq<Op> {
        let h = self.cfg.hidden_size as int;
        seq![
            get16(0, h * n),
            self.norm_op(0, 1, at(Region::FinalNorm), n as usize),
            put16(1, h * n),
        ] + self.logits_ops(temp(0), n, 2) + seq![put16(0, h * n)]
    }

    fn window_logits(&self, n: usize) -> (r: Vec<Op>)
        requires
            self.head_ok(n as int),
            self.cfg.hidden_size * n <= usize::MAX,
        ensures
            r@ == self.window_logits_ops(n as int),
    {
        let h: usize = self.cfg.hidden_size;
        proof {
            assert(0 <= h * n) by (nonlinear_arith);
        }
        let mut r: Vec<Op> = vec![
            borrow16(0, h * n),
            self.norm(0, 1, ptr(Region::FinalNorm), n),
            give16(1, h * n),
        ];
        chain(&mut r, self.logits_batch(tmp(0), n, 2));
        let last: Vec<Op> = vec![give16(0, h * n)];
        chain(&mut r, last);
        proof {
            assert(r@ =~= self.window_logits_ops(n as int));
        }
        r
    }

    /// What scores the tokens of a window.
    pub open spec fn nll_ops(&self, n: usize) -> Seq<Op> {
        self.window_logits_ops(n as int) + seq![
            Op::Alloc { id: 3, len: (n - 1) as usize },
            Op::Upload { table: Table::Targets, dst: temp(3) },
            get32(4, n - 1),
            Op::Sync,
            Op::Launch(
                Call::Nll {
                    out: temp(4),
                    logits: temp(2),
                    targets: temp(3),
                    vocab: self.cfg.vocab_size as i32,
                    n: (n - 1) as i32,
                },
            ),
            put16(2, self.cfg.vocab_size * n),
            Op::Sync,
            put32(4, n - 1),
        ]
    }

    /// Scores the tokens of a window: position `i` predicts token `i + 1`, so `n` tokens give `n - 1`
    /// scores, which land in buffer 4. Returns the program and the number of scores.
    pub fn window_nll(&self, n: usize) -> (r: (Vec<Op>, usize))
        requires
            n >= 2,
            self.head_ok(n as int),
            self.cfg.hidden_size * n <= usize::MAX,
        ensures
            r.1 == n - 1,
            r.0@ == self.nll_ops(n),
    {
        proof {
            assert(0 <= self.cfg.vocab_size * n) by (nonlinear_arith);
        }
        let ns: usize = n - 1;
        let mut r: Vec<Op> = self.window_logits(n);
        let last: Vec<Op> = vec![
            Op::Alloc { id: 3, len: ns },
            Op::Upload { table: Table::Targets, dst: tmp(3) },
            borrow32(4, ns),
            Op::Sync,
            Op::Launch(
                Call::Nll {
                    out: tmp(4),
                    logits: tmp(2),
                    targets: tmp(3),
                    vocab: int32(self.cfg.vocab_size),
                    n: int32(ns),
                },
            ),
            give16(2, self.cfg.vocab_size * n),
            Op::Sync,
            give32(4, ns),
        ];
        chain(&mut r, last);
        (r, ns)
    }

    /// What finds the greedy token after every position of a window.
    pub open spec fn window_argmax_ops(&self, n: usize) -> Seq<Op> {
        self.window_logits_ops(n as int) + seq![
            Op::Alloc { id: 3, len: n },
            Op::Launch(
                Call::Argmax {
                    out: temp(3),
                    logits: temp(2),
                    vocab: self.cfg.vocab_size as i32,
                    n: n as i32,
                },
            ),
            put16(2, self.cfg.vocab_size * n),
            Op::Sync,
        ]
    }

    /// The greedy token after every position of a window; they land in buffer 3.
    pub fn window_argmax(&self, n: usize) -> (r: Vec<Op>)
        requires
            n >= 1,
            self.head_ok(n as int),
            self.cfg.hidden_size * n <= usize::MAX,
        ensures
            r@ == self.window_argmax_ops(n),
    {
        proof {
            assert(0 <= self.cfg.vocab_size * n) by (nonlinear_arith);
        }
        let mut r: Vec<Op> = self.window_logits(n);
        let last: Vec<Op> = vec![
            Op::Alloc { id: 3, len: n },
            Op::Launch(
                Call::Argmax {
                    out: tmp(3),
                    logits: tmp(2),
                    vocab: int32(self.cfg.vocab_size),
                    n: int32(n),
                },
            ),
            give16(2, self.cfg.vocab_size * n),
            Op::Sync,
        ];
        chain(&mut r, last);
        r
    }

    /// The first layer with experts.
    pub fn first_moe(&self) -> (r: Option<(usize, GpuMoe)>)
        ensures
            match r {
                Some((i, m)) => i < self.layers@.len() && self.layers@[i as int].mlp == Ffn::Moe(m)
                    && forall|j: int| 0 <= j < i ==> !((#[trigger] self.layers@[j]).mlp is Moe),
                None => forall|j: int|
                    0 <= j < self.layers@.len() ==> !((#[trigger] self.layers@[j]).mlp is Moe),
            },
    {
        let mut i: usize = 0;
        while i < self.layers.len()
            invariant
                i <= self.layers@.len(),
                forall|j: int| 0 <= j < i ==> !((#[trigger] self.layers@[j]).mlp is Moe),
            decreases self.layers@.len() - i,
        {
            if let Ffn::Moe(m) = self.layers[i].mlp {
                return Some((i, m));
            }
            i = i + 1;
        }
        None
    }

    /// The first layer with experts, and its block run on `n` uploaded columns, buffer 0; the result is
    /// buffer 2.
    pub fn probe_moe(&self, n: usize) -> (r: Option<(usize, Vec<Op>)>)
        requires
            forall|i: int|
                0 <= i < self.layers@.len() ==> match (#[trigger] self.layers@[i]).mlp {
                    Ffn::Moe(m) => self.moe_ok(m, n as int),
                    _ => true,
                },
        ensures
            match r {
                Some((i, ops)) => i < self.layers@.len() && self.layers@[i as int].mlp is Moe
                    && ops@ == self.moe_ops(
                    Block::Layer(i),
                    self.layers@[i as int].mlp->Moe_0,
                    temp(0),
                    n as int,
                    1,
                ).push(Op::Sync) && forall|j: int|
                    0 <= j < i ==> !((#[trigger] self.layers@[j]).mlp is Moe),
                None => forall|j: int|
                    0 <= j < self.layers@.len() ==> !((#[trigger] self.layers@[j]).mlp is Moe),
            },
    {
        match self.first_moe() {
            Some((i, m)) => {
                let mut ops: Vec<Op> = self.moe_batch(Block::Layer(i), m, tmp(0), n, 1);
                ops.push(Op::Sync);
                Some((i, ops))
            },
            None => None,
        }
    }
}

// ---- packed sampling parameters ----

/// What a sampling verify uploads in one piece each.
pub struct VerifyParams<F> {
    /// Temperatures, then top-p, then the probabilities of the drafts: a row of each.
    pub floats: Vec<F>,
    /// Draft tokens, then top-k: a row of each.
    pub ints: Vec<i32>,
}

/// A row of sixteen places: the given entries, then zeros.
pub open spec fn place_row<T>(v: Seq<T>, zero: T) -> Seq<T> {
    v + fill((16 - v.len()) as nat, zero)
}

/// Packs the parameters of a sampling verify of `n` columns. Every column has the same temperature,
/// top-p and top-k; the last column has no draft.
pub fn pack_verify<F: Copy>(
    n: usize,
    zero: F,
    temp: F,
    top_p: F,
    top_k: i32,
    draft_tokens: &[i32],
    draft_qprobs: &[F],
) -> (r: VerifyParams<F>)
    requires
        1 <= n <= MAX_VERIFY,
        draft_tokens@.len() == n - 1,
        draft_qprobs@.len() == n - 1,
    ensures
        r.floats@ == place_row(fill(n as nat, temp), zero) + place_row(fill(n as nat, top_p), zero)
            + place_row(draft_qprobs@, zero),
        r.ints@ == place_row(draft_tokens@, 0) + place_row(fill(n as nat, top_k), 0),
{
    let temps: Vec<F> = filled(n, temp);
    let tops: Vec<F> = filled(n, top_p);
    let ks: Vec<i32> = filled(n, top_k);
    let mut floats: Vec<F> = pad_redzone(temps.as_slice(), MAX_VERIFY, zero);
    let b: Vec<F> = pad_redzone(tops.as_slice(), MAX_VERIFY, zero);
    let c: Vec<F> = pad_redzone(draft_qprobs, MAX_VERIFY, zero);
    extend_range(&mut floats, b.as_slice(), 0, b.len());
    extend_range(&mut floats, c.as_slice(), 0, c.len());
    let mut ints: Vec<i32> = pad_redzone(draft_tokens, MAX_VERIFY, 0);
    let k: Vec<i32> = pad_redzone(ks.as_slice(), MAX_VERIFY, 0);
    extend_range(&mut ints, k.as_slice(), 0, k.len());
    proof {
        assert(b@.subrange(0, b@.len() as int) =~= b@);
        assert(c@.subrange(0, c@.len() as int) =~= c@);
        assert(k@.subrange(0, k@.len() as int) =~= k@);
    }
    VerifyParams { floats, ints }
}

/// What a sampling verify reports.
pub struct VerifySample<F> {
    /// The model's probability of every draft.
    pub p_of_draft: Vec<F>,
    /// The token to emit in place of a rejected draft.
    pub resid_tok: Vec<u32>,
    /// The token to emit after the last draft, where all were accepted.
    pub bonus_tok: u32,
}

/// Takes apart what a sampling verify of `n` columns wrote: the last column has no draft, and its token
/// is the bonus.
pub fn unpack_verify<F: Copy>(n: usize, probs: &[F], tokens: &[i32]) -> (r: VerifySample<F>)
    requires
        1 <= n,
        n <= probs@.len(),
        n <= tokens@.len(),
    ensures
        r.p_of_draft@ == probs@.take(n - 1),
        r.resid_tok@ == Seq::new((n - 1) as nat, |i: int| tokens@[i] as u32),
        r.bonus_tok == tokens@[n - 1] as u32,
{
    let bonus_tok: u32 = #[verifier::truncate]
    (tokens[n - 1] as u32);
    VerifySample {
        p_of_draft: crate::seqs::prefix(probs, n - 1),
        resid_tok: read_tokens(tokens, n - 1),
        bonus_tok,
    }
}

/// The first `batch` token ids of a staging buffer.
pub fn read_tokens(ids: &[i32], batch: usize) -> (r: Vec<u32>)
    ensures
        r@ == Seq::new(
            if batch <= ids@.len() {
                batch as nat
            } else {
                ids@.len()
            },
            |i: int| ids@[i] as u32,
        ),
{
    let n: usize = if batch <= ids.len() {
        batch
    } else {
        ids.len()
    };
    let mut r: Vec<u32> = Vec::new();
    let mut i: usize = 0;
    while i < n
        invariant
            i <= n <= ids@.len(),
            r@ == Seq::new(i as nat, |i: int| ids@[i] as u32),
        decreases n - i,
    {
        let t: u32 = #[verifier::truncate]
        (ids[i] as u32);
        r.push(t);
        i = i + 1;
        proof {
            assert(r@ =~= Seq::new(i as nat, |i: int| ids@[i] as u32));
        }
    }
    r
}

// ---- staging buffers ----

/// What a staging buffer of the decode loop starts out with.
#[derive(Clone, Copy, Debug, PartialEq, Eq, Structural)]
pub enum Initial {
    Zeros,
    /// The number one, in the buffer's own type.
    Ones,
    /// Minus one: no token.
    MinusOnes,
    /// Lane `i` uses slot `i`.
    Identity,
}

/// Length and first contents of a staging buffer for `max_batch` lanes. Sampling starts out neutral:
/// temperature, top-k, top-p and repetition penalty one, the other penalties zero.
pub fn decode_buffer(b: DecodeBuf, max_batch: usize, rotary_dim: usize) -> (r: (usize, Initial))
    requires
        max_batch * rotary_dim <= usize::MAX,
        max_batch * 64 <= usize::MAX,
    ensures
        r.0 == (match b {
            DecodeBuf::Cos | DecodeBuf::Sin => max_batch * rotary_dim,
            DecodeBuf::PenaltyTokens | DecodeBuf::PenaltyCounts => max_batch * 64,
            _ => max_batch as int,
        }),
        r.1 == (match b {
            DecodeBuf::SlotIds => Initial::Identity,
            DecodeBuf::PenaltyTokens => Initial::MinusOnes,
            DecodeBuf::Temps | DecodeBuf::TopK | DecodeBuf::TopP | DecodeBuf::RepPen => Initial::Ones,
            _ => Initial::Zeros,
        }),
{
    let len: usize = match b {
        DecodeBuf::Cos | DecodeBuf::Sin => max_batch * rotary_dim,
        DecodeBuf::PenaltyTokens | DecodeBuf::PenaltyCounts => max_batch
            * crate::gpu::model::MAX_PEN_TOKENS,
        _ => max_batch,
    };
    let init: Initial = match b {
        DecodeBuf::SlotIds => Initial::Identity,
        DecodeBuf::PenaltyTokens => Initial::MinusOnes,
        DecodeBuf::Temps | DecodeBuf::TopK | DecodeBuf::TopP | DecodeBuf::RepPen => Initial::Ones,
        _ => Initial::Zeros,
    };
    (len, init)
}

/// Bytes of a persistent scratch buffer; none for the two whose size the model decides.
pub fn scratch_bytes(s: Scratch) -> (n: Option<usize>)
    ensures
        n == (match s {
            Scratch::HeadVisits | Scratch::Dequant => None,
            Scratch::DraftTok | Scratch::DraftPos => Some(4usize),
            Scratch::Path => Some((MAX_VERIFY * MAX_VERIFY) as usize),
            Scratch::WinSrc => Some((4 * 8 * MAX_VERIFY) as usize),
            Scratch::MoeIds | Scratch::MoeWts => Some((4 * 16 * MAX_VERIFY) as usize),
            Scratch::SampleF32 => Some((4 * 3 * MAX_VERIFY) as usize),
            Scratch::SampleI32 => Some((4 * 2 * MAX_VERIFY) as usize),
            _ => Some((4 * MAX_VERIFY) as usize),
        }),
{
    match s {
        Scratch::HeadVisits | Scratch::Dequant => None,
        Scratch::DraftTok | Scratch::DraftPos => Some(4),
        Scratch::Path => Some(MAX_VERIFY * MAX_VERIFY),
        Scratch::WinSrc => Some(4 * 8 * MAX_VERIFY),
        Scratch::MoeIds | Scratch::MoeWts => Some(4 * 16 * MAX_VERIFY),
        Scratch::SampleF32 => Some(4 * 3 * MAX_VERIFY),
        Scratch::SampleI32 => Some(4 * 2 * MAX_VERIFY),
        _ => Some(4 * MAX_VERIFY),
    }
}

/// Whether a decode graph may be captured: between two ranks no barrier may be in flight, that is, the
/// device's epoch must be the one it has published.
pub fn may_capture(world: i32, epoch: u64, ready: u64) -> (b: bool)
    ensures
        b == (world != 2 || epoch == ready),
{
    world != 2 || epoch == ready
}

} // verus!
