//! The draft head: its forward pass, priming its cache over a prompt, and rewriting it after a verify.
use vstd::prelude::*;

use crate::gpu::attn::{AttnCall, AttnMode};
use crate::gpu::ffn::dense;
use crate::gpu::gemm::{gemm_act, gemm_ops, shift, shifted};
use crate::gpu::model::{GpuModel, GpuMtpLayer};
use crate::gpu::program::{
    at, borrow16, borrow32, chain, get16, get32, give16, give32, int32, ptr, put16, put32, temp, tmp,
    Block, BlockVec, Call, Op, Proj, Ptr, Region, Scratch, Table, WeightId,
};
use crate::gpu::steps::pass_positions;
use crate::gpu::topo::MAX_VERIFY;
use crate::mma::div_up;
use crate::seqs::{min_int, min_usize};

verus! {

/// Columns of one priming pass. Bounds the scratch it needs; the passes are chained by position, so the
/// result does not depend on it.
pub const PRIME_CHUNK: usize = 2048;

/// Buffer numbers that a draft-head pass uses.
pub const MTP_IDS: usize = 40;

/// One draft-head forward over `n` columns.
#[derive(Clone, Copy, PartialEq, Eq, Structural)]
pub struct MtpCall {
    /// Hidden states of the trunk (or of an earlier draft).
    pub hidden: Ptr,
    /// Tokens that follow them.
    pub tokens: Ptr,
    pub pos: Ptr,
    /// The head's own single-lane cache.
    pub kc: Ptr,
    pub vc: Ptr,
    pub max_pc: usize,
    pub cos: Ptr,
    pub sin: Ptr,
    pub kv_stride: usize,
    pub n: usize,
    /// First position, for a run of columns; none for separate columns.
    pub run: Option<usize>,
    /// First buffer number; the result is buffer `first + 38`.
    pub first: usize,
}

impl GpuModel {
    /// The draft head's attention.
    pub open spec fn mtp_attn(&self, c: MtpCall) -> AttnCall {
        AttnCall {
            block: Block::Mtp,
            fa: self.mtp->0.fa,
            x: temp(c.first + 4),
            cos: c.cos,
            sin: c.sin,
            kc: c.kc,
            vc: c.vc,
            kv_stride: c.kv_stride,
            n: c.n,
            sharded: false,
            mode: match c.run {
                Some(p) => AttnMode::Run { pos: p },
                None => AttnMode::Columns {
                    pos: c.pos,
                    slots: at(Region::Scratch(Scratch::MtpSlots)),
                    max_pc: c.max_pc,
                    path: at(Region::Null),
                    rope: at(Region::Null),
                    starts: at(Region::Null),
                },
            },
            first: (c.first + 5) as usize,
        }
    }

    /// The draft head can run `c`.
    pub open spec fn mtp_ok(&self, c: MtpCall) -> bool {
        let h = self.cfg.hidden_size as int;
        &&& self.mtp is Some
        &&& dense(self.mtp->0.fc)
        &&& dense(self.embed)
        &&& 2 * h <= i32::MAX
        &&& c.n <= i32::MAX
        &&& h * c.n <= i32::MAX
        &&& 2 * h * c.n <= i32::MAX
        &&& c.first + MTP_IDS <= usize::MAX
        &&& self.attn_ok(self.mtp_attn(c))
        &&& self.ffn_ok(self.mtp->0.mlp, c.n as int, false)
    }

    /// A norm with one of the draft head's own vectors.
    pub open spec fn mtp_norm_op(&self, out: Ptr, x: Ptr, v: BlockVec, n: usize) -> Op {
        Op::Launch(
            Call::Rmsnorm {
                out,
                x,
                w: at(Region::Vector(Block::Mtp, v)),
                h: self.cfg.hidden_size as i32,
                n: n as i32,
                eps: self.cfg.rms_eps_bits,
            },
        )
    }

    fn mtp_norm(&self, out: Ptr, x: Ptr, v: BlockVec, n: usize) -> (op: Op)
        requires
            self.cfg.hidden_size <= i32::MAX,
            n <= i32::MAX,
        ensures
            op == self.mtp_norm_op(out, x, v, n),
    {
        Op::Launch(
            Call::Rmsnorm {
                out,
                x,
                w: ptr(Region::Vector(Block::Mtp, v)),
                h: int32(self.cfg.hidden_size),
                n: int32(n),
                eps: self.cfg.rms_eps_bits,
            },
        )
    }

    /// The draft head's forward pass: norm hidden and embedding, join and project them, then a pre-norm
    /// decoder layer whose raw residual feeds the feed-forward add, then the head's final norm. The
    /// head is whole on every rank and never waits for a peer.
    pub open spec fn mtp_ops(&self, c: MtpCall) -> Seq<Op> {
        let (t, n) = (c.first as int, c.n as int);
        let h = self.cfg.hidden_size as int;
        let m = self.mtp->0;
        let fed = Self::ffn_out(m.mlp, t + 19);
        seq![
            get16(t, h * n),
            self.mtp_norm_op(temp(t), c.hidden, BlockVec::PreFcHidden, c.n),
            get16(t + 1, h * n),
            self.embed_op(temp(t + 1), c.tokens, n),
            self.mtp_norm_op(temp(t + 1), temp(t + 1), BlockVec::PreFcEmbed, c.n),
            get16(t + 2, 2 * h * n),
            Op::Launch(
                Call::Concat {
                    out: temp(t + 2),
                    first: temp(t + 1),
                    second: temp(t),
                    h: h as i32,
                    n: n as i32,
                },
            ),
            put16(t, h * n),
            put16(t + 1, h * n),
            get16(t + 3, h * n),
        ] + gemm_ops(
            m.fc,
            WeightId::Of(Block::Mtp, Proj::Fc),
            temp(t + 2),
            temp(t + 3),
            2 * h,
            h,
            n,
        ) + seq![
            put16(t + 2, 2 * h * n),
            get16(t + 4, h * n),
            self.mtp_norm_op(temp(t + 4), temp(t + 3), BlockVec::InputNorm, c.n),
        ] + self.full_attn_ops(self.mtp_attn(c)) + seq![
            Op::Launch(
                Call::FusedResRmsnorm {
                    out: temp(t + 4),
                    residual: temp(t + 3),
                    add: temp(t + 17),
                    w: at(Region::Vector(Block::Mtp, BlockVec::PostNorm)),
                    h: h as i32,
                    n: n as i32,
                    eps: self.cfg.rms_eps_bits,
                },
            ),
        ] + self.ffn_ops(Block::Mtp, m.mlp, temp(t + 4), n, false, t + 19) + seq![
            Op::Launch(
                Call::AddResidual {
                    residual: temp(t + 3),
                    add: temp(fed),
                    tot: (h * n) as i32,
                },
            ),
            put16(t + 17, h * n),
            put16(fed, h * n),
            put16(t + 4, h * n),
            get16(t + 38, h * n),
            self.mtp_norm_op(temp(t + 38), temp(t + 3), BlockVec::FinalNorm, c.n),
            put16(t + 3, h * n),
        ]
    }

    /// The draft head's forward pass; the result is buffer `first + 38`.
    pub fn mtp_forward(&self, c: MtpCall) -> (r: Vec<Op>)
        requires
            self.mtp_ok(c),
        ensures
            r@ == self.mtp_ops(c),
    {
        let (t, n) = (c.first, c.n);
        let h: usize = self.cfg.hidden_size;
        proof {
            assert(0 <= h * n) by (nonlinear_arith);
            assert(2 * h * n == 2 * (h * n)) by (nonlinear_arith);
        }
        let hn: usize = h * n;
        let m: GpuMtpLayer = self.mtp.unwrap();
        let mode: AttnMode = match c.run {
            Some(p) => AttnMode::Run { pos: p },
            None => AttnMode::Columns {
                pos: c.pos,
                slots: ptr(Region::Scratch(Scratch::MtpSlots)),
                max_pc: c.max_pc,
                path: ptr(Region::Null),
                rope: ptr(Region::Null),
                starts: ptr(Region::Null),
            },
        };
        let attn: AttnCall = AttnCall {
            block: Block::Mtp,
            fa: m.fa,
            x: tmp(t + 4),
            cos: c.cos,
            sin: c.sin,
            kc: c.kc,
            vc: c.vc,
            kv_stride: c.kv_stride,
            n,
            sharded: false,
            mode,
            first: t + 5,
        };
        proof {
            assert(attn == self.mtp_attn(c));
        }
        let mut r: Vec<Op> = vec![
            borrow16(t, hn),
            self.mtp_norm(tmp(t), c.hidden, BlockVec::PreFcHidden, n),
            borrow16(t + 1, hn),
            self.embed_gather(tmp(t + 1), c.tokens, n),
            self.mtp_norm(tmp(t + 1), tmp(t + 1), BlockVec::PreFcEmbed, n),
            borrow16(t + 2, 2 * h * n),
            Op::Launch(
                Call::Concat {
                    out: tmp(t + 2),
                    first: tmp(t + 1),
                    second: tmp(t),
                    h: int32(h),
                    n: int32(n),
                },
            ),
            give16(t, hn),
            give16(t + 1, hn),
            borrow16(t + 3, hn),
        ];
        let ghost a0 = r@;
        chain(
            &mut r,
            gemm_act(
                m.fc,
                WeightId::Of(Block::Mtp, Proj::Fc),
                tmp(t + 2),
                tmp(t + 3),
                2 * h,
                h,
                n,
            ),
        );
        let mid: Vec<Op> = vec![
            give16(t + 2, 2 * h * n),
            borrow16(t + 4, hn),
            self.mtp_norm(tmp(t + 4), tmp(t + 3), BlockVec::InputNorm, n),
        ];
        let ghost mid0 = mid@;
        chain(&mut r, mid);
        chain(&mut r, self.full_attn_batch(attn));
        let res: Vec<Op> = vec![
            Op::Launch(
                Call::FusedResRmsnorm {
                    out: tmp(t + 4),
                    residual: tmp(t + 3),
                    add: tmp(t + 17),
                    w: ptr(Region::Vector(Block::Mtp, BlockVec::PostNorm)),
                    h: int32(h),
                    n: int32(n),
                    eps: self.cfg.rms_eps_bits,
                },
            ),
        ];
        let ghost res0 = res@;
        chain(&mut r, res);
        let (ffn, fed) = self.ffn_batch(Block::Mtp, m.mlp, tmp(t + 4), n, false, t + 19);
        chain(&mut r, ffn);
        let last: Vec<Op> = vec![
            Op::Launch(
                Call::AddResidual { residual: tmp(t + 3), add: tmp(fed), tot: int32(hn) },
            ),
            give16(t + 17, hn),
            give16(fed, hn),
            give16(t + 4, hn),
            borrow16(t + 38, hn),
            self.mtp_norm(tmp(t + 38), tmp(t + 3), BlockVec::FinalNorm, n),
            give16(t + 3, hn),
        ];
        let ghost last0 = last@;
        chain(&mut r, last);
        proof {
            assert(a0 =~= seq![
                get16(t as int, h * n),
                self.mtp_norm_op(temp(t as int), c.hidden, BlockVec::PreFcHidden, c.n),
                get16(t + 1, h * n),
                self.embed_op(temp(t + 1), c.tokens, n as int),
                self.mtp_norm_op(temp(t + 1), temp(t + 1), BlockVec::PreFcEmbed, c.n),
                get16(t + 2, 2 * h * n),
                Op::Launch(
                    Call::Concat {
                        out: temp(t + 2),
                        first: temp(t + 1),
                        second: temp(t as int),
                        h: h as i32,
                        n: n as i32,
                    },
                ),
                put16(t as int, h * n),
                put16(t + 1, h * n),
                get16(t + 3, h * n),
            ]);
            assert(mid0 =~= seq![
                put16(t + 2, 2 * h * n),
                get16(t + 4, h * n),
                self.mtp_norm_op(temp(t + 4), temp(t + 3), BlockVec::InputNorm, c.n),
            ]);
            assert(res0 =~= seq![
                Op::Launch(
                    Call::FusedResRmsnorm {
                        out: temp(t + 4),
                        residual: temp(t + 3),
                        add: temp(t + 17),
                        w: at(Region::Vector(Block::Mtp, BlockVec::PostNorm)),
                        h: h as i32,
                        n: n as i32,
                        eps: self.cfg.rms_eps_bits,
                    },
                ),
            ]);
            assert(last0 =~= seq![
                Op::Launch(
                    Call::AddResidual {
                        residual: temp(t + 3),
                        add: temp(fed as int),
                        tot: (h * n) as i32,
                    },
                ),
                put16(t + 17, h * n),
                put16(fed as int, h * n),
                put16(t + 4, h * n),
                get16(t + 38, h * n),
                self.mtp_norm_op(temp(t + 38), temp(t + 3), BlockVec::FinalNorm, c.n),
                put16(t + 3, h * n),
            ]);
        }
        r
    }

    /// The forward pass behind a draft step or a re-prime: separate columns whose tokens and positions
    /// are in scratch, angles in buffers 0 and 1.
    pub open spec fn mtp_columns(
        &self,
        hidden: Ptr,
        tokens: Scratch,
        pos: Scratch,
        kc: Ptr,
        vc: Ptr,
        max_pc: usize,
        kv_stride: usize,
        n: usize,
    ) -> MtpCall {
        MtpCall {
            hidden,
            tokens: at(Region::Scratch(tokens)),
            pos: at(Region::Scratch(pos)),
            kc,
            vc,
            max_pc,
            cos: temp(0),
            sin: temp(1),
            kv_stride,
            n,
            run: None,
            first: 2,
        }
    }

    /// What rewrites the head's cache over `n` accepted columns from `pos_start` on.
    pub open spec fn reprime_ops(
        &self,
        hidden: Ptr,
        n: usize,
        pos_start: usize,
        kc: Ptr,
        vc: Ptr,
        kv_stride: usize,
    ) -> Seq<Op> {
        seq![
            Op::Upload { table: Table::Tokens, dst: at(Region::Scratch(Scratch::ReprimeTok)) },
            Op::Upload { table: Table::Pos, dst: at(Region::Scratch(Scratch::ReprimePos)) },
            Op::Sync,
            get32(0, self.cfg.rotary_dim * n),
            get32(1, self.cfg.rotary_dim * n),
            self.rope_op(
                temp(0),
                temp(1),
                at(Region::Scratch(Scratch::ReprimePos)),
                n as int,
            ),
        ] + self.mtp_ops(
            self.mtp_columns(
                hidden,
                Scratch::ReprimeTok,
                Scratch::ReprimePos,
                kc,
                vc,
                (pos_start + n) as usize,
                kv_stride,
                n,
            ),
        ) + seq![
            put32(0, self.cfg.rotary_dim * n),
            put32(1, self.cfg.rotary_dim * n),
            put16(40, self.cfg.hidden_size * n),
        ]
    }

    /// Rewrites the head's cache over the accepted prefix from the model's real hidden states, in one
    /// pass. The result is not used: only the cache writes matter.
    pub fn mtp_reprime(
        &self,
        hidden: Ptr,
        n: usize,
        pos_start: usize,
        kc: Ptr,
        vc: Ptr,
        kv_stride: usize,
    ) -> (r: Vec<Op>)
        requires
            n <= MAX_VERIFY,
            pos_start + n <= usize::MAX,
            n >= 1 ==> self.rope_ok(n as int) && self.mtp_ok(
                self.mtp_columns(
                    hidden,
                    Scratch::ReprimeTok,
                    Scratch::ReprimePos,
                    kc,
                    vc,
                    (pos_start + n) as usize,
                    kv_stride,
                    n,
                ),
            ),
        ensures
            n == 0 ==> r@.len() == 0,
            n >= 1 ==> r@ == self.reprime_ops(hidden, n, pos_start, kc, vc, kv_stride),
    {
        if n == 0 {
            return Vec::new();
        }
        let (h, rd) = (self.cfg.hidden_size, self.cfg.rotary_dim);
        proof {
            assert(0 <= rd * n && 0 <= h * n) by (nonlinear_arith);
        }
        let tok: Ptr = ptr(Region::Scratch(Scratch::ReprimeTok));
        let pos: Ptr = ptr(Region::Scratch(Scratch::ReprimePos));
        let mut r: Vec<Op> = vec![
            Op::Upload { table: Table::Tokens, dst: tok },
            Op::Upload { table: Table::Pos, dst: pos },
            Op::Sync,
            borrow32(0, rd * n),
            borrow32(1, rd * n),
            self.rope(tmp(0), tmp(1), pos, n),
        ];
        let c: MtpCall = MtpCall {
            hidden,
            tokens: tok,
            pos,
            kc,
            vc,
            max_pc: pos_start + n,
            cos: tmp(0),
            sin: tmp(1),
            kv_stride,
            n,
            run: None,
            first: 2,
        };
        chain(&mut r, self.mtp_forward(c));
        let last: Vec<Op> = vec![give32(0, rd * n), give32(1, rd * n), give16(40, h * n)];
        chain(&mut r, last);
        proof {
            assert(r@ =~= self.reprime_ops(hidden, n, pos_start, kc, vc, kv_stride));
        }
        r
    }

    /// What leads from a draft's token and position to the next hidden state, buffer 40.
    pub open spec fn draft_pass_ops(
        &self,
        hidden: Ptr,
        pos: usize,
        kc: Ptr,
        vc: Ptr,
        kv_stride: usize,
    ) -> Seq<Op> {
        seq![
            Op::Upload { table: Table::Tokens, dst: at(Region::Scratch(Scratch::DraftTok)) },
            Op::Upload { table: Table::Pos, dst: at(Region::Scratch(Scratch::DraftPos)) },
            Op::Sync,
            get32(0, self.cfg.rotary_dim as int),
            get32(1, self.cfg.rotary_dim as int),
            self.rope_op(temp(0), temp(1), at(Region::Scratch(Scratch::DraftPos)), 1),
        ] + self.mtp_ops(
            self.mtp_columns(
                hidden,
                Scratch::DraftTok,
                Scratch::DraftPos,
                kc,
                vc,
                (pos + 1) as usize,
                kv_stride,
                1,
            ),
        )
    }

    /// A draft step that can be planned.
    pub open spec fn draft_step_ok(
        &self,
        hidden: Ptr,
        pos: usize,
        kc: Ptr,
        vc: Ptr,
        kv_stride: usize,
    ) -> bool {
        &&& pos < usize::MAX
        &&& self.rope_ok(1)
        &&& self.mtp_ok(
            self.mtp_columns(
                hidden,
                Scratch::DraftTok,
                Scratch::DraftPos,
                kc,
                vc,
                (pos + 1) as usize,
                kv_stride,
                1,
            ),
        )
    }

    /// The pass of a draft step.
    pub(crate) fn draft_pass(
        &self,
        hidden: Ptr,
        pos: usize,
        kc: Ptr,
        vc: Ptr,
        kv_stride: usize,
    ) -> (r: Vec<Op>)
        requires
            self.draft_step_ok(hidden, pos, kc, vc, kv_stride),
        ensures
            r@ == self.draft_pass_ops(hidden, pos, kc, vc, kv_stride),
    {
        let rd: usize = self.cfg.rotary_dim;
        let tok: Ptr = ptr(Region::Scratch(Scratch::DraftTok));
        let at_pos: Ptr = ptr(Region::Scratch(Scratch::DraftPos));
        let mut r: Vec<Op> = vec![
            Op::Upload { table: Table::Tokens, dst: tok },
            Op::Upload { table: Table::Pos, dst: at_pos },
            Op::Sync,
            borrow32(0, rd),
            borrow32(1, rd),
            self.rope(tmp(0), tmp(1), at_pos, 1),
        ];
        let c: MtpCall = MtpCall {
            hidden,
            tokens: tok,
            pos: at_pos,
            kc,
            vc,
            max_pc: pos + 1,
            cos: tmp(0),
            sin: tmp(1),
            kv_stride,
            n: 1,
            run: None,
            first: 2,
        };
        chain(&mut r, self.mtp_forward(c));
        r
    }

    /// A draft step.
    pub open spec fn draft_step_ops(
        &self,
        hidden: Ptr,
        pos: usize,
        kc: Ptr,
        vc: Ptr,
        kv_stride: usize,
    ) -> Seq<Op> {
        self.draft_pass_ops(hidden, pos, kc, vc, kv_stride) + seq![
            Op::Sync,
            put32(0, self.cfg.rotary_dim as int),
            put32(1, self.cfg.rotary_dim as int),
        ]
    }

    /// One draft step at position `pos`; the next hidden state is buffer 40.
    pub fn mtp_draft_step(
        &self,
        hidden: Ptr,
        pos: usize,
        kc: Ptr,
        vc: Ptr,
        kv_stride: usize,
    ) -> (r: Vec<Op>)
        requires
            self.draft_step_ok(hidden, pos, kc, vc, kv_stride),
        ensures
            r@ == self.draft_step_ops(hidden, pos, kc, vc, kv_stride),
    {
        let rd: usize = self.cfg.rotary_dim;
        let mut r: Vec<Op> = self.draft_pass(hidden, pos, kc, vc, kv_stride);
        let last: Vec<Op> = vec![Op::Sync, give32(0, rd), give32(1, rd)];
        chain(&mut r, last);
        r
    }

    // ---- priming over a prompt ----

    /// The pass over columns `c0 .. c0 + cn` of the prompt: its hidden columns copied to buffer 2, its
    /// tokens and positions in buffers 3 and 4.
    pub open spec fn prime_call(
        &self,
        kc: Ptr,
        vc: Ptr,
        kv_stride: usize,
        pos_start: usize,
        c0: int,
        cn: int,
    ) -> MtpCall {
        MtpCall {
            hidden: temp(2),
            tokens: temp(3),
            pos: temp(4),
            kc,
            vc,
            max_pc: (pos_start + c0 + cn) as usize,
            cos: temp(0),
            sin: temp(1),
            kv_stride,
            n: cn as usize,
            run: Some((pos_start + c0) as usize),
            first: 5,
        }
    }

    /// One priming pass.
    pub open spec fn prime_chunk_ops(
        &self,
        hidden: Ptr,
        kc: Ptr,
        vc: Ptr,
        kv_stride: usize,
        pos_start: usize,
        c0: int,
        cn: int,
    ) -> Seq<Op> {
        let (h, rd) = (self.cfg.hidden_size as int, self.cfg.rotary_dim as int);
        seq![
            Op::UploadNew { table: Table::Tokens, id: 3 },
            Op::UploadNew { table: Table::Pos, id: 4 },
            Op::Sync,
            get16(2, h * cn),
            Op::Copy { dst: temp(2), src: shifted(hidden, c0 * h * 2), bytes: (cn * h * 2) as usize },
            get32(0, rd * cn),
            get32(1, rd * cn),
            self.rope_op(temp(0), temp(1), temp(4), cn),
        ] + self.mtp_ops(self.prime_call(kc, vc, kv_stride, pos_start, c0, cn)) + seq![
            Op::Sync,
            put32(0, rd * cn),
            put32(1, rd * cn),
            put16(2, h * cn),
            put16(43, h * cn),
        ]
    }

    /// One priming pass fits.
    pub open spec fn prime_ok(
        &self,
        hidden: Ptr,
        kc: Ptr,
        vc: Ptr,
        kv_stride: usize,
        pos_start: usize,
        c0: int,
        cn: int,
    ) -> bool {
        &&& self.rope_ok(cn)
        &&& pos_start + c0 + cn <= usize::MAX
        &&& self.mtp_ok(self.prime_call(kc, vc, kv_stride, pos_start, c0, cn))
        &&& cn * self.cfg.hidden_size * 2 <= usize::MAX
        &&& hidden.offset + c0 * self.cfg.hidden_size * 2 <= u64::MAX
    }

    /// One priming pass, over columns `c0 .. c0 + cn`.
    pub fn mtp_prime_chunk(
        &self,
        hidden: Ptr,
        kc: Ptr,
        vc: Ptr,
        kv_stride: usize,
        pos_start: usize,
        c0: usize,
        cn: usize,
    ) -> (r: Vec<Op>)
        requires
            self.prime_ok(hidden, kc, vc, kv_stride, pos_start, c0 as int, cn as int),
        ensures
            r@ == self.prime_chunk_ops(
                hidden,
                kc,
                vc,
                kv_stride,
                pos_start,
                c0 as int,
                cn as int,
            ),
    {
        let (h, rd) = (self.cfg.hidden_size, self.cfg.rotary_dim);
        proof {
            assert(0 <= rd * cn && 0 <= h * cn && 0 <= c0 * h && 0 <= cn * h && cn * h == h * cn)
                by (nonlinear_arith);
        }
        let mut r: Vec<Op> = vec![
            Op::UploadNew { table: Table::Tokens, id: 3 },
            Op::UploadNew { table: Table::Pos, id: 4 },
            Op::Sync,
            borrow16(2, h * cn),
            Op::Copy {
                dst: tmp(2),
                src: shift(hidden, (c0 as u64) * (h as u64) * 2),
                bytes: cn * h * 2,
            },
            borrow32(0, rd * cn),
            borrow32(1, rd * cn),
            self.rope(tmp(0), tmp(1), tmp(4), cn),
        ];
        let ghost a0 = r@;
        let c: MtpCall = MtpCall {
            hidden: tmp(2),
            tokens: tmp(3),
            pos: tmp(4),
            kc,
            vc,
            max_pc: pos_start + c0 + cn,
            cos: tmp(0),
            sin: tmp(1),
            kv_stride,
            n: cn,
            run: Some(pos_start + c0),
            first: 5,
        };
        proof {
            assert(c == self.prime_call(kc, vc, kv_stride, pos_start, c0 as int, cn as int));
        }
        chain(&mut r, self.mtp_forward(c));
        let last: Vec<Op> = vec![
            Op::Sync,
            give32(0, rd * cn),
            give32(1, rd * cn),
            give16(2, h * cn),
            give16(43, h * cn),
        ];
        let ghost last0 = last@;
        chain(&mut r, last);
        proof {
            assert(a0 =~= seq![
                Op::UploadNew { table: Table::Tokens, id: 3 },
                Op::UploadNew { table: Table::Pos, id: 4 },
                Op::Sync,
                get16(2, h * cn),
                Op::Copy {
                    dst: temp(2),
                    src: shifted(hidden, c0 * h * 2),
                    bytes: (cn * h * 2) as usize,
                },
                get32(0, rd * cn),
                get32(1, rd * cn),
                self.rope_op(temp(0), temp(1), temp(4), cn as int),
            ]);
            assert(last0 =~= seq![
                Op::Sync,
                put32(0, rd * cn),
                put32(1, rd * cn),
                put16(2, h * cn),
                put16(43, h * cn),
            ]);
        }
        r
    }
}

/// The priming passes `(first column, columns)` of a prompt of `n` tokens.
pub open spec fn prime_chunks(n: int) -> Seq<(usize, usize)> {
    Seq::new(
        div_up(n, PRIME_CHUNK as int) as nat,
        |i: int| ((i * 2048) as usize, min_int(2048, n - i * 2048) as usize),
    )
}

/// The priming passes of a prompt of `n` tokens, in order.
pub fn mtp_prime_plan(n: usize) -> (r: Vec<(usize, usize)>)
    requires
        n + PRIME_CHUNK <= usize::MAX,
    ensures
        r@ == prime_chunks(n as int),
{
    let mut r: Vec<(usize, usize)> = Vec::new();
    let mut c0: usize = 0;
    while c0 < n
        invariant
            n + PRIME_CHUNK <= usize::MAX,
            r@.len() <= div_up(n as int, 2048),
            c0 == min_int(r@.len() as int * 2048, n as int),
            forall|i: int|
                0 <= i < r@.len() ==> #[trigger] r@[i] == ((i * 2048) as usize, min_int(
                    2048,
                    n - i * 2048,
                ) as usize),
        decreases n - c0,
    {
        let cn: usize = min_usize(PRIME_CHUNK, n - c0);
        r.push((c0, cn));
        c0 = c0 + cn;
    }
    proof {
        assert(r@ =~= prime_chunks(n as int));
    }
    r
}

/// One pass of the priming of a prompt: the columns it covers, their positions, and what it runs.
pub struct PrimePass {
    pub first: usize,
    pub pos: Vec<i32>,
    pub ops: Vec<Op>,
}

impl GpuModel {
    /// Every priming pass of a prompt of `n` tokens fits.
    pub open spec fn prompt_ok(
        &self,
        hidden: Ptr,
        kc: Ptr,
        vc: Ptr,
        kv_stride: usize,
        pos_start: usize,
        n: int,
    ) -> bool {
        &&& n + PRIME_CHUNK <= usize::MAX
        &&& pos_start + n <= i32::MAX
        &&& forall|i: int|
            0 <= i < prime_chunks(n).len() ==> {
                let (c0, cn) = #[trigger] prime_chunks(n)[i];
                self.prime_ok(hidden, kc, vc, kv_stride, pos_start, c0 as int, cn as int)
            }
    }

    /// `p` primes columns `c0 .. c0 + cn` of a prompt that starts at `pos_start`.
    pub open spec fn primes(
        &self,
        p: PrimePass,
        hidden: Ptr,
        kc: Ptr,
        vc: Ptr,
        kv_stride: usize,
        pos_start: usize,
        c0: int,
        cn: int,
    ) -> bool {
        &&& p.first == c0
        &&& p.pos@ == Seq::new(cn as nat, |i: int| (pos_start + c0 + i) as i32)
        &&& p.ops@ == self.prime_chunk_ops(hidden, kc, vc, kv_stride, pos_start, c0, cn)
    }

    /// Primes the draft head's cache over a prompt of `n` tokens, whose hidden columns lie side by side
    /// at `hidden`.
    pub fn mtp_prime_prompt(
        &self,
        hidden: Ptr,
        kc: Ptr,
        vc: Ptr,
        kv_stride: usize,
        pos_start: usize,
        n: usize,
    ) -> (r: Vec<PrimePass>)
        requires
            self.prompt_ok(hidden, kc, vc, kv_stride, pos_start, n as int),
        ensures
            r@.len() == prime_chunks(n as int).len(),
            forall|i: int|
                0 <= i < r@.len() ==> {
                    let (c0, cn) = prime_chunks(n as int)[i];
                    self.primes(
                        #[trigger] r@[i],
                        hidden,
                        kc,
                        vc,
                        kv_stride,
                        pos_start,
                        c0 as int,
                        cn as int,
                    )
                },
    {
        let plan: Vec<(usize, usize)> = mtp_prime_plan(n);
        let mut r: Vec<PrimePass> = Vec::new();
        let mut i: usize = 0;
        while i < plan.len()
            invariant
                self.prompt_ok(hidden, kc, vc, kv_stride, pos_start, n as int),
                plan@ == prime_chunks(n as int),
                r@.len() == i,
                i <= plan@.len(),
                forall|k: int|
                    0 <= k < r@.len() ==> {
                        let (c0, cn) = plan@[k];
                        self.primes(
                            #[trigger] r@[k],
                            hidden,
                            kc,
                            vc,
                            kv_stride,
                            pos_start,
                            c0 as int,
                            cn as int,
                        )
                    },
            decreases plan@.len() - i,
        {
            let (c0, cn) = plan[i];
            proof {
                assert(plan@[i as int] == (c0, cn));
                assert(c0 + cn <= n);
            }
            let pos: Vec<i32> = pass_positions(pos_start + c0, cn);
            proof {
                assert(pos@ =~= Seq::new(cn as nat, |i: int| (pos_start + c0 + i) as i32));
            }
            let ops: Vec<Op> = self.mtp_prime_chunk(hidden, kc, vc, kv_stride, pos_start, c0, cn);
            r.push(PrimePass { first: c0, pos, ops });
            i = i + 1;
        }
        r
    }
}

/// The priming passes cover the prompt: each starts where the one before it ends, and the last ends at
/// `n`.
pub proof fn law_prime_chunks_cover(n: int, i: int)
    requires
        0 <= n,
        n + 2048 <= usize::MAX,
        0 <= i < prime_chunks(n).len(),
    ensures
        prime_chunks(n)[i].1 >= 1,
        prime_chunks(n)[0].0 == 0,
        i + 1 < prime_chunks(n).len() ==> prime_chunks(n)[i].0 + prime_chunks(n)[i].1
            == prime_chunks(n)[i + 1].0,
        i + 1 == prime_chunks(n).len() ==> prime_chunks(n)[i].0 + prime_chunks(n)[i].1 == n,
{
}

} // verus!
