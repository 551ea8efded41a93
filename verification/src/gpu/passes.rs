//! Whole programs: a decode step, a prompt prefill, a verify.
use vstd::prelude::*;

use crate::gpu::forward::{Frame, Pass};
use crate::gpu::gemm::{shift, shifted};
use crate::gpu::model::GpuModel;
use crate::gpu::program::{
    at, borrow16, borrow32, chain, get16, get32, give16, give32, int32, ptr, put16, put32, temp, tmp,
    Block, BlockVec, Call, DecodeBuf, Op, Ptr, Region, Scratch, Table,
};
use crate::gpu::topo::{TreeTopo, MAX_VERIFY};
use crate::gpu::verify::{covers, verify_tables, VerifyTables};

verus! {

/// Penalty buffers of a batch, as device addresses.
#[derive(Clone, Copy, PartialEq, Eq, Structural)]
pub struct VerifyPenalty {
    /// `n * 64` token ids, -1 where unused.
    pub tokens_ptr: u64,
    /// `n * 64` counts.
    pub counts_ptr: u64,
    pub rep_pen_ptr: u64,
    pub presence_ptr: u64,
    pub freq_ptr: u64,
}

/// Penalty buffers of one draft column, as device addresses.
#[derive(Clone, Copy, PartialEq, Eq, Structural)]
pub struct DraftPenalty {
    pub tokens_ptr: u64,
    pub counts_ptr: u64,
    pub rep_pen_ptr: u64,
    pub presence_ptr: u64,
    pub freq_ptr: u64,
}

/// The device address `a`.
pub open spec fn raw(a: u64) -> Ptr {
    at(Region::Raw(a))
}

impl GpuModel {
    /// The rotary angles of `n` positions fit.
    pub open spec fn rope_ok(&self, n: int) -> bool {
        &&& self.cfg.rotary_dim <= i32::MAX
        &&& self.cfg.rotary_dim * n <= usize::MAX
    }

    /// The angles of the positions at `pos`.
    pub open spec fn rope_op(&self, cos: Ptr, sin: Ptr, pos: Ptr, n: int) -> Op {
        Op::Launch(
            Call::GatherRope { cos, sin, pos, rdim: self.cfg.rotary_dim as i32, n: n as i32 },
        )
    }

    pub(crate) fn rope(&self, cos: Ptr, sin: Ptr, pos: Ptr, n: usize) -> (op: Op)
        requires
            self.cfg.rotary_dim <= i32::MAX,
            n <= i32::MAX,
        ensures
            op == self.rope_op(cos, sin, pos, n as int),
    {
        Op::Launch(Call::GatherRope { cos, sin, pos, rdim: int32(self.cfg.rotary_dim), n: int32(n) })
    }

    /// The trunk of a decode step. The residual is consumed. With the fused residual the last layer has
    /// already written the final norm into the normed buffer; otherwise it goes to buffer `out`.
    pub open spec fn trunk_ops(&self, f: Frame, out: int) -> Seq<Op> {
        let hn = self.cfg.hidden_size * f.n;
        let fuse = self.knobs.fuse_residual;
        (if fuse {
            seq![
                get16(f.normed as int, hn),
                self.norm_op(
                    f.normed as int,
                    f.residual as int,
                    at(Region::Vector(Block::Layer(0), BlockVec::InputNorm)),
                    f.n,
                ),
            ]
        } else {
            seq![get16(f.normed as int, hn)]
        }) + self.layers_ops(f, Seq::<(usize, usize)>::empty(), fuse) + (if fuse {
            Seq::<Op>::empty()
        } else {
            seq![
                get16(out, hn),
                self.norm_op(out, f.residual as int, at(Region::FinalNorm), f.n),
                put16(f.normed as int, hn),
            ]
        }) + seq![put16(f.residual as int, hn)]
    }

    /// The buffer that holds the trunk's result.
    pub open spec fn trunk_out(&self, f: Frame, out: int) -> int {
        if self.knobs.fuse_residual {
            f.normed as int
        } else {
            out
        }
    }

    /// The trunk of a decode step; returns the program and the buffer that holds the result.
    pub fn forward_batch_dev(&self, f: Frame, out: usize) -> (r: (Vec<Op>, usize))
        requires
            self.frame_ok(f),
            f.pass is Decode,
            self.layers@.len() >= 1,
        ensures
            r.0@ == self.trunk_ops(f, out as int),
            r.1 == self.trunk_out(f, out as int),
    {
        proof {
            assert(0 <= self.cfg.hidden_size * f.n) by (nonlinear_arith);
        }
        let hn: usize = self.cfg.hidden_size * f.n;
        let fuse: bool = self.knobs.fuse_residual;
        let mut r: Vec<Op> = if fuse {
            vec![
                borrow16(f.normed, hn),
                self.norm(
                    f.normed,
                    f.residual,
                    ptr(Region::Vector(Block::Layer(0), BlockVec::InputNorm)),
                    f.n,
                ),
            ]
        } else {
            vec![borrow16(f.normed, hn)]
        };
        let none: Vec<(usize, usize)> = Vec::new();
        proof {
            assert(none@ =~= Seq::<(usize, usize)>::empty());
        }
        let ghost head0 = r@;
        chain(&mut r, self.all_layers(f, none.as_slice(), fuse));
        let end: Vec<Op> = if fuse {
            Vec::new()
        } else {
            vec![
                borrow16(out, hn),
                self.norm(out, f.residual, ptr(Region::FinalNorm), f.n),
                give16(f.normed, hn),
            ]
        };
        chain(&mut r, end);
        let last: Vec<Op> = vec![give16(f.residual, hn)];
        chain(&mut r, last);
        proof {
            assert(r@ =~= self.trunk_ops(f, out as int));
        }
        if fuse {
            (r, f.normed)
        } else {
            (r, out)
        }
    }

    /// The frame of a decode step over the staging buffers.
    pub open spec fn decode_frame(&self, kv_stride: usize, max_pc: usize, n: usize) -> Frame {
        Frame {
            pass: Pass::Decode {
                pos: at(Region::Decode(DecodeBuf::Pos)),
                slots: at(Region::Decode(DecodeBuf::SlotIds)),
                max_pc,
            },
            n,
            kv_stride,
            cos: at(Region::Decode(DecodeBuf::Cos)),
            sin: at(Region::Decode(DecodeBuf::Sin)),
            residual: 0,
            normed: 1,
            first: 4,
        }
    }

    pub(crate) fn decode_frame_of(&self, kv_stride: usize, max_pc: usize, n: usize) -> (f: Frame)
        ensures
            f == self.decode_frame(kv_stride, max_pc, n),
    {
        Frame {
            pass: Pass::Decode {
                pos: ptr(Region::Decode(DecodeBuf::Pos)),
                slots: ptr(Region::Decode(DecodeBuf::SlotIds)),
                max_pc,
            },
            n,
            kv_stride,
            cos: ptr(Region::Decode(DecodeBuf::Cos)),
            sin: ptr(Region::Decode(DecodeBuf::Sin)),
            residual: 0,
            normed: 1,
            first: 4,
        }
    }

    /// Embedding, trunk, logits (buffer 3) and penalty of a decode step.
    pub open spec fn decode_ops(&self, kv_stride: usize, max_pc: usize, n: usize) -> Seq<Op> {
        let f = self.decode_frame(kv_stride, max_pc, n);
        let hn = self.cfg.hidden_size * n;
        let out = self.trunk_out(f, 2);
        let b = |x: DecodeBuf| at(Region::Decode(x));
        seq![
            get16(0, hn),
            self.embed_op(temp(0), b(DecodeBuf::Tokens), n as int),
            self.rope_op(b(DecodeBuf::Cos), b(DecodeBuf::Sin), b(DecodeBuf::Pos), n as int),
        ] + self.trunk_ops(f, 2) + self.logits_ops(temp(out), n as int, 3) + seq![
            put16(out, hn),
            Op::Launch(
                Call::RepPenalty {
                    logits: temp(3),
                    tokens: b(DecodeBuf::PenaltyTokens),
                    counts: b(DecodeBuf::PenaltyCounts),
                    rep: b(DecodeBuf::RepPen),
                    presence: b(DecodeBuf::Presence),
                    freq: b(DecodeBuf::Frequency),
                    vocab: self.cfg.vocab_size as i32,
                    n: n as i32,
                },
            ),
        ]
    }

    /// A decode step fits.
    pub open spec fn decode_ok(&self, kv_stride: usize, max_pc: usize, n: usize) -> bool {
        &&& self.frame_ok(self.decode_frame(kv_stride, max_pc, n))
        &&& self.layers@.len() >= 1
        &&& self.head_ok(n as int)
        &&& self.rope_ok(n as int)
    }

    fn decode_logits(&self, kv_stride: usize, max_pc: usize, n: usize) -> (r: Vec<Op>)
        requires
            self.decode_ok(kv_stride, max_pc, n),
        ensures
            r@ == self.decode_ops(kv_stride, max_pc, n),
    {
        proof {
            assert(0 <= self.cfg.hidden_size * n) by (nonlinear_arith);
        }
        let hn: usize = self.cfg.hidden_size * n;
        let f: Frame = self.decode_frame_of(kv_stride, max_pc, n);
        let mut r: Vec<Op> = vec![
            borrow16(0, hn),
            self.embed_gather(tmp(0), ptr(Region::Decode(DecodeBuf::Tokens)), n),
            self.rope(
                ptr(Region::Decode(DecodeBuf::Cos)),
                ptr(Region::Decode(DecodeBuf::Sin)),
                ptr(Region::Decode(DecodeBuf::Pos)),
                n,
            ),
        ];
        let (trunk, out) = self.forward_batch_dev(f, 2);
        chain(&mut r, trunk);
        chain(&mut r, self.logits_batch(tmp(out), n, 3));
        let last: Vec<Op> = vec![
            give16(out, hn),
            Op::Launch(
                Call::RepPenalty {
                    logits: tmp(3),
                    tokens: ptr(Region::Decode(DecodeBuf::PenaltyTokens)),
                    counts: ptr(Region::Decode(DecodeBuf::PenaltyCounts)),
                    rep: ptr(Region::Decode(DecodeBuf::RepPen)),
                    presence: ptr(Region::Decode(DecodeBuf::Presence)),
                    freq: ptr(Region::Decode(DecodeBuf::Frequency)),
                    vocab: int32(self.cfg.vocab_size),
                    n: int32(n),
                },
            ),
        ];
        chain(&mut r, last);
        proof {
            assert(r@ =~= self.decode_ops(kv_stride, max_pc, n));
        }
        r
    }

    /// A decode step that takes the likeliest token of each lane.
    pub open spec fn greedy_decode_ops(&self, kv_stride: usize, max_pc: usize, n: usize) -> Seq<Op> {
        self.decode_ops(kv_stride, max_pc, n) + seq![
            Op::Launch(
                Call::Argmax {
                    out: at(Region::Decode(DecodeBuf::TokenIds)),
                    logits: temp(3),
                    vocab: self.cfg.vocab_size as i32,
                    n: n as i32,
                },
            ),
            put16(3, self.cfg.vocab_size * n),
        ]
    }

    /// A decode step that samples a token for each lane.
    pub open spec fn sampled_decode_ops(&self, kv_stride: usize, max_pc: usize, n: usize) -> Seq<Op> {
        self.decode_ops(kv_stride, max_pc, n) + seq![
            Op::Launch(
                Call::Sample {
                    out: at(Region::Decode(DecodeBuf::TokenIds)),
                    logits: temp(3),
                    temps: at(Region::Decode(DecodeBuf::Temps)),
                    topk: at(Region::Decode(DecodeBuf::TopK)),
                    topp: at(Region::Decode(DecodeBuf::TopP)),
                    seeds: at(Region::Decode(DecodeBuf::Seeds)),
                    vocab: self.cfg.vocab_size as i32,
                    n: n as i32,
                },
            ),
            put16(3, self.cfg.vocab_size * n),
        ]
    }

    /// A greedy decode step: the chosen tokens land in the token-id staging buffer. Nothing in it waits
    /// for the host, so it can be captured and replayed.
    pub fn forward_decode_gpu(&self, kv_stride: usize, max_pc: usize, n: usize) -> (r: Vec<Op>)
        requires
            self.decode_ok(kv_stride, max_pc, n),
        ensures
            r@ == self.greedy_decode_ops(kv_stride, max_pc, n),
    {
        proof {
            assert(0 <= self.cfg.vocab_size * n) by (nonlinear_arith);
        }
        let mut r: Vec<Op> = self.decode_logits(kv_stride, max_pc, n);
        let last: Vec<Op> = vec![
            Op::Launch(
                Call::Argmax {
                    out: ptr(Region::Decode(DecodeBuf::TokenIds)),
                    logits: tmp(3),
                    vocab: int32(self.cfg.vocab_size),
                    n: int32(n),
                },
            ),
            give16(3, self.cfg.vocab_size * n),
        ];
        proof {
            assert(last@ =~= seq![
                Op::Launch(
                    Call::Argmax {
                        out: at(Region::Decode(DecodeBuf::TokenIds)),
                        logits: temp(3),
                        vocab: self.cfg.vocab_size as i32,
                        n: n as i32,
                    },
                ),
                put16(3, self.cfg.vocab_size * n),
            ]);
        }
        chain(&mut r, last);
        r
    }

    /// A greedy decode step whose tokens can then be read back.
    pub fn forward_decode(&self, kv_stride: usize, max_pc: usize, n: usize) -> (r: Vec<Op>)
        requires
            self.decode_ok(kv_stride, max_pc, n),
        ensures
            r@ == self.greedy_decode_ops(kv_stride, max_pc, n).push(Op::Sync),
    {
        let mut r: Vec<Op> = self.forward_decode_gpu(kv_stride, max_pc, n);
        r.push(Op::Sync);
        r
    }

    /// A sampling decode step.
    pub fn decode_sample_gpu_core(&self, kv_stride: usize, max_pc: usize, n: usize) -> (r: Vec<Op>)
        requires
            self.decode_ok(kv_stride, max_pc, n),
        ensures
            r@ == self.sampled_decode_ops(kv_stride, max_pc, n),
    {
        proof {
            assert(0 <= self.cfg.vocab_size * n) by (nonlinear_arith);
        }
        let mut r: Vec<Op> = self.decode_logits(kv_stride, max_pc, n);
        let last: Vec<Op> = vec![
            Op::Launch(
                Call::Sample {
                    out: ptr(Region::Decode(DecodeBuf::TokenIds)),
                    logits: tmp(3),
                    temps: ptr(Region::Decode(DecodeBuf::Temps)),
                    topk: ptr(Region::Decode(DecodeBuf::TopK)),
                    topp: ptr(Region::Decode(DecodeBuf::TopP)),
                    seeds: ptr(Region::Decode(DecodeBuf::Seeds)),
                    vocab: int32(self.cfg.vocab_size),
                    n: int32(n),
                },
            ),
            give16(3, self.cfg.vocab_size * n),
        ];
        proof {
            assert(last@ =~= seq![
                Op::Launch(
                    Call::Sample {
                        out: at(Region::Decode(DecodeBuf::TokenIds)),
                        logits: temp(3),
                        temps: at(Region::Decode(DecodeBuf::Temps)),
                        topk: at(Region::Decode(DecodeBuf::TopK)),
                        topp: at(Region::Decode(DecodeBuf::TopP)),
                        seeds: at(Region::Decode(DecodeBuf::Seeds)),
                        vocab: self.cfg.vocab_size as i32,
                        n: n as i32,
                    },
                ),
                put16(3, self.cfg.vocab_size * n),
            ]);
        }
        chain(&mut r, last);
        r
    }

    /// A sampling decode step whose tokens can then be read back.
    pub fn forward_decode_sample_gpu(&self, kv_stride: usize, max_pc: usize, n: usize) -> (r: Vec<Op>)
        requires
            self.decode_ok(kv_stride, max_pc, n),
        ensures
            r@ == self.sampled_decode_ops(kv_stride, max_pc, n).push(Op::Sync),
    {
        let mut r: Vec<Op> = self.decode_sample_gpu_core(kv_stride, max_pc, n);
        r.push(Op::Sync);
        r
    }

    // ---- prefill ----

    /// The frame of a prefill or a verify: angles in buffers 0 and 1, residual 2, normed input 3.
    pub open spec fn run_frame(&self, pass: Pass, kv_stride: usize, n: usize) -> Frame {
        Frame {
            pass,
            n,
            kv_stride,
            cos: temp(0),
            sin: temp(1),
            residual: 2,
            normed: 3,
            first: 10,
        }
    }

    pub(crate) fn run_frame_of(&self, pass: Pass, kv_stride: usize, n: usize) -> (f: Frame)
        ensures
            f == self.run_frame(pass, kv_stride, n),
    {
        Frame {
            pass,
            n,
            kv_stride,
            cos: tmp(0),
            sin: tmp(1),
            residual: 2,
            normed: 3,
            first: 10,
        }
    }

    /// A prefill or verify of `n` columns fits.
    pub open spec fn run_ok(&self, pass: Pass, kv_stride: usize, n: usize) -> bool {
        &&& n >= 1
        &&& self.frame_ok(self.run_frame(pass, kv_stride, n))
        &&& self.head_ok(1)
        &&& self.head_ok(n as int)
        &&& self.rope_ok(n as int)
    }

    /// Prefill of `n` prompt tokens into lane `slot` from position `pos` on.
    ///
    /// Positions and tokens are uploaded to buffers 9 and 8. Only the last column goes through the
    /// output head; its token lands in buffer 7. The pre-norm residual, buffer 2, stays for the draft
    /// head.
    pub open spec fn prefill_ops(
        &self,
        slot: usize,
        kv_stride: usize,
        pos: usize,
        n: usize,
    ) -> Seq<Op> {
        let (h, v, rd) = (
            self.cfg.hidden_size as int,
            self.cfg.vocab_size as int,
            self.cfg.rotary_dim as int,
        );
        let f = self.run_frame(Pass::Prefill { slot, pos }, kv_stride, n);
        seq![
            Op::UploadNew { table: Table::Pos, id: 9 },
            get32(0, rd * n),
            get32(1, rd * n),
            Op::Sync,
            self.rope_op(temp(0), temp(1), temp(9), n as int),
            Op::UploadNew { table: Table::Tokens, id: 8 },
            Op::Alloc16 { id: 2, len: (h * n) as usize },
            self.embed_op(temp(2), temp(8), n as int),
            get16(3, h * n),
        ] + self.layers_ops(f, seq![(0usize, n)], false) + seq![
            get16(4, h * n),
            self.norm_op(4, 2, at(Region::FinalNorm), n),
            put16(3, h * n),
            get16(5, h),
            Op::Copy { dst: temp(5), src: shifted(temp(4), (n - 1) * h * 2), bytes: (h * 2) as usize },
        ] + self.logits_ops(temp(5), 1, 6) + seq![
            Op::Alloc { id: 7, len: 1 },
            Op::Launch(Call::Argmax { out: temp(7), logits: temp(6), vocab: v as i32, n: 1 }),
            put16(6, v),
            put16(5, h),
            put16(4, h * n),
            Op::Sync,
        ]
    }

    /// Prefills a prompt; positions before `pos_start` are already in the lane.
    pub fn prefill_batch(
        &self,
        n: usize,
        slot: usize,
        kv_stride: usize,
        pos_start: usize,
    ) -> (r: Vec<Op>)
        requires
            self.run_ok(Pass::Prefill { slot, pos: pos_start }, kv_stride, n),
            (n - 1) * self.cfg.hidden_size * 2 <= u64::MAX,
            self.cfg.hidden_size * 2 <= usize::MAX,
        ensures
            r@ == self.prefill_ops(slot, kv_stride, pos_start, n),
    {
        let (h, v, rd) = (self.cfg.hidden_size, self.cfg.vocab_size, self.cfg.rotary_dim);
        proof {
            assert(0 <= h * n && 0 <= rd * n && 0 <= (n - 1) * h && (n - 1) * h <= h * n)
                by (nonlinear_arith)
                requires
                    n >= 1,
            ;
        }
        let hn: usize = h * n;
        let f: Frame = self.run_frame_of(Pass::Prefill { slot, pos: pos_start }, kv_stride, n);
        let mut r: Vec<Op> = vec![
            Op::UploadNew { table: Table::Pos, id: 9 },
            borrow32(0, rd * n),
            borrow32(1, rd * n),
            Op::Sync,
            self.rope(tmp(0), tmp(1), tmp(9), n),
            Op::UploadNew { table: Table::Tokens, id: 8 },
            Op::Alloc16 { id: 2, len: hn },
            self.embed_gather(tmp(2), tmp(8), n),
            borrow16(3, hn),
        ];
        proof {
            assert(r@ =~= seq![
                Op::UploadNew { table: Table::Pos, id: 9 },
                get32(0, rd * n),
                get32(1, rd * n),
                Op::Sync,
                self.rope_op(temp(0), temp(1), temp(9), n as int),
                Op::UploadNew { table: Table::Tokens, id: 8 },
                Op::Alloc16 { id: 2, len: (h * n) as usize },
                self.embed_op(temp(2), temp(8), n as int),
                get16(3, h * n),
            ]);
        }
        let segs: Vec<(usize, usize)> = vec![(0, n)];
        proof {
            assert(segs@ =~= seq![(0usize, n)]);
        }
        chain(&mut r, self.all_layers(f, segs.as_slice(), false));
        let mid: Vec<Op> = vec![
            borrow16(4, hn),
            self.norm(4, 2, ptr(Region::FinalNorm), n),
            give16(3, hn),
            borrow16(5, h),
            Op::Copy {
                dst: tmp(5),
                src: shift(tmp(4), (n as u64 - 1) * (h as u64) * 2),
                bytes: h * 2,
            },
        ];
        proof {
            assert(mid@ =~= seq![
                get16(4, h * n),
                self.norm_op(4, 2, at(Region::FinalNorm), n),
                put16(3, h * n),
                get16(5, h as int),
                Op::Copy {
                    dst: temp(5),
                    src: shifted(temp(4), (n - 1) * h * 2),
                    bytes: (h * 2) as usize,
                },
            ]);
        }
        chain(&mut r, mid);
        chain(&mut r, self.logits_batch(tmp(5), 1, 6));
        let last: Vec<Op> = vec![
            Op::Alloc { id: 7, len: 1 },
            Op::Launch(Call::Argmax { out: tmp(7), logits: tmp(6), vocab: int32(v), n: 1 }),
            give16(6, v),
            give16(5, h),
            give16(4, hn),
            Op::Sync,
        ];
        proof {
            assert(last@ =~= seq![
                Op::Alloc { id: 7, len: 1 },
                Op::Launch(Call::Argmax { out: temp(7), logits: temp(6), vocab: v as i32, n: 1 }),
                put16(6, v as int),
                put16(5, h as int),
                put16(4, h * n),
                Op::Sync,
            ]);
        }
        chain(&mut r, last);
        r
    }

    // ---- verify ----

    /// The uploads, layers and logits of a verify. Logits are buffer 6, the pre-norm residual buffer 2.
    pub open spec fn verify_ops(
        &self,
        segs: Seq<(usize, usize)>,
        kv_stride: usize,
        pos: usize,
        ckpt: Option<usize>,
        forest: bool,
        n: usize,
    ) -> Seq<Op> {
        let (h, rd) = (self.cfg.hidden_size as int, self.cfg.rotary_dim as int);
        let f = self.run_frame(Pass::Verify { pos, ckpt, forest }, kv_stride, n);
        let s = |x: Scratch| at(Region::Scratch(x));
        seq![
            Op::Upload { table: Table::Pos, dst: s(Scratch::Pos) },
            Op::Upload { table: Table::Rope, dst: s(Scratch::Rope) },
            Op::Upload { table: Table::SlotIds, dst: s(Scratch::Slot) },
        ] + (if forest {
            seq![Op::Upload { table: Table::ColPosStart, dst: s(Scratch::PStart) }]
        } else {
            Seq::<Op>::empty()
        }) + seq![
            Op::Sync,
            Op::Upload { table: Table::WinSrc, dst: s(Scratch::WinSrc) },
            Op::Upload { table: Table::Parent, dst: s(Scratch::Parent) },
            Op::Upload { table: Table::Path, dst: s(Scratch::Path) },
            get32(0, rd * n),
            get32(1, rd * n),
            self.rope_op(temp(0), temp(1), s(Scratch::Rope), n as int),
            Op::UploadNew { table: Table::Tokens, id: 8 },
            Op::Alloc16 { id: 2, len: (h * n) as usize },
            self.embed_op(temp(2), temp(8), n as int),
            get16(3, h * n),
        ] + self.layers_ops(f, segs, false) + seq![
            get16(4, h * n),
            self.norm_op(4, 2, at(Region::FinalNorm), n),
            put16(3, h * n),
            put32(0, rd * n),
            put32(1, rd * n),
        ] + self.logits_ops(temp(4), n as int, 6) + seq![put16(4, h * n)]
    }

    /// The verify of `n` tokens: the host tables and the program that uses them.
    pub fn verify_forward_core_topo(
        &self,
        n: usize,
        slot: usize,
        kv_stride: usize,
        pos_start: usize,
        ckpt_slot: Option<usize>,
        topo: Option<&TreeTopo>,
    ) -> (r: (VerifyTables, Vec<Op>))
        requires
            1 <= n <= MAX_VERIFY,
            pos_start + n <= i32::MAX,
            slot <= i32::MAX,
            1 <= self.cfg.conv_kernel,
            n + self.cfg.conv_kernel <= i32::MAX,
            topo matches Some(p) ==> covers(p, n as int, self.cfg.conv_kernel as int),
            self.run_ok(
                Pass::Verify {
                    pos: pos_start,
                    ckpt: ckpt_slot,
                    forest: topo is Some && topo->0.col_pos_start is Some,
                },
                kv_stride,
                n,
            ),
        ensures
            r.0.describes(
                n as nat,
                slot,
                pos_start as int,
                self.cfg.conv_kernel as int,
                topo,
            ),
            r.1@ == self.verify_ops(
                r.0.lane_segs@,
                kv_stride,
                pos_start,
                ckpt_slot,
                topo is Some && topo->0.col_pos_start is Some,
                n,
            ),
    {
        let tables: VerifyTables = verify_tables(n, slot, pos_start, self.cfg.conv_kernel, topo);
        let forest: bool = tables.col_pos_start.is_some();
        proof {
            assert(forest == (topo is Some && topo->0.col_pos_start is Some));
            let segs = tables.lane_segs@;
            assert forall|i: int| #![trigger segs[i]] 0 <= i < segs.len() implies segs[i].1 >= 1
                && segs[i].0 + segs[i].1 <= n by {}
        }
        let (h, rd) = (self.cfg.hidden_size, self.cfg.rotary_dim);
        proof {
            assert(0 <= h * n && 0 <= rd * n) by (nonlinear_arith);
        }
        let hn: usize = h * n;
        let f: Frame = self.run_frame_of(
            Pass::Verify { pos: pos_start, ckpt: ckpt_slot, forest },
            kv_stride,
            n,
        );
        let mut r: Vec<Op> = vec![
            Op::Upload { table: Table::Pos, dst: ptr(Region::Scratch(Scratch::Pos)) },
            Op::Upload { table: Table::Rope, dst: ptr(Region::Scratch(Scratch::Rope)) },
            Op::Upload { table: Table::SlotIds, dst: ptr(Region::Scratch(Scratch::Slot)) },
        ];
        proof {
            assert(r@ =~= seq![
                Op::Upload { table: Table::Pos, dst: at(Region::Scratch(Scratch::Pos)) },
                Op::Upload { table: Table::Rope, dst: at(Region::Scratch(Scratch::Rope)) },
                Op::Upload { table: Table::SlotIds, dst: at(Region::Scratch(Scratch::Slot)) },
            ]);
        }
        let starts: Vec<Op> = if forest {
            vec![
                Op::Upload {
                    table: Table::ColPosStart,
                    dst: ptr(Region::Scratch(Scratch::PStart)),
                },
            ]
        } else {
            Vec::new()
        };
        proof {
            if forest {
                assert(starts@ =~= seq![
                    Op::Upload {
                        table: Table::ColPosStart,
                        dst: at(Region::Scratch(Scratch::PStart)),
                    },
                ]);
            } else {
                assert(starts@ =~= Seq::<Op>::empty());
            }
        }
        chain(&mut r, starts);
        let head: Vec<Op> = vec![
            Op::Sync,
            Op::Upload { table: Table::WinSrc, dst: ptr(Region::Scratch(Scratch::WinSrc)) },
            Op::Upload { table: Table::Parent, dst: ptr(Region::Scratch(Scratch::Parent)) },
            Op::Upload { table: Table::Path, dst: ptr(Region::Scratch(Scratch::Path)) },
            borrow32(0, rd * n),
            borrow32(1, rd * n),
            self.rope(tmp(0), tmp(1), ptr(Region::Scratch(Scratch::Rope)), n),
            Op::UploadNew { table: Table::Tokens, id: 8 },
            Op::Alloc16 { id: 2, len: hn },
            self.embed_gather(tmp(2), tmp(8), n),
            borrow16(3, hn),
        ];
        proof {
            assert(head@ =~= seq![
                Op::Sync,
                Op::Upload { table: Table::WinSrc, dst: at(Region::Scratch(Scratch::WinSrc)) },
                Op::Upload { table: Table::Parent, dst: at(Region::Scratch(Scratch::Parent)) },
                Op::Upload { table: Table::Path, dst: at(Region::Scratch(Scratch::Path)) },
                get32(0, rd * n),
                get32(1, rd * n),
                self.rope_op(temp(0), temp(1), at(Region::Scratch(Scratch::Rope)), n as int),
                Op::UploadNew { table: Table::Tokens, id: 8 },
                Op::Alloc16 { id: 2, len: (h * n) as usize },
                self.embed_op(temp(2), temp(8), n as int),
                get16(3, h * n),
            ]);
        }
        chain(&mut r, head);
        chain(&mut r, self.all_layers(f, tables.lane_segs.as_slice(), false));
        let mid: Vec<Op> = vec![
            borrow16(4, hn),
            self.norm(4, 2, ptr(Region::FinalNorm), n),
            give16(3, hn),
            give32(0, rd * n),
            give32(1, rd * n),
        ];
        proof {
            assert(mid@ =~= seq![
                get16(4, h * n),
                self.norm_op(4, 2, at(Region::FinalNorm), n),
                put16(3, h * n),
                put32(0, rd * n),
                put32(1, rd * n),
            ]);
        }
        chain(&mut r, mid);
        chain(&mut r, self.logits_batch(tmp(4), n, 6));
        let last: Vec<Op> = vec![give16(4, hn)];
        proof {
            assert(last@ =~= seq![put16(4, h * n)]);
        }
        chain(&mut r, last);
        (tables, r)
    }

    /// The penalty of `n` verify columns, where there is one.
    pub open spec fn penalty_ops(&self, penalty: Option<VerifyPenalty>, n: int) -> Seq<Op> {
        match penalty {
            Some(p) => seq![
                Op::Launch(
                    Call::RepPenalty {
                        logits: temp(6),
                        tokens: raw(p.tokens_ptr),
                        counts: raw(p.counts_ptr),
                        rep: raw(p.rep_pen_ptr),
                        presence: raw(p.presence_ptr),
                        freq: raw(p.freq_ptr),
                        vocab: self.cfg.vocab_size as i32,
                        n: n as i32,
                    },
                ),
            ],
            None => Seq::empty(),
        }
    }

    fn penalty(&self, penalty: Option<VerifyPenalty>, n: usize) -> (r: Vec<Op>)
        requires
            self.cfg.vocab_size <= i32::MAX,
            n <= i32::MAX,
        ensures
            r@ == self.penalty_ops(penalty, n as int),
    {
        let r: Vec<Op> = match penalty {
            Some(p) => vec![
                Op::Launch(
                    Call::RepPenalty {
                        logits: tmp(6),
                        tokens: ptr(Region::Raw(p.tokens_ptr)),
                        counts: ptr(Region::Raw(p.counts_ptr)),
                        rep: ptr(Region::Raw(p.rep_pen_ptr)),
                        presence: ptr(Region::Raw(p.presence_ptr)),
                        freq: ptr(Region::Raw(p.freq_ptr)),
                        vocab: int32(self.cfg.vocab_size),
                        n: int32(n),
                    },
                ),
            ],
            None => Vec::new(),
        };
        proof {
            assert(r@ =~= self.penalty_ops(penalty, n as int));
        }
        r
    }

    /// What follows a greedy verify: penalty, and the model's token after every column.
    pub open spec fn greedy_tail_ops(&self, penalty: Option<VerifyPenalty>, n: int) -> Seq<Op> {
        self.penalty_ops(penalty, n) + seq![
                Op::Launch(
                    Call::Argmax {
                        out: at(Region::Scratch(Scratch::Tok)),
                        logits: temp(6),
                        vocab: self.cfg.vocab_size as i32,
                        n: n as i32,
                    },
                ),
                put16(6, self.cfg.vocab_size * n),
                Op::Sync,
            ]
    }

    /// What follows a greedy verify: penalty, and the model's token after every column.
    pub fn verify_greedy_tail(&self, penalty: Option<VerifyPenalty>, n: usize) -> (r: Vec<Op>)
        requires
            self.head_ok(n as int),
        ensures
            r@ == self.greedy_tail_ops(penalty, n as int),
    {
        proof {
            assert(0 <= self.cfg.vocab_size * n) by (nonlinear_arith);
        }
        let mut r: Vec<Op> = self.penalty(penalty, n);
        let last: Vec<Op> = vec![
            Op::Launch(
                Call::Argmax {
                    out: ptr(Region::Scratch(Scratch::Tok)),
                    logits: tmp(6),
                    vocab: int32(self.cfg.vocab_size),
                    n: int32(n),
                },
            ),
            give16(6, self.cfg.vocab_size * n),
            Op::Sync,
        ];
        proof {
            assert(last@ =~= seq![
                Op::Launch(
                    Call::Argmax {
                        out: at(Region::Scratch(Scratch::Tok)),
                        logits: temp(6),
                        vocab: self.cfg.vocab_size as i32,
                        n: n as i32,
                    },
                ),
                put16(6, self.cfg.vocab_size * n),
                Op::Sync,
            ]);
        }
        chain(&mut r, last);
        r
    }

    /// What follows a sampling verify: penalty, and the judgement of every draft.
    pub open spec fn sample_tail_ops(&self, penalty: Option<VerifyPenalty>, n: int) -> Seq<Op> {
        self.penalty_ops(penalty, n) + seq![
                Op::Upload { table: Table::SampleF32, dst: at(Region::Scratch(Scratch::SampleF32)) },
                Op::Upload { table: Table::SampleI32, dst: at(Region::Scratch(Scratch::SampleI32)) },
                Op::Upload { table: Table::Seeds, dst: at(Region::Scratch(Scratch::SampleSeeds)) },
                Op::Launch(
                    Call::SpecVerify {
                        prob: at(Region::Scratch(Scratch::SampleProb)),
                        resid: at(Region::Scratch(Scratch::SampleResid)),
                        logits: temp(6),
                        drafts: at(Region::Scratch(Scratch::SampleI32)),
                        qprob: shifted(at(Region::Scratch(Scratch::SampleF32)), 128),
                        temps: at(Region::Scratch(Scratch::SampleF32)),
                        topk: shifted(at(Region::Scratch(Scratch::SampleI32)), 64),
                        topp: shifted(at(Region::Scratch(Scratch::SampleF32)), 64),
                        seeds: at(Region::Scratch(Scratch::SampleSeeds)),
                        vocab: self.cfg.vocab_size as i32,
                        n: n as i32,
                    },
                ),
                put16(6, self.cfg.vocab_size * n),
                Op::Sync,
            ]
    }

    /// What follows a sampling verify: penalty, and the judgement of every draft against the packed
    /// staging buffers (temperatures, top-p and draft probabilities; draft tokens and top-k).
    pub fn verify_sample_tail(&self, penalty: Option<VerifyPenalty>, n: usize) -> (r: Vec<Op>)
        requires
            self.head_ok(n as int),
            n <= MAX_VERIFY,
        ensures
            r@ == self.sample_tail_ops(penalty, n as int),
    {
        proof {
            assert(0 <= self.cfg.vocab_size * n) by (nonlinear_arith);
        }
        let mut r: Vec<Op> = self.penalty(penalty, n);
        let row: u64 = (MAX_VERIFY * 4) as u64;
        let last: Vec<Op> = vec![
            Op::Upload { table: Table::SampleF32, dst: ptr(Region::Scratch(Scratch::SampleF32)) },
            Op::Upload { table: Table::SampleI32, dst: ptr(Region::Scratch(Scratch::SampleI32)) },
            Op::Upload { table: Table::Seeds, dst: ptr(Region::Scratch(Scratch::SampleSeeds)) },
            Op::Launch(
                Call::SpecVerify {
                    prob: ptr(Region::Scratch(Scratch::SampleProb)),
                    resid: ptr(Region::Scratch(Scratch::SampleResid)),
                    logits: tmp(6),
                    drafts: ptr(Region::Scratch(Scratch::SampleI32)),
                    qprob: shift(ptr(Region::Scratch(Scratch::SampleF32)), 2 * row),
                    temps: ptr(Region::Scratch(Scratch::SampleF32)),
                    topk: shift(ptr(Region::Scratch(Scratch::SampleI32)), row),
                    topp: shift(ptr(Region::Scratch(Scratch::SampleF32)), row),
                    seeds: ptr(Region::Scratch(Scratch::SampleSeeds)),
                    vocab: int32(self.cfg.vocab_size),
                    n: int32(n),
                },
            ),
            give16(6, self.cfg.vocab_size * n),
            Op::Sync,
        ];
        proof {
            assert(last@ =~= seq![
                Op::Upload { table: Table::SampleF32, dst: at(Region::Scratch(Scratch::SampleF32)) },
                Op::Upload { table: Table::SampleI32, dst: at(Region::Scratch(Scratch::SampleI32)) },
                Op::Upload { table: Table::Seeds, dst: at(Region::Scratch(Scratch::SampleSeeds)) },
                Op::Launch(
                    Call::SpecVerify {
                        prob: at(Region::Scratch(Scratch::SampleProb)),
                        resid: at(Region::Scratch(Scratch::SampleResid)),
                        logits: temp(6),
                        drafts: at(Region::Scratch(Scratch::SampleI32)),
                        qprob: shifted(at(Region::Scratch(Scratch::SampleF32)), 128),
                        temps: at(Region::Scratch(Scratch::SampleF32)),
                        topk: shifted(at(Region::Scratch(Scratch::SampleI32)), 64),
                        topp: shifted(at(Region::Scratch(Scratch::SampleF32)), 64),
                        seeds: at(Region::Scratch(Scratch::SampleSeeds)),
                        vocab: self.cfg.vocab_size as i32,
                        n: n as i32,
                    },
                ),
                put16(6, self.cfg.vocab_size * n),
                Op::Sync,
            ]);
        }
        chain(&mut r, last);
        r
    }

    /// A verify of `n` columns can be run.
    pub open spec fn verify_ok(
        &self,
        n: usize,
        slot: usize,
        kv_stride: usize,
        pos_start: usize,
        ckpt_slot: Option<usize>,
        topo: Option<&TreeTopo>,
    ) -> bool {
        &&& 1 <= n <= MAX_VERIFY
        &&& pos_start + n <= i32::MAX
        &&& slot <= i32::MAX
        &&& 1 <= self.cfg.conv_kernel
        &&& n + self.cfg.conv_kernel <= i32::MAX
        &&& topo matches Some(p) ==> covers(p, n as int, self.cfg.conv_kernel as int)
        &&& self.run_ok(
            Pass::Verify {
                pos: pos_start,
                ckpt: ckpt_slot,
                forest: topo is Some && topo->0.col_pos_start is Some,
            },
            kv_stride,
            n,
        )
    }

    /// A greedy verify: its tables and its program. The predictions land in scratch.
    pub fn verify_forward_topo(
        &self,
        n: usize,
        slot: usize,
        kv_stride: usize,
        pos_start: usize,
        ckpt_slot: Option<usize>,
        penalty: Option<VerifyPenalty>,
        topo: Option<&TreeTopo>,
    ) -> (r: (VerifyTables, Vec<Op>))
        requires
            self.verify_ok(n, slot, kv_stride, pos_start, ckpt_slot, topo),
        ensures
            r.0.describes(
                n as nat,
                slot,
                pos_start as int,
                self.cfg.conv_kernel as int,
                topo,
            ),
            r.1@ == self.verify_ops(
                r.0.lane_segs@,
                kv_stride,
                pos_start,
                ckpt_slot,
                topo is Some && topo->0.col_pos_start is Some,
                n,
            ) + self.greedy_tail_ops(penalty, n as int),
    {
        let (tables, mut ops) = self.verify_forward_core_topo(
            n,
            slot,
            kv_stride,
            pos_start,
            ckpt_slot,
            topo,
        );
        chain(&mut ops, self.verify_greedy_tail(penalty, n));
        (tables, ops)
    }

    /// A greedy verify of a chain.
    pub fn verify_forward(
        &self,
        n: usize,
        slot: usize,
        kv_stride: usize,
        pos_start: usize,
        ckpt_slot: Option<usize>,
        penalty: Option<VerifyPenalty>,
    ) -> (r: (VerifyTables, Vec<Op>))
        requires
            self.verify_ok(n, slot, kv_stride, pos_start, ckpt_slot, None),
        ensures
            r.0.describes(n as nat, slot, pos_start as int, self.cfg.conv_kernel as int, None),
            r.1@ == self.verify_ops(
                r.0.lane_segs@,
                kv_stride,
                pos_start,
                ckpt_slot,
                false,
                n,
            ) + self.greedy_tail_ops(penalty, n as int),
    {
        self.verify_forward_topo(n, slot, kv_stride, pos_start, ckpt_slot, penalty, None)
    }

    /// A sampling verify of a chain. What it judges lands in scratch.
    pub fn verify_forward_sample(
        &self,
        n: usize,
        slot: usize,
        kv_stride: usize,
        pos_start: usize,
        ckpt_slot: Option<usize>,
        penalty: Option<VerifyPenalty>,
    ) -> (r: (VerifyTables, Vec<Op>))
        requires
            self.verify_ok(n, slot, kv_stride, pos_start, ckpt_slot, None),
        ensures
            r.0.describes(n as nat, slot, pos_start as int, self.cfg.conv_kernel as int, None),
            r.1@ == self.verify_ops(
                r.0.lane_segs@,
                kv_stride,
                pos_start,
                ckpt_slot,
                false,
                n,
            ) + self.sample_tail_ops(penalty, n as int),
    {
        let (tables, mut ops) = self.verify_forward_core_topo(
            n,
            slot,
            kv_stride,
            pos_start,
            ckpt_slot,
            None,
        );
        chain(&mut ops, self.verify_sample_tail(penalty, n));
        (tables, ops)
    }

    /// A decode step whose logits, buffer 3, go to the host for sampling.
    pub fn forward_decode_sample(&self, kv_stride: usize, max_pc: usize, n: usize) -> (r: Vec<Op>)
        requires
            self.decode_ok(kv_stride, max_pc, n),
        ensures
            r@ == self.decode_ops(kv_stride, max_pc, n) + seq![
                Op::Sync,
                put16(3, self.cfg.vocab_size * n),
            ],
    {
        proof {
            assert(0 <= self.cfg.vocab_size * n) by (nonlinear_arith);
        }
        let mut r: Vec<Op> = self.decode_logits(kv_stride, max_pc, n);
        let last: Vec<Op> = vec![Op::Sync, give16(3, self.cfg.vocab_size * n)];
        proof {
            assert(last@ =~= seq![Op::Sync, put16(3, self.cfg.vocab_size * n)]);
        }
        chain(&mut r, last);
        r
    }
}

} // verus!
