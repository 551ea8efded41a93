//! Softmax attention of one block: projection, KV write, attention, output.
use vstd::prelude::*;

use crate::gpu::ffn::dense;
use crate::gpu::gemm::{gemm_act, gemm_ops};
use crate::gpu::model::{AttnIn, GpuFullAttn, GpuModel, PF_MIN};
use crate::gpu::program::{
    at, borrow16, borrow32, chain, get16, get32, give16, give32, int32, ptr, put16, put32, temp, tmp,
    Block, BlockVec, Call, Op, Proj, Ptr, Region, WeightId,
};
use crate::gpu::tiled::Tiled;
use crate::gpu::topo::MAX_VERIFY;

verus! {

/// Buffer numbers that an attention block uses.
pub const ATTN_IDS: usize = 14;

/// How the new columns meet the cache.
#[allow(inconsistent_fields)]
#[derive(Clone, Copy, PartialEq, Eq, Structural)]
pub enum AttnMode {
    /// One column per lane or tree node, each at its own position; at most `max_pc` keys are visible.
    Columns {
        pos: Ptr,
        slots: Ptr,
        max_pc: usize,
        /// Rank-to-slot table, or none for plain columns.
        path: Ptr,
        /// Logical positions, or none where they are the KV positions.
        rope: Ptr,
        /// Prefix boundary per column, or none for a single lane.
        starts: Ptr,
    },
    /// A run of columns of one lane from the given position on.
    Run { pos: usize },
}

/// One attention over `n` columns.
#[derive(Clone, Copy, PartialEq, Eq, Structural)]
pub struct AttnCall {
    pub block: Block,
    pub fa: GpuFullAttn,
    /// Normed input.
    pub x: Ptr,
    pub cos: Ptr,
    pub sin: Ptr,
    pub kc: Ptr,
    pub vc: Ptr,
    pub kv_stride: usize,
    pub n: usize,
    /// The weights and the cache hold this rank's heads only.
    pub sharded: bool,
    pub mode: AttnMode,
    /// First buffer number; the result is buffer `first + 12`.
    pub first: usize,
}

/// Bound on the key splits that are launched. Each column works out its own count from its own length,
/// so this is a launch bound and never changes a result.
pub open spec fn split_bound(max_pc: int) -> int {
    let s = max_pc / 256;
    if s < 1 {
        1
    } else if s > 32 {
        32
    } else {
        s
    }
}

impl GpuModel {
    /// Query and KV heads of the tensors handed in.
    pub open spec fn attn_heads(&self, sharded: bool) -> (int, int) {
        if sharded {
            (self.heads(), self.kv_heads())
        } else {
            (self.cfg.num_heads as int, self.cfg.num_kv_heads as int)
        }
    }

    /// The tiled form of a run of columns.
    pub open spec fn tiled_of(&self, c: AttnCall, pos: usize) -> Tiled {
        let (nh, nkv) = self.attn_heads(c.sharded);
        Tiled {
            q: temp(c.first + 3),
            kc: c.kc,
            vc: c.vc,
            attn: temp(c.first + 6),
            stride: c.kv_stride,
            nh: nh as usize,
            nkv: nkv as usize,
            hd: self.cfg.head_dim,
            n: c.n,
            pos,
            first: (c.first + 7) as usize,
        }
    }

    /// A run of `n` columns takes the tiled path.
    pub open spec fn takes_tiles(&self, n: int) -> bool {
        n >= PF_MIN && !self.knobs.prefill_scalar
    }

    /// The attention fits the machine, and its weights suit the path it takes.
    pub open spec fn attn_ok(&self, c: AttnCall) -> bool {
        let (nh, nkv) = self.attn_heads(c.sharded);
        let (h, hd, n) = (self.cfg.hidden_size as int, self.cfg.head_dim as int, c.n as int);
        let rdim = self.cfg.rotary_dim as int;
        &&& match c.fa.qkv {
            AttnIn::Fused(w) => dense(w),
            AttnIn::Split { q, k, v } => dense(q) && dense(k) && dense(v),
        }
        &&& dense(c.fa.o_proj)
        &&& h <= i32::MAX && hd <= i32::MAX && n <= i32::MAX && rdim <= i32::MAX
        &&& nh <= i32::MAX && nkv <= i32::MAX
        &&& c.kv_stride <= i32::MAX
        &&& nh * hd * 2 + 2 * (nkv * hd) <= i32::MAX
        &&& (nh * hd * 2 + 2 * (nkv * hd)) * n <= usize::MAX
        &&& nh * hd * n <= i32::MAX
        &&& nkv * hd * n <= i32::MAX
        &&& h * n <= i32::MAX
        &&& c.first + ATTN_IDS <= usize::MAX
        &&& c.sharded ==> self.reduce_fits(h * n) && (self.fp32_on() && n <= MAX_VERIFY
            ==> c.fa.o_proj is Nvfp4 || c.fa.o_proj is Fp8)
        &&& match c.mode {
            AttnMode::Columns { max_pc, .. } => {
                &&& n * nh * split_bound(max_pc as int) <= usize::MAX
                &&& n * nh * split_bound(max_pc as int) * hd <= usize::MAX
                &&& n * nh <= usize::MAX
            },
            AttnMode::Run { pos } => {
                &&& pos <= i32::MAX
                &&& self.takes_tiles(n) ==> self.tiled_of(c, pos).fits()
            },
        }
    }

    /// Queries, gates, keys and values of the columns, normed and rotated.
    pub open spec fn project_ops(&self, c: AttnCall) -> Seq<Op> {
        let (nh, nkv) = self.attn_heads(c.sharded);
        let (h, hd, n) = (self.cfg.hidden_size as int, self.cfg.head_dim as int, c.n as int);
        let rdim = self.cfg.rotary_dim as int;
        let eps = self.cfg.rms_eps_bits;
        let t = c.first as int;
        let mtot = nh * hd * 2 + 2 * (nkv * hd);
        let w = |p: Proj| WeightId::Of(c.block, p);
        let norm = |v: BlockVec| at(Region::Vector(c.block, v));
        seq![
            get16(t, nh * hd * 2 * n),
            get16(t + 1, nkv * hd * n),
            get16(t + 2, nkv * hd * n),
            get16(t + 3, nh * hd * n),
            get16(t + 4, nh * hd * n),
        ] + (match c.fa.qkv {
            AttnIn::Fused(f) => seq![get16(t + 5, mtot * n)] + gemm_ops(
                f,
                w(Proj::Qkv),
                c.x,
                temp(t + 5),
                h,
                mtot,
                n,
            ) + seq![
                Op::Launch(
                    Call::SplitQkv {
                        qg: temp(t),
                        k: temp(t + 1),
                        v: temp(t + 2),
                        fused: temp(t + 5),
                        qrows: (nh * hd * 2) as i32,
                        kvrows: (nkv * hd) as i32,
                        n: n as i32,
                    },
                ),
                put16(t + 5, mtot * n),
            ],
            AttnIn::Split { q, k, v } => gemm_ops(
                q,
                w(Proj::Q),
                c.x,
                temp(t),
                h,
                nh * hd * 2,
                n,
            ) + gemm_ops(k, w(Proj::K), c.x, temp(t + 1), h, nkv * hd, n) + gemm_ops(
                v,
                w(Proj::V),
                c.x,
                temp(t + 2),
                h,
                nkv * hd,
                n,
            ),
        }) + seq![
            Op::Launch(
                Call::SplitQgate {
                    q: temp(t + 3),
                    gate: temp(t + 4),
                    qg: temp(t),
                    nh: nh as i32,
                    hd: hd as i32,
                    n: n as i32,
                },
            ),
            Op::Launch(
                Call::RmsnormPerhead {
                    x: temp(t + 3),
                    w: norm(BlockVec::QNorm),
                    nh: nh as i32,
                    hd: hd as i32,
                    n: n as i32,
                    eps,
                },
            ),
            Op::Launch(
                Call::RmsnormPerhead {
                    x: temp(t + 1),
                    w: norm(BlockVec::KNorm),
                    nh: nkv as i32,
                    hd: hd as i32,
                    n: n as i32,
                    eps,
                },
            ),
            Op::Launch(
                Call::Rope {
                    x: temp(t + 3),
                    cos: c.cos,
                    sin: c.sin,
                    nh: nh as i32,
                    hd: hd as i32,
                    rdim: rdim as i32,
                    n: n as i32,
                },
            ),
            Op::Launch(
                Call::Rope {
                    x: temp(t + 1),
                    cos: c.cos,
                    sin: c.sin,
                    nh: nkv as i32,
                    hd: hd as i32,
                    rdim: rdim as i32,
                    n: n as i32,
                },
            ),
        ]
    }

    /// The KV write and the attention itself, into buffer `first + 6`.
    ///
    /// Columns are the one path that decode and verify share: what a column computes depends on its own
    /// position and cache alone, which is what makes a verify column equal a decode.
    pub open spec fn dispatch_ops(&self, c: AttnCall) -> Seq<Op> {
        let (nh, nkv) = self.attn_heads(c.sharded);
        let (hd, n) = (self.cfg.head_dim as int, c.n as int);
        let t = c.first as int;
        match c.mode {
            AttnMode::Run { pos } => seq![
                Op::Launch(
                    Call::WriteKvPrefill {
                        kc: c.kc,
                        vc: c.vc,
                        k: temp(t + 1),
                        v: temp(t + 2),
                        stride: c.kv_stride as i32,
                        nkv: nkv as i32,
                        hd: hd as i32,
                        n: n as i32,
                        pos: pos as i32,
                    },
                ),
                get16(t + 6, nh * hd * n),
            ] + (if self.takes_tiles(n) {
                self.tiled_of(c, pos).ops()
            } else {
                seq![
                    Op::Launch(
                        Call::AttnPrefill {
                            attn: temp(t + 6),
                            q: temp(t + 3),
                            kc: c.kc,
                            vc: c.vc,
                            stride: c.kv_stride as i32,
                            nh: nh as i32,
                            nkv: nkv as i32,
                            hd: hd as i32,
                            n: n as i32,
                            pos: pos as i32,
                        },
                    ),
                ]
            }),
            AttnMode::Columns { pos, slots, max_pc, path, rope, starts } => {
                let logical = if rope == at(Region::Null) {
                    pos
                } else {
                    rope
                };
                let ns = split_bound(max_pc as int);
                let np = n * nh * ns;
                seq![
                    Op::Launch(
                        Call::WriteKv {
                            kc: c.kc,
                            vc: c.vc,
                            k: temp(t + 1),
                            v: temp(t + 2),
                            pos,
                            stride: c.kv_stride as i32,
                            nkv: nkv as i32,
                            hd: hd as i32,
                            n: n as i32,
                            slots,
                        },
                    ),
                    get16(t + 6, nh * hd * n),
                    get32(t + 7, np),
                    get32(t + 8, np),
                    get32(t + 9, np * hd),
                    Op::Launch(
                        Call::AttnSplitk {
                            pm: temp(t + 7),
                            pl: temp(t + 8),
                            pa: temp(t + 9),
                            q: temp(t + 3),
                            kc: c.kc,
                            vc: c.vc,
                            logical,
                            n: n as i32,
                            splits: ns as i32,
                            stride: c.kv_stride as i32,
                            nh: nh as i32,
                            nkv: nkv as i32,
                            hd: hd as i32,
                            slots,
                            path,
                            starts,
                        },
                    ),
                    Op::Launch(
                        Call::AttnReduce {
                            attn: temp(t + 6),
                            pm: temp(t + 7),
                            pl: temp(t + 8),
                            pa: temp(t + 9),
                            logical,
                            splits: ns as i32,
                            n: n as i32,
                            nh: nh as i32,
                            nkv: nkv as i32,
                            hd: hd as i32,
                        },
                    ),
                    put32(t + 7, np),
                    put32(t + 8, np),
                    put32(t + 9, np * hd),
                ]
            },
        }
    }

    /// Gate, output projection and its reduction, into buffer `first + 12`.
    pub open spec fn attn_out_ops(&self, c: AttnCall) -> Seq<Op> {
        let (nh, nkv) = self.attn_heads(c.sharded);
        let (h, hd, n) = (self.cfg.hidden_size as int, self.cfg.head_dim as int, c.n as int);
        let t = c.first as int;
        let o = WeightId::Of(c.block, Proj::O);
        seq![
            Op::Launch(
                Call::SigmoidGate {
                    attn: temp(t + 6),
                    gate: temp(t + 4),
                    tot: (nh * hd * n) as i32,
                },
            ),
            get16(t + 12, h * n),
        ] + (if c.sharded {
            self.reduce_site_ops(
                c.fa.o_proj,
                o,
                temp(t + 6),
                temp(t + 12),
                nh * hd,
                h,
                n,
                t + 13,
            )
        } else {
            gemm_ops(c.fa.o_proj, o, temp(t + 6), temp(t + 12), nh * hd, h, n)
        }) + seq![
            put16(t, nh * hd * 2 * n),
            put16(t + 1, nkv * hd * n),
            put16(t + 2, nkv * hd * n),
            put16(t + 3, nh * hd * n),
            put16(t + 4, nh * hd * n),
            put16(t + 6, nh * hd * n),
        ]
    }

    /// The whole attention of a block.
    pub open spec fn full_attn_ops(&self, c: AttnCall) -> Seq<Op> {
        self.project_ops(c) + self.dispatch_ops(c) + self.attn_out_ops(c)
    }

    fn heads_for(&self, sharded: bool) -> (r: (usize, usize))
        ensures
            r.0 == self.attn_heads(sharded).0,
            r.1 == self.attn_heads(sharded).1,
    {
        if sharded {
            (self.eff_num_heads(), self.eff_num_kv_heads())
        } else {
            (self.cfg.num_heads, self.cfg.num_kv_heads)
        }
    }

    fn attn_project(&self, c: AttnCall) -> (r: Vec<Op>)
        requires
            self.attn_ok(c),
        ensures
            r@ == self.project_ops(c),
    {
        let (nh, nkv) = self.heads_for(c.sharded);
        let (h, hd, n, rdim) = (
            self.cfg.hidden_size,
            self.cfg.head_dim,
            c.n,
            self.cfg.rotary_dim,
        );
        let eps: u32 = self.cfg.rms_eps_bits;
        let t: usize = c.first;
        proof {
            assert(0 <= nh * hd && 0 <= nkv * hd && 0 <= nh * hd * n && 0 <= nkv * hd * n)
                by (nonlinear_arith);
            assert((nh * hd * 2 + 2 * (nkv * hd)) * n == nh * hd * 2 * n + 2 * (nkv * hd * n))
                by (nonlinear_arith);
        }
        let qrows: usize = nh * hd * 2;
        let kvrows: usize = nkv * hd;
        let mtot: usize = qrows + 2 * kvrows;
        let mut r: Vec<Op> = vec![
            borrow16(t, qrows * n),
            borrow16(t + 1, kvrows * n),
            borrow16(t + 2, kvrows * n),
            borrow16(t + 3, nh * hd * n),
            borrow16(t + 4, nh * hd * n),
        ];
        proof {
            assert(r@ =~= seq![
                get16(t as int, nh * hd * 2 * n),
                get16(t + 1, nkv * hd * n),
                get16(t + 2, nkv * hd * n),
                get16(t + 3, nh * hd * n),
                get16(t + 4, nh * hd * n),
            ]);
        }
        match c.fa.qkv {
            AttnIn::Fused(f) => {
                let mut part: Vec<Op> = vec![borrow16(t + 5, mtot * n)];
                proof {
                    assert(part@ =~= seq![get16(t + 5, mtot * n)]);
                }
                chain(
                    &mut part,
                    gemm_act(f, WeightId::Of(c.block, Proj::Qkv), c.x, tmp(t + 5), h, mtot, n),
                );
                let end: Vec<Op> = vec![
                    Op::Launch(
                        Call::SplitQkv {
                            qg: tmp(t),
                            k: tmp(t + 1),
                            v: tmp(t + 2),
                            fused: tmp(t + 5),
                            qrows: int32(qrows),
                            kvrows: int32(kvrows),
                            n: int32(n),
                        },
                    ),
                    give16(t + 5, mtot * n),
                ];
                proof {
                    assert(end@ =~= seq![
                        Op::Launch(
                            Call::SplitQkv {
                                qg: temp(t as int),
                                k: temp(t + 1),
                                v: temp(t + 2),
                                fused: temp(t + 5),
                                qrows: (nh * hd * 2) as i32,
                                kvrows: (nkv * hd) as i32,
                                n: n as i32,
                            },
                        ),
                        put16(t + 5, mtot * n),
                    ]);
                }
                chain(&mut part, end);
                chain(&mut r, part);
            },
            AttnIn::Split { q, k, v } => {
                let mut part: Vec<Op> = gemm_act(
                    q,
                    WeightId::Of(c.block, Proj::Q),
                    c.x,
                    tmp(t),
                    h,
                    qrows,
                    n,
                );
                chain(
                    &mut part,
                    gemm_act(k, WeightId::Of(c.block, Proj::K), c.x, tmp(t + 1), h, kvrows, n),
                );
                chain(
                    &mut part,
                    gemm_act(v, WeightId::Of(c.block, Proj::V), c.x, tmp(t + 2), h, kvrows, n),
                );
                chain(&mut r, part);
            },
        }
        let qn: Ptr = ptr(Region::Vector(c.block, BlockVec::QNorm));
        let kn: Ptr = ptr(Region::Vector(c.block, BlockVec::KNorm));
        let last: Vec<Op> = vec![
            Op::Launch(
                Call::SplitQgate {
                    q: tmp(t + 3),
                    gate: tmp(t + 4),
                    qg: tmp(t),
                    nh: int32(nh),
                    hd: int32(hd),
                    n: int32(n),
                },
            ),
            Op::Launch(
                Call::RmsnormPerhead {
                    x: tmp(t + 3),
                    w: qn,
                    nh: int32(nh),
                    hd: int32(hd),
                    n: int32(n),
                    eps,
                },
            ),
            Op::Launch(
                Call::RmsnormPerhead {
                    x: tmp(t + 1),
                    w: kn,
                    nh: int32(nkv),
                    hd: int32(hd),
                    n: int32(n),
                    eps,
                },
            ),
            Op::Launch(
                Call::Rope {
                    x: tmp(t + 3),
                    cos: c.cos,
                    sin: c.sin,
                    nh: int32(nh),
                    hd: int32(hd),
                    rdim: int32(rdim),
                    n: int32(n),
                },
            ),
            Op::Launch(
                Call::Rope {
                    x: tmp(t + 1),
                    cos: c.cos,
                    sin: c.sin,
                    nh: int32(nkv),
                    hd: int32(hd),
                    rdim: int32(rdim),
                    n: int32(n),
                },
            ),
        ];
        let ghost r0 = r@;
        let ghost last0 = last@;
        chain(&mut r, last);
        proof {
            assert(r@ =~= self.project_ops(c));
        }
        r
    }

    /// The KV write and the attention. Head counts are those of the tensors handed in, never of the
    /// process: the draft head's tensors are whole even where the trunk's are split.
    pub fn attn_dispatch(&self, c: AttnCall) -> (r: Vec<Op>)
        requires
            self.attn_ok(c),
        ensures
            r@ == self.dispatch_ops(c),
    {
        let (nh, nkv) = self.heads_for(c.sharded);
        let (hd, n) = (self.cfg.head_dim, c.n);
        let t: usize = c.first;
        proof {
            assert(0 <= nh * hd && 0 <= nh * hd * n) by (nonlinear_arith);
        }
        match c.mode {
            AttnMode::Run { pos } => {
                let mut r: Vec<Op> = vec![
                    Op::Launch(
                        Call::WriteKvPrefill {
                            kc: c.kc,
                            vc: c.vc,
                            k: tmp(t + 1),
                            v: tmp(t + 2),
                            stride: int32(c.kv_stride),
                            nkv: int32(nkv),
                            hd: int32(hd),
                            n: int32(n),
                            pos: int32(pos),
                        },
                    ),
                    borrow16(t + 6, nh * hd * n),
                ];
                let ghost head0 = r@;
                if n >= PF_MIN && !self.knobs.prefill_scalar {
                    let tl: Tiled = Tiled {
                        q: tmp(t + 3),
                        kc: c.kc,
                        vc: c.vc,
                        attn: tmp(t + 6),
                        stride: c.kv_stride,
                        nh,
                        nkv,
                        hd,
                        n,
                        pos,
                        first: t + 7,
                    };
                    proof {
                        assert(tl == self.tiled_of(c, pos));
                    }
                    chain(&mut r, tl.attn_prefill_tiled());
                } else {
                    let one: Vec<Op> = vec![
                        Op::Launch(
                            Call::AttnPrefill {
                                attn: tmp(t + 6),
                                q: tmp(t + 3),
                                kc: c.kc,
                                vc: c.vc,
                                stride: int32(c.kv_stride),
                                nh: int32(nh),
                                nkv: int32(nkv),
                                hd: int32(hd),
                                n: int32(n),
                                pos: int32(pos),
                            },
                        ),
                    ];
                    chain(&mut r, one);
                }
                proof {
                    assert(r@ =~= self.dispatch_ops(c));
                }
                r
            },
            AttnMode::Columns { pos, slots, max_pc, path, rope, starts } => {
                let null: Ptr = ptr(Region::Null);
                let logical: Ptr = if rope == null {
                    pos
                } else {
                    rope
                };
                let raw: usize = max_pc / 256;
                let ns: usize = if raw < 1 {
                    1
                } else if raw > 32 {
                    32
                } else {
                    raw
                };
                proof {
                    assert(0 <= n * nh && 0 <= n * nh * ns && 0 <= n * nh * ns * hd)
                        by (nonlinear_arith);
                }
                let np: usize = n * nh * ns;
                let r: Vec<Op> = vec![
                    Op::Launch(
                        Call::WriteKv {
                            kc: c.kc,
                            vc: c.vc,
                            k: tmp(t + 1),
                            v: tmp(t + 2),
                            pos,
                            stride: int32(c.kv_stride),
                            nkv: int32(nkv),
                            hd: int32(hd),
                            n: int32(n),
                            slots,
                        },
                    ),
                    borrow16(t + 6, nh * hd * n),
                    borrow32(t + 7, np),
                    borrow32(t + 8, np),
                    borrow32(t + 9, np * hd),
                    Op::Launch(
                        Call::AttnSplitk {
                            pm: tmp(t + 7),
                            pl: tmp(t + 8),
                            pa: tmp(t + 9),
                            q: tmp(t + 3),
                            kc: c.kc,
                            vc: c.vc,
                            logical,
                            n: int32(n),
                            splits: int32(ns),
                            stride: int32(c.kv_stride),
                            nh: int32(nh),
                            nkv: int32(nkv),
                            hd: int32(hd),
                            slots,
                            path,
                            starts,
                        },
                    ),
                    Op::Launch(
                        Call::AttnReduce {
                            attn: tmp(t + 6),
                            pm: tmp(t + 7),
                            pl: tmp(t + 8),
                            pa: tmp(t + 9),
                            logical,
                            splits: int32(ns),
                            n: int32(n),
                            nh: int32(nh),
                            nkv: int32(nkv),
                            hd: int32(hd),
                        },
                    ),
                    give32(t + 7, np),
                    give32(t + 8, np),
                    give32(t + 9, np * hd),
                ];
                proof {
                    assert(r@ =~= self.dispatch_ops(c));
                }
                r
            },
        }
    }

    fn attn_finish(&self, c: AttnCall) -> (r: Vec<Op>)
        requires
            self.attn_ok(c),
        ensures
            r@ == self.attn_out_ops(c),
    {
        let (nh, nkv) = self.heads_for(c.sharded);
        let (h, hd, n) = (self.cfg.hidden_size, self.cfg.head_dim, c.n);
        let t: usize = c.first;
        proof {
            assert(0 <= nh * hd && 0 <= nkv * hd && 0 <= nh * hd * n && 0 <= nkv * hd * n && 0 <= h
                * n) by (nonlinear_arith);
            assert((nh * hd * 2 + 2 * (nkv * hd)) * n == nh * hd * 2 * n + 2 * (nkv * hd * n))
                by (nonlinear_arith);
        }
        let o: WeightId = WeightId::Of(c.block, Proj::O);
        let mut r: Vec<Op> = vec![
            Op::Launch(
                Call::SigmoidGate { attn: tmp(t + 6), gate: tmp(t + 4), tot: int32(nh * hd * n) },
            ),
            borrow16(t + 12, h * n),
        ];
        if c.sharded {
            chain(
                &mut r,
                self.tp_reduce_site(
                    c.fa.o_proj,
                    o,
                    tmp(t + 6),
                    tmp(t + 12),
                    nh * hd,
                    h,
                    n,
                    t + 13,
                ),
            );
        } else {
            chain(&mut r, gemm_act(c.fa.o_proj, o, tmp(t + 6), tmp(t + 12), nh * hd, h, n));
        }
        let last: Vec<Op> = vec![
            give16(t, nh * hd * 2 * n),
            give16(t + 1, nkv * hd * n),
            give16(t + 2, nkv * hd * n),
            give16(t + 3, nh * hd * n),
            give16(t + 4, nh * hd * n),
            give16(t + 6, nh * hd * n),
        ];
        chain(&mut r, last);
        proof {
            assert(r@ =~= self.attn_out_ops(c));
        }
        r
    }

    /// The whole attention of a block; the result is buffer `first + 12`.
    pub fn full_attn_batch(&self, c: AttnCall) -> (r: Vec<Op>)
        requires
            self.attn_ok(c),
        ensures
            r@ == self.full_attn_ops(c),
    {
        let mut r: Vec<Op> = self.attn_project(c);
        chain(&mut r, self.attn_dispatch(c));
        chain(&mut r, self.attn_finish(c));
        r
    }
}

/// The launched splits always suffice: a column of `pc` keys, split every 256, never needs more than
/// the bound for a longer one.
pub proof fn law_split_bound_is_monotone(pc: int, max_pc: int)
    requires
        0 <= pc <= max_pc,
    ensures
        1 <= split_bound(pc) <= split_bound(max_pc) <= 32,
{
}

} // verus!
