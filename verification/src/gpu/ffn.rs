//! Feed-forward blocks: the dense MLP and the mixture of experts.
use vstd::prelude::*;

use crate::gpu::gemm::{gemm_act, gemm_act_binv, gemm_binv_ops, gemm_ops};
use crate::gpu::model::{Ffn, GpuMlp, GpuModel, GpuMoe, W};
use crate::gpu::program::{
    at, borrow16, chain, get16, give16, int32, ptr, put16, temp, tmp, Block, Call, Grouped, Op, Proj,
    Ptr, Region, Scratch, WeightId,
};
use crate::gpu::topo::MAX_VERIFY;

verus! {

/// Buffer numbers that a feed-forward block uses.
pub const FFN_IDS: usize = 19;

/// Batch from which tokens are sorted by expert.
pub const GROUP_MIN: usize = 128;

/// A weight that the general product can read.
pub open spec fn dense(w: W) -> bool {
    !(w is Nvfp4Raw)
}

impl GpuModel {
    /// Intermediate width of the dense MLP on this rank.
    pub open spec fn mlp_width(&self, sharded: bool) -> int {
        self.cfg.intermediate_size as int / (if sharded {
            2int
        } else {
            1int
        })
    }

    /// The dense MLP at batch `n` fits the machine, and its weights suit the path it takes.
    pub open spec fn mlp_ok(&self, m: GpuMlp, n: int, sharded: bool) -> bool {
        let (h, im) = (self.cfg.hidden_size as int, self.mlp_width(sharded));
        &&& dense(m.gate) && dense(m.up) && dense(m.down)
        &&& h <= i32::MAX
        &&& im <= i32::MAX
        &&& n <= i32::MAX
        &&& im * n <= i32::MAX
        &&& h * n <= i32::MAX
        &&& sharded ==> self.reduce_fits(h * n) && (self.fp32_on() && n <= MAX_VERIFY ==> m.down is Nvfp4
            || m.down is Fp8)
    }

    /// Dense MLP of `block` on `x`; the result is buffer `t + 2`.
    pub open spec fn mlp_ops(
        &self,
        block: Block,
        m: GpuMlp,
        x: Ptr,
        n: int,
        sharded: bool,
        t: int,
    ) -> Seq<Op> {
        let (h, im) = (self.cfg.hidden_size as int, self.mlp_width(sharded));
        let w = |p: Proj| WeightId::Of(block, p);
        seq![get16(t, im * n), get16(t + 1, im * n)] + gemm_ops(
            m.gate,
            w(Proj::Gate),
            x,
            temp(t),
            h,
            im,
            n,
        ) + gemm_ops(m.up, w(Proj::Up), x, temp(t + 1), h, im, n) + seq![
            Op::Launch(Call::SiluMul { gate: temp(t), up: temp(t + 1), tot: (im * n) as i32 }),
            get16(t + 2, h * n),
        ] + (if sharded {
            self.reduce_site_ops(m.down, w(Proj::Down), temp(t), temp(t + 2), im, h, n, t + 3)
        } else {
            gemm_ops(m.down, w(Proj::Down), temp(t), temp(t + 2), im, h, n)
        }) + seq![put16(t, im * n), put16(t + 1, im * n)]
    }

    /// The dense MLP. Sharded weights give a partial that is reduced across the ranks.
    pub fn mlp_batch(
        &self,
        block: Block,
        m: GpuMlp,
        x: Ptr,
        n: usize,
        sharded: bool,
        t: usize,
    ) -> (r: Vec<Op>)
        requires
            self.mlp_ok(m, n as int, sharded),
            t + FFN_IDS <= usize::MAX,
        ensures
            r@ == self.mlp_ops(block, m, x, n as int, sharded, t as int),
    {
        let h: usize = self.cfg.hidden_size;
        let im: usize = if sharded {
            self.cfg.intermediate_size / 2
        } else {
            self.cfg.intermediate_size
        };
        proof {
            assert(0 <= im * n && 0 <= h * n) by (nonlinear_arith);
        }
        let mut r: Vec<Op> = vec![borrow16(t, im * n), borrow16(t + 1, im * n)];
        proof {
            assert(r@ =~= seq![get16(t as int, im * n), get16(t + 1, im * n)]);
        }
        chain(&mut r, gemm_act(m.gate, WeightId::Of(block, Proj::Gate), x, tmp(t), h, im, n));
        chain(&mut r, gemm_act(m.up, WeightId::Of(block, Proj::Up), x, tmp(t + 1), h, im, n));
        let mid: Vec<Op> = vec![
            Op::Launch(Call::SiluMul { gate: tmp(t), up: tmp(t + 1), tot: int32(im * n) }),
            borrow16(t + 2, h * n),
        ];
        proof {
            assert(mid@ =~= seq![
                Op::Launch(
                    Call::SiluMul {
                        gate: temp(t as int),
                        up: temp(t + 1),
                        tot: (im * n) as i32,
                    },
                ),
                get16(t + 2, h * n),
            ]);
        }
        chain(&mut r, mid);
        if sharded {
            chain(
                &mut r,
                self.tp_reduce_site(
                    m.down,
                    WeightId::Of(block, Proj::Down),
                    tmp(t),
                    tmp(t + 2),
                    im,
                    h,
                    n,
                    t + 3,
                ),
            );
        } else {
            chain(
                &mut r,
                gemm_act(m.down, WeightId::Of(block, Proj::Down), tmp(t), tmp(t + 2), im, h, n),
            );
        }
        let last: Vec<Op> = vec![give16(t, im * n), give16(t + 1, im * n)];
        proof {
            assert(last@ =~= seq![put16(t as int, im * n), put16(t + 1, im * n)]);
        }
        chain(&mut r, last);
        r
    }

    // ---- experts ----

    /// First expert of this rank.
    pub open spec fn expert_base(&self, moe: GpuMoe) -> int {
        if moe.experts_sharded {
            (if self.tp.rank >= 0 {
                self.tp.rank as int
            } else {
                0
            }) * (self.cfg.num_experts as int / 2)
        } else {
            0
        }
    }

    /// Experts of this rank.
    pub open spec fn expert_span(&self, moe: GpuMoe) -> int {
        if moe.experts_sharded {
            self.cfg.num_experts as int / 2
        } else {
            self.cfg.num_experts as int
        }
    }

    /// The expert block at batch `n` fits the machine, and its weights are of one kind.
    pub open spec fn moe_ok(&self, moe: GpuMoe, n: int) -> bool {
        let c = &self.cfg;
        let (h, ne, k) = (c.hidden_size as int, c.num_experts as int, c.num_experts_per_tok as int);
        let (mi, si) = (
            c.moe_intermediate_size as int,
            c.shared_expert_intermediate_size as int,
        );
        &&& dense(moe.router) && dense(moe.shared_gate)
        &&& dense(moe.shared.gate) && dense(moe.shared.up) && dense(moe.shared.down)
        &&& (moe.gate_up is Bf16 && moe.down is Bf16) || (moe.gate_up is Nvfp4
            && moe.down is Nvfp4)
        &&& h <= i32::MAX && ne <= i32::MAX && k <= i32::MAX && si <= i32::MAX && n <= i32::MAX
        &&& 2 * mi <= i32::MAX
        &&& ne * n <= i32::MAX
        &&& h * n <= i32::MAX
        &&& si * n <= i32::MAX
        &&& n * k <= i32::MAX
        &&& n * k * 2 * mi <= usize::MAX
        &&& n * k * mi <= usize::MAX
        &&& n * k * 2 <= usize::MAX
        &&& n * k * h <= usize::MAX
        &&& n * k + ne * 16 <= i32::MAX
        &&& self.expert_base(moe) + self.expert_span(moe) <= i32::MAX
        &&& moe.experts_sharded ==> self.reduce_fits(h * n)
    }

    /// Where the routing of a batch goes: persistent scratch at serving widths (a capture may not
    /// allocate), fresh buffers `t + 2` and `t + 3` above.
    pub open spec fn route_ptrs(n: int, t: int) -> (Ptr, Ptr) {
        if n > MAX_VERIFY {
            (temp(t + 2), temp(t + 3))
        } else {
            (at(Region::Scratch(Scratch::MoeIds)), at(Region::Scratch(Scratch::MoeWts)))
        }
    }

    /// Routing: the ids and weights of every token's experts.
    pub open spec fn route_ops(
        &self,
        block: Block,
        moe: GpuMoe,
        x: Ptr,
        n: int,
        t: int,
    ) -> Seq<Op> {
        let (h, ne, k) = (
            self.cfg.hidden_size as int,
            self.cfg.num_experts as int,
            self.cfg.num_experts_per_tok as int,
        );
        let (ids, wts) = Self::route_ptrs(n, t);
        seq![get16(t, ne * n)] + gemm_binv_ops(
            moe.router,
            WeightId::Of(block, Proj::Router),
            x,
            temp(t),
            h,
            ne,
            n,
        ) + (if n > MAX_VERIFY {
            seq![
                Op::Alloc { id: (t + 2) as usize, len: (k * n) as usize },
                Op::Alloc { id: (t + 3) as usize, len: (k * n) as usize },
            ]
        } else {
            Seq::<Op>::empty()
        }) + seq![
            Op::Launch(
                Call::MoeRouterTopk {
                    ids,
                    wts,
                    logits: temp(t),
                    ne: ne as i32,
                    k: k as i32,
                    n: n as i32,
                },
            ),
            put16(t, ne * n),
            get16(t + 1, h * n),
        ]
    }

    /// The experts' weighted sum into buffer `t + 1`.
    pub open spec fn expert_ops(
        &self,
        block: Block,
        moe: GpuMoe,
        x: Ptr,
        n: int,
        t: int,
    ) -> Seq<Op> {
        let c = &self.cfg;
        let (h, ne, k) = (c.hidden_size as int, c.num_experts as int, c.num_experts_per_tok as int);
        let mi = c.moe_intermediate_size as int;
        let (ids, wts) = Self::route_ptrs(n, t);
        let out = temp(t + 1);
        let (gu, dn) = (
            WeightId::Of(block, Proj::ExpertGateUp),
            WeightId::Of(block, Proj::ExpertDown),
        );
        let (base, span) = (self.expert_base(moe) as i32, self.expert_span(moe) as i32);
        let bk = n * k;
        if moe.gate_up is Bf16 {
            seq![
                Op::Launch(
                    Call::MoeExperts {
                        out,
                        x,
                        ids,
                        wts,
                        gate_up: gu,
                        down: dn,
                        h: h as i32,
                        mi: mi as i32,
                        k: k as i32,
                        n: n as i32,
                    },
                ),
            ]
        } else if n < GROUP_MIN {
            seq![
                get16(t + 4, bk * 2 * mi),
                get16(t + 5, bk * mi),
                get16(t + 6, bk * h),
                Op::Launch(
                    Call::MoeGemm {
                        out: temp(t + 4),
                        w: gu,
                        x,
                        ids,
                        outn: (2 * mi) as i32,
                        inn: h as i32,
                        k: k as i32,
                        per_slot: 0,
                        e_base: base,
                        e_span: span,
                        pairs: bk as i32,
                    },
                ),
                Op::Launch(
                    Call::MoeSilu {
                        out: temp(t + 5),
                        x: temp(t + 4),
                        mi: mi as i32,
                        rows: bk as i32,
                    },
                ),
                Op::Launch(
                    Call::MoeGemm {
                        out: temp(t + 6),
                        w: dn,
                        x: temp(t + 5),
                        ids,
                        outn: h as i32,
                        inn: mi as i32,
                        k: k as i32,
                        per_slot: 1,
                        e_base: base,
                        e_span: span,
                        pairs: bk as i32,
                    },
                ),
                Op::Launch(
                    Call::MoeCombine {
                        out,
                        x: temp(t + 6),
                        wts,
                        h: h as i32,
                        k: k as i32,
                        n: n as i32,
                    },
                ),
                put16(t + 4, bk * 2 * mi),
                put16(t + 5, bk * mi),
                put16(t + 6, bk * h),
            ]
        } else {
            seq![
                Op::Alloc { id: (t + 4) as usize, len: ne as usize },
                Op::Launch(
                    Call::MoeCount {
                        count: temp(t + 4),
                        ids,
                        pairs: bk as i32,
                        lo: base,
                        hi: (self.expert_base(moe) + self.expert_span(moe)) as i32,
                    },
                ),
                Op::Alloc { id: (t + 5) as usize, len: (ne + 1) as usize },
                Op::Alloc { id: (t + 6) as usize, len: ne as usize },
                Op::Launch(
                    Call::MoeOffsets {
                        poff: temp(t + 5),
                        cursor: temp(t + 6),
                        count: temp(t + 4),
                        ne: ne as i32,
                    },
                ),
                Op::Grouped(
                    Grouped {
                        block,
                        first: t as usize,
                        x,
                        out,
                        ids,
                        wts,
                        batch: n as usize,
                        k: c.num_experts_per_tok,
                        ne: c.num_experts,
                        h: c.hidden_size,
                        mi: c.moe_intermediate_size,
                        e_base: base,
                        e_span: span,
                    },
                ),
            ]
        }
    }

    /// The shared expert, gated, added into buffer `t + 1`.
    pub open spec fn shared_ops(
        &self,
        block: Block,
        moe: GpuMoe,
        x: Ptr,
        n: int,
        t: int,
    ) -> Seq<Op> {
        let h = self.cfg.hidden_size as int;
        let si = self.cfg.shared_expert_intermediate_size as int;
        let w = |p: Proj| WeightId::Of(block, p);
        seq![get16(t + 15, si * n), get16(t + 16, si * n)] + gemm_ops(
            moe.shared.gate,
            w(Proj::SharedGateProj),
            x,
            temp(t + 15),
            h,
            si,
            n,
        ) + gemm_ops(moe.shared.up, w(Proj::SharedUp), x, temp(t + 16), h, si, n) + seq![
            Op::Launch(
                Call::SiluMul { gate: temp(t + 15), up: temp(t + 16), tot: (si * n) as i32 },
            ),
            get16(t + 17, h * n),
        ] + gemm_ops(moe.shared.down, w(Proj::SharedDown), temp(t + 15), temp(t + 17), si, h, n)
            + seq![get16(t + 18, n)] + gemm_binv_ops(
            moe.shared_gate,
            w(Proj::SharedGate),
            x,
            temp(t + 18),
            h,
            1,
            n,
        ) + seq![
            Op::Launch(
                Call::MoeSharedCombine {
                    out: temp(t + 1),
                    shared: temp(t + 17),
                    gate: temp(t + 18),
                    h: h as i32,
                    n: n as i32,
                },
            ),
            put16(t + 15, si * n),
            put16(t + 16, si * n),
            put16(t + 17, h * n),
            put16(t + 18, n),
        ]
    }

    /// The expert block of `block` on `x`; the result is buffer `t + 1`.
    ///
    /// Sharded experts give a partial, reduced before the shared expert is added: the shared expert is
    /// whole on both ranks and would be counted twice after.
    pub open spec fn moe_ops(
        &self,
        block: Block,
        moe: GpuMoe,
        x: Ptr,
        n: int,
        t: int,
    ) -> Seq<Op> {
        self.route_ops(block, moe, x, n, t) + self.expert_ops(block, moe, x, n, t) + (
        if moe.experts_sharded {
            self.reduce16_ops(temp(t + 1), self.cfg.hidden_size * n)
        } else {
            Seq::<Op>::empty()
        }) + self.shared_ops(block, moe, x, n, t)
    }

    fn moe_route(&self, block: Block, moe: GpuMoe, x: Ptr, n: usize, t: usize) -> (r: Vec<Op>)
        requires
            self.moe_ok(moe, n as int),
            t + FFN_IDS <= usize::MAX,
        ensures
            r@ == self.route_ops(block, moe, x, n as int, t as int),
    {
        let (h, ne, k) = (
            self.cfg.hidden_size,
            self.cfg.num_experts,
            self.cfg.num_experts_per_tok,
        );
        proof {
            assert(0 <= ne * n && 0 <= h * n && k * n == n * k && 0 <= n * k) by (nonlinear_arith);
        }
        let ids: Ptr = if n > MAX_VERIFY {
            tmp(t + 2)
        } else {
            ptr(Region::Scratch(Scratch::MoeIds))
        };
        let wts: Ptr = if n > MAX_VERIFY {
            tmp(t + 3)
        } else {
            ptr(Region::Scratch(Scratch::MoeWts))
        };
        let mut r: Vec<Op> = vec![borrow16(t, ne * n)];
        proof {
            assert(r@ =~= seq![get16(t as int, ne * n)]);
        }
        chain(
            &mut r,
            gemm_act_binv(moe.router, WeightId::Of(block, Proj::Router), x, tmp(t), h, ne, n),
        );
        let own: Vec<Op> = if n > MAX_VERIFY {
            vec![Op::Alloc { id: t + 2, len: k * n }, Op::Alloc { id: t + 3, len: k * n }]
        } else {
            Vec::new()
        };
        proof {
            assert(own@ =~= (if n > MAX_VERIFY {
                seq![
                    Op::Alloc { id: (t + 2) as usize, len: (k * n) as usize },
                    Op::Alloc { id: (t + 3) as usize, len: (k * n) as usize },
                ]
            } else {
                Seq::<Op>::empty()
            }));
        }
        chain(&mut r, own);
        let last: Vec<Op> = vec![
            Op::Launch(
                Call::MoeRouterTopk {
                    ids,
                    wts,
                    logits: tmp(t),
                    ne: int32(ne),
                    k: int32(k),
                    n: int32(n),
                },
            ),
            give16(t, ne * n),
            borrow16(t + 1, h * n),
        ];
        proof {
            assert(last@ =~= seq![
                Op::Launch(
                    Call::MoeRouterTopk {
                        ids,
                        wts,
                        logits: temp(t as int),
                        ne: ne as i32,
                        k: k as i32,
                        n: n as i32,
                    },
                ),
                put16(t as int, ne * n),
                get16(t + 1, h * n),
            ]);
        }
        chain(&mut r, last);
        r
    }

    fn moe_experts(&self, block: Block, moe: GpuMoe, x: Ptr, n: usize, t: usize) -> (r: Vec<Op>)
        requires
            self.moe_ok(moe, n as int),
            t + FFN_IDS <= usize::MAX,
        ensures
            r@ == self.expert_ops(block, moe, x, n as int, t as int),
    {
        let (h, ne, k) = (
            self.cfg.hidden_size,
            self.cfg.num_experts,
            self.cfg.num_experts_per_tok,
        );
        let mi: usize = self.cfg.moe_intermediate_size;
        let ids: Ptr = if n > MAX_VERIFY {
            tmp(t + 2)
        } else {
            ptr(Region::Scratch(Scratch::MoeIds))
        };
        let wts: Ptr = if n > MAX_VERIFY {
            tmp(t + 3)
        } else {
            ptr(Region::Scratch(Scratch::MoeWts))
        };
        let out: Ptr = tmp(t + 1);
        let gu: WeightId = WeightId::Of(block, Proj::ExpertGateUp);
        let dn: WeightId = WeightId::Of(block, Proj::ExpertDown);
        let half: usize = ne / 2;
        let span: usize = if moe.experts_sharded {
            half
        } else {
            ne
        };
        let rank: usize = if self.tp.rank >= 0 {
            self.tp.rank as usize
        } else {
            0
        };
        proof {
            assert(0 <= rank * half) by (nonlinear_arith);
            assert(0 <= n * k && 0 <= n * k * mi && 0 <= n * k * h) by (nonlinear_arith);
            assert(n * k * 2 * mi == 2 * (n * k * mi)) by (nonlinear_arith);
        }
        let base: usize = if moe.experts_sharded {
            rank * half
        } else {
            0
        };
        let bk: usize = n * k;
        let quantized: bool = match moe.gate_up {
            W::Bf16 => false,
            _ => true,
        };
        let r: Vec<Op> = if !quantized {
            vec![
                Op::Launch(
                    Call::MoeExperts {
                        out,
                        x,
                        ids,
                        wts,
                        gate_up: gu,
                        down: dn,
                        h: int32(h),
                        mi: int32(mi),
                        k: int32(k),
                        n: int32(n),
                    },
                ),
            ]
        } else if n < GROUP_MIN {
            vec![
                borrow16(t + 4, bk * 2 * mi),
                borrow16(t + 5, bk * mi),
                borrow16(t + 6, bk * h),
                Op::Launch(
                    Call::MoeGemm {
                        out: tmp(t + 4),
                        w: gu,
                        x,
                        ids,
                        outn: int32(2 * mi),
                        inn: int32(h),
                        k: int32(k),
                        per_slot: 0,
                        e_base: int32(base),
                        e_span: int32(span),
                        pairs: int32(bk),
                    },
                ),
                Op::Launch(
                    Call::MoeSilu {
                        out: tmp(t + 5),
                        x: tmp(t + 4),
                        mi: int32(mi),
                        rows: int32(bk),
                    },
                ),
                Op::Launch(
                    Call::MoeGemm {
                        out: tmp(t + 6),
                        w: dn,
                        x: tmp(t + 5),
                        ids,
                        outn: int32(h),
                        inn: int32(mi),
                        k: int32(k),
                        per_slot: 1,
                        e_base: int32(base),
                        e_span: int32(span),
                        pairs: int32(bk),
                    },
                ),
                Op::Launch(
                    Call::MoeCombine {
                        out,
                        x: tmp(t + 6),
                        wts,
                        h: int32(h),
                        k: int32(k),
                        n: int32(n),
                    },
                ),
                give16(t + 4, bk * 2 * mi),
                give16(t + 5, bk * mi),
                give16(t + 6, bk * h),
            ]
        } else {
            vec![
                Op::Alloc { id: t + 4, len: ne },
                Op::Launch(
                    Call::MoeCount {
                        count: tmp(t + 4),
                        ids,
                        pairs: int32(bk),
                        lo: int32(base),
                        hi: int32(base + span),
                    },
                ),
                Op::Alloc { id: t + 5, len: ne + 1 },
                Op::Alloc { id: t + 6, len: ne },
                Op::Launch(
                    Call::MoeOffsets {
                        poff: tmp(t + 5),
                        cursor: tmp(t + 6),
                        count: tmp(t + 4),
                        ne: int32(ne),
                    },
                ),
                Op::Grouped(
                    Grouped {
                        block,
                        first: t,
                        x,
                        out,
                        ids,
                        wts,
                        batch: n,
                        k,
                        ne,
                        h,
                        mi,
                        e_base: int32(base),
                        e_span: int32(span),
                    },
                ),
            ]
        };
        proof {
            assert(r@ =~= self.expert_ops(block, moe, x, n as int, t as int));
        }
        r
    }

    fn moe_shared(&self, block: Block, moe: GpuMoe, x: Ptr, n: usize, t: usize) -> (r: Vec<Op>)
        requires
            self.moe_ok(moe, n as int),
            t + FFN_IDS <= usize::MAX,
        ensures
            r@ == self.shared_ops(block, moe, x, n as int, t as int),
    {
        let h: usize = self.cfg.hidden_size;
        let si: usize = self.cfg.shared_expert_intermediate_size;
        proof {
            assert(0 <= si * n && 0 <= h * n) by (nonlinear_arith);
        }
        let mut r: Vec<Op> = vec![borrow16(t + 15, si * n), borrow16(t + 16, si * n)];
        proof {
            assert(r@ =~= seq![get16(t + 15, si * n), get16(t + 16, si * n)]);
        }
        chain(
            &mut r,
            gemm_act(
                moe.shared.gate,
                WeightId::Of(block, Proj::SharedGateProj),
                x,
                tmp(t + 15),
                h,
                si,
                n,
            ),
        );
        chain(
            &mut r,
            gemm_act(moe.shared.up, WeightId::Of(block, Proj::SharedUp), x, tmp(t + 16), h, si, n),
        );
        let mid: Vec<Op> = vec![
            Op::Launch(Call::SiluMul { gate: tmp(t + 15), up: tmp(t + 16), tot: int32(si * n) }),
            borrow16(t + 17, h * n),
        ];
        proof {
            assert(mid@ =~= seq![
                Op::Launch(
                    Call::SiluMul { gate: temp(t + 15), up: temp(t + 16), tot: (si * n) as i32 },
                ),
                get16(t + 17, h * n),
            ]);
        }
        chain(&mut r, mid);
        chain(
            &mut r,
            gemm_act(
                moe.shared.down,
                WeightId::Of(block, Proj::SharedDown),
                tmp(t + 15),
                tmp(t + 17),
                si,
                h,
                n,
            ),
        );
        let one: Vec<Op> = vec![borrow16(t + 18, n)];
        proof {
            assert(one@ =~= seq![get16(t + 18, n as int)]);
        }
        chain(&mut r, one);
        chain(
            &mut r,
            gemm_act_binv(
                moe.shared_gate,
                WeightId::Of(block, Proj::SharedGate),
                x,
                tmp(t + 18),
                h,
                1,
                n,
            ),
        );
        let last: Vec<Op> = vec![
            Op::Launch(
                Call::MoeSharedCombine {
                    out: tmp(t + 1),
                    shared: tmp(t + 17),
                    gate: tmp(t + 18),
                    h: int32(h),
                    n: int32(n),
                },
            ),
            give16(t + 15, si * n),
            give16(t + 16, si * n),
            give16(t + 17, h * n),
            give16(t + 18, n),
        ];
        proof {
            assert(last@ =~= seq![
                Op::Launch(
                    Call::MoeSharedCombine {
                        out: temp(t + 1),
                        shared: temp(t + 17),
                        gate: temp(t + 18),
                        h: h as i32,
                        n: n as i32,
                    },
                ),
                put16(t + 15, si * n),
                put16(t + 16, si * n),
                put16(t + 17, h * n),
                put16(t + 18, n as int),
            ]);
        }
        chain(&mut r, last);
        r
    }

    /// The expert block: route, run the chosen experts, reduce where they are sharded, add the shared
    /// expert.
    pub fn moe_batch(&self, block: Block, moe: GpuMoe, x: Ptr, n: usize, t: usize) -> (r: Vec<Op>)
        requires
            self.moe_ok(moe, n as int),
            t + FFN_IDS <= usize::MAX,
        ensures
            r@ == self.moe_ops(block, moe, x, n as int, t as int),
    {
        let mut r: Vec<Op> = self.moe_route(block, moe, x, n, t);
        chain(&mut r, self.moe_experts(block, moe, x, n, t));
        proof {
            assert(0 <= self.cfg.hidden_size * n) by (nonlinear_arith);
        }
        let red: Vec<Op> = if moe.experts_sharded {
            self.tp_all_reduce_bf16(tmp(t + 1), self.cfg.hidden_size * n)
        } else {
            Vec::new()
        };
        proof {
            if !moe.experts_sharded {
                assert(red@ =~= Seq::<Op>::empty());
            }
        }
        chain(&mut r, red);
        chain(&mut r, self.moe_shared(block, moe, x, n, t));
        r
    }

    /// A feed-forward block that can run at batch `n`.
    pub open spec fn ffn_ok(&self, ffn: Ffn, n: int, sharded: bool) -> bool {
        match ffn {
            Ffn::Dense(m) => self.mlp_ok(m, n, sharded),
            Ffn::Moe(moe) => self.moe_ok(moe, n),
        }
    }

    /// The feed-forward block of `block`.
    pub open spec fn ffn_ops(
        &self,
        block: Block,
        ffn: Ffn,
        x: Ptr,
        n: int,
        sharded: bool,
        t: int,
    ) -> Seq<Op> {
        match ffn {
            Ffn::Dense(m) => self.mlp_ops(block, m, x, n, sharded, t),
            Ffn::Moe(moe) => self.moe_ops(block, moe, x, n, t),
        }
    }

    /// The buffer that holds a feed-forward block's result.
    pub open spec fn ffn_out(ffn: Ffn, t: int) -> int {
        match ffn {
            Ffn::Dense(_) => t + 2,
            Ffn::Moe(_) => t + 1,
        }
    }

    /// Runs a layer's feed-forward block. Whether it is sharded is a property of its tensors: the draft
    /// head's are whole even where the trunk's are split.
    pub fn ffn_batch(
        &self,
        block: Block,
        ffn: Ffn,
        x: Ptr,
        n: usize,
        sharded: bool,
        t: usize,
    ) -> (r: (Vec<Op>, usize))
        requires
            self.ffn_ok(ffn, n as int, sharded),
            t + FFN_IDS <= usize::MAX,
        ensures
            r.0@ == self.ffn_ops(block, ffn, x, n as int, sharded, t as int),
            r.1 == Self::ffn_out(ffn, t as int),
    {
        match ffn {
            Ffn::Dense(m) => (self.mlp_batch(block, m, x, n, sharded, t), t + 2),
            Ffn::Moe(moe) => (self.moe_batch(block, moe, x, n, t), t + 1),
        }
    }
}

// ---- grouped experts ----

/// Rows that a grouped pass can need at most: every expert's group padded to sixteen.
pub open spec fn most_rows(g: Grouped) -> int {
    g.batch * g.k + g.ne * 16
}

/// The grouped pass over `rows` padded rows.
pub open spec fn grouped_ops(g: Grouped, rows: int) -> Seq<Op> {
    let t = g.first as int;
    let (perm, pwt, inv, tile) = (temp(t + 7), temp(t + 8), temp(t + 9), temp(t + 10));
    let (poff, cursor) = (temp(t + 5), temp(t + 6));
    let (h, mi) = (g.h as int, g.mi as int);
    let pairs = g.batch * g.k;
    seq![
        Op::Alloc { id: (t + 7) as usize, len: most_rows(g) as usize },
        Op::Fill { dst: perm, value: -1i32, len: most_rows(g) as usize },
        Op::Alloc { id: (t + 8) as usize, len: most_rows(g) as usize },
        Op::Alloc { id: (t + 9) as usize, len: pairs as usize },
        Op::Alloc { id: (t + 10) as usize, len: (most_rows(g) / 8 + 1) as usize },
        Op::Launch(
            Call::MoeScatter {
                perm,
                wt: pwt,
                inv,
                cursor,
                ids: g.ids,
                wts: g.wts,
                pairs: pairs as i32,
                k: g.k as i32,
                lo: g.e_base,
                hi: (g.e_base + g.e_span) as i32,
            },
        ),
        Op::Launch(Call::MoeTilemap { tile, poff, ne: g.ne as i32 }),
        get16(t + 11, rows * h),
        Op::Launch(
            Call::MoeGatherX { out: temp(t + 11), x: g.x, perm, h: h as i32, rows: rows as i32 },
        ),
        get16(t + 12, rows * 2 * mi),
        Op::Launch(
            Call::MoeGrouped {
                out: temp(t + 12),
                w: WeightId::Of(g.block, Proj::ExpertGateUp),
                x: temp(t + 11),
                tile,
                outn: (2 * mi) as i32,
                inn: h as i32,
                e_base: g.e_base,
                groups: (rows / 16) as i32,
            },
        ),
        get16(t + 13, rows * mi),
        Op::Launch(
            Call::MoeSilu { out: temp(t + 13), x: temp(t + 12), mi: mi as i32, rows: rows as i32 },
        ),
        get16(t + 14, rows * h),
        Op::Launch(
            Call::MoeGrouped {
                out: temp(t + 14),
                w: WeightId::Of(g.block, Proj::ExpertDown),
                x: temp(t + 13),
                tile,
                outn: h as i32,
                inn: mi as i32,
                e_base: g.e_base,
                groups: (rows / 16) as i32,
            },
        ),
        Op::Launch(
            Call::MoeCombineGrouped {
                out: g.out,
                x: temp(t + 14),
                wt: pwt,
                inv,
                h: h as i32,
                k: g.k as i32,
                n: g.batch as i32,
            },
        ),
        put16(t + 11, rows * h),
        put16(t + 12, rows * 2 * mi),
        put16(t + 13, rows * mi),
        put16(t + 14, rows * h),
    ]
}

/// The rest of a grouped expert pass, once the device has said how many padded rows there are.
pub fn expand_grouped(g: Grouped, rows: usize) -> (r: Vec<Op>)
    requires
        g.first + FFN_IDS <= usize::MAX,
        g.h <= i32::MAX,
        2 * g.mi <= i32::MAX,
        g.k <= i32::MAX,
        g.ne <= i32::MAX,
        g.batch <= i32::MAX,
        most_rows(g) <= i32::MAX,
        rows <= most_rows(g),
        0 <= g.e_base + g.e_span <= i32::MAX,
        rows * g.h <= usize::MAX,
        rows * 2 * g.mi <= usize::MAX,
        rows * g.mi <= usize::MAX,
    ensures
        r@ == grouped_ops(g, rows as int),
{
    let t: usize = g.first;
    let (h, mi) = (g.h, g.mi);
    proof {
        assert(0 <= g.batch * g.k && 0 <= g.ne * 16) by (nonlinear_arith);
        assert(0 <= rows * h && 0 <= rows * mi) by (nonlinear_arith);
        assert(rows * 2 * mi == 2 * (rows * mi)) by (nonlinear_arith);
    }
    let pairs: usize = g.batch * g.k;
    let most: usize = pairs + g.ne * 16;
    let (perm, pwt, inv, tile) = (tmp(t + 7), tmp(t + 8), tmp(t + 9), tmp(t + 10));
    let (poff, cursor) = (tmp(t + 5), tmp(t + 6));
    let r: Vec<Op> = vec![
        Op::Alloc { id: t + 7, len: most },
        Op::Fill { dst: perm, value: -1, len: most },
        Op::Alloc { id: t + 8, len: most },
        Op::Alloc { id: t + 9, len: pairs },
        Op::Alloc { id: t + 10, len: most / 8 + 1 },
        Op::Launch(
            Call::MoeScatter {
                perm,
                wt: pwt,
                inv,
                cursor,
                ids: g.ids,
                wts: g.wts,
                pairs: int32(pairs),
                k: int32(g.k),
                lo: g.e_base,
                hi: g.e_base + g.e_span,
            },
        ),
        Op::Launch(Call::MoeTilemap { tile, poff, ne: int32(g.ne) }),
        borrow16(t + 11, rows * h),
        Op::Launch(
            Call::MoeGatherX { out: tmp(t + 11), x: g.x, perm, h: int32(h), rows: int32(rows) },
        ),
        borrow16(t + 12, rows * 2 * mi),
        Op::Launch(
            Call::MoeGrouped {
                out: tmp(t + 12),
                w: WeightId::Of(g.block, Proj::ExpertGateUp),
                x: tmp(t + 11),
                tile,
                outn: int32(2 * mi),
                inn: int32(h),
                e_base: g.e_base,
                groups: int32(rows / 16),
            },
        ),
        borrow16(t + 13, rows * mi),
        Op::Launch(
            Call::MoeSilu { out: tmp(t + 13), x: tmp(t + 12), mi: int32(mi), rows: int32(rows) },
        ),
        borrow16(t + 14, rows * h),
        Op::Launch(
            Call::MoeGrouped {
                out: tmp(t + 14),
                w: WeightId::Of(g.block, Proj::ExpertDown),
                x: tmp(t + 13),
                tile,
                outn: int32(h),
                inn: int32(mi),
                e_base: g.e_base,
                groups: int32(rows / 16),
            },
        ),
        Op::Launch(
            Call::MoeCombineGrouped {
                out: g.out,
                x: tmp(t + 14),
                wt: pwt,
                inv,
                h: int32(h),
                k: int32(g.k),
                n: int32(g.batch),
            },
        ),
        give16(t + 11, rows * h),
        give16(t + 12, rows * 2 * mi),
        give16(t + 13, rows * mi),
        give16(t + 14, rows * h),
    ];
    proof {
        assert(r@ =~= grouped_ops(g, rows as int));
    }
    r
}

} // verus!
