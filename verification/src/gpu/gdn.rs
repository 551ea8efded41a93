//! Gated delta-rule attention of one block: projection, convolution, recurrence, output.
use vstd::prelude::*;

use crate::gpu::ffn::dense;
use crate::gpu::gemm::{gemm_act, gemm_ops};
use crate::gpu::model::{GdnIn, GpuLinearAttn, GpuModel};
use crate::gpu::program::{
    at, borrow16, chain, get16, give16, int32, ptr, put16, temp, tmp, Block, BlockVec, Call, Op,
    Proj, Ptr, Region, Scratch, WeightId,
};
use crate::gpu::topo::MAX_VERIFY;

verus! {

/// Buffer numbers that a linear-attention block uses.
pub const GDN_IDS: usize = 10;

/// One linear attention over `n` columns.
#[derive(Clone, Copy, PartialEq, Eq, Structural)]
pub struct GdnCall {
    pub block: Block,
    pub la: GpuLinearAttn,
    /// Normed input.
    pub x: Ptr,
    /// Convolution state: of the lane for a plain run, of all lanes otherwise.
    pub conv: Ptr,
    /// Recurrent state, likewise.
    pub state: Ptr,
    pub slots: Ptr,
    pub n: usize,
    /// First buffer number; the result is buffer `first + 7`.
    pub first: usize,
}

/// What a run of columns leaves behind besides its final state.
#[derive(Clone, Copy, PartialEq, Eq, Structural)]
pub struct RunTables {
    /// Checkpoint of the convolution state per column, or none.
    pub mid_conv: Ptr,
    /// Checkpoint of the recurrent state per column, or none.
    pub mid_state: Ptr,
    /// Convolution-window table, or none for a plain run.
    pub winsrc: Ptr,
    /// Scan-parent table, or none for a plain run.
    pub parent: Ptr,
}

impl GpuModel {
    /// Heads that the decode kernel is launched with; the negative control uses all of them.
    pub open spec fn launch_heads(&self) -> (int, int) {
        if self.head_proof_on() && self.tp.head_fault {
            (self.cfg.lin_num_v_heads as int, self.cfg.lin_num_k_heads as int)
        } else {
            (self.lin_v_heads(), self.lin_k_heads())
        }
    }

    /// The linear attention fits the machine, and its weights suit the path it takes.
    pub open spec fn gdn_ok(&self, c: GdnCall) -> bool {
        let n = c.n as int;
        let h = self.cfg.hidden_size as int;
        let nh = self.lin_v_heads();
        let (kd, vd) = (self.cfg.lin_k_dim as int, self.cfg.lin_v_dim as int);
        &&& match c.la.in_proj {
            GdnIn::Fused(w) => dense(w),
            GdnIn::Split { qkv, z, b, a } => dense(qkv) && dense(z) && dense(b) && dense(a),
        }
        &&& dense(c.la.out_proj)
        &&& self.gdn_fused_m() <= i32::MAX
        &&& self.head0() <= i32::MAX
        &&& h <= i32::MAX && n <= i32::MAX && kd <= i32::MAX && vd <= i32::MAX
        &&& self.cfg.conv_kernel <= i32::MAX
        &&& self.cfg.lin_num_v_heads <= i32::MAX && self.cfg.lin_num_k_heads <= i32::MAX
        &&& self.gdn_fused_m() * n <= usize::MAX
        &&& self.conv_dim() * n <= usize::MAX
        &&& self.value_dim() * n <= usize::MAX
        &&& nh * n <= usize::MAX
        &&& self.cfg.lin_num_v_heads * vd * n <= usize::MAX
        &&& self.cfg.lin_num_v_heads * vd <= usize::MAX
        &&& h * n <= i32::MAX
        &&& c.first + GDN_IDS <= usize::MAX
        &&& self.mixers_sharded() ==> self.reduce_fits(h * n) && (self.fp32_on() && n <= MAX_VERIFY
            ==> c.la.out_proj is Nvfp4 || c.la.out_proj is Fp8)
    }

    /// The input projections, into buffers `first .. first + 4`.
    pub open spec fn gdn_project_ops(&self, c: GdnCall) -> Seq<Op> {
        let (t, n) = (c.first as int, c.n as int);
        let h = self.cfg.hidden_size as int;
        let (cd, vdim, nh, m) = (
            self.conv_dim(),
            self.value_dim(),
            self.lin_v_heads(),
            self.gdn_fused_m(),
        );
        let w = |p: Proj| WeightId::Of(c.block, p);
        seq![get16(t, cd * n), get16(t + 1, vdim * n), get16(t + 2, nh * n), get16(t + 3, nh * n)]
            + (match c.la.in_proj {
            GdnIn::Fused(f) => seq![get16(t + 4, m * n)] + gemm_ops(
                f,
                w(Proj::GdnIn),
                c.x,
                temp(t + 4),
                h,
                m,
                n,
            ) + seq![
                Op::Launch(
                    Call::SplitGdn {
                        qkv: temp(t),
                        z: temp(t + 1),
                        b: temp(t + 2),
                        a: temp(t + 3),
                        fused: temp(t + 4),
                        conv_dim: cd as i32,
                        value_dim: vdim as i32,
                        nh: nh as i32,
                        n: n as i32,
                        full_nv: self.cfg.lin_num_v_heads as i32,
                        head0: self.head0() as i32,
                    },
                ),
                put16(t + 4, m * n),
            ],
            GdnIn::Split { qkv, z, b, a } => gemm_ops(
                qkv,
                w(Proj::GdnQkv),
                c.x,
                temp(t),
                h,
                cd,
                n,
            ) + gemm_ops(z, w(Proj::GdnZ), c.x, temp(t + 1), h, vdim, n) + gemm_ops(
                b,
                w(Proj::GdnB),
                c.x,
                temp(t + 2),
                h,
                nh,
                n,
            ) + gemm_ops(a, w(Proj::GdnA), c.x, temp(t + 3), h, nh, n),
        })
    }

    /// Gated norm, output projection and its reduction, into buffer `first + 7`; the recurrence output
    /// is buffer `first + 5` of `core` elements and the convolved input buffer `qkv`.
    pub open spec fn gdn_out_ops(&self, c: GdnCall, qkv: int, core: int) -> Seq<Op> {
        let (t, n) = (c.first as int, c.n as int);
        let h = self.cfg.hidden_size as int;
        let (cd, vdim, nh) = (self.conv_dim(), self.value_dim(), self.lin_v_heads());
        let o = WeightId::Of(c.block, Proj::GdnOut);
        seq![
            get16(t + 6, vdim * n),
            Op::Launch(
                Call::RmsnormGated {
                    out: temp(t + 6),
                    x: temp(t + 5),
                    z: temp(t + 1),
                    w: at(Region::Vector(c.block, BlockVec::GdnNorm)),
                    vd: self.cfg.lin_v_dim as i32,
                    nh: nh as i32,
                    n: n as i32,
                    eps: self.cfg.rms_eps_bits,
                },
            ),
            get16(t + 7, h * n),
        ] + (if self.mixers_sharded() {
            self.reduce_site_ops(
                c.la.out_proj,
                o,
                temp(t + 6),
                temp(t + 7),
                vdim,
                h,
                n,
                t + 8,
            )
        } else {
            gemm_ops(c.la.out_proj, o, temp(t + 6), temp(t + 7), vdim, h, n)
        }) + seq![
            put16(qkv, cd * n),
            put16(t + 1, vdim * n),
            put16(t + 2, nh * n),
            put16(t + 3, nh * n),
            put16(t + 5, core),
            put16(t + 6, vdim * n),
        ]
    }

    /// One step of every lane.
    pub open spec fn linear_attn_ops(&self, c: GdnCall) -> Seq<Op> {
        let (t, n) = (c.first as int, c.n as int);
        let (nh, nk) = self.launch_heads();
        let vd = self.cfg.lin_v_dim as int;
        let vec = |v: BlockVec| at(Region::Vector(c.block, v));
        self.gdn_project_ops(c) + seq![
            Op::Launch(
                Call::Conv1d {
                    qkv: temp(t),
                    state: c.conv,
                    w: vec(BlockVec::Conv1d),
                    conv_dim: self.conv_dim() as i32,
                    ck: self.cfg.conv_kernel as i32,
                    n: n as i32,
                    slots: c.slots,
                },
            ),
            get16(t + 5, nh * vd * n),
            Op::Launch(
                Call::DeltaStep {
                    core: temp(t + 5),
                    qkv: temp(t),
                    state: c.state,
                    b: temp(t + 2),
                    a: temp(t + 3),
                    nh: nh as i32,
                    nk: nk as i32,
                    kd: self.cfg.lin_k_dim as i32,
                    vd: vd as i32,
                    a_log: vec(BlockVec::ALog),
                    dt_bias: vec(BlockVec::DtBias),
                    slots: c.slots,
                    visits: if self.head_proof_on() {
                        at(Region::Scratch(Scratch::HeadVisits))
                    } else {
                        at(Region::Null)
                    },
                    n: n as i32,
                },
            ),
        ] + self.gdn_out_ops(c, t, nh * vd * n)
    }

    /// The final window of one run of columns, carried into its lane's state.
    pub open spec fn carry_op(&self, c: GdnCall, seg: (usize, usize)) -> Op {
        Op::Launch(
            Call::Conv1dState {
                state: c.conv,
                x: temp(c.first as int),
                conv_dim: self.conv_dim() as i32,
                ck: self.cfg.conv_kernel as i32,
                last: (seg.0 + seg.1 - 1) as i32,
                len: seg.1 as i32,
                slots: c.slots,
            },
        )
    }

    /// A run of columns, each lane's run a segment. The convolution is out of place: its input is
    /// buffer `first`, its output buffer `first + 9`.
    pub open spec fn gdn_run_ops(
        &self,
        c: GdnCall,
        tab: RunTables,
        segs: Seq<(usize, usize)>,
    ) -> Seq<Op> {
        let (t, n) = (c.first as int, c.n as int);
        let (nh, nk) = (self.lin_v_heads(), self.lin_k_heads());
        let (cd, vd) = (self.conv_dim(), self.cfg.lin_v_dim as int);
        let vec = |v: BlockVec| at(Region::Vector(c.block, v));
        self.gdn_project_ops(c) + seq![
            get16(t + 9, cd * n),
            Op::Launch(
                Call::Conv1dPrefill {
                    out: temp(t + 9),
                    x: temp(t),
                    state: c.conv,
                    w: vec(BlockVec::Conv1d),
                    conv_dim: cd as i32,
                    ck: self.cfg.conv_kernel as i32,
                    n: n as i32,
                    mid: tab.mid_conv,
                    winsrc: tab.winsrc,
                    slots: c.slots,
                },
            ),
        ] + segs.map_values(|s: (usize, usize)| self.carry_op(c, s)) + seq![
            put16(t, cd * n),
            get16(t + 5, nh * vd * n),
            Op::Launch(
                Call::DeltaPrefill {
                    core: temp(t + 5),
                    qkv: temp(t + 9),
                    state: c.state,
                    b: temp(t + 2),
                    a: temp(t + 3),
                    nh: nh as i32,
                    kd: self.cfg.lin_k_dim as i32,
                    vd: vd as i32,
                    a_log: vec(BlockVec::ALog),
                    dt_bias: vec(BlockVec::DtBias),
                    n: n as i32,
                    nk: nk as i32,
                    mid: tab.mid_state,
                    parent: tab.parent,
                },
            ),
        ] + self.gdn_out_ops(c, t + 9, nh * vd * n)
    }

    fn gdn_project(&self, c: GdnCall) -> (r: Vec<Op>)
        requires
            self.gdn_ok(c),
        ensures
            r@ == self.gdn_project_ops(c),
    {
        let (t, n) = (c.first, c.n);
        let h: usize = self.cfg.hidden_size;
        let cd: usize = self.eff_conv_dim();
        let vdim: usize = self.eff_value_dim();
        let nh: usize = self.eff_lin_v_heads();
        let m: usize = self.eff_gdn_fused_m();
        proof {
            assert(0 <= cd * n && 0 <= vdim * n && 0 <= nh * n && 0 <= m * n) by (nonlinear_arith);
        }
        let mut r: Vec<Op> = vec![
            borrow16(t, cd * n),
            borrow16(t + 1, vdim * n),
            borrow16(t + 2, nh * n),
            borrow16(t + 3, nh * n),
        ];
        proof {
            assert(r@ =~= seq![
                get16(t as int, cd * n),
                get16(t + 1, vdim * n),
                get16(t + 2, nh * n),
                get16(t + 3, nh * n),
            ]);
        }
        match c.la.in_proj {
            GdnIn::Fused(f) => {
                let mut part: Vec<Op> = vec![borrow16(t + 4, m * n)];
                proof {
                    assert(part@ =~= seq![get16(t + 4, m * n)]);
                }
                chain(
                    &mut part,
                    gemm_act(f, WeightId::Of(c.block, Proj::GdnIn), c.x, tmp(t + 4), h, m, n),
                );
                let end: Vec<Op> = vec![
                    Op::Launch(
                        Call::SplitGdn {
                            qkv: tmp(t),
                            z: tmp(t + 1),
                            b: tmp(t + 2),
                            a: tmp(t + 3),
                            fused: tmp(t + 4),
                            conv_dim: int32(cd),
                            value_dim: int32(vdim),
                            nh: int32(nh),
                            n: int32(n),
                            full_nv: int32(self.cfg.lin_num_v_heads),
                            head0: int32(self.gdn_head0()),
                        },
                    ),
                    give16(t + 4, m * n),
                ];
                proof {
                    assert(end@ =~= seq![
                        Op::Launch(
                            Call::SplitGdn {
                                qkv: temp(t as int),
                                z: temp(t + 1),
                                b: temp(t + 2),
                                a: temp(t + 3),
                                fused: temp(t + 4),
                                conv_dim: cd as i32,
                                value_dim: vdim as i32,
                                nh: nh as i32,
                                n: n as i32,
                                full_nv: self.cfg.lin_num_v_heads as i32,
                                head0: self.head0() as i32,
                            },
                        ),
                        put16(t + 4, m * n),
                    ]);
                }
                chain(&mut part, end);
                chain(&mut r, part);
            },
            GdnIn::Split { qkv, z, b, a } => {
                let mut part: Vec<Op> = gemm_act(
                    qkv,
                    WeightId::Of(c.block, Proj::GdnQkv),
                    c.x,
                    tmp(t),
                    h,
                    cd,
                    n,
                );
                chain(
                    &mut part,
                    gemm_act(z, WeightId::Of(c.block, Proj::GdnZ), c.x, tmp(t + 1), h, vdim, n),
                );
                chain(
                    &mut part,
                    gemm_act(b, WeightId::Of(c.block, Proj::GdnB), c.x, tmp(t + 2), h, nh, n),
                );
                chain(
                    &mut part,
                    gemm_act(a, WeightId::Of(c.block, Proj::GdnA), c.x, tmp(t + 3), h, nh, n),
                );
                chain(&mut r, part);
            },
        }
        r
    }

    fn gdn_finish(&self, c: GdnCall, qkv: usize, core: usize) -> (r: Vec<Op>)
        requires
            self.gdn_ok(c),
        ensures
            r@ == self.gdn_out_ops(c, qkv as int, core as int),
    {
        let (t, n) = (c.first, c.n);
        let h: usize = self.cfg.hidden_size;
        let cd: usize = self.eff_conv_dim();
        let vdim: usize = self.eff_value_dim();
        let nh: usize = self.eff_lin_v_heads();
        proof {
            assert(0 <= cd * n && 0 <= vdim * n && 0 <= nh * n && 0 <= h * n) by (nonlinear_arith);
        }
        let o: WeightId = WeightId::Of(c.block, Proj::GdnOut);
        let mut r: Vec<Op> = vec![
            borrow16(t + 6, vdim * n),
            Op::Launch(
                Call::RmsnormGated {
                    out: tmp(t + 6),
                    x: tmp(t + 5),
                    z: tmp(t + 1),
                    w: ptr(Region::Vector(c.block, BlockVec::GdnNorm)),
                    vd: int32(self.cfg.lin_v_dim),
                    nh: int32(nh),
                    n: int32(n),
                    eps: self.cfg.rms_eps_bits,
                },
            ),
            borrow16(t + 7, h * n),
        ];
        if self.tp_shard_mixers() {
            chain(
                &mut r,
                self.tp_reduce_site(c.la.out_proj, o, tmp(t + 6), tmp(t + 7), vdim, h, n, t + 8),
            );
        } else {
            chain(&mut r, gemm_act(c.la.out_proj, o, tmp(t + 6), tmp(t + 7), vdim, h, n));
        }
        let last: Vec<Op> = vec![
            give16(qkv, cd * n),
            give16(t + 1, vdim * n),
            give16(t + 2, nh * n),
            give16(t + 3, nh * n),
            give16(t + 5, core),
            give16(t + 6, vdim * n),
        ];
        chain(&mut r, last);
        proof {
            assert(r@ =~= self.gdn_out_ops(c, qkv as int, core as int));
        }
        r
    }

    /// One step of every lane; the result is buffer `first + 7`.
    pub fn linear_attn_batch(&self, c: GdnCall) -> (r: Vec<Op>)
        requires
            self.gdn_ok(c),
        ensures
            r@ == self.linear_attn_ops(c),
    {
        let (t, n) = (c.first, c.n);
        let vd: usize = self.cfg.lin_v_dim;
        let cd: usize = self.eff_conv_dim();
        let fault: bool = self.tp_head_proof() && self.tp.head_fault;
        let nh: usize = if fault {
            self.cfg.lin_num_v_heads
        } else {
            self.eff_lin_v_heads()
        };
        let nk: usize = if fault {
            self.cfg.lin_num_k_heads
        } else {
            self.eff_lin_k_heads()
        };
        proof {
            let full = self.cfg.lin_num_v_heads;
            assert(nh <= full);
            assert(0 <= nh * vd <= full * vd && 0 <= nh * vd * n <= full * vd * n)
                by (nonlinear_arith)
                requires
                    nh <= full,
            ;
        }
        let core: usize = nh * vd * n;
        let visits: Ptr = if self.tp_head_proof() {
            ptr(Region::Scratch(Scratch::HeadVisits))
        } else {
            ptr(Region::Null)
        };
        let mut r: Vec<Op> = self.gdn_project(c);
        let mid: Vec<Op> = vec![
            Op::Launch(
                Call::Conv1d {
                    qkv: tmp(t),
                    state: c.conv,
                    w: ptr(Region::Vector(c.block, BlockVec::Conv1d)),
                    conv_dim: int32(cd),
                    ck: int32(self.cfg.conv_kernel),
                    n: int32(n),
                    slots: c.slots,
                },
            ),
            borrow16(t + 5, core),
            Op::Launch(
                Call::DeltaStep {
                    core: tmp(t + 5),
                    qkv: tmp(t),
                    state: c.state,
                    b: tmp(t + 2),
                    a: tmp(t + 3),
                    nh: int32(nh),
                    nk: int32(nk),
                    kd: int32(self.cfg.lin_k_dim),
                    vd: int32(vd),
                    a_log: ptr(Region::Vector(c.block, BlockVec::ALog)),
                    dt_bias: ptr(Region::Vector(c.block, BlockVec::DtBias)),
                    slots: c.slots,
                    visits,
                    n: int32(n),
                },
            ),
        ];
        chain(&mut r, mid);
        chain(&mut r, self.gdn_finish(c, t, core));
        proof {
            assert(r@ =~= self.linear_attn_ops(c));
        }
        r
    }

    fn carry(&self, c: GdnCall, segs: &[(usize, usize)]) -> (r: Vec<Op>)
        requires
            self.gdn_ok(c),
            forall|i: int|
                #![trigger segs@[i]]
                0 <= i < segs.len() ==> segs@[i].1 >= 1 && segs@[i].0 + segs@[i].1 <= c.n,
        ensures
            r@ == segs@.map_values(|s: (usize, usize)| self.carry_op(c, s)),
    {
        let cd: usize = self.eff_conv_dim();
        let mut r: Vec<Op> = Vec::new();
        let mut i: usize = 0;
        while i < segs.len()
            invariant
                i <= segs.len(),
                self.gdn_ok(c),
                cd == self.conv_dim(),
                forall|i: int|
                    #![trigger segs@[i]]
                    0 <= i < segs.len() ==> segs@[i].1 >= 1 && segs@[i].0 + segs@[i].1 <= c.n,
                r@ == segs@.take(i as int).map_values(|s: (usize, usize)| self.carry_op(c, s)),
            decreases segs.len() - i,
        {
            let (start, len) = segs[i];
            proof {
                assert(segs@[i as int].1 >= 1);
            }
            r.push(
                Op::Launch(
                    Call::Conv1dState {
                        state: c.conv,
                        x: tmp(c.first),
                        conv_dim: int32(cd),
                        ck: int32(self.cfg.conv_kernel),
                        last: int32(start + len - 1),
                        len: int32(len),
                        slots: c.slots,
                    },
                ),
            );
            i = i + 1;
            proof {
                assert(segs@.take(i as int) =~= segs@.take(i - 1).push(segs@[i - 1]));
                assert(r@ =~= segs@.take(i as int).map_values(
                    |s: (usize, usize)| self.carry_op(c, s),
                ));
            }
        }
        proof {
            assert(segs@.take(segs@.len() as int) =~= segs@);
        }
        r
    }

    /// A run of columns; the result is buffer `first + 7`.
    pub fn linear_attn_run(
        &self,
        c: GdnCall,
        tab: RunTables,
        segs: &[(usize, usize)],
    ) -> (r: Vec<Op>)
        requires
            self.gdn_ok(c),
            forall|i: int|
                #![trigger segs@[i]]
                0 <= i < segs.len() ==> segs@[i].1 >= 1 && segs@[i].0 + segs@[i].1 <= c.n,
        ensures
            r@ == self.gdn_run_ops(c, tab, segs@),
    {
        let (t, n) = (c.first, c.n);
        let vd: usize = self.cfg.lin_v_dim;
        let cd: usize = self.eff_conv_dim();
        let nh: usize = self.eff_lin_v_heads();
        let nk: usize = self.eff_lin_k_heads();
        proof {
            let full = self.cfg.lin_num_v_heads;
            assert(nh <= full);
            assert(0 <= nh * vd <= full * vd && 0 <= nh * vd * n <= full * vd * n)
                by (nonlinear_arith)
                requires
                    nh <= full,
            ;
            assert(0 <= cd * n) by (nonlinear_arith);
        }
        let core: usize = nh * vd * n;
        let mut r: Vec<Op> = self.gdn_project(c);
        let conv: Vec<Op> = vec![
            borrow16(t + 9, cd * n),
            Op::Launch(
                Call::Conv1dPrefill {
                    out: tmp(t + 9),
                    x: tmp(t),
                    state: c.conv,
                    w: ptr(Region::Vector(c.block, BlockVec::Conv1d)),
                    conv_dim: int32(cd),
                    ck: int32(self.cfg.conv_kernel),
                    n: int32(n),
                    mid: tab.mid_conv,
                    winsrc: tab.winsrc,
                    slots: c.slots,
                },
            ),
        ];
        chain(&mut r, conv);
        chain(&mut r, self.carry(c, segs));
        let scan: Vec<Op> = vec![
            give16(t, cd * n),
            borrow16(t + 5, core),
            Op::Launch(
                Call::DeltaPrefill {
                    core: tmp(t + 5),
                    qkv: tmp(t + 9),
                    state: c.state,
                    b: tmp(t + 2),
                    a: tmp(t + 3),
                    nh: int32(nh),
                    kd: int32(self.cfg.lin_k_dim),
                    vd: int32(vd),
                    a_log: ptr(Region::Vector(c.block, BlockVec::ALog)),
                    dt_bias: ptr(Region::Vector(c.block, BlockVec::DtBias)),
                    n: int32(n),
                    nk: int32(nk),
                    mid: tab.mid_state,
                    parent: tab.parent,
                },
            ),
        ];
        chain(&mut r, scan);
        chain(&mut r, self.gdn_finish(c, t + 9, core));
        proof {
            assert(r@ =~= self.gdn_run_ops(c, tab, segs@));
        }
        r
    }
}

/// Outside the negative control the recurrence is launched at this rank's head counts, never more.
pub proof fn law_launch_heads_are_local(m: &GpuModel)
    requires
        !m.tp.head_fault,
    ensures
        m.launch_heads() == (m.lin_v_heads(), m.lin_k_heads()),
        m.mixers_sharded() ==> m.launch_heads().0 == m.cfg.lin_num_v_heads as int / 2,
{
}

} // verus!
