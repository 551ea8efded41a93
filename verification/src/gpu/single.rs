//! The single-token path: one lane, f32 activations, 16-bit weights.
use vstd::prelude::*;

use crate::config::LayerType;
use crate::gpu::model::{AttnIn, Ffn, GdnIn, GpuFullAttn, GpuLayer, GpuLinearAttn, GpuMlp, GpuModel};
use crate::gpu::program::{
    at, borrow16, borrow32, chain, get16, get32, give16, give32, int32, ptr, put16, put32, temp,
    tmp, Block, BlockVec, Op, Part, Proj, Ptr, Region, WeightId,
};
use crate::gpu::single_calls::SingleCall;
use crate::seqs::flat;

verus! {

/// Buffer numbers that one mixer of the single-token path uses.
pub const SINGLE_IDS: usize = 11;

/// Product with a 16-bit weight: narrow, multiply, widen. Uses buffers `t` and `t + 1`.
pub open spec fn product_ops(w: WeightId, x: Ptr, out: Ptr, inn: int, outn: int, t: int) -> Seq<Op> {
    seq![
        get16(t, inn),
        get16(t + 1, outn),
        Op::Single(SingleCall::ToBf16 { out: temp(t), x, n: inn as i32 }),
        Op::Blas {
            w: at(Region::Weight(w, Part::Packed)),
            x: temp(t),
            out: temp(t + 1),
            m: outn as i32,
            n: 1,
            k: inn as i32,
        },
        Op::Single(SingleCall::ToF32 { out, x: temp(t + 1), n: outn as i32 }),
        put16(t, inn),
        put16(t + 1, outn),
    ]
}

/// Product with a 16-bit weight.
pub fn gemm_bf16(w: WeightId, x: Ptr, out: Ptr, inn: usize, outn: usize, t: usize) -> (r: Vec<Op>)
    requires
        inn <= i32::MAX,
        outn <= i32::MAX,
        t < usize::MAX,
    ensures
        r@ == product_ops(w, x, out, inn as int, outn as int, t as int),
{
    let r: Vec<Op> = vec![
        borrow16(t, inn),
        borrow16(t + 1, outn),
        Op::Single(SingleCall::ToBf16 { out: tmp(t), x, n: int32(inn) }),
        Op::Blas {
            w: ptr(Region::Weight(w, Part::Packed)),
            x: tmp(t),
            out: tmp(t + 1),
            m: int32(outn),
            n: 1,
            k: int32(inn),
        },
        Op::Single(SingleCall::ToF32 { out, x: tmp(t + 1), n: int32(outn) }),
        give16(t, inn),
        give16(t + 1, outn),
    ];
    proof {
        assert(r@ =~= product_ops(w, x, out, inn as int, outn as int, t as int));
    }
    r
}

/// One convolution step on given buffers.
pub fn test_conv1d(x: Ptr, state: Ptr, w: Ptr, conv_dim: usize, k: usize) -> (op: Op)
    requires
        conv_dim <= i32::MAX,
        k <= i32::MAX,
    ensures
        op == Op::Single(
            SingleCall::Conv1dStep { x, state, w, conv_dim: conv_dim as i32, k: k as i32 },
        ),
{
    Op::Single(SingleCall::Conv1dStep { x, state, w, conv_dim: int32(conv_dim), k: int32(k) })
}

/// One step of the delta rule on given buffers: `nh` heads with keys of `kd` and values of `vd` entries.
pub fn test_delta_step(
    out: Ptr,
    q: Ptr,
    k: Ptr,
    v: Ptr,
    b: Ptr,
    a: Ptr,
    state: Ptr,
    nh: usize,
    kd: usize,
    vd: usize,
    a_log: Ptr,
    dt_bias: Ptr,
) -> (op: Op)
    requires
        nh <= i32::MAX,
        kd <= i32::MAX,
        vd <= i32::MAX,
    ensures
        op == Op::Single(
            SingleCall::DeltaOne {
                out,
                q,
                k,
                v,
                b,
                a,
                state,
                nh: nh as i32,
                kd: kd as i32,
                vd: vd as i32,
                a_log,
                dt_bias,
            },
        ),
{
    let (nh, kd, vd) = (int32(nh), int32(kd), int32(vd));
    Op::Single(SingleCall::DeltaOne { out, q, k, v, b, a, state, nh, kd, vd, a_log, dt_bias })
}

/// Separate projections of sixteen bits: what this path can read.
pub open spec fn plain_attn(fa: GpuFullAttn) -> bool {
    (fa.qkv matches AttnIn::Split { q, k, v } && q is Bf16 && k is Bf16 && v is Bf16)
        && fa.o_proj is Bf16
}

/// Separate projections of sixteen bits: what this path can read.
pub open spec fn plain_gdn(la: GpuLinearAttn) -> bool {
    (la.in_proj matches GdnIn::Split { qkv, z, b, a } && qkv is Bf16 && z is Bf16 && b is Bf16
        && a is Bf16) && la.out_proj is Bf16
}

/// A dense feed-forward part of sixteen bits: what this path can read.
pub open spec fn plain_mlp(m: GpuMlp) -> bool {
    m.gate is Bf16 && m.up is Bf16 && m.down is Bf16
}

impl GpuModel {
    /// The norm of the residual.
    pub open spec fn one_norm_op(&self, out: Ptr, x: Ptr, w: Ptr) -> Op {
        Op::Single(
            SingleCall::Norm {
                out,
                x,
                w,
                n: self.cfg.hidden_size as i32,
                eps: self.cfg.rms_eps_bits,
            },
        )
    }

    /// The norm of one vector of `n`. `eps` is the bits of the number that keeps the division away from
    /// zero.
    pub fn rmsnorm_qwen(&self, out: Ptr, x: Ptr, w: Ptr, n: usize, eps: u32) -> (op: Op)
        requires
            n <= i32::MAX,
        ensures
            op == Op::Single(SingleCall::Norm { out, x, w, n: n as i32, eps }),
    {
        Op::Single(SingleCall::Norm { out, x, w, n: int32(n), eps })
    }

    /// The gated norm of one vector of `m`.
    pub fn rmsnorm_gated(&self, out: Ptr, x: Ptr, z: Ptr, w: Ptr, m: usize, eps: u32) -> (op: Op)
        requires
            m <= i32::MAX,
        ensures
            op == Op::Single(SingleCall::NormGated { out, x, z, w, heads: 1, m: m as i32, eps }),
    {
        Op::Single(SingleCall::NormGated { out, x, z, w, heads: 1, m: int32(m), eps })
    }

    // ---- feed-forward ----

    /// The dense MLP on one vector; the result is buffer `t + 2`.
    pub open spec fn one_mlp_ops(&self, block: Block, x: Ptr, t: int) -> Seq<Op> {
        let (h, im) = (self.cfg.hidden_size as int, self.cfg.intermediate_size as int);
        let w = |p: Proj| WeightId::Of(block, p);
        seq![get32(t, im), get32(t + 1, im)] + product_ops(w(Proj::Gate), x, temp(t), h, im, t + 3)
            + product_ops(w(Proj::Up), x, temp(t + 1), h, im, t + 3) + seq![
            Op::Single(SingleCall::Silu { gate: temp(t), up: temp(t + 1), n: im as i32 }),
            get32(t + 2, h),
        ] + product_ops(w(Proj::Down), temp(t), temp(t + 2), im, h, t + 3) + seq![
            put32(t, im),
            put32(t + 1, im),
        ]
    }

    /// The dense MLP on one vector; the result is buffer `t + 2`.
    pub fn mlp(&self, block: Block, m: GpuMlp, x: Ptr, t: usize) -> (r: Vec<Op>)
        requires
            plain_mlp(m),
            self.cfg.hidden_size <= i32::MAX,
            self.cfg.intermediate_size <= i32::MAX,
            t + SINGLE_IDS <= usize::MAX,
        ensures
            r@ == self.one_mlp_ops(block, x, t as int),
    {
        let (h, im) = (self.cfg.hidden_size, self.cfg.intermediate_size);
        let mut r: Vec<Op> = vec![borrow32(t, im), borrow32(t + 1, im)];
        proof {
            assert(r@ =~= seq![get32(t as int, im as int), get32(t + 1, im as int)]);
        }
        chain(&mut r, gemm_bf16(WeightId::Of(block, Proj::Gate), x, tmp(t), h, im, t + 3));
        chain(&mut r, gemm_bf16(WeightId::Of(block, Proj::Up), x, tmp(t + 1), h, im, t + 3));
        let mid: Vec<Op> = vec![
            Op::Single(SingleCall::Silu { gate: tmp(t), up: tmp(t + 1), n: int32(im) }),
            borrow32(t + 2, h),
        ];
        proof {
            assert(mid@ =~= seq![
                Op::Single(
                    SingleCall::Silu { gate: temp(t as int), up: temp(t + 1), n: im as i32 },
                ),
                get32(t + 2, h as int),
            ]);
        }
        chain(&mut r, mid);
        chain(&mut r, gemm_bf16(WeightId::Of(block, Proj::Down), tmp(t), tmp(t + 2), im, h, t + 3));
        let last: Vec<Op> = vec![give32(t, im), give32(t + 1, im)];
        proof {
            assert(last@ =~= seq![put32(t as int, im as int), put32(t + 1, im as int)]);
        }
        chain(&mut r, last);
        r
    }

    // ---- attention ----

    /// Attention of one token at position `pos`; the result is buffer `t + 6`.
    pub open spec fn one_attn_ops(
        &self,
        li: usize,
        x: Ptr,
        pos: int,
        cos: Ptr,
        sin: Ptr,
        t: int,
    ) -> Seq<Op> {
        let c = &self.cfg;
        let (h, nh, nkv) = (c.hidden_size as int, c.num_heads as int, c.num_kv_heads as int);
        let (hd, rdim) = (c.head_dim as int, c.rotary_dim as int);
        let stride = c.max_position_embeddings as int;
        let b = Block::Layer(li);
        let w = |p: Proj| WeightId::Of(b, p);
        let (kc, vc) = (at(Region::KCache(li)), at(Region::VCache(li)));
        seq![
            get32(t, nh * hd * 2),
            get32(t + 1, nkv * hd),
            get32(t + 2, nkv * hd),
            get32(t + 3, nh * hd),
            get32(t + 4, nh * hd),
        ] + product_ops(w(Proj::Q), x, temp(t), h, nh * hd * 2, t + 7) + product_ops(
            w(Proj::K),
            x,
            temp(t + 1),
            h,
            nkv * hd,
            t + 7,
        ) + product_ops(w(Proj::V), x, temp(t + 2), h, nkv * hd, t + 7) + seq![
            Op::Single(
                SingleCall::SplitGate {
                    q: temp(t + 3),
                    gate: temp(t + 4),
                    qg: temp(t),
                    nh: nh as i32,
                    hd: hd as i32,
                },
            ),
            Op::Single(
                SingleCall::HeadNorm {
                    x: temp(t + 3),
                    w: at(Region::Vector(b, BlockVec::QNorm)),
                    nh: nh as i32,
                    hd: hd as i32,
                    eps: c.rms_eps_bits,
                },
            ),
            Op::Single(
                SingleCall::HeadNorm {
                    x: temp(t + 1),
                    w: at(Region::Vector(b, BlockVec::KNorm)),
                    nh: nkv as i32,
                    hd: hd as i32,
                    eps: c.rms_eps_bits,
                },
            ),
            Op::Single(
                SingleCall::RopeHalf {
                    x: temp(t + 3),
                    cos,
                    sin,
                    nh: nh as i32,
                    hd: hd as i32,
                    rdim: rdim as i32,
                },
            ),
            Op::Single(
                SingleCall::RopeHalf {
                    x: temp(t + 1),
                    cos,
                    sin,
                    nh: nkv as i32,
                    hd: hd as i32,
                    rdim: rdim as i32,
                },
            ),
            Op::Single(
                SingleCall::WriteOne {
                    kc,
                    vc,
                    k: temp(t + 1),
                    v: temp(t + 2),
                    pos: pos as i32,
                    stride: stride as i32,
                    nkv: nkv as i32,
                    hd: hd as i32,
                },
            ),
            get32(t + 5, nh * hd),
            Op::Single(
                SingleCall::Attention {
                    attn: temp(t + 5),
                    q: temp(t + 3),
                    kc,
                    vc,
                    pc: (pos + 1) as i32,
                    stride: stride as i32,
                    nh: nh as i32,
                    nkv: nkv as i32,
                    hd: hd as i32,
                },
            ),
            Op::Single(
                SingleCall::Gate { attn: temp(t + 5), gate: temp(t + 4), n: (nh * hd) as i32 },
            ),
            get32(t + 6, h),
        ] + product_ops(w(Proj::O), temp(t + 5), temp(t + 6), nh * hd, h, t + 7) + seq![
            put32(t, nh * hd * 2),
            put32(t + 1, nkv * hd),
            put32(t + 2, nkv * hd),
            put32(t + 3, nh * hd),
            put32(t + 4, nh * hd),
            put32(t + 5, nh * hd),
        ]
    }

    /// The attention's sizes fit the machine.
    pub open spec fn one_attn_ok(&self, pos: int) -> bool {
        let c = &self.cfg;
        &&& c.hidden_size <= i32::MAX
        &&& c.num_heads * c.head_dim * 2 <= i32::MAX
        &&& c.num_kv_heads * c.head_dim <= i32::MAX
        &&& c.num_heads <= i32::MAX
        &&& c.num_kv_heads <= i32::MAX
        &&& c.head_dim <= i32::MAX
        &&& c.rotary_dim <= i32::MAX
        &&& c.max_position_embeddings <= i32::MAX
        &&& pos < i32::MAX
    }

    /// Attention of one token at position `pos`; the result is buffer `t + 6`. The projections must be
    /// separate: a fused weight has no place here.
    pub fn full_attn(
        &self,
        li: usize,
        fa: GpuFullAttn,
        x: Ptr,
        pos: usize,
        cos: Ptr,
        sin: Ptr,
        t: usize,
    ) -> (r: Vec<Op>)
        requires
            plain_attn(fa),
            self.one_attn_ok(pos as int),
            t + SINGLE_IDS <= usize::MAX,
        ensures
            r@ == self.one_attn_ops(li, x, pos as int, cos, sin, t as int),
    {
        let c = &self.cfg;
        let (h, nh, nkv) = (c.hidden_size, c.num_heads, c.num_kv_heads);
        let (hd, rdim, stride) = (c.head_dim, c.rotary_dim, c.max_position_embeddings);
        proof {
            assert(0 <= nh * hd && 0 <= nkv * hd) by (nonlinear_arith);
        }
        let b: Block = Block::Layer(li);
        let (kc, vc) = (ptr(Region::KCache(li)), ptr(Region::VCache(li)));
        let mut r: Vec<Op> = vec![
            borrow32(t, nh * hd * 2),
            borrow32(t + 1, nkv * hd),
            borrow32(t + 2, nkv * hd),
            borrow32(t + 3, nh * hd),
            borrow32(t + 4, nh * hd),
        ];
        chain(&mut r, gemm_bf16(WeightId::Of(b, Proj::Q), x, tmp(t), h, nh * hd * 2, t + 7));
        chain(&mut r, gemm_bf16(WeightId::Of(b, Proj::K), x, tmp(t + 1), h, nkv * hd, t + 7));
        chain(&mut r, gemm_bf16(WeightId::Of(b, Proj::V), x, tmp(t + 2), h, nkv * hd, t + 7));
        let (nhi, nkvi, hdi) = (int32(nh), int32(nkv), int32(hd));
        let mid: Vec<Op> = vec![
            Op::Single(
                SingleCall::SplitGate {
                    q: tmp(t + 3),
                    gate: tmp(t + 4),
                    qg: tmp(t),
                    nh: nhi,
                    hd: hdi,
                },
            ),
            Op::Single(
                SingleCall::HeadNorm {
                    x: tmp(t + 3),
                    w: ptr(Region::Vector(b, BlockVec::QNorm)),
                    nh: nhi,
                    hd: hdi,
                    eps: c.rms_eps_bits,
                },
            ),
            Op::Single(
                SingleCall::HeadNorm {
                    x: tmp(t + 1),
                    w: ptr(Region::Vector(b, BlockVec::KNorm)),
                    nh: nkvi,
                    hd: hdi,
                    eps: c.rms_eps_bits,
                },
            ),
            Op::Single(
                SingleCall::RopeHalf {
                    x: tmp(t + 3),
                    cos,
                    sin,
                    nh: nhi,
                    hd: hdi,
                    rdim: int32(rdim),
                },
            ),
            Op::Single(
                SingleCall::RopeHalf {
                    x: tmp(t + 1),
                    cos,
                    sin,
                    nh: nkvi,
                    hd: hdi,
                    rdim: int32(rdim),
                },
            ),
            Op::Single(
                SingleCall::WriteOne {
                    kc,
                    vc,
                    k: tmp(t + 1),
                    v: tmp(t + 2),
                    pos: int32(pos),
                    stride: int32(stride),
                    nkv: nkvi,
                    hd: hdi,
                },
            ),
            borrow32(t + 5, nh * hd),
            Op::Single(
                SingleCall::Attention {
                    attn: tmp(t + 5),
                    q: tmp(t + 3),
                    kc,
                    vc,
                    pc: int32(pos + 1),
                    stride: int32(stride),
                    nh: nhi,
                    nkv: nkvi,
                    hd: hdi,
                },
            ),
            Op::Single(
                SingleCall::Gate { attn: tmp(t + 5), gate: tmp(t + 4), n: int32(nh * hd) },
            ),
            borrow32(t + 6, h),
        ];
        chain(&mut r, mid);
        chain(&mut r, gemm_bf16(WeightId::Of(b, Proj::O), tmp(t + 5), tmp(t + 6), nh * hd, h, t + 7));
        let last: Vec<Op> = vec![
            give32(t, nh * hd * 2),
            give32(t + 1, nkv * hd),
            give32(t + 2, nkv * hd),
            give32(t + 3, nh * hd),
            give32(t + 4, nh * hd),
            give32(t + 5, nh * hd),
        ];
        chain(&mut r, last);
        proof {
            assert(r@ =~= self.one_attn_ops(li, x, pos as int, cos, sin, t as int));
        }
        r
    }

    // ---- linear attention ----

    /// Columns of the convolved projection, unsharded.
    pub open spec fn one_conv_dim(&self) -> int {
        self.cfg.spec_key_dim() * 2 + self.cfg.spec_value_dim()
    }

    /// Projection, convolution and recurrence of one token; the result is buffer `t + 3`.
    pub open spec fn one_core_ops(&self, li: usize, x: Ptr, t: int) -> Seq<Op> {
        let c = &self.cfg;
        let (h, nh) = (c.hidden_size as int, c.lin_num_v_heads as int);
        let (kd, vd, ck) = (c.lin_k_dim as int, c.lin_v_dim as int, c.conv_kernel as int);
        let cd = self.one_conv_dim();
        let b = Block::Layer(li);
        let w = |p: Proj| WeightId::Of(b, p);
        let vec = |v: BlockVec| at(Region::Vector(b, v));
        let qkv = Region::Temp(t as usize);
        seq![get32(t, cd)] + product_ops(w(Proj::GdnQkv), x, temp(t), h, cd, t + 4) + seq![
            Op::Single(
                SingleCall::Conv1dStep {
                    x: temp(t),
                    state: at(Region::ConvState(li)),
                    w: vec(BlockVec::Conv1d),
                    conv_dim: cd as i32,
                    k: ck as i32,
                },
            ),
            get32(t + 1, nh),
            get32(t + 2, nh),
        ] + product_ops(w(Proj::GdnB), x, temp(t + 1), h, nh, t + 4) + product_ops(
            w(Proj::GdnA),
            x,
            temp(t + 2),
            h,
            nh,
            t + 4,
        ) + seq![
            get32(t + 3, nh * vd),
            Op::Single(
                SingleCall::DeltaOne {
                    out: temp(t + 3),
                    q: temp(t),
                    k: Ptr { region: qkv, offset: (c.spec_key_dim() * 4) as u64 },
                    v: Ptr { region: qkv, offset: (2 * c.spec_key_dim() * 4) as u64 },
                    b: temp(t + 1),
                    a: temp(t + 2),
                    state: at(Region::SState(li)),
                    nh: nh as i32,
                    kd: kd as i32,
                    vd: vd as i32,
                    a_log: vec(BlockVec::ALog),
                    dt_bias: vec(BlockVec::DtBias),
                },
            ),
            put32(t, cd),
            put32(t + 1, nh),
            put32(t + 2, nh),
        ]
    }

    /// Linear attention of one token; the result is buffer `t + 8`.
    pub open spec fn one_gdn_ops(&self, li: usize, x: Ptr, t: int) -> Seq<Op> {
        let c = &self.cfg;
        let (h, nh, vd) = (c.hidden_size as int, c.lin_num_v_heads as int, c.lin_v_dim as int);
        let vdim = c.spec_value_dim();
        let b = Block::Layer(li);
        self.one_core_ops(li, x, t) + seq![get32(t + 6, vdim)] + product_ops(
            WeightId::Of(b, Proj::GdnZ),
            x,
            temp(t + 6),
            h,
            vdim,
            t + 9,
        ) + seq![
            get32(t + 7, vdim),
            Op::Single(
                SingleCall::NormGated {
                    out: temp(t + 7),
                    x: temp(t + 3),
                    z: temp(t + 6),
                    w: at(Region::Vector(b, BlockVec::GdnNorm)),
                    heads: nh as i32,
                    m: vd as i32,
                    eps: c.rms_eps_bits,
                },
            ),
            get32(t + 8, h),
        ] + product_ops(WeightId::Of(b, Proj::GdnOut), temp(t + 7), temp(t + 8), vdim, h, t + 9)
            + seq![put32(t + 3, nh * vd), put32(t + 6, vdim), put32(t + 7, vdim)]
    }

    /// The linear attention's sizes fit the machine.
    pub open spec fn one_gdn_ok(&self) -> bool {
        let c = &self.cfg;
        &&& c.hidden_size <= i32::MAX
        &&& self.one_conv_dim() <= i32::MAX
        &&& c.spec_key_dim() >= 0
        &&& c.spec_value_dim() >= 0
        &&& c.lin_num_v_heads <= i32::MAX
        &&& c.lin_k_dim <= i32::MAX
        &&& c.lin_v_dim <= i32::MAX
        &&& c.conv_kernel <= i32::MAX
    }

    /// Projection, convolution and recurrence of one token; the result is buffer `t + 3`.
    pub fn linear_attn_core(&self, li: usize, la: GpuLinearAttn, x: Ptr, t: usize) -> (r: Vec<Op>)
        requires
            plain_gdn(la),
            self.one_gdn_ok(),
            t + SINGLE_IDS <= usize::MAX,
        ensures
            r@ == self.one_core_ops(li, x, t as int),
    {
        let c = &self.cfg;
        let (h, nh) = (c.hidden_size, c.lin_num_v_heads);
        let (kd, vd, ck) = (c.lin_k_dim, c.lin_v_dim, c.conv_kernel);
        let key: usize = c.key_dim();
        let cd: usize = key * 2 + c.value_dim();
        let b: Block = Block::Layer(li);
        let mut r: Vec<Op> = vec![borrow32(t, cd)];
        chain(&mut r, gemm_bf16(WeightId::Of(b, Proj::GdnQkv), x, tmp(t), h, cd, t + 4));
        let mid: Vec<Op> = vec![
            Op::Single(
                SingleCall::Conv1dStep {
                    x: tmp(t),
                    state: ptr(Region::ConvState(li)),
                    w: ptr(Region::Vector(b, BlockVec::Conv1d)),
                    conv_dim: int32(cd),
                    k: int32(ck),
                },
            ),
            borrow32(t + 1, nh),
            borrow32(t + 2, nh),
        ];
        chain(&mut r, mid);
        chain(&mut r, gemm_bf16(WeightId::Of(b, Proj::GdnB), x, tmp(t + 1), h, nh, t + 4));
        chain(&mut r, gemm_bf16(WeightId::Of(b, Proj::GdnA), x, tmp(t + 2), h, nh, t + 4));
        let qkv: Region = Region::Temp(t);
        let last: Vec<Op> = vec![
            borrow32(t + 3, nh * vd),
            Op::Single(
                SingleCall::DeltaOne {
                    out: tmp(t + 3),
                    q: tmp(t),
                    k: Ptr { region: qkv, offset: key as u64 * 4 },
                    v: Ptr { region: qkv, offset: 2 * key as u64 * 4 },
                    b: tmp(t + 1),
                    a: tmp(t + 2),
                    state: ptr(Region::SState(li)),
                    nh: int32(nh),
                    kd: int32(kd),
                    vd: int32(vd),
                    a_log: ptr(Region::Vector(b, BlockVec::ALog)),
                    dt_bias: ptr(Region::Vector(b, BlockVec::DtBias)),
                },
            ),
            give32(t, cd),
            give32(t + 1, nh),
            give32(t + 2, nh),
        ];
        chain(&mut r, last);
        proof {
            assert(r@ =~= self.one_core_ops(li, x, t as int));
        }
        r
    }

    /// Linear attention of one token; the result is buffer `t + 8`.
    pub fn linear_attn(&self, li: usize, la: GpuLinearAttn, x: Ptr, t: usize) -> (r: Vec<Op>)
        requires
            plain_gdn(la),
            self.one_gdn_ok(),
            t + SINGLE_IDS <= usize::MAX,
        ensures
            r@ == self.one_gdn_ops(li, x, t as int),
    {
        let c = &self.cfg;
        let (h, nh, vd) = (c.hidden_size, c.lin_num_v_heads, c.lin_v_dim);
        let vdim: usize = c.value_dim();
        let b: Block = Block::Layer(li);
        let mut r: Vec<Op> = self.linear_attn_core(li, la, x, t);
        let z: Vec<Op> = vec![borrow32(t + 6, vdim)];
        chain(&mut r, z);
        chain(&mut r, gemm_bf16(WeightId::Of(b, Proj::GdnZ), x, tmp(t + 6), h, vdim, t + 9));
        let mid: Vec<Op> = vec![
            borrow32(t + 7, vdim),
            Op::Single(
                SingleCall::NormGated {
                    out: tmp(t + 7),
                    x: tmp(t + 3),
                    z: tmp(t + 6),
                    w: ptr(Region::Vector(b, BlockVec::GdnNorm)),
                    heads: int32(nh),
                    m: int32(vd),
                    eps: c.rms_eps_bits,
                },
            ),
            borrow32(t + 8, h),
        ];
        chain(&mut r, mid);
        chain(&mut r, gemm_bf16(WeightId::Of(b, Proj::GdnOut), tmp(t + 7), tmp(t + 8), vdim, h, t + 9));
        let last: Vec<Op> = vec![give32(t + 3, nh * vd), give32(t + 6, vdim), give32(t + 7, vdim)];
        chain(&mut r, last);
        proof {
            assert(r@ =~= self.one_gdn_ops(li, x, t as int));
        }
        r
    }

    // ---- the token ----

    /// A layer that this path can run.
    pub open spec fn one_layer_ok(&self, layer: GpuLayer) -> bool {
        &&& match layer.layer_type {
            LayerType::FullAttention => layer.fa matches Some(fa) && plain_attn(fa),
            LayerType::LinearAttention => layer.la matches Some(la) && plain_gdn(la),
        }
        &&& layer.mlp matches Ffn::Dense(m) && plain_mlp(m)
    }

    /// One token at position `pos` can be run.
    pub open spec fn one_token_ok(&self, pos: int) -> bool {
        &&& self.one_attn_ok(pos)
        &&& self.one_gdn_ok()
        &&& self.cfg.intermediate_size <= i32::MAX
        &&& forall|li: int| 0 <= li < self.layers@.len() ==> #[trigger] self.one_layer_ok(self.layers@[li])
    }

    /// The buffer that holds the mixer's result.
    pub open spec fn one_mixer_out(&self, li: int) -> int {
        match self.layers@[li].layer_type {
            LayerType::FullAttention => 9,
            LayerType::LinearAttention => 11,
        }
    }

    /// Layer `li` on the residual in buffer 0, with its norm in buffer 1. With `capture` the residual
    /// goes to the host afterwards.
    pub open spec fn one_layer_ops(
        &self,
        li: int,
        pos: int,
        cos: Ptr,
        sin: Ptr,
        capture: bool,
    ) -> Seq<Op> {
        let b = Block::Layer(li as usize);
        let h = self.cfg.hidden_size as int;
        let mixed = self.one_mixer_out(li);
        seq![
            self.one_norm_op(temp(1), temp(0), at(Region::Vector(b, BlockVec::InputNorm))),
        ] + (match self.layers@[li].layer_type {
            LayerType::FullAttention => self.one_attn_ops(li as usize, temp(1), pos, cos, sin, 3),
            LayerType::LinearAttention => self.one_gdn_ops(li as usize, temp(1), 3),
        }) + seq![
            Op::Single(
                SingleCall::FusedNorm {
                    out: temp(1),
                    residual: temp(0),
                    add: temp(mixed),
                    w: at(Region::Vector(b, BlockVec::PostNorm)),
                    h: h as i32,
                    eps: self.cfg.rms_eps_bits,
                },
            ),
        ] + self.one_mlp_ops(b, temp(1), 14) + seq![
            Op::Single(SingleCall::Add { residual: temp(0), add: temp(16), n: h as i32 }),
        ] + (if capture {
            seq![Op::Capture { src: temp(0), len: self.cfg.hidden_size }]
        } else {
            Seq::<Op>::empty()
        }) + seq![put32(mixed, h), put32(16, h)]
    }

    /// One token: its embedding in buffer 0 becomes the residual and is given back; the normed result
    /// is buffer 2.
    pub open spec fn one_token_ops(&self, pos: int, cos: Ptr, sin: Ptr, capture: bool) -> Seq<Op> {
        let h = self.cfg.hidden_size as int;
        seq![get32(1, h)] + flat(
            self.layers@.len(),
            |li: int| self.one_layer_ops(li, pos, cos, sin, capture),
        ) + seq![
            get32(2, h),
            self.one_norm_op(temp(2), temp(0), at(Region::FinalNorm)),
            put32(0, h),
            put32(1, h),
        ]
    }

    fn one_layer(&self, li: usize, pos: usize, cos: Ptr, sin: Ptr, capture: bool) -> (r: Vec<Op>)
        requires
            self.one_token_ok(pos as int),
            li < self.layers@.len(),
        ensures
            r@ == self.one_layer_ops(li as int, pos as int, cos, sin, capture),
    {
        let b: Block = Block::Layer(li);
        let h: usize = self.cfg.hidden_size;
        let layer: GpuLayer = self.layers[li];
        proof {
            assert(self.one_layer_ok(self.layers@[li as int]));
        }
        let mut r: Vec<Op> = vec![
            self.rmsnorm_qwen(
                tmp(1),
                tmp(0),
                ptr(Region::Vector(b, BlockVec::InputNorm)),
                h,
                self.cfg.rms_eps_bits,
            ),
        ];
        let mixed: usize = match layer.layer_type {
            LayerType::FullAttention => {
                chain(&mut r, self.full_attn(li, layer.fa.unwrap(), tmp(1), pos, cos, sin, 3));
                9
            },
            LayerType::LinearAttention => {
                chain(&mut r, self.linear_attn(li, layer.la.unwrap(), tmp(1), 3));
                11
            },
        };
        let mid: Vec<Op> = vec![
            Op::Single(
                SingleCall::FusedNorm {
                    out: tmp(1),
                    residual: tmp(0),
                    add: tmp(mixed),
                    w: ptr(Region::Vector(b, BlockVec::PostNorm)),
                    h: int32(h),
                    eps: self.cfg.rms_eps_bits,
                },
            ),
        ];
        chain(&mut r, mid);
        if let Ffn::Dense(m) = layer.mlp {
            chain(&mut r, self.mlp(b, m, tmp(1), 14));
        }
        r.push(Op::Single(SingleCall::Add { residual: tmp(0), add: tmp(16), n: int32(h) }));
        if capture {
            r.push(Op::Capture { src: tmp(0), len: h });
        }
        r.push(give32(mixed, h));
        r.push(give32(16, h));
        proof {
            assert(r@ =~= self.one_layer_ops(li as int, pos as int, cos, sin, capture));
        }
        r
    }

    fn forward_token_inner(&self, pos: usize, cos: Ptr, sin: Ptr, capture: bool) -> (r: Vec<Op>)
        requires
            self.one_token_ok(pos as int),
        ensures
            r@ == self.one_token_ops(pos as int, cos, sin, capture),
    {
        let h: usize = self.cfg.hidden_size;
        let ghost row = |li: int| self.one_layer_ops(li, pos as int, cos, sin, capture);
        let mut r: Vec<Op> = vec![borrow32(1, h)];
        let ghost first = r@;
        proof {
            assert(first + flat(0, row) =~= first);
        }
        let mut li: usize = 0;
        while li < self.layers.len()
            invariant
                li <= self.layers@.len(),
                self.one_token_ok(pos as int),
                row == (|li: int| self.one_layer_ops(li, pos as int, cos, sin, capture)),
                r@ == first + flat(li as nat, row),
            decreases self.layers@.len() - li,
        {
            chain(&mut r, self.one_layer(li, pos, cos, sin, capture));
            li = li + 1;
            proof {
                assert(r@ =~= first + flat(li as nat, row));
            }
        }
        r.push(borrow32(2, h));
        r.push(
            self.rmsnorm_qwen(tmp(2), tmp(0), ptr(Region::FinalNorm), h, self.cfg.rms_eps_bits),
        );
        r.push(give32(0, h));
        r.push(give32(1, h));
        proof {
            assert(r@ =~= self.one_token_ops(pos as int, cos, sin, capture));
        }
        r
    }

    /// One token through all layers.
    pub fn forward_token(&self, pos: usize, cos: Ptr, sin: Ptr) -> (r: Vec<Op>)
        requires
            self.one_token_ok(pos as int),
        ensures
            r@ == self.one_token_ops(pos as int, cos, sin, false),
    {
        self.forward_token_inner(pos, cos, sin, false)
    }

    /// One token through all layers; the residual goes to the host after each.
    pub fn forward_token_captured(&self, pos: usize, cos: Ptr, sin: Ptr) -> (r: Vec<Op>)
        requires
            self.one_token_ok(pos as int),
        ensures
            r@ == self.one_token_ops(pos as int, cos, sin, true),
    {
        self.forward_token_inner(pos, cos, sin, true)
    }

    /// Logits of one vector into buffer `id`.
    pub open spec fn one_logits_ops(&self, hidden: Ptr, id: int) -> Seq<Op> {
        seq![get32(id, self.cfg.vocab_size as int)] + product_ops(
            WeightId::Embed,
            hidden,
            temp(id),
            self.cfg.hidden_size as int,
            self.cfg.vocab_size as int,
            id + 1,
        )
    }

    /// Logits of one vector into buffer `id`; this path always reads the embedding as its output head.
    pub fn logits(&self, hidden: Ptr, id: usize) -> (r: Vec<Op>)
        requires
            self.embed is Bf16,
            self.cfg.hidden_size <= i32::MAX,
            self.cfg.vocab_size <= i32::MAX,
            id + 2 <= usize::MAX,
        ensures
            r@ == self.one_logits_ops(hidden, id as int),
    {
        let (h, v) = (self.cfg.hidden_size, self.cfg.vocab_size);
        let mut r: Vec<Op> = vec![borrow32(id, v)];
        proof {
            assert(r@ =~= seq![get32(id as int, v as int)]);
        }
        chain(&mut r, gemm_bf16(WeightId::Embed, hidden, tmp(id), h, v, id + 1));
        r
    }

    /// Greedy token of one vector of logits, in two passes; it lands in buffer `t + 2`.
    pub open spec fn one_argmax_ops(&self, logits: Ptr, t: int) -> Seq<Op> {
        let v = self.cfg.vocab_size as int;
        let nb = (v + 1023) / 1024;
        seq![
            get32(t, nb),
            get32(t + 1, nb),
            Op::Single(
                SingleCall::ArgmaxParts {
                    idxs: temp(t),
                    vals: temp(t + 1),
                    logits,
                    vocab: v as i32,
                },
            ),
            Op::Alloc { id: (t + 2) as usize, len: 1 },
            Op::Single(
                SingleCall::ArgmaxMerge {
                    out: temp(t + 2),
                    idxs: temp(t),
                    vals: temp(t + 1),
                    blocks: nb as i32,
                },
            ),
            Op::Sync,
            put32(t, nb),
            put32(t + 1, nb),
        ]
    }

    /// Greedy token of one vector of logits, in two passes; it lands in buffer `t + 2`.
    pub fn argmax_gpu(&self, logits: Ptr, t: usize) -> (r: Vec<Op>)
        requires
            self.cfg.vocab_size <= i32::MAX,
            t + 2 <= usize::MAX,
        ensures
            r@ == self.one_argmax_ops(logits, t as int),
    {
        let v: usize = self.cfg.vocab_size;
        let nb: usize = (v + 1023) / 1024;
        let r: Vec<Op> = vec![
            borrow32(t, nb),
            borrow32(t + 1, nb),
            Op::Single(
                SingleCall::ArgmaxParts {
                    idxs: tmp(t),
                    vals: tmp(t + 1),
                    logits,
                    vocab: int32(v),
                },
            ),
            Op::Alloc { id: t + 2, len: 1 },
            Op::Single(
                SingleCall::ArgmaxMerge {
                    out: tmp(t + 2),
                    idxs: tmp(t),
                    vals: tmp(t + 1),
                    blocks: int32(nb),
                },
            ),
            Op::Sync,
            give32(t, nb),
            give32(t + 1, nb),
        ];
        proof {
            assert(r@ =~= self.one_argmax_ops(logits, t as int));
        }
        r
    }
}

} // verus!
