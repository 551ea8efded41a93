//! Forward passes: decode, prefill and verify, layer by layer.
use vstd::prelude::*;

use crate::config::LayerType;
use crate::gpu::attn::{AttnCall, AttnMode, ATTN_IDS};
use crate::gpu::ffn::{dense, FFN_IDS};
use crate::gpu::gdn::{GdnCall, RunTables};
use crate::gpu::gemm::{gemm_act, gemm_ops, shift, shifted};
use crate::gpu::model::{GpuFullAttn, GpuLayer, GpuLinearAttn, GpuModel, W};
use crate::gpu::program::{
    at, borrow16, chain, get16, give16, int32, ptr, put16, temp, tmp, Block, BlockVec, Call, Op,
    Ptr, Region, Scratch, WeightId,
};
use crate::seqs::flat;

verus! {

/// How a forward pass meets the caches and the recurrent state.
#[allow(inconsistent_fields)]
#[derive(Clone, Copy, PartialEq, Eq, Structural)]
pub enum Pass {
    /// One column per lane.
    Decode { pos: Ptr, slots: Ptr, max_pc: usize },
    /// A run of columns of lane `slot` from position `pos` on.
    Prefill { slot: usize, pos: usize },
    /// Verify columns; `ckpt` is the first checkpoint slot, `forest` says several lanes share the
    /// batch.
    Verify { pos: usize, ckpt: Option<usize>, forest: bool },
}

/// The buffers a forward pass works on.
#[derive(Clone, Copy, PartialEq, Eq, Structural)]
pub struct Frame {
    pub pass: Pass,
    pub n: usize,
    pub kv_stride: usize,
    pub cos: Ptr,
    pub sin: Ptr,
    /// Buffer numbers of the residual stream, of the normed input, and of the first scratch buffer.
    pub residual: usize,
    pub normed: usize,
    pub first: usize,
}

impl GpuModel {
    /// Bytes of one lane's convolution state.
    pub open spec fn conv_bytes(&self) -> int {
        self.conv_dim() * self.cfg.conv_kernel * 4
    }

    /// Bytes of one lane's recurrent state.
    pub open spec fn state_bytes(&self) -> int {
        self.lin_v_heads() * self.cfg.lin_k_dim * self.cfg.lin_v_dim * 4
    }

    /// Bytes of one lane's key (or value) cache.
    pub open spec fn kv_bytes(&self, kv_stride: int) -> int {
        self.kv_heads() * kv_stride * self.cfg.head_dim * 2
    }

    /// Bytes of one lane's convolution state.
    pub fn conv_slot_bytes(&self) -> (b: usize)
        requires
            self.gdn_fits(),
            self.conv_bytes() <= usize::MAX,
        ensures
            b == self.conv_bytes(),
    {
        let cd: usize = self.eff_conv_dim();
        proof {
            assert(0 <= cd * self.cfg.conv_kernel) by (nonlinear_arith);
        }
        cd * self.cfg.conv_kernel * 4
    }

    /// Bytes of one lane's recurrent state.
    pub fn state_slot_bytes(&self) -> (b: usize)
        requires
            self.state_bytes() <= usize::MAX,
        ensures
            b == self.state_bytes(),
    {
        let nh: usize = self.eff_lin_v_heads();
        let (kd, vd) = (self.cfg.lin_k_dim, self.cfg.lin_v_dim);
        if vd == 0 {
            proof {
                assert(nh * kd * vd * 4 == 0) by (nonlinear_arith)
                    requires
                        vd == 0,
                ;
            }
            return 0;
        }
        proof {
            assert(0 <= nh * kd && nh * kd <= nh * kd * vd && 0 <= nh * kd * vd)
                by (nonlinear_arith)
                requires
                    vd >= 1,
            ;
        }
        nh * kd * vd * 4
    }

    /// Bytes of one lane's key (or value) cache.
    pub fn kv_slot_bytes(&self, kv_stride: usize) -> (b: usize)
        requires
            self.kv_bytes(kv_stride as int) <= usize::MAX,
        ensures
            b == self.kv_bytes(kv_stride as int),
    {
        let nkv: usize = self.eff_num_kv_heads();
        let hd: usize = self.cfg.head_dim;
        if hd == 0 {
            proof {
                assert(nkv * kv_stride * hd * 2 == 0) by (nonlinear_arith)
                    requires
                        hd == 0,
                ;
            }
            return 0;
        }
        proof {
            assert(0 <= nkv * kv_stride && nkv * kv_stride <= nkv * kv_stride * hd && 0 <= nkv
                * kv_stride * hd) by (nonlinear_arith)
                requires
                    hd >= 1,
            ;
        }
        nkv * kv_stride * hd * 2
    }

    /// The attention call of layer `li` in frame `f`.
    pub open spec fn attn_call(&self, f: Frame, li: int) -> AttnCall {
        let base = AttnCall {
            block: Block::Layer(li as usize),
            fa: self.layers@[li].fa->0,
            x: temp(f.normed as int),
            cos: f.cos,
            sin: f.sin,
            kc: at(Region::KCache(li as usize)),
            vc: at(Region::VCache(li as usize)),
            kv_stride: f.kv_stride,
            n: f.n,
            sharded: self.mixers_sharded(),
            mode: AttnMode::Run { pos: 0 },
            first: f.first,
        };
        match f.pass {
            Pass::Decode { pos, slots, max_pc } => AttnCall {
                mode: AttnMode::Columns {
                    pos,
                    slots,
                    max_pc,
                    path: at(Region::Null),
                    rope: at(Region::Null),
                    starts: at(Region::Null),
                },
                ..base
            },
            Pass::Prefill { slot, pos } => AttnCall {
                kc: shifted(
                    at(Region::KCache(li as usize)),
                    slot * self.kv_bytes(f.kv_stride as int),
                ),
                vc: shifted(
                    at(Region::VCache(li as usize)),
                    slot * self.kv_bytes(f.kv_stride as int),
                ),
                mode: AttnMode::Run { pos },
                ..base
            },
            Pass::Verify { pos, forest, .. } => AttnCall {
                mode: AttnMode::Columns {
                    pos: at(Region::Scratch(Scratch::Pos)),
                    slots: at(Region::Scratch(Scratch::Slot)),
                    max_pc: (pos + f.n) as usize,
                    path: at(Region::Scratch(Scratch::Path)),
                    rope: at(Region::Scratch(Scratch::Rope)),
                    starts: if forest {
                        at(Region::Scratch(Scratch::PStart))
                    } else {
                        at(Region::Null)
                    },
                },
                ..base
            },
        }
    }

    /// The linear-attention call of layer `li` in frame `f`.
    pub open spec fn gdn_call(&self, f: Frame, li: int) -> GdnCall {
        let base = GdnCall {
            block: Block::Layer(li as usize),
            la: self.layers@[li].la->0,
            x: temp(f.normed as int),
            conv: at(Region::ConvState(li as usize)),
            state: at(Region::SState(li as usize)),
            slots: at(Region::Null),
            n: f.n,
            first: f.first,
        };
        match f.pass {
            Pass::Decode { slots, .. } => GdnCall { slots, ..base },
            Pass::Prefill { slot, .. } => GdnCall {
                conv: shifted(at(Region::ConvState(li as usize)), slot * self.conv_bytes()),
                state: shifted(at(Region::SState(li as usize)), slot * self.state_bytes()),
                ..base
            },
            Pass::Verify { .. } => GdnCall { slots: at(Region::Scratch(Scratch::Slot)), ..base },
        }
    }

    /// The run tables of layer `li` in frame `f`.
    pub open spec fn run_tables(&self, f: Frame, li: int) -> RunTables {
        let none = at(Region::Null);
        match f.pass {
            Pass::Verify { ckpt, .. } => RunTables {
                mid_conv: match ckpt {
                    Some(s) => shifted(
                        at(Region::ConvState(li as usize)),
                        s * self.conv_bytes(),
                    ),
                    None => none,
                },
                mid_state: match ckpt {
                    Some(s) => shifted(at(Region::SState(li as usize)), s * self.state_bytes()),
                    None => none,
                },
                winsrc: at(Region::Scratch(Scratch::WinSrc)),
                parent: at(Region::Scratch(Scratch::Parent)),
            },
            _ => RunTables { mid_conv: none, mid_state: none, winsrc: none, parent: none },
        }
    }

    /// Offsets into lane `slot` stay within the address range.
    pub open spec fn slot_fits(&self, slot: int, kv_stride: int) -> bool {
        &&& self.gdn_fits()
        &&& self.conv_bytes() <= usize::MAX
        &&& self.state_bytes() <= usize::MAX
        &&& self.kv_bytes(kv_stride) <= usize::MAX
        &&& slot * self.conv_bytes() <= 0xFFFF_FFFF_FFFF
        &&& slot * self.state_bytes() <= 0xFFFF_FFFF_FFFF
        &&& slot * self.kv_bytes(kv_stride) <= 0xFFFF_FFFF_FFFF
    }

    /// Layer `li` can run in frame `f`.
    pub open spec fn layer_ok(&self, f: Frame, li: int) -> bool {
        let layer = self.layers@[li];
        &&& match layer.layer_type {
            LayerType::FullAttention => layer.fa is Some && self.attn_ok(self.attn_call(f, li)),
            LayerType::LinearAttention => layer.la is Some && self.gdn_ok(self.gdn_call(f, li)),
        }
        &&& self.ffn_ok(layer.mlp, f.n as int, self.tp.world == 2)
    }

    /// Every layer can run in frame `f`.
    pub open spec fn frame_ok(&self, f: Frame) -> bool {
        &&& f.first + ATTN_IDS + FFN_IDS <= usize::MAX
        &&& f.n <= i32::MAX
        &&& self.cfg.hidden_size <= i32::MAX
        &&& self.cfg.hidden_size * f.n <= i32::MAX
        &&& match f.pass {
            Pass::Decode { .. } => true,
            Pass::Prefill { slot, pos } => self.slot_fits(slot as int, f.kv_stride as int) && pos
                + f.n <= usize::MAX && f.n >= 1,
            Pass::Verify { pos, ckpt, .. } => pos + f.n <= usize::MAX && (ckpt matches Some(s)
                ==> self.slot_fits(s as int, f.kv_stride as int)),
        }
        &&& forall|li: int| 0 <= li < self.layers@.len() ==> #[trigger] self.layer_ok(f, li)
    }

    /// The mixer of layer `li`.
    pub open spec fn mixer_ops(&self, f: Frame, segs: Seq<(usize, usize)>, li: int) -> Seq<Op> {
        match self.layers@[li].layer_type {
            LayerType::FullAttention => self.full_attn_ops(self.attn_call(f, li)),
            LayerType::LinearAttention => match f.pass {
                Pass::Decode { .. } => self.linear_attn_ops(self.gdn_call(f, li)),
                _ => self.gdn_run_ops(self.gdn_call(f, li), self.run_tables(f, li), segs),
            },
        }
    }

    /// The buffer that holds the mixer's result.
    pub open spec fn mixer_out(&self, f: Frame, li: int) -> int {
        match self.layers@[li].layer_type {
            LayerType::FullAttention => f.first + 12,
            LayerType::LinearAttention => f.first + 7,
        }
    }

    /// A norm of the frame's columns.
    pub open spec fn norm_op(&self, out: int, x: int, w: Ptr, n: usize) -> Op {
        Op::Launch(
            Call::Rmsnorm {
                out: temp(out),
                x: temp(x),
                w,
                h: self.cfg.hidden_size as i32,
                n: n as i32,
                eps: self.cfg.rms_eps_bits,
            },
        )
    }

    /// Adds `add` into the residual and norms the sum.
    pub open spec fn fused_op(&self, f: Frame, add: int, w: Ptr) -> Op {
        Op::Launch(
            Call::FusedResRmsnorm {
                out: temp(f.normed as int),
                residual: temp(f.residual as int),
                add: temp(add),
                w,
                h: self.cfg.hidden_size as i32,
                n: f.n as i32,
                eps: self.cfg.rms_eps_bits,
            },
        )
    }

    /// The norm that follows layer `li` where the residual add is folded into it.
    pub open spec fn next_norm(&self, li: int) -> Ptr {
        if li + 1 < self.layers@.len() {
            at(Region::Vector(Block::Layer((li + 1) as usize), BlockVec::InputNorm))
        } else {
            at(Region::FinalNorm)
        }
    }

    /// Layer `li`: norm, mixer, norm, feed-forward, residual. With `fuse` the first norm has been done
    /// by the layer before.
    pub open spec fn layer_ops(
        &self,
        f: Frame,
        segs: Seq<(usize, usize)>,
        fuse: bool,
        li: int,
    ) -> Seq<Op> {
        let b = Block::Layer(li as usize);
        let hn = self.cfg.hidden_size * f.n;
        let ffn = self.layers@[li].mlp;
        let t = f.first + ATTN_IDS;
        let mixed = self.mixer_out(f, li);
        let fed = Self::ffn_out(ffn, t);
        (if fuse {
            Seq::<Op>::empty()
        } else {
            seq![
                self.norm_op(
                    f.normed as int,
                    f.residual as int,
                    at(Region::Vector(b, BlockVec::InputNorm)),
                    f.n,
                ),
            ]
        }) + self.mixer_ops(f, segs, li) + seq![
            self.fused_op(f, mixed, at(Region::Vector(b, BlockVec::PostNorm))),
        ] + self.ffn_ops(b, ffn, temp(f.normed as int), f.n as int, self.tp.world == 2, t) + seq![
            if fuse {
                self.fused_op(f, fed, self.next_norm(li))
            } else {
                Op::Launch(
                    Call::AddResidual {
                        residual: temp(f.residual as int),
                        add: temp(fed),
                        tot: hn as i32,
                    },
                )
            },
            put16(mixed, hn),
            put16(fed, hn),
        ]
    }

    /// All layers in order.
    pub open spec fn layers_ops(&self, f: Frame, segs: Seq<(usize, usize)>, fuse: bool) -> Seq<Op> {
        flat(self.layers@.len(), |li: int| self.layer_ops(f, segs, fuse, li))
    }

    fn attn_call_of(&self, f: Frame, li: usize) -> (c: AttnCall)
        requires
            self.frame_ok(f),
            li < self.layers@.len(),
            self.layers@[li as int].fa is Some,
        ensures
            c == self.attn_call(f, li as int),
    {
        let layer: GpuLayer = self.layers[li];
        let fa: GpuFullAttn = layer.fa.unwrap();
        let mut kc: Ptr = ptr(Region::KCache(li));
        let mut vc: Ptr = ptr(Region::VCache(li));
        let null: Ptr = ptr(Region::Null);
        let mode: AttnMode = match f.pass {
            Pass::Decode { pos, slots, max_pc } => AttnMode::Columns {
                pos,
                slots,
                max_pc,
                path: null,
                rope: null,
                starts: null,
            },
            Pass::Prefill { slot, pos } => {
                let per: usize = self.kv_slot_bytes(f.kv_stride);
                proof {
                    assert(0 <= slot * per) by (nonlinear_arith);
                }
                let off: u64 = (slot as u64) * (per as u64);
                kc = shift(kc, off);
                vc = shift(vc, off);
                AttnMode::Run { pos }
            },
            Pass::Verify { pos, forest, .. } => AttnMode::Columns {
                pos: ptr(Region::Scratch(Scratch::Pos)),
                slots: ptr(Region::Scratch(Scratch::Slot)),
                max_pc: pos + f.n,
                path: ptr(Region::Scratch(Scratch::Path)),
                rope: ptr(Region::Scratch(Scratch::Rope)),
                starts: if forest {
                    ptr(Region::Scratch(Scratch::PStart))
                } else {
                    null
                },
            },
        };
        AttnCall {
            block: Block::Layer(li),
            fa,
            x: tmp(f.normed),
            cos: f.cos,
            sin: f.sin,
            kc,
            vc,
            kv_stride: f.kv_stride,
            n: f.n,
            sharded: self.tp_shard_mixers(),
            mode,
            first: f.first,
        }
    }

    fn gdn_call_of(&self, f: Frame, li: usize) -> (c: GdnCall)
        requires
            self.frame_ok(f),
            li < self.layers@.len(),
            self.layers@[li as int].la is Some,
        ensures
            c == self.gdn_call(f, li as int),
    {
        let layer: GpuLayer = self.layers[li];
        let la: GpuLinearAttn = layer.la.unwrap();
        let mut conv: Ptr = ptr(Region::ConvState(li));
        let mut state: Ptr = ptr(Region::SState(li));
        let slots: Ptr = match f.pass {
            Pass::Decode { slots, .. } => slots,
            Pass::Prefill { slot, .. } => {
                let cb: usize = self.conv_slot_bytes();
                let sb: usize = self.state_slot_bytes();
                proof {
                    assert(0 <= slot * cb && 0 <= slot * sb) by (nonlinear_arith);
                }
                conv = shift(conv, (slot as u64) * (cb as u64));
                state = shift(state, (slot as u64) * (sb as u64));
                ptr(Region::Null)
            },
            Pass::Verify { .. } => ptr(Region::Scratch(Scratch::Slot)),
        };
        GdnCall {
            block: Block::Layer(li),
            la,
            x: tmp(f.normed),
            conv,
            state,
            slots,
            n: f.n,
            first: f.first,
        }
    }

    fn run_tables_of(&self, f: Frame, li: usize) -> (t: RunTables)
        requires
            self.frame_ok(f),
        ensures
            t == self.run_tables(f, li as int),
    {
        let none: Ptr = ptr(Region::Null);
        match f.pass {
            Pass::Verify { ckpt, .. } => {
                let mut mid_conv: Ptr = none;
                let mut mid_state: Ptr = none;
                match ckpt {
                    Some(s) => {
                        let cb: usize = self.conv_slot_bytes();
                        let sb: usize = self.state_slot_bytes();
                        proof {
                            assert(0 <= s * cb && 0 <= s * sb) by (nonlinear_arith);
                        }
                        mid_conv = shift(ptr(Region::ConvState(li)), (s as u64) * (cb as u64));
                        mid_state = shift(ptr(Region::SState(li)), (s as u64) * (sb as u64));
                    },
                    None => {},
                }
                RunTables {
                    mid_conv,
                    mid_state,
                    winsrc: ptr(Region::Scratch(Scratch::WinSrc)),
                    parent: ptr(Region::Scratch(Scratch::Parent)),
                }
            },
            _ => RunTables { mid_conv: none, mid_state: none, winsrc: none, parent: none },
        }
    }

    /// The runs of columns lie in the frame.
    pub open spec fn segs_in(segs: Seq<(usize, usize)>, n: int) -> bool {
        forall|i: int|
            #![trigger segs[i]]
            0 <= i < segs.len() ==> segs[i].1 >= 1 && segs[i].0 + segs[i].1 <= n
    }

    fn mixer(&self, f: Frame, segs: &[(usize, usize)], li: usize) -> (r: (Vec<Op>, usize))
        requires
            self.frame_ok(f),
            Self::segs_in(segs@, f.n as int),
            li < self.layers@.len(),
        ensures
            r.0@ == self.mixer_ops(f, segs@, li as int),
            r.1 == self.mixer_out(f, li as int),
    {
        proof {
            assert(self.layer_ok(f, li as int));
        }
        match self.layers[li].layer_type {
            LayerType::FullAttention => {
                let c: AttnCall = self.attn_call_of(f, li);
                (self.full_attn_batch(c), f.first + 12)
            },
            LayerType::LinearAttention => {
                let c: GdnCall = self.gdn_call_of(f, li);
                let ops: Vec<Op> = match f.pass {
                    Pass::Decode { .. } => self.linear_attn_batch(c),
                    _ => {
                        let t: RunTables = self.run_tables_of(f, li);
                        self.linear_attn_run(c, t, segs)
                    },
                };
                (ops, f.first + 7)
            },
        }
    }

    pub(crate) fn norm(&self, out: usize, x: usize, w: Ptr, n: usize) -> (op: Op)
        requires
            self.cfg.hidden_size <= i32::MAX,
            n <= i32::MAX,
        ensures
            op == self.norm_op(out as int, x as int, w, n),
    {
        Op::Launch(
            Call::Rmsnorm {
                out: tmp(out),
                x: tmp(x),
                w,
                h: int32(self.cfg.hidden_size),
                n: int32(n),
                eps: self.cfg.rms_eps_bits,
            },
        )
    }

    fn fused(&self, f: Frame, add: usize, w: Ptr) -> (op: Op)
        requires
            self.frame_ok(f),
        ensures
            op == self.fused_op(f, add as int, w),
    {
        Op::Launch(
            Call::FusedResRmsnorm {
                out: tmp(f.normed),
                residual: tmp(f.residual),
                add: tmp(add),
                w,
                h: int32(self.cfg.hidden_size),
                n: int32(f.n),
                eps: self.cfg.rms_eps_bits,
            },
        )
    }

    fn run_layer(&self, f: Frame, segs: &[(usize, usize)], fuse: bool, li: usize) -> (r: Vec<Op>)
        requires
            self.frame_ok(f),
            Self::segs_in(segs@, f.n as int),
            li < self.layers@.len(),
        ensures
            r@ == self.layer_ops(f, segs@, fuse, li as int),
    {
        proof {
            assert(self.layer_ok(f, li as int));
            assert(0 <= self.cfg.hidden_size * f.n) by (nonlinear_arith);
        }
        let nl: usize = self.layers.len();
        let b: Block = Block::Layer(li);
        let hn: usize = self.cfg.hidden_size * f.n;
        let mut r: Vec<Op> = if fuse {
            Vec::new()
        } else {
            vec![self.norm(f.normed, f.residual, ptr(Region::Vector(b, BlockVec::InputNorm)), f.n)]
        };
        proof {
            if fuse {
                assert(r@ =~= Seq::<Op>::empty());
            } else {
                assert(r@ =~= seq![
                    self.norm_op(
                        f.normed as int,
                        f.residual as int,
                        at(Region::Vector(b, BlockVec::InputNorm)),
                        f.n,
                    ),
                ]);
            }
        }
        let (mixer, mixed) = self.mixer(f, segs, li);
        chain(&mut r, mixer);
        let mid: Vec<Op> = vec![
            self.fused(f, mixed, ptr(Region::Vector(b, BlockVec::PostNorm))),
        ];
        proof {
            assert(mid@ =~= seq![
                self.fused_op(f, mixed as int, at(Region::Vector(b, BlockVec::PostNorm))),
            ]);
        }
        chain(&mut r, mid);
        let (ffn, fed) = self.ffn_batch(
            b,
            self.layers[li].mlp,
            tmp(f.normed),
            f.n,
            self.tp.world == 2,
            f.first + ATTN_IDS,
        );
        chain(&mut r, ffn);
        let add: Op = if fuse {
            let w: Ptr = if li + 1 < nl {
                ptr(Region::Vector(Block::Layer(li + 1), BlockVec::InputNorm))
            } else {
                ptr(Region::FinalNorm)
            };
            self.fused(f, fed, w)
        } else {
            Op::Launch(
                Call::AddResidual { residual: tmp(f.residual), add: tmp(fed), tot: int32(hn) },
            )
        };
        let last: Vec<Op> = vec![add, give16(mixed, hn), give16(fed, hn)];
        proof {
            assert(last@ =~= seq![add, put16(mixed as int, hn as int), put16(fed as int, hn as int)]);
        }
        chain(&mut r, last);
        r
    }

    pub(crate) fn all_layers(&self, f: Frame, segs: &[(usize, usize)], fuse: bool) -> (r: Vec<Op>)
        requires
            self.frame_ok(f),
            Self::segs_in(segs@, f.n as int),
        ensures
            r@ == self.layers_ops(f, segs@, fuse),
    {
        let ghost row = |li: int| self.layer_ops(f, segs@, fuse, li);
        let mut r: Vec<Op> = Vec::new();
        let mut li: usize = 0;
        while li < self.layers.len()
            invariant
                li <= self.layers@.len(),
                self.frame_ok(f),
                Self::segs_in(segs@, f.n as int),
                row == (|li: int| self.layer_ops(f, segs@, fuse, li)),
                r@ == flat(li as nat, row),
            decreases self.layers@.len() - li,
        {
            chain(&mut r, self.run_layer(f, segs, fuse, li));
            li = li + 1;
            proof {
                assert(row(li - 1) == self.layer_ops(f, segs@, fuse, li - 1));
            }
        }
        r
    }

    // ---- embedding and logits ----

    /// Embedding rows of `n` tokens.
    pub open spec fn embed_op(&self, out: Ptr, toks: Ptr, n: int) -> Op {
        let (h, b) = (self.cfg.hidden_size as i32, n as i32);
        Op::Launch(
            match self.embed {
                W::Nvfp4 { .. } => Call::EmbedFp4 { out, toks, h, n: b },
                W::Fp8 { .. } => Call::EmbedFp8 { out, toks, h, n: b },
                _ => Call::EmbedBf16 { out, toks, h, n: b },
            },
        )
    }

    /// Gathers embedding rows, expanding them where the table is quantized.
    pub fn embed_gather(&self, out: Ptr, toks: Ptr, n: usize) -> (op: Op)
        requires
            dense(self.embed),
            self.cfg.hidden_size <= i32::MAX,
            n <= i32::MAX,
        ensures
            op == self.embed_op(out, toks, n as int),
    {
        let (h, b) = (int32(self.cfg.hidden_size), int32(n));
        Op::Launch(
            match self.embed {
                W::Nvfp4 { .. } => Call::EmbedFp4 { out, toks, h, n: b },
                W::Fp8 { .. } => Call::EmbedFp8 { out, toks, h, n: b },
                _ => Call::EmbedBf16 { out, toks, h, n: b },
            },
        )
    }

    /// The output head: its own weight, or the embedding where they are tied.
    pub open spec fn head(&self) -> (W, WeightId) {
        match self.lm_head {
            Some(w) => (w, WeightId::LmHead),
            None => (self.embed, WeightId::Embed),
        }
    }

    /// The output head can run on `n` columns.
    pub open spec fn head_ok(&self, n: int) -> bool {
        &&& dense(self.head().0)
        &&& dense(self.embed)
        &&& self.cfg.hidden_size <= i32::MAX
        &&& self.cfg.vocab_size <= i32::MAX
        &&& n <= i32::MAX
        &&& self.cfg.vocab_size * n <= usize::MAX
    }

    /// Logits of `n` columns into buffer `id`.
    pub open spec fn logits_ops(&self, hidden: Ptr, n: int, id: int) -> Seq<Op> {
        let v = self.cfg.vocab_size as int;
        seq![get16(id, v * n)] + gemm_ops(
            self.head().0,
            self.head().1,
            hidden,
            temp(id),
            self.cfg.hidden_size as int,
            v,
            n,
        )
    }

    /// Logits of `n` columns into buffer `id`.
    pub fn logits_batch(&self, hidden: Ptr, n: usize, id: usize) -> (r: Vec<Op>)
        requires
            self.head_ok(n as int),
        ensures
            r@ == self.logits_ops(hidden, n as int, id as int),
    {
        let v: usize = self.cfg.vocab_size;
        proof {
            assert(0 <= v * n) by (nonlinear_arith);
        }
        let w: W = match self.lm_head {
            Some(w) => w,
            None => self.embed,
        };
        let wid: WeightId = match self.lm_head {
            Some(_) => WeightId::LmHead,
            None => WeightId::Embed,
        };
        let mut r: Vec<Op> = vec![borrow16(id, v * n)];
        proof {
            assert(r@ =~= seq![get16(id as int, v * n)]);
        }
        chain(&mut r, gemm_act(w, wid, hidden, tmp(id), self.cfg.hidden_size, v, n));
        r
    }
}

} // verus!
