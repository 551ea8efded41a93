//! Kernels of the single-token path.
use vstd::prelude::*;

use crate::gpu::program::{blocks_for, cover, product, Arg, Ptr};

verus! {

/// One kernel launch of the single-token path, by what it reads and writes.
#[allow(inconsistent_fields)]
#[derive(Clone, Copy, PartialEq, Eq, Structural)]
pub enum SingleCall {
    /// Narrows activations for a product.
    ToBf16 { out: Ptr, x: Ptr, n: i32 },
    /// Widens the result of a product.
    ToF32 { out: Ptr, x: Ptr, n: i32 },
    /// Root-mean-square norm of one vector.
    Norm { out: Ptr, x: Ptr, w: Ptr, n: i32, eps: u32 },
    /// Gated norm of `heads` vectors of `m`.
    NormGated { out: Ptr, x: Ptr, z: Ptr, w: Ptr, heads: i32, m: i32, eps: u32 },
    /// One convolution step.
    Conv1dStep { x: Ptr, state: Ptr, w: Ptr, conv_dim: i32, k: i32 },
    /// One recurrence step.
    DeltaOne {
        out: Ptr,
        q: Ptr,
        k: Ptr,
        v: Ptr,
        b: Ptr,
        a: Ptr,
        state: Ptr,
        nh: i32,
        kd: i32,
        vd: i32,
        a_log: Ptr,
        dt_bias: Ptr,
    },
    /// Adds into the residual, then norms it.
    FusedNorm { out: Ptr, residual: Ptr, add: Ptr, w: Ptr, h: i32, eps: u32 },
    /// Adds into the residual.
    Add { residual: Ptr, add: Ptr, n: i32 },
    /// Gated activation of the dense MLP.
    Silu { gate: Ptr, up: Ptr, n: i32 },
    /// Splits queries from their gates.
    SplitGate { q: Ptr, gate: Ptr, qg: Ptr, nh: i32, hd: i32 },
    /// Norms every head in place.
    HeadNorm { x: Ptr, w: Ptr, nh: i32, hd: i32, eps: u32 },
    /// Rotates every head in place.
    RopeHalf { x: Ptr, cos: Ptr, sin: Ptr, nh: i32, hd: i32, rdim: i32 },
    /// Writes one KV entry.
    WriteOne { kc: Ptr, vc: Ptr, k: Ptr, v: Ptr, pos: i32, stride: i32, nkv: i32, hd: i32 },
    /// Attention over `pc` keys.
    Attention {
        attn: Ptr,
        q: Ptr,
        kc: Ptr,
        vc: Ptr,
        pc: i32,
        stride: i32,
        nh: i32,
        nkv: i32,
        hd: i32,
    },
    /// Gates the attention output.
    Gate { attn: Ptr, gate: Ptr, n: i32 },
    /// Greedy token of every block of logits.
    ArgmaxParts { idxs: Ptr, vals: Ptr, logits: Ptr, vocab: i32 },
    /// Greedy token over the blocks.
    ArgmaxMerge { out: Ptr, idxs: Ptr, vals: Ptr, blocks: i32 },
}

impl SingleCall {
    /// The kernel's name in its module.
    pub open spec fn spec_symbol(&self) -> Seq<char> {
        match *self {
            SingleCall::ToBf16 { .. } => "f32tobf16"@,
            SingleCall::ToF32 { .. } => "bf16tof32"@,
            SingleCall::Norm { .. } => "rmsnorm_qwen"@,
            SingleCall::NormGated { .. } => "rmsnorm_gated"@,
            SingleCall::Conv1dStep { .. } => "conv1d_step"@,
            SingleCall::DeltaOne { .. } => "delta_step"@,
            SingleCall::FusedNorm { .. } => "fused_residual_rmsnorm"@,
            SingleCall::Add { .. } => "add_residual"@,
            SingleCall::Silu { .. } => "silu_mul"@,
            SingleCall::SplitGate { .. } => "split_qgate"@,
            SingleCall::HeadNorm { .. } => "rmsnorm_perhead"@,
            SingleCall::RopeHalf { .. } => "rope_rot_half"@,
            SingleCall::WriteOne { .. } => "write_kv"@,
            SingleCall::Attention { .. } => "gqa_attention"@,
            SingleCall::Gate { .. } => "sigmoid_gate"@,
            SingleCall::ArgmaxParts { .. } => "argmax_pass1"@,
            SingleCall::ArgmaxMerge { .. } => "argmax_pass2"@,
        }
    }

    /// The kernel's name in its module.
    pub fn symbol(&self) -> (s: &'static str)
        ensures
            s@ == self.spec_symbol(),
    {
        match *self {
            SingleCall::ToBf16 { .. } => "f32tobf16",
            SingleCall::ToF32 { .. } => "bf16tof32",
            SingleCall::Norm { .. } => "rmsnorm_qwen",
            SingleCall::NormGated { .. } => "rmsnorm_gated",
            SingleCall::Conv1dStep { .. } => "conv1d_step",
            SingleCall::DeltaOne { .. } => "delta_step",
            SingleCall::FusedNorm { .. } => "fused_residual_rmsnorm",
            SingleCall::Add { .. } => "add_residual",
            SingleCall::Silu { .. } => "silu_mul",
            SingleCall::SplitGate { .. } => "split_qgate",
            SingleCall::HeadNorm { .. } => "rmsnorm_perhead",
            SingleCall::RopeHalf { .. } => "rope_rot_half",
            SingleCall::WriteOne { .. } => "write_kv",
            SingleCall::Attention { .. } => "gqa_attention",
            SingleCall::Gate { .. } => "sigmoid_gate",
            SingleCall::ArgmaxParts { .. } => "argmax_pass1",
            SingleCall::ArgmaxMerge { .. } => "argmax_pass2",
        }
    }

    /// Blocks along each axis.
    pub open spec fn spec_grid(&self) -> (int, int, int) {
        match *self {
            SingleCall::ToBf16 { n, .. } => (blocks_for(n as int), 1, 1),
            SingleCall::ToF32 { n, .. } => (blocks_for(n as int), 1, 1),
            SingleCall::Norm { .. } => (1, 1, 1),
            SingleCall::NormGated { heads, .. } => (heads as int, 1, 1),
            SingleCall::Conv1dStep { conv_dim, .. } => (blocks_for(conv_dim as int), 1, 1),
            SingleCall::DeltaOne { nh, .. } => (nh as int, 1, 1),
            SingleCall::FusedNorm { .. } => (1, 1, 1),
            SingleCall::Add { n, .. } => (blocks_for(n as int), 1, 1),
            SingleCall::Silu { n, .. } => (blocks_for(n as int), 1, 1),
            SingleCall::SplitGate { nh, hd, .. } => (blocks_for(nh * hd), 1, 1),
            SingleCall::HeadNorm { nh, .. } => (nh as int, 1, 1),
            SingleCall::RopeHalf { nh, rdim, .. } => (blocks_for(nh * (rdim / 2)), 1, 1),
            SingleCall::WriteOne { nkv, hd, .. } => (blocks_for(nkv * hd), 1, 1),
            SingleCall::Attention { nh, .. } => (nh as int, 1, 1),
            SingleCall::Gate { n, .. } => (blocks_for(n as int), 1, 1),
            SingleCall::ArgmaxParts { vocab, .. } => (((vocab + 1023) / 1024), 1, 1),
            SingleCall::ArgmaxMerge { .. } => (1, 1, 1),
        }
    }

    /// Threads along each axis of a block.
    pub open spec fn spec_block(&self) -> (int, int, int) {
        match *self {
            SingleCall::ToBf16 { .. } => (256, 1, 1),
            SingleCall::ToF32 { .. } => (256, 1, 1),
            SingleCall::Norm { n, .. } => (n as int, 1, 1),
            SingleCall::NormGated { m, .. } => (m as int, 1, 1),
            SingleCall::Conv1dStep { .. } => (256, 1, 1),
            SingleCall::DeltaOne { kd, .. } => (kd as int, 1, 1),
            SingleCall::FusedNorm { h, .. } => (h as int, 1, 1),
            SingleCall::Add { .. } => (256, 1, 1),
            SingleCall::Silu { .. } => (256, 1, 1),
            SingleCall::SplitGate { .. } => (256, 1, 1),
            SingleCall::HeadNorm { hd, .. } => (hd as int, 1, 1),
            SingleCall::RopeHalf { .. } => (256, 1, 1),
            SingleCall::WriteOne { .. } => (256, 1, 1),
            SingleCall::Attention { hd, .. } => (hd as int, 1, 1),
            SingleCall::Gate { .. } => (256, 1, 1),
            SingleCall::ArgmaxParts { .. } => (1024, 1, 1),
            SingleCall::ArgmaxMerge { blocks, .. } => (blocks as int, 1, 1),
        }
    }

    /// Bytes of shared memory.
    pub open spec fn spec_smem(&self) -> int {
        match *self {
            SingleCall::ToBf16 { .. } => 0,
            SingleCall::ToF32 { .. } => 0,
            SingleCall::Norm { n, .. } => 4 * n,
            SingleCall::NormGated { m, .. } => 4 * m,
            SingleCall::Conv1dStep { .. } => 0,
            SingleCall::DeltaOne { kd, vd, .. } => 4 * (kd + 4 * vd + kd),
            SingleCall::FusedNorm { h, .. } => 4 * h,
            SingleCall::Add { .. } => 0,
            SingleCall::Silu { .. } => 0,
            SingleCall::SplitGate { .. } => 0,
            SingleCall::HeadNorm { hd, .. } => 4 * hd,
            SingleCall::RopeHalf { .. } => 0,
            SingleCall::WriteOne { .. } => 0,
            SingleCall::Attention { pc, hd, .. } => 4 * (pc + hd),
            SingleCall::Gate { .. } => 0,
            SingleCall::ArgmaxParts { .. } => 8192,
            SingleCall::ArgmaxMerge { blocks, .. } => 8 * blocks,
        }
    }

    /// The arguments, in order.
    pub open spec fn spec_args(&self) -> Seq<Arg> {
        match *self {
            SingleCall::ToBf16 { out, x, n } => seq![
                Arg::Ptr(out),
                Arg::Ptr(x),
                Arg::I32(n),
            ],
            SingleCall::ToF32 { out, x, n } => seq![
                Arg::Ptr(out),
                Arg::Ptr(x),
                Arg::I32(n),
            ],
            SingleCall::Norm { out, x, w, n, eps } => seq![
                Arg::Ptr(out),
                Arg::Ptr(x),
                Arg::Ptr(w),
                Arg::I32(n),
                Arg::FBits(eps),
            ],
            SingleCall::NormGated { out, x, z, w, m, eps, .. } => seq![
                Arg::Ptr(out),
                Arg::Ptr(x),
                Arg::Ptr(z),
                Arg::Ptr(w),
                Arg::I32(m),
                Arg::FBits(eps),
            ],
            SingleCall::Conv1dStep { x, state, w, conv_dim, k } => seq![
                Arg::Ptr(x),
                Arg::Ptr(state),
                Arg::Ptr(w),
                Arg::I32(conv_dim),
                Arg::I32(k),
            ],
            SingleCall::DeltaOne { out, q, k, v, b, a, state, nh, kd, vd, a_log, dt_bias } => seq![
                Arg::Ptr(out),
                Arg::Ptr(q),
                Arg::Ptr(k),
                Arg::Ptr(v),
                Arg::Ptr(b),
                Arg::Ptr(a),
                Arg::Ptr(state),
                Arg::I32(nh),
                Arg::I32(kd),
                Arg::I32(vd),
                Arg::Ptr(a_log),
                Arg::Ptr(dt_bias),
            ],
            SingleCall::FusedNorm { out, residual, add, w, h, eps } => seq![
                Arg::Ptr(out),
                Arg::Ptr(residual),
                Arg::Ptr(add),
                Arg::Ptr(w),
                Arg::I32(h),
                Arg::FBits(eps),
            ],
            SingleCall::Add { residual, add, n } => seq![
                Arg::Ptr(residual),
                Arg::Ptr(residual),
                Arg::Ptr(add),
                Arg::I32(n),
            ],
            SingleCall::Silu { gate, up, n } => seq![
                Arg::Ptr(gate),
                Arg::Ptr(gate),
                Arg::Ptr(up),
                Arg::I32(n),
            ],
            SingleCall::SplitGate { q, gate, qg, nh, hd } => seq![
                Arg::Ptr(q),
                Arg::Ptr(gate),
                Arg::Ptr(qg),
                Arg::I32(nh),
                Arg::I32(hd),
            ],
            SingleCall::HeadNorm { x, w, nh, hd, eps } => seq![
                Arg::Ptr(x),
                Arg::Ptr(x),
                Arg::Ptr(w),
                Arg::I32(nh),
                Arg::I32(hd),
                Arg::FBits(eps),
            ],
            SingleCall::RopeHalf { x, cos, sin, nh, hd, rdim } => seq![
                Arg::Ptr(x),
                Arg::Ptr(cos),
                Arg::Ptr(sin),
                Arg::I32(nh),
                Arg::I32(hd),
                Arg::I32(rdim),
            ],
            SingleCall::WriteOne { kc, vc, k, v, pos, stride, nkv, hd } => seq![
                Arg::Ptr(kc),
                Arg::Ptr(vc),
                Arg::Ptr(k),
                Arg::Ptr(v),
                Arg::I32(pos),
                Arg::I32(stride),
                Arg::I32(nkv),
                Arg::I32(hd),
            ],
            SingleCall::Attention { attn, q, kc, vc, pc, stride, nh, nkv, hd } => seq![
                Arg::Ptr(attn),
                Arg::Ptr(q),
                Arg::Ptr(kc),
                Arg::Ptr(vc),
                Arg::I32(pc),
                Arg::I32(stride),
                Arg::I32(nh),
                Arg::I32(nkv),
                Arg::I32(hd),
                Arg::InvSqrt(hd),
            ],
            SingleCall::Gate { attn, gate, n } => seq![
                Arg::Ptr(attn),
                Arg::Ptr(gate),
                Arg::I32(n),
            ],
            SingleCall::ArgmaxParts { idxs, vals, logits, vocab } => seq![
                Arg::Ptr(idxs),
                Arg::Ptr(vals),
                Arg::Ptr(logits),
                Arg::I32(vocab),
            ],
            SingleCall::ArgmaxMerge { out, idxs, vals, blocks } => seq![
                Arg::Ptr(out),
                Arg::Ptr(idxs),
                Arg::Ptr(vals),
                Arg::I32(blocks),
            ],
        }
    }

    /// Every count is non-negative.
    pub open spec fn counts_ok(&self) -> bool {
        match *self {
            SingleCall::ToBf16 { n, .. } => n >= 0,
            SingleCall::ToF32 { n, .. } => n >= 0,
            SingleCall::Norm { n, .. } => n >= 0,
            SingleCall::NormGated { heads, m, .. } => heads >= 0 && m >= 0,
            SingleCall::Conv1dStep { conv_dim, k, .. } => conv_dim >= 0 && k >= 0,
            SingleCall::DeltaOne { nh, kd, vd, .. } => nh >= 0 && kd >= 0 && vd >= 0,
            SingleCall::FusedNorm { h, .. } => h >= 0,
            SingleCall::Add { n, .. } => n >= 0,
            SingleCall::Silu { n, .. } => n >= 0,
            SingleCall::SplitGate { nh, hd, .. } => nh >= 0 && hd >= 0,
            SingleCall::HeadNorm { nh, hd, .. } => nh >= 0 && hd >= 0,
            SingleCall::RopeHalf { nh, hd, rdim, .. } => nh >= 0 && hd >= 0 && rdim >= 0,
            SingleCall::WriteOne { pos, stride, nkv, hd, .. } => pos >= 0 && stride >= 0 && nkv >= 0
                && hd >= 0,
            SingleCall::Attention { pc, stride, nh, nkv, hd, .. } => pc >= 0 && stride >= 0
                && nh >= 0 && nkv >= 0 && hd >= 0,
            SingleCall::Gate { n, .. } => n >= 0,
            SingleCall::ArgmaxParts { vocab, .. } => vocab >= 0,
            SingleCall::ArgmaxMerge { blocks, .. } => blocks >= 0,
        }
    }

    /// The launch fits the device's limits on grid, block and shared memory.
    pub open spec fn launchable(&self) -> bool {
        &&& self.counts_ok()
        &&& self.spec_grid().0 <= u32::MAX
        &&& self.spec_grid().1 <= u32::MAX
        &&& self.spec_grid().2 <= u32::MAX
        &&& self.spec_block().0 <= u32::MAX
        &&& self.spec_smem() <= u32::MAX
    }

    /// Grid, block and shared memory of the launch.
    pub fn geometry(&self) -> (g: ((u32, u32, u32), (u32, u32, u32), u32))
        requires
            self.launchable(),
        ensures
            g.0.0 == self.spec_grid().0,
            g.0.1 == self.spec_grid().1,
            g.0.2 == self.spec_grid().2,
            g.1.0 == self.spec_block().0,
            g.1.1 == self.spec_block().1,
            g.1.2 == self.spec_block().2,
            g.2 == self.spec_smem(),
    {
        match *self {
            SingleCall::ToBf16 { n, .. } => ((cover(n as u64, 1, 1), 1, 1), (256, 1, 1), 0),
            SingleCall::ToF32 { n, .. } => ((cover(n as u64, 1, 1), 1, 1), (256, 1, 1), 0),
            SingleCall::Norm { n, .. } => ((1, 1, 1), (n as u32, 1, 1), (4 * (n as u64)) as u32),
            SingleCall::NormGated { heads, m, .. } => (
                (product(heads as u64, 1, 1) as u32, 1, 1),
                (m as u32, 1, 1),
                (4 * (m as u64)) as u32,
            ),
            SingleCall::Conv1dStep { conv_dim, .. } => (
                (cover(conv_dim as u64, 1, 1), 1, 1),
                (256, 1, 1),
                0,
            ),
            SingleCall::DeltaOne { nh, kd, vd, .. } => (
                (product(nh as u64, 1, 1) as u32, 1, 1),
                (kd as u32, 1, 1),
                (4 * ((kd as u64) + 4 * (vd as u64) + (kd as u64))) as u32,
            ),
            SingleCall::FusedNorm { h, .. } => (
                (1, 1, 1),
                (h as u32, 1, 1),
                (4 * (h as u64)) as u32,
            ),
            SingleCall::Add { n, .. } => ((cover(n as u64, 1, 1), 1, 1), (256, 1, 1), 0),
            SingleCall::Silu { n, .. } => ((cover(n as u64, 1, 1), 1, 1), (256, 1, 1), 0),
            SingleCall::SplitGate { nh, hd, .. } => (
                (cover(nh as u64, hd as u64, 1), 1, 1),
                (256, 1, 1),
                0,
            ),
            SingleCall::HeadNorm { nh, hd, .. } => (
                (product(nh as u64, 1, 1) as u32, 1, 1),
                (hd as u32, 1, 1),
                (4 * (hd as u64)) as u32,
            ),
            SingleCall::RopeHalf { nh, rdim, .. } => (
                (cover(nh as u64, ((rdim as u64) / 2), 1), 1, 1),
                (256, 1, 1),
                0,
            ),
            SingleCall::WriteOne { nkv, hd, .. } => (
                (cover(nkv as u64, hd as u64, 1), 1, 1),
                (256, 1, 1),
                0,
            ),
            SingleCall::Attention { pc, nh, hd, .. } => (
                (product(nh as u64, 1, 1) as u32, 1, 1),
                (hd as u32, 1, 1),
                (4 * ((pc as u64) + (hd as u64))) as u32,
            ),
            SingleCall::Gate { n, .. } => ((cover(n as u64, 1, 1), 1, 1), (256, 1, 1), 0),
            SingleCall::ArgmaxParts { vocab, .. } => (
                (product((((vocab as u64) + 1023) / 1024), 1, 1) as u32, 1, 1),
                (1024, 1, 1),
                8192,
            ),
            SingleCall::ArgmaxMerge { blocks, .. } => (
                (1, 1, 1),
                (blocks as u32, 1, 1),
                (8 * (blocks as u64)) as u32,
            ),
        }
    }

    /// The arguments, in order.
    pub fn args(&self) -> (v: Vec<Arg>)
        requires
            self.counts_ok(),
        ensures
            v@ == self.spec_args(),
    {
        let v: Vec<Arg> = match *self {
            SingleCall::ToBf16 { out, x, n } => vec![
                Arg::Ptr(out),
                Arg::Ptr(x),
                Arg::I32(n),
            ],
            SingleCall::ToF32 { out, x, n } => vec![
                Arg::Ptr(out),
                Arg::Ptr(x),
                Arg::I32(n),
            ],
            SingleCall::Norm { out, x, w, n, eps } => vec![
                Arg::Ptr(out),
                Arg::Ptr(x),
                Arg::Ptr(w),
                Arg::I32(n),
                Arg::FBits(eps),
            ],
            SingleCall::NormGated { out, x, z, w, m, eps, .. } => vec![
                Arg::Ptr(out),
                Arg::Ptr(x),
                Arg::Ptr(z),
                Arg::Ptr(w),
                Arg::I32(m),
                Arg::FBits(eps),
            ],
            SingleCall::Conv1dStep { x, state, w, conv_dim, k } => vec![
                Arg::Ptr(x),
                Arg::Ptr(state),
                Arg::Ptr(w),
                Arg::I32(conv_dim),
                Arg::I32(k),
            ],
            SingleCall::DeltaOne { out, q, k, v, b, a, state, nh, kd, vd, a_log, dt_bias } => vec![
                Arg::Ptr(out),
                Arg::Ptr(q),
                Arg::Ptr(k),
                Arg::Ptr(v),
                Arg::Ptr(b),
                Arg::Ptr(a),
                Arg::Ptr(state),
                Arg::I32(nh),
                Arg::I32(kd),
                Arg::I32(vd),
                Arg::Ptr(a_log),
                Arg::Ptr(dt_bias),
            ],
            SingleCall::FusedNorm { out, residual, add, w, h, eps } => vec![
                Arg::Ptr(out),
                Arg::Ptr(residual),
                Arg::Ptr(add),
                Arg::Ptr(w),
                Arg::I32(h),
                Arg::FBits(eps),
            ],
            SingleCall::Add { residual, add, n } => vec![
                Arg::Ptr(residual),
                Arg::Ptr(residual),
                Arg::Ptr(add),
                Arg::I32(n),
            ],
            SingleCall::Silu { gate, up, n } => vec![
                Arg::Ptr(gate),
                Arg::Ptr(gate),
                Arg::Ptr(up),
                Arg::I32(n),
            ],
            SingleCall::SplitGate { q, gate, qg, nh, hd } => vec![
                Arg::Ptr(q),
                Arg::Ptr(gate),
                Arg::Ptr(qg),
                Arg::I32(nh),
                Arg::I32(hd),
            ],
            SingleCall::HeadNorm { x, w, nh, hd, eps } => vec![
                Arg::Ptr(x),
                Arg::Ptr(x),
                Arg::Ptr(w),
                Arg::I32(nh),
                Arg::I32(hd),
                Arg::FBits(eps),
            ],
            SingleCall::RopeHalf { x, cos, sin, nh, hd, rdim } => vec![
                Arg::Ptr(x),
                Arg::Ptr(cos),
                Arg::Ptr(sin),
                Arg::I32(nh),
                Arg::I32(hd),
                Arg::I32(rdim),
            ],
            SingleCall::WriteOne { kc, vc, k, v, pos, stride, nkv, hd } => vec![
                Arg::Ptr(kc),
                Arg::Ptr(vc),
                Arg::Ptr(k),
                Arg::Ptr(v),
                Arg::I32(pos),
                Arg::I32(stride),
                Arg::I32(nkv),
                Arg::I32(hd),
            ],
            SingleCall::Attention { attn, q, kc, vc, pc, stride, nh, nkv, hd } => vec![
                Arg::Ptr(attn),
                Arg::Ptr(q),
                Arg::Ptr(kc),
                Arg::Ptr(vc),
                Arg::I32(pc),
                Arg::I32(stride),
                Arg::I32(nh),
                Arg::I32(nkv),
                Arg::I32(hd),
                Arg::InvSqrt(hd),
            ],
            SingleCall::Gate { attn, gate, n } => vec![
                Arg::Ptr(attn),
                Arg::Ptr(gate),
                Arg::I32(n),
            ],
            SingleCall::ArgmaxParts { idxs, vals, logits, vocab } => vec![
                Arg::Ptr(idxs),
                Arg::Ptr(vals),
                Arg::Ptr(logits),
                Arg::I32(vocab),
            ],
            SingleCall::ArgmaxMerge { out, idxs, vals, blocks } => vec![
                Arg::Ptr(out),
                Arg::Ptr(idxs),
                Arg::Ptr(vals),
                Arg::I32(blocks),
            ],
        };
        proof {
            assert(v@ =~= self.spec_args());
        }
        v
    }
}

} // verus!
