//! The kernels of the single-token path on symbolic memory.
use vstd::prelude::*;

use crate::gpu::machine::{args1, args2, args3, args4, made, put, read, Fun, Mem, Val};
use crate::gpu::single_calls::SingleCall;

verus! {

/// What a kernel of the single-token path makes out of what it reads.
#[allow(inconsistent_fields)]
pub enum SingleFun {
    /// Sixteen-bit and back.
    Narrowed { n: i32 },
    Widened { n: i32 },
    /// A vector, normed. Reads the vector and the weights.
    Normed { n: i32, eps: u32 },
    /// Vectors, normed and gated. Reads vectors, gates and weights.
    GatedNormed { heads: i32, m: i32, eps: u32 },
    /// Convolved channels, and the window after a step. Both read channels, window and weights.
    Convolved { conv_dim: i32, k: i32 },
    WindowStep { conv_dim: i32, k: i32 },
    /// The recurrence's output, and the state after a step. Both read queries, keys and values, then the state
    /// and the per-head rows, then the two vectors.
    Recurred { nh: i32, kd: i32, vd: i32 },
    StateStep { nh: i32, kd: i32, vd: i32 },
    Added { n: i32 },
    SiluTimes { n: i32 },
    Queries { nh: i32, hd: i32 },
    Gates { nh: i32, hd: i32 },
    HeadNormed { nh: i32, hd: i32, eps: u32 },
    /// Heads, rotated. Reads the heads, the cosines and the sines.
    Rotated { nh: i32, hd: i32, rdim: i32 },
    /// A cache with one more entry. Reads the cache and the entry.
    Stored { pos: i32, stride: i32, nkv: i32, hd: i32 },
    /// Attention over `pc` keys. Reads queries, keys and values.
    Attended { pc: i32, stride: i32, nh: i32, nkv: i32, hd: i32 },
    SigmoidGated { n: i32 },
    /// The likeliest token of every block of logits, and its logit.
    BlockBest { vocab: i32 },
    BlockTop { vocab: i32 },
    /// The likeliest token over the blocks. Reads their tokens and their logits.
    Best { blocks: i32 },
}

/// A value that a kernel of the single-token path makes.
pub open spec fn one(f: SingleFun, args: Seq<Val>) -> Val {
    made(Fun::Single(f), args)
}

/// Three groups of arguments of a recurrence step.
pub open spec fn step_args(
    q: Val,
    k: Val,
    v: Val,
    state: Val,
    b: Val,
    a: Val,
    a_log: Val,
    dt_bias: Val,
) -> Seq<Val> {
    args3(q, k, v) + args4(state, b, a, a_log) + args1(dt_bias)
}

/// The memory after a kernel of the single-token path.
pub open spec fn single(s: Mem, c: SingleCall) -> Mem {
    match c {
        SingleCall::ToBf16 { out, x, n } => put(
            s,
            out,
            one(SingleFun::Narrowed { n }, args1(read(s, x))),
        ),
        SingleCall::ToF32 { out, x, n } => put(
            s,
            out,
            one(SingleFun::Widened { n }, args1(read(s, x))),
        ),
        SingleCall::Norm { out, x, w, n, eps } => put(
            s,
            out,
            one(SingleFun::Normed { n, eps }, args2(read(s, x), read(s, w))),
        ),
        SingleCall::NormGated { out, x, z, w, heads, m, eps } => put(
            s,
            out,
            one(
                SingleFun::GatedNormed { heads, m, eps },
                args3(read(s, x), read(s, z), read(s, w)),
            ),
        ),
        SingleCall::Conv1dStep { x, state, w, conv_dim, k } => {
            let a = args3(read(s, x), read(s, state), read(s, w));
            put(
                put(s, x, one(SingleFun::Convolved { conv_dim, k }, a)),
                state,
                one(SingleFun::WindowStep { conv_dim, k }, a),
            )
        },
        SingleCall::DeltaOne { out, q, k, v, b, a, state, nh, kd, vd, a_log, dt_bias } => {
            let args = step_args(
                read(s, q),
                read(s, k),
                read(s, v),
                read(s, state),
                read(s, b),
                read(s, a),
                read(s, a_log),
                read(s, dt_bias),
            );
            put(
                put(s, out, one(SingleFun::Recurred { nh, kd, vd }, args)),
                state,
                one(SingleFun::StateStep { nh, kd, vd }, args),
            )
        },
        SingleCall::FusedNorm { out, residual, add, w, h, eps } => {
            let sum = one(SingleFun::Added { n: h }, args2(read(s, residual), read(s, add)));
            put(
                put(s, residual, sum),
                out,
                one(SingleFun::Normed { n: h, eps }, args2(sum, read(s, w))),
            )
        },
        SingleCall::Add { residual, add, n } => put(
            s,
            residual,
            one(SingleFun::Added { n }, args2(read(s, residual), read(s, add))),
        ),
        SingleCall::Silu { gate, up, n } => put(
            s,
            gate,
            one(SingleFun::SiluTimes { n }, args2(read(s, gate), read(s, up))),
        ),
        SingleCall::SplitGate { q, gate, qg, nh, hd } => {
            let a = args1(read(s, qg));
            put(
                put(s, q, one(SingleFun::Queries { nh, hd }, a)),
                gate,
                one(SingleFun::Gates { nh, hd }, a),
            )
        },
        SingleCall::HeadNorm { x, w, nh, hd, eps } => put(
            s,
            x,
            one(SingleFun::HeadNormed { nh, hd, eps }, args2(read(s, x), read(s, w))),
        ),
        SingleCall::RopeHalf { x, cos, sin, nh, hd, rdim } => put(
            s,
            x,
            one(
                SingleFun::Rotated { nh, hd, rdim },
                args3(read(s, x), read(s, cos), read(s, sin)),
            ),
        ),
        SingleCall::WriteOne { kc, vc, k, v, pos, stride, nkv, hd } => {
            let f = SingleFun::Stored { pos, stride, nkv, hd };
            put(
                put(s, kc, one(f, args2(read(s, kc), read(s, k)))),
                vc,
                one(f, args2(read(s, vc), read(s, v))),
            )
        },
        SingleCall::Attention { attn, q, kc, vc, pc, stride, nh, nkv, hd } => put(
            s,
            attn,
            one(
                SingleFun::Attended { pc, stride, nh, nkv, hd },
                args3(read(s, q), read(s, kc), read(s, vc)),
            ),
        ),
        SingleCall::Gate { attn, gate, n } => put(
            s,
            attn,
            one(SingleFun::SigmoidGated { n }, args2(read(s, attn), read(s, gate))),
        ),
        SingleCall::ArgmaxParts { idxs, vals, logits, vocab } => {
            let a = args1(read(s, logits));
            put(
                put(s, idxs, one(SingleFun::BlockBest { vocab }, a)),
                vals,
                one(SingleFun::BlockTop { vocab }, a),
            )
        },
        SingleCall::ArgmaxMerge { out, idxs, vals, blocks } => put(
            s,
            out,
            one(SingleFun::Best { blocks }, args2(read(s, idxs), read(s, vals))),
        ),
    }
}

} // verus!
