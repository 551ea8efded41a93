//! The single-token path computes the model: what one token's buffers and caches hold.
use vstd::prelude::*;

use crate::config::LayerType;
use crate::gpu::machine::{
    args1, args2, args3, exec, group_run, lemma_run_short, part, read, run, Mem, Val,
};
use crate::gpu::machine_single::{one, step_args, SingleFun};
use crate::gpu::meaning::{times, vector};
use crate::gpu::model::GpuModel;
use crate::gpu::program::{at, get32, put32, temp, Block, BlockVec, Op, Proj, Ptr, Region, WeightId};
use crate::gpu::single::product_ops;
use crate::gpu::single_calls::SingleCall;

verus! {

broadcast use {group_run, lemma_run_short};

// ---- the model on one token ----

/// A sixteen-bit weight times a vector: narrowed, multiplied, widened.
pub open spec fn one_times(w: WeightId, x: Val, inn: int, outn: int) -> Val {
    one(
        SingleFun::Widened { n: outn as i32 },
        args1(times(w, one(SingleFun::Narrowed { n: inn as i32 }, args1(x)), inn, outn, 1)),
    )
}

/// A vector, normed.
pub open spec fn one_normed(m: &GpuModel, x: Val, w: Val) -> Val {
    one(
        SingleFun::Normed { n: m.cfg.hidden_size as i32, eps: m.cfg.rms_eps_bits },
        args2(x, w),
    )
}

/// The sum of two vectors.
pub open spec fn one_added(m: &GpuModel, x: Val, y: Val) -> Val {
    one(SingleFun::Added { n: m.cfg.hidden_size as i32 }, args2(x, y))
}

/// The dense feed-forward block.
pub open spec fn one_fed(m: &GpuModel, b: Block, x: Val) -> Val {
    let (h, im) = (m.cfg.hidden_size as int, m.cfg.intermediate_size as int);
    let w = |p: Proj| WeightId::Of(b, p);
    one_times(
        w(Proj::Down),
        one(
            SingleFun::SiluTimes { n: im as i32 },
            args2(one_times(w(Proj::Gate), x, h, im), one_times(w(Proj::Up), x, h, im)),
        ),
        im,
        h,
    )
}

/// What a mixer gives: its output, and what the layer remembers.
pub struct OneMixed {
    pub out: Val,
    pub first: Val,
    pub second: Val,
}

/// Heads, normed and rotated.
pub open spec fn one_turned(m: &GpuModel, x: Val, w: Val, cos: Val, sin: Val, nh: int) -> Val {
    let (nh, hd) = (nh as i32, m.cfg.head_dim as i32);
    one(
        SingleFun::Rotated { nh, hd, rdim: m.cfg.rotary_dim as i32 },
        args3(
            one(SingleFun::HeadNormed { nh, hd, eps: m.cfg.rms_eps_bits }, args2(x, w)),
            cos,
            sin,
        ),
    )
}

/// Attention of one token at position `pos`: it sees the positions up to its own.
pub open spec fn one_attention(
    m: &GpuModel,
    s: Mem,
    li: usize,
    x: Val,
    pos: int,
    cos: Val,
    sin: Val,
) -> OneMixed {
    let c = m.cfg;
    let (h, nh, nkv, hd) = (
        c.hidden_size as int,
        c.num_heads as int,
        c.num_kv_heads as int,
        c.head_dim as int,
    );
    let stride = c.max_position_embeddings as i32;
    let b = Block::Layer(li);
    let w = |p: Proj| WeightId::Of(b, p);
    let qg = args1(one_times(w(Proj::Q), x, h, nh * hd * 2));
    let (nhi, hdi, nkvi) = (nh as i32, hd as i32, nkv as i32);
    let q = one_turned(
        m,
        one(SingleFun::Queries { nh: nhi, hd: hdi }, qg),
        vector(s, b, BlockVec::QNorm),
        cos,
        sin,
        nh,
    );
    let k = one_turned(
        m,
        one_times(w(Proj::K), x, h, nkv * hd),
        vector(s, b, BlockVec::KNorm),
        cos,
        sin,
        nkv,
    );
    let kept = SingleFun::Stored { pos: pos as i32, stride, nkv: nkvi, hd: hdi };
    let keys = one(kept, args2(s[Region::KCache(li)], k));
    let values = one(kept, args2(s[Region::VCache(li)], one_times(w(Proj::V), x, h, nkv * hd)));
    let seen = one(
        SingleFun::Attended { pc: (pos + 1) as i32, stride, nh: nhi, nkv: nkvi, hd: hdi },
        args3(q, keys, values),
    );
    let gated = one(
        SingleFun::SigmoidGated { n: (nh * hd) as i32 },
        args2(seen, one(SingleFun::Gates { nh: nhi, hd: hdi }, qg)),
    );
    OneMixed { out: one_times(w(Proj::O), gated, nh * hd, h), first: keys, second: values }
}

/// Linear attention of one token. The convolved channels are queries, then keys, then values.
pub open spec fn one_recurrence(m: &GpuModel, s: Mem, li: usize, x: Val) -> OneMixed {
    let c = m.cfg;
    let (h, nh) = (c.hidden_size as int, c.lin_num_v_heads as int);
    let (kd, vd) = (c.lin_k_dim as int, c.lin_v_dim as int);
    let key = c.lin_num_k_heads * c.lin_k_dim;
    let width = c.lin_num_v_heads * c.lin_v_dim;
    let channels = key * 2 + width;
    let b = Block::Layer(li);
    let w = |p: Proj| WeightId::Of(b, p);
    let (conv_dim, ck) = (channels as i32, c.conv_kernel as i32);
    let window = args3(
        one_times(w(Proj::GdnQkv), x, h, channels),
        s[Region::ConvState(li)],
        vector(s, b, BlockVec::Conv1d),
    );
    let qkv = one(SingleFun::Convolved { conv_dim, k: ck }, window);
    let args = step_args(
        qkv,
        part(qkv, (key * 4) as u64),
        part(qkv, (2 * key * 4) as u64),
        s[Region::SState(li)],
        one_times(w(Proj::GdnB), x, h, nh),
        one_times(w(Proj::GdnA), x, h, nh),
        vector(s, b, BlockVec::ALog),
        vector(s, b, BlockVec::DtBias),
    );
    let (nhi, kdi, vdi) = (nh as i32, kd as i32, vd as i32);
    let gated = one(
        SingleFun::GatedNormed { heads: nhi, m: vdi, eps: c.rms_eps_bits },
        args3(
            one(SingleFun::Recurred { nh: nhi, kd: kdi, vd: vdi }, args),
            one_times(w(Proj::GdnZ), x, h, width),
            vector(s, b, BlockVec::GdnNorm),
        ),
    );
    OneMixed {
        out: one_times(w(Proj::GdnOut), gated, width, h),
        first: one(SingleFun::WindowStep { conv_dim, k: ck }, window),
        second: one(SingleFun::StateStep { nh: nhi, kd: kdi, vd: vdi }, args),
    }
}

/// The mixer of layer `li`.
#[verifier::opaque]
pub open spec fn one_mixed(
    m: &GpuModel,
    s: Mem,
    li: int,
    x: Val,
    pos: int,
    cos: Val,
    sin: Val,
) -> OneMixed {
    match m.layers@[li].layer_type {
        LayerType::FullAttention => one_attention(m, s, li as usize, x, pos, cos, sin),
        LayerType::LinearAttention => one_recurrence(m, s, li as usize, x),
    }
}

/// Layer `li`: the vector plus its mixture, then that plus its feed-forward part.
pub open spec fn one_layer_of(
    m: &GpuModel,
    s: Mem,
    li: int,
    x: Val,
    pos: int,
    cos: Val,
    sin: Val,
) -> Val {
    let b = Block::Layer(li as usize);
    let nx = one_normed(m, x, vector(s, b, BlockVec::InputNorm));
    let y = one_added(m, x, one_mixed(m, s, li, nx, pos, cos, sin).out);
    one_added(m, y, one_fed(m, b, one_normed(m, y, vector(s, b, BlockVec::PostNorm))))
}

/// A vector after the first `k` layers.
pub open spec fn one_trunk(
    m: &GpuModel,
    s: Mem,
    x: Val,
    pos: int,
    cos: Val,
    sin: Val,
    k: nat,
) -> Val
    decreases k,
{
    if k == 0 {
        x
    } else {
        let y = one_trunk(m, s, x, pos, cos, sin, (k - 1) as nat);
        one_layer_of(m, s, k - 1, y, pos, cos, sin)
    }
}

/// What the mixer of layer `li` gives on the way.
pub open spec fn one_remembered(
    m: &GpuModel,
    s: Mem,
    x: Val,
    pos: int,
    cos: Val,
    sin: Val,
    li: int,
) -> OneMixed {
    let y = one_trunk(m, s, x, pos, cos, sin, li as nat);
    let b = Block::Layer(li as usize);
    one_mixed(m, s, li, one_normed(m, y, vector(s, b, BlockVec::InputNorm)), pos, cos, sin)
}

// ---- the programs ----

/// Nothing but buffers `lo .. hi` and two more regions has changed.
pub open spec fn only(s: Mem, e: Mem, lo: int, hi: int, x: Region, y: Region) -> bool {
    forall|r: Region|
        !(r matches Region::Temp(i) && lo <= i < hi) && r != x && r != y ==> #[trigger] e[r] == s[r]
}

proof fn lemma_product(s: Mem, w: WeightId, x: Ptr, out: Ptr, inn: int, outn: int, t: int)
    requires
        0 <= t,
        t + 1 <= usize::MAX,
        x.region != temp(t).region,
        x.region != temp(t + 1).region,
        out.region != temp(t).region,
        out.region != temp(t + 1).region,
        out.region is Temp,
        out.offset == 0,
    ensures
        ({
            let e = run(s, product_ops(w, x, out, inn, outn, t));
            &&& e[out.region] == one_times(w, read(s, x), inn, outn)
            &&& forall|r: Region|
                r != out.region && r != temp(t).region && r != temp(t + 1).region
                    ==> #[trigger] e[r] == s[r]
        }),
{
    let ops = product_ops(w, x, out, inn, outn, t);
    let a = exec(exec(s, ops[0]), ops[1]);
    assert(read(a, x) == read(s, x));
    let b = exec(exec(a, ops[2]), ops[3]);
    assert(b[temp(t + 1).region] == times(
        w,
        one(SingleFun::Narrowed { n: inn as i32 }, args1(read(s, x))),
        inn,
        outn,
        1,
    ));
    assert(run(s, ops) == exec(exec(exec(b, ops[4]), ops[5]), ops[6]));
}

/// The dense block on one vector leaves what the model says in buffer `t + 2`.
pub proof fn law_one_mlp_computes(m: &GpuModel, s: Mem, b: Block, x: Ptr, t: int)
    requires
        0 <= t,
        t + 11 <= usize::MAX,
        x.region matches Region::Temp(i) ==> !(t <= i < t + 11),
    ensures
        ({
            let e = run(s, m.one_mlp_ops(b, x, t));
            &&& e[temp(t + 2).region] == one_fed(m, b, read(s, x))
            &&& only(s, e, t, t + 11, temp(t).region, temp(t).region)
        }),
{
    let (h, im) = (m.cfg.hidden_size as int, m.cfg.intermediate_size as int);
    let w = |p: Proj| WeightId::Of(b, p);
    let s1 = run(s, seq![get32(t, im), get32(t + 1, im)]);
    assert(read(s1, x) == read(s, x));
    lemma_product(s1, w(Proj::Gate), x, temp(t), h, im, t + 3);
    let s2 = run(s1, product_ops(w(Proj::Gate), x, temp(t), h, im, t + 3));
    assert(read(s2, x) == read(s, x));
    lemma_product(s2, w(Proj::Up), x, temp(t + 1), h, im, t + 3);
    let s3 = run(s2, product_ops(w(Proj::Up), x, temp(t + 1), h, im, t + 3));
    let act = Op::Single(SingleCall::Silu { gate: temp(t), up: temp(t + 1), n: im as i32 });
    let s4 = exec(exec(s3, act), get32(t + 2, h));
    assert(run(s3, seq![act, get32(t + 2, h)]) == s4);
    lemma_product(s4, w(Proj::Down), temp(t), temp(t + 2), im, h, t + 3);
    let s5 = run(s4, product_ops(w(Proj::Down), temp(t), temp(t + 2), im, h, t + 3));
    let e = run(s5, seq![put32(t, im), put32(t + 1, im)]);
    assert(run(s, m.one_mlp_ops(b, x, t)) == e);
}

/// Attention of one token leaves what the model says: its output in buffer `t + 6`, and both caches.
#[verifier::rlimit(60)]
pub proof fn law_one_attention_computes(
    m: &GpuModel,
    s: Mem,
    li: usize,
    x: Ptr,
    pos: int,
    cos: Ptr,
    sin: Ptr,
    t: int,
)
    requires
        0 <= t,
        t + 11 <= usize::MAX,
        x.region matches Region::Temp(i) ==> !(t <= i < t + 11),
        cos.region matches Region::Temp(i) ==> !(t <= i < t + 11),
        sin.region matches Region::Temp(i) ==> !(t <= i < t + 11),
        !(cos.region is KCache) && !(cos.region is VCache),
        !(sin.region is KCache) && !(sin.region is VCache),
        !(x.region is KCache) && !(x.region is VCache),
    ensures
        ({
            let e = run(s, m.one_attn_ops(li, x, pos, cos, sin, t));
            let a = one_attention(m, s, li, read(s, x), pos, read(s, cos), read(s, sin));
            &&& e[temp(t + 6).region] == a.out
            &&& e[Region::KCache(li)] == a.first
            &&& e[Region::VCache(li)] == a.second
            &&& only(s, e, t, t + 11, Region::KCache(li), Region::VCache(li))
        }),
{
    let c = m.cfg;
    let (h, nh, nkv) = (c.hidden_size as int, c.num_heads as int, c.num_kv_heads as int);
    let hd = c.head_dim as int;
    let b = Block::Layer(li);
    let w = |p: Proj| WeightId::Of(b, p);
    let (kc, vc) = (Region::KCache(li), Region::VCache(li));
    let s1 = run(
        s,
        seq![
            get32(t, nh * hd * 2),
            get32(t + 1, nkv * hd),
            get32(t + 2, nkv * hd),
            get32(t + 3, nh * hd),
            get32(t + 4, nh * hd),
        ],
    );
    assert(only(s, s1, t, t + 11, kc, vc));
    assert(s1[kc] == s[kc] && s1[vc] == s[vc]);
    assert(read(s1, x) == read(s, x));
    lemma_product(s1, w(Proj::Q), x, temp(t), h, nh * hd * 2, t + 7);
    let s2 = run(s1, product_ops(w(Proj::Q), x, temp(t), h, nh * hd * 2, t + 7));
    assert(read(s2, x) == read(s, x));
    lemma_product(s2, w(Proj::K), x, temp(t + 1), h, nkv * hd, t + 7);
    let s3 = run(s2, product_ops(w(Proj::K), x, temp(t + 1), h, nkv * hd, t + 7));
    assert(read(s3, x) == read(s, x));
    lemma_product(s3, w(Proj::V), x, temp(t + 2), h, nkv * hd, t + 7);
    let s4 = run(s3, product_ops(w(Proj::V), x, temp(t + 2), h, nkv * hd, t + 7));
    assert(only(s, s4, t, t + 11, kc, vc));
    assert(s4[kc] == s[kc] && s4[vc] == s[vc]);
    assert(read(s4, cos) == read(s, cos) && read(s4, sin) == read(s, sin));
    let ops = m.one_attn_ops(li, x, pos, cos, sin, t);
    let mid = ops.subrange(26, 36);
    let u0 = exec(s4, mid[0]);
    let u1 = exec(u0, mid[1]);
    let u2 = exec(u1, mid[2]);
    assert(only(s, u2, t, t + 11, kc, vc));
    assert(read(u2, cos) == read(s, cos) && read(u2, sin) == read(s, sin));
    let u3 = exec(u2, mid[3]);
    assert(only(s, u3, t, t + 11, kc, vc));
    assert(read(u3, cos) == read(s, cos) && read(u3, sin) == read(s, sin));
    let u4 = exec(u3, mid[4]);
    assert(u4[kc] == s[kc] && u4[vc] == s[vc]);
    let u5 = exec(u4, mid[5]);
    let a = one_attention(m, s, li, read(s, x), pos, read(s, cos), read(s, sin));
    assert(u5[kc] == a.first);
    assert(u5[vc] == a.second);
    let s5 = exec(exec(exec(exec(u5, mid[6]), mid[7]), mid[8]), mid[9]);
    assert(run(s4, mid) == s5);
    lemma_product(s5, w(Proj::O), temp(t + 5), temp(t + 6), nh * hd, h, t + 7);
    let s6 = run(s5, product_ops(w(Proj::O), temp(t + 5), temp(t + 6), nh * hd, h, t + 7));
    assert(s6[temp(t + 6).region] == a.out);
    let last = seq![
        put32(t, nh * hd * 2),
        put32(t + 1, nkv * hd),
        put32(t + 2, nkv * hd),
        put32(t + 3, nh * hd),
        put32(t + 4, nh * hd),
        put32(t + 5, nh * hd),
    ];
    let e = run(s6, last);
    assert(ops =~= seq![
        get32(t, nh * hd * 2),
        get32(t + 1, nkv * hd),
        get32(t + 2, nkv * hd),
        get32(t + 3, nh * hd),
        get32(t + 4, nh * hd),
    ] + product_ops(w(Proj::Q), x, temp(t), h, nh * hd * 2, t + 7) + product_ops(
        w(Proj::K),
        x,
        temp(t + 1),
        h,
        nkv * hd,
        t + 7,
    ) + product_ops(w(Proj::V), x, temp(t + 2), h, nkv * hd, t + 7) + mid + product_ops(
        w(Proj::O),
        temp(t + 5),
        temp(t + 6),
        nh * hd,
        h,
        t + 7,
    ) + last);
    assert(run(s, ops) == e);
}

/// Linear attention of one token leaves what the model says: its output in buffer `t + 8`, the window and the
/// state.
#[verifier::rlimit(60)]
pub proof fn law_one_recurrence_computes(m: &GpuModel, s: Mem, li: usize, x: Ptr, t: int)
    requires
        0 <= t,
        t + 11 <= usize::MAX,
        x.region matches Region::Temp(i) ==> !(t <= i < t + 11),
        !(x.region is ConvState) && !(x.region is SState),
    ensures
        ({
            let e = run(s, m.one_gdn_ops(li, x, t));
            let a = one_recurrence(m, s, li, read(s, x));
            &&& e[temp(t + 8).region] == a.out
            &&& e[Region::ConvState(li)] == a.first
            &&& e[Region::SState(li)] == a.second
            &&& only(s, e, t, t + 11, Region::ConvState(li), Region::SState(li))
        }),
{
    let c = m.cfg;
    let (h, nh, vd) = (c.hidden_size as int, c.lin_num_v_heads as int, c.lin_v_dim as int);
    let cd = m.one_conv_dim();
    let vdim = c.spec_value_dim();
    let b = Block::Layer(li);
    let w = |p: Proj| WeightId::Of(b, p);
    let (cv, st) = (Region::ConvState(li), Region::SState(li));
    let a = one_recurrence(m, s, li, read(s, x));
    // Projection and convolution.
    let s1 = run(s, seq![get32(t, cd)]);
    assert(read(s1, x) == read(s, x));
    lemma_product(s1, w(Proj::GdnQkv), x, temp(t), h, cd, t + 4);
    let s2 = run(s1, product_ops(w(Proj::GdnQkv), x, temp(t), h, cd, t + 4));
    let core = m.one_core_ops(li, x, t);
    let mid = core.subrange(8, 11);
    let s3 = exec(exec(exec(s2, mid[0]), mid[1]), mid[2]);
    assert(run(s2, mid) == s3);
    assert(s3[cv] == a.first);
    assert(s3[st] == s[st]);
    assert(read(s3, x) == read(s, x));
    lemma_product(s3, w(Proj::GdnB), x, temp(t + 1), h, nh, t + 4);
    let s4 = run(s3, product_ops(w(Proj::GdnB), x, temp(t + 1), h, nh, t + 4));
    assert(read(s4, x) == read(s, x));
    lemma_product(s4, w(Proj::GdnA), x, temp(t + 2), h, nh, t + 4);
    let s5 = run(s4, product_ops(w(Proj::GdnA), x, temp(t + 2), h, nh, t + 4));
    let tail = core.subrange(25, 30);
    let s6 = exec(exec(s5, tail[0]), tail[1]);
    assert(s6[st] == a.second);
    let s7 = exec(exec(exec(s6, tail[2]), tail[3]), tail[4]);
    assert(run(s5, tail) == s7);
    assert(core =~= seq![get32(t, cd)] + product_ops(w(Proj::GdnQkv), x, temp(t), h, cd, t + 4) + mid
        + product_ops(w(Proj::GdnB), x, temp(t + 1), h, nh, t + 4) + product_ops(
        w(Proj::GdnA),
        x,
        temp(t + 2),
        h,
        nh,
        t + 4,
    ) + tail);
    assert(run(s, core) == s7);
    assert(only(s, s7, t, t + 11, cv, st));
    // Gate and output.
    let s8 = run(s7, seq![get32(t + 6, vdim)]);
    assert(read(s8, x) == read(s, x));
    lemma_product(s8, w(Proj::GdnZ), x, temp(t + 6), h, vdim, t + 9);
    let s9 = run(s8, product_ops(w(Proj::GdnZ), x, temp(t + 6), h, vdim, t + 9));
    let gate = Op::Single(
        SingleCall::NormGated {
            out: temp(t + 7),
            x: temp(t + 3),
            z: temp(t + 6),
            w: at(Region::Vector(b, BlockVec::GdnNorm)),
            heads: nh as i32,
            m: vd as i32,
            eps: c.rms_eps_bits,
        },
    );
    let p0 = run(s9, seq![get32(t + 7, vdim), gate, get32(t + 8, h)]);
    assert(p0 == exec(exec(exec(s9, get32(t + 7, vdim)), gate), get32(t + 8, h)));
    lemma_product(p0, w(Proj::GdnOut), temp(t + 7), temp(t + 8), vdim, h, t + 9);
    let p1 = run(p0, product_ops(w(Proj::GdnOut), temp(t + 7), temp(t + 8), vdim, h, t + 9));
    assert(p1[temp(t + 8).region] == a.out);
    let e = run(
        p1,
        seq![put32(t + 3, nh * vd), put32(t + 6, vdim), put32(t + 7, vdim)],
    );
    assert(run(s, m.one_gdn_ops(li, x, t)) == e);
}

// ---- layers ----

/// The two regions in which layer `li` remembers.
pub open spec fn one_cells(m: &GpuModel, li: int) -> (Region, Region) {
    match m.layers@[li].layer_type {
        LayerType::FullAttention => (Region::KCache(li as usize), Region::VCache(li as usize)),
        LayerType::LinearAttention => (Region::ConvState(li as usize), Region::SState(li as usize)),
    }
}

/// One of the first `k` layers remembers in `r`.
pub open spec fn one_owned(m: &GpuModel, r: Region, k: int) -> bool {
    match r {
        Region::KCache(i) | Region::VCache(i) => i < k && m.layers@[i as int].layer_type
            is FullAttention,
        Region::ConvState(i) | Region::SState(i) => i < k && m.layers@[i as int].layer_type
            is LinearAttention,
        _ => false,
    }
}

/// Layer `li` remembers what it should.
pub open spec fn one_settled(
    m: &GpuModel,
    s: Mem,
    e: Mem,
    x: Val,
    pos: int,
    cos: Val,
    sin: Val,
    li: int,
) -> bool {
    let a = one_remembered(m, s, x, pos, cos, sin, li);
    e[one_cells(m, li).0] == a.first && e[one_cells(m, li).1] == a.second
}

/// Angles that the buffers of a token leave alone.
pub open spec fn angles_apart(p: Ptr) -> bool {
    &&& !(p.region is KCache) && !(p.region is VCache)
    &&& !(p.region is ConvState) && !(p.region is SState)
    &&& p.region matches Region::Temp(i) ==> i >= 25
}

/// `k` layers have run.
pub open spec fn one_reached(
    m: &GpuModel,
    s: Mem,
    e: Mem,
    pos: int,
    cos: Ptr,
    sin: Ptr,
    k: int,
) -> bool {
    let x = s[temp(0).region];
    let (vcos, vsin) = (read(s, cos), read(s, sin));
    &&& e[temp(0).region] == one_trunk(m, s, x, pos, vcos, vsin, k as nat)
    &&& forall|li: int| 0 <= li < k ==> #[trigger] one_settled(m, s, e, x, pos, vcos, vsin, li)
    &&& forall|r: Region|
        !(r matches Region::Temp(i) && i < 25) && !one_owned(m, r, k) ==> #[trigger] e[r] == s[r]
}

pub(crate) proof fn lemma_one_mixed_ext(
    m: &GpuModel,
    a: Mem,
    b: Mem,
    li: int,
    x: Val,
    pos: int,
    cos: Val,
    sin: Val,
)
    requires
        forall|r: Region| r is Vector ==> #[trigger] b[r] == a[r],
        b[one_cells(m, li).0] == a[one_cells(m, li).0],
        b[one_cells(m, li).1] == a[one_cells(m, li).1],
    ensures
        one_mixed(m, b, li, x, pos, cos, sin) == one_mixed(m, a, li, x, pos, cos, sin),
{
    reveal(one_mixed);
    let blk = Block::Layer(li as usize);
    assert(forall|v: BlockVec| #[trigger] vector(b, blk, v) == vector(a, blk, v));
}

/// The mixer of layer `li`, from the normed vector in buffer 1.
pub(crate) proof fn lemma_one_mixer(
    m: &GpuModel,
    s: Mem,
    li: int,
    pos: int,
    cos: Ptr,
    sin: Ptr,
)
    requires
        angles_apart(cos),
        angles_apart(sin),
    ensures
        ({
            let ops = match m.layers@[li].layer_type {
                LayerType::FullAttention => m.one_attn_ops(li as usize, temp(1), pos, cos, sin, 3),
                LayerType::LinearAttention => m.one_gdn_ops(li as usize, temp(1), 3),
            };
            let e = run(s, ops);
            let a = one_mixed(m, s, li, s[temp(1).region], pos, read(s, cos), read(s, sin));
            let (u, v) = one_cells(m, li);
            &&& e[temp(m.one_mixer_out(li)).region] == a.out
            &&& e[u] == a.first
            &&& e[v] == a.second
            &&& only(s, e, 3, 14, u, v)
        }),
{
    reveal(one_mixed);
    match m.layers@[li].layer_type {
        LayerType::FullAttention => law_one_attention_computes(
            m,
            s,
            li as usize,
            temp(1),
            pos,
            cos,
            sin,
            3,
        ),
        LayerType::LinearAttention => law_one_recurrence_computes(m, s, li as usize, temp(1), 3),
    }
}

/// The norm of one vector.
pub(crate) proof fn lemma_one_norm(m: &GpuModel, s: Mem, out: int, x: int, w: Ptr)
    requires
        0 <= out <= usize::MAX,
        0 <= x <= usize::MAX,
    ensures
        ({
            let e = run(s, seq![m.one_norm_op(temp(out), temp(x), w)]);
            &&& e[temp(out).region] == one_normed(m, s[temp(x).region], read(s, w))
            &&& forall|r: Region| r != temp(out).region ==> #[trigger] e[r] == s[r]
        }),
{
}

/// A mixture joins the residual, which is normed again.
pub(crate) proof fn lemma_one_join(m: &GpuModel, s: Mem, b: Block, out: int)
    requires
        3 <= out <= usize::MAX,
    ensures
        ({
            let join = Op::Single(
                SingleCall::FusedNorm {
                    out: temp(1),
                    residual: temp(0),
                    add: temp(out),
                    w: at(Region::Vector(b, BlockVec::PostNorm)),
                    h: m.cfg.hidden_size as i32,
                    eps: m.cfg.rms_eps_bits,
                },
            );
            let e = run(s, seq![join]);
            let z = one_added(m, s[temp(0).region], s[temp(out).region]);
            &&& e[temp(0).region] == z
            &&& e[temp(1).region] == one_normed(m, z, vector(s, b, BlockVec::PostNorm))
            &&& forall|r: Region|
                r != temp(0).region && r != temp(1).region ==> #[trigger] e[r] == s[r]
        }),
{
}

/// The feed-forward part joins the residual, and the buffers go back.
pub(crate) proof fn lemma_one_end(m: &GpuModel, s: Mem, save: Seq<Op>, out: int)
    requires
        3 <= out <= usize::MAX,
        save.len() == 0 || save == seq![Op::Capture { src: temp(0), len: m.cfg.hidden_size }],
    ensures
        ({
            let h = m.cfg.hidden_size as int;
            let add = Op::Single(SingleCall::Add { residual: temp(0), add: temp(16), n: h as i32 });
            let e = run(run(run(s, seq![add]), save), seq![put32(out, h), put32(16, h)]);
            &&& e[temp(0).region] == one_added(m, s[temp(0).region], s[temp(16).region])
            &&& forall|r: Region|
                r != temp(0).region && r != temp(out).region && r != temp(16).region
                    ==> #[trigger] e[r] == s[r]
        }),
{
    let h = m.cfg.hidden_size as int;
    let add = Op::Single(SingleCall::Add { residual: temp(0), add: temp(16), n: h as i32 });
    let s1 = run(s, seq![add]);
    assert(s1 == exec(s, add));
    assert(run(s1, save) == s1);
}

/// A token's first buffer.
pub(crate) proof fn lemma_one_start(m: &GpuModel, s: Mem)
    ensures
        ({
            let e = run(s, seq![get32(1, m.cfg.hidden_size as int)]);
            forall|r: Region| r != temp(1).region ==> #[trigger] e[r] == s[r]
        }),
{
}

/// A token's last norm, and the buffers that go back.
pub(crate) proof fn lemma_one_finish(m: &GpuModel, s: Mem)
    ensures
        ({
            let h = m.cfg.hidden_size as int;
            let norm = m.one_norm_op(temp(2), temp(0), at(Region::FinalNorm));
            let e = run(s, seq![get32(2, h), norm, put32(0, h), put32(1, h)]);
            &&& e[temp(2).region] == one_normed(m, s[temp(0).region], s[Region::FinalNorm])
            &&& forall|r: Region| !(r is Temp) ==> #[trigger] e[r] == s[r]
        }),
{
    let h = m.cfg.hidden_size as int;
    let norm = m.one_norm_op(temp(2), temp(0), at(Region::FinalNorm));
    let e = run(s, seq![get32(2, h), norm, put32(0, h), put32(1, h)]);
    assert(e == exec(exec(exec(exec(s, get32(2, h)), norm), put32(0, h)), put32(1, h)));
}

/// Logits of one vector: the embedding is this path's output head.
pub proof fn law_one_logits_computes(m: &GpuModel, s: Mem, hidden: Ptr, id: int)
    requires
        0 <= id,
        id + 2 <= usize::MAX,
        hidden.region matches Region::Temp(i) ==> !(id <= i < id + 3),
    ensures
        run(s, m.one_logits_ops(hidden, id))[temp(id).region] == one_times(
            WeightId::Embed,
            read(s, hidden),
            m.cfg.hidden_size as int,
            m.cfg.vocab_size as int,
        ),
{
    let (h, v) = (m.cfg.hidden_size as int, m.cfg.vocab_size as int);
    let s1 = run(s, seq![get32(id, v)]);
    assert(read(s1, hidden) == read(s, hidden));
    lemma_product(s1, WeightId::Embed, hidden, temp(id), h, v, id + 1);
}

/// The greedy token of one vector of logits is the best over the blocks of the best of every block.
pub proof fn law_one_argmax_computes(m: &GpuModel, s: Mem, logits: Ptr, t: int)
    requires
        0 <= t,
        t + 2 <= usize::MAX,
        logits.region != temp(t).region,
        logits.region != temp(t + 1).region,
        logits.region != temp(t + 2).region,
    ensures
        ({
            let e = run(s, m.one_argmax_ops(logits, t));
            let v = m.cfg.vocab_size as int;
            let a = args1(read(s, logits));
            e[temp(t + 2).region] == one(
                SingleFun::Best { blocks: ((v + 1023) / 1024) as i32 },
                args2(
                    one(SingleFun::BlockBest { vocab: v as i32 }, a),
                    one(SingleFun::BlockTop { vocab: v as i32 }, a),
                ),
            )
        }),
{
}

} // verus!
