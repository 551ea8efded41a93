//! Layers and the trunk compute the model: what the residual and the caches hold.
use vstd::prelude::*;

use crate::config::LayerType;
use crate::gpu::attn::ATTN_IDS;
use crate::gpu::flow::{apart, kept_but, law_attention_computes, lemma_gemm, loose};
use crate::gpu::flow_blocks::{
    gdn_apart, law_ffn_computes, law_linear_run_computes, law_linear_step_computes, lemma_gdn_sizes,
    tables_apart,
};
use crate::gpu::forward::{Frame, Pass};
use crate::gpu::machine::{exec, group_run, lemma_run_short, read, run, Mem, Val};
use crate::gpu::meaning::{
    half_layer, layer, logits_of, mixed, normed, remembered, trunk, vector, Columns, Way,
};
use crate::gpu::model::GpuModel;
use crate::gpu::program::{at, get16, put16, temp, Block, BlockVec, Call, Op, Ptr, Region, Scratch};
use crate::seqs::flat;

verus! {

broadcast use {group_run, lemma_run_short};

// ---- the frame as values ----

/// How the pass of a frame meets the caches, as values.
pub open spec fn way(m: &GpuModel, s: Mem, f: Frame) -> Way {
    let buf = |x: Scratch| s[Region::Scratch(x)];
    match f.pass {
        Pass::Decode { pos, slots, max_pc } => Way::Step {
            pos: read(s, pos),
            lanes: read(s, slots),
            max_pc: max_pc as int,
        },
        Pass::Prefill { slot, pos } => Way::Prompt { slot: slot as int, pos: pos as int },
        Pass::Verify { pos, ckpt, forest } => Way::Verify {
            pos: buf(Scratch::Pos),
            logical: buf(Scratch::Rope),
            lanes: buf(Scratch::Slot),
            path: buf(Scratch::Path),
            starts: if forest {
                buf(Scratch::PStart)
            } else {
                Val::Absent
            },
            winsrc: buf(Scratch::WinSrc),
            parents: buf(Scratch::Parent),
            max_pc: pos + f.n,
            ckpt: match ckpt {
                Some(k) => Some(k as int),
                None => None,
            },
        },
    }
}

/// The columns of a frame, as values.
pub open spec fn columns(m: &GpuModel, s: Mem, f: Frame, segs: Seq<(usize, usize)>) -> Columns {
    Columns {
        way: way(m, s, f),
        cos: read(s, f.cos),
        sin: read(s, f.sin),
        stride: f.kv_stride as int,
        n: f.n as int,
        segs,
    }
}

/// Memory that a layer may change besides its caches.
pub open spec fn layer_scratch(f: Frame, r: Region) -> bool {
    loose(r, f.first as int, f.first + 33) || r == temp(f.residual as int).region || r == temp(
        f.normed as int,
    ).region
}

/// Memory in which the layers remember.
pub open spec fn remembers(r: Region) -> bool {
    r is KCache || r is VCache || r is ConvState || r is SState
}

/// What the layers read of a frame lies outside what they change.
pub open spec fn frame_apart(f: Frame) -> bool {
    let free = |p: Ptr| !layer_scratch(f, p.region) && !remembers(p.region);
    &&& f.residual < f.first
    &&& f.normed < f.first
    &&& f.residual != f.normed
    &&& free(f.cos)
    &&& free(f.sin)
    &&& f.pass matches Pass::Decode { pos, slots, .. } ==> free(pos) && free(slots)
}

/// The two regions in which layer `li` remembers.
pub open spec fn cells(m: &GpuModel, li: int) -> (Region, Region) {
    match m.layers@[li].layer_type {
        LayerType::FullAttention => (Region::KCache(li as usize), Region::VCache(li as usize)),
        LayerType::LinearAttention => (Region::ConvState(li as usize), Region::SState(li as usize)),
    }
}

// ---- one layer ----

/// The mixer of layer `li` leaves what the model says.
proof fn lemma_mixer(m: &GpuModel, s: Mem, f: Frame, segs: Seq<(usize, usize)>, li: int)
    requires
        m.frame_ok(f),
        frame_apart(f),
        0 <= li < m.layers@.len(),
        m.layers@.len() <= usize::MAX,
        f.n >= 1,
        m.cfg.hidden_size >= 1,
    ensures
        ({
            let e = run(s, m.mixer_ops(f, segs, li));
            let a = mixed(m, s, columns(m, s, f, segs), li, s[temp(f.normed as int).region]);
            let (x, y) = cells(m, li);
            &&& kept_but(s, e, f.first as int, f.first + 14, x, y)
            &&& e[temp(m.mixer_out(f, li)).region] == a.out
            &&& e[x] == a.first
            &&& e[y] == a.second
        }),
{
    reveal(mixed);
    assert(m.layer_ok(f, li));
    lemma_gdn_sizes(m);
    match m.layers@[li].layer_type {
        LayerType::FullAttention => {
            let c = m.attn_call(f, li);
            assert(apart(c));
            law_attention_computes(m, s, c);
        },
        LayerType::LinearAttention => {
            let c = m.gdn_call(f, li);
            assert(gdn_apart(c));
            match f.pass {
                Pass::Decode { .. } => law_linear_step_computes(m, s, c),
                Pass::Prefill { slot, .. } => {
                    let t = m.run_tables(f, li);
                    assert(tables_apart(c, t));
                    law_linear_run_computes(m, s, c, t, segs, slot as int, None);
                },
                Pass::Verify { ckpt, .. } => {
                    let t = m.run_tables(f, li);
                    assert(tables_apart(c, t));
                    let k = match ckpt {
                        Some(k) => Some(k as int),
                        None => None,
                    };
                    law_linear_run_computes(m, s, c, t, segs, 0, k);
                },
            }
        },
    }
}

/// The mixer of a layer looks at the vectors and at what that layer remembers.
pub(crate) proof fn lemma_mixed_ext(m: &GpuModel, a: Mem, b: Mem, p: Columns, li: int, x: Val)
    requires
        forall|r: Region| r is Vector ==> #[trigger] b[r] == a[r],
        b[cells(m, li).0] == a[cells(m, li).0],
        b[cells(m, li).1] == a[cells(m, li).1],
    ensures
        mixed(m, b, p, li, x) == mixed(m, a, p, li, x),
{
    reveal(mixed);
    let blk = Block::Layer(li as usize);
    assert(forall|v: BlockVec| #[trigger] vector(b, blk, v) == vector(a, blk, v));
}

/// One of the first `k` layers remembers in `r`.
pub open spec fn owned_below(m: &GpuModel, r: Region, k: int) -> bool {
    match r {
        Region::KCache(i) | Region::VCache(i) => i < k && m.layers@[i as int].layer_type
            is FullAttention,
        Region::ConvState(i) | Region::SState(i) => i < k && m.layers@[i as int].layer_type
            is LinearAttention,
        _ => false,
    }
}

/// Nothing but scratch and what the first `k` layers remember has changed.
pub open spec fn held(m: &GpuModel, s: Mem, e: Mem, f: Frame, k: int) -> bool {
    forall|r: Region|
        !layer_scratch(f, r) && !owned_below(m, r, k) ==> #[trigger] e[r] == s[r]
}

/// Layer `li` remembers in `e` what it should after columns `x` ran through the model from `s` on.
pub open spec fn settled(m: &GpuModel, s: Mem, e: Mem, p: Columns, x: Val, li: int) -> bool {
    let a = remembered(m, s, p, x, li);
    e[cells(m, li).0] == a.first && e[cells(m, li).1] == a.second
}

/// The norm weights that the columns meet after `k` layers.
pub open spec fn norm_after(m: &GpuModel, s: Mem, k: int) -> Val {
    if k < m.layers@.len() {
        vector(s, Block::Layer(k as usize), BlockVec::InputNorm)
    } else {
        s[Region::FinalNorm]
    }
}

/// `k` layers have run: the residual holds the columns after them, every one of them remembers its part,
/// and with `fuse` the columns are already normed for what follows.
pub open spec fn reached(
    m: &GpuModel,
    s: Mem,
    e: Mem,
    f: Frame,
    segs: Seq<(usize, usize)>,
    fuse: bool,
    x: Val,
    k: int,
) -> bool {
    let p = columns(m, s, f, segs);
    let y = trunk(m, s, p, x, k as nat);
    &&& held(m, s, e, f, k)
    &&& forall|li: int| 0 <= li < k ==> #[trigger] settled(m, s, e, p, x, li)
    &&& e[temp(f.residual as int).region] == y
    &&& fuse ==> e[temp(f.normed as int).region] == normed(
        m,
        y,
        norm_after(m, s, k),
        f.n as int,
    )
}

/// One more layer.
#[verifier::rlimit(40)]
proof fn lemma_layer(
    m: &GpuModel,
    s0: Mem,
    s: Mem,
    f: Frame,
    segs: Seq<(usize, usize)>,
    fuse: bool,
    x: Val,
    li: int,
)
    requires
        m.frame_ok(f),
        frame_apart(f),
        0 <= li < m.layers@.len(),
        m.layers@.len() <= usize::MAX,
        f.n >= 1,
        m.cfg.hidden_size >= 1,
        reached(m, s0, s, f, segs, fuse, x, li),
    ensures
        reached(m, s0, run(s, m.layer_ops(f, segs, fuse, li)), f, segs, fuse, x, li + 1),
{
    reveal(layer);
    assert(m.layer_ok(f, li));
    let p = columns(m, s0, f, segs);
    let n = f.n as int;
    let b = Block::Layer(li as usize);
    let ffn = m.layers@[li].mlp;
    let t = f.first + ATTN_IDS;
    let out = m.mixer_out(f, li);
    let fed_at = GpuModel::ffn_out(ffn, t);
    let hn = m.cfg.hidden_size * f.n;
    let y = trunk(m, s0, p, x, li as nat);
    let nx = normed(m, y, vector(s0, b, BlockVec::InputNorm), n);
    let (res, nrm) = (temp(f.residual as int).region, temp(f.normed as int).region);
    assert(columns(m, s, f, segs) == p);
    let pre = if fuse {
        Seq::<Op>::empty()
    } else {
        seq![
            m.norm_op(
                f.normed as int,
                f.residual as int,
                at(Region::Vector(b, BlockVec::InputNorm)),
                f.n,
            ),
        ]
    };
    let s1 = run(s, pre);
    assert(s1[nrm] == nx);
    assert(s1[res] == y);
    assert(forall|r: Region| r != nrm ==> #[trigger] s1[r] == s[r]);
    assert(columns(m, s1, f, segs) == p);
    lemma_mixer(m, s1, f, segs, li);
    let s2 = run(s1, m.mixer_ops(f, segs, li));
    let (u, v) = cells(m, li);
    lemma_mixed_ext(m, s0, s1, p, li, nx);
    let a = mixed(m, s0, p, li, nx);
    assert(s2[temp(out).region] == a.out);
    assert(s2[res] == y);
    let join = m.fused_op(f, out, at(Region::Vector(b, BlockVec::PostNorm)));
    let s3 = run(s2, seq![join]);
    let z = half_layer(m, s0, p, li, y);
    assert(s3 == exec(s2, join));
    assert(s3[res] == z);
    assert(s3[nrm] == normed(m, z, vector(s0, b, BlockVec::PostNorm), n));
    law_ffn_computes(m, s3, b, ffn, temp(f.normed as int), n, m.tp.world == 2, t);
    let s4 = run(s3, m.ffn_ops(b, ffn, temp(f.normed as int), n, m.tp.world == 2, t));
    assert(s4[res] == z);
    let add = if fuse {
        m.fused_op(f, fed_at, m.next_norm(li))
    } else {
        Op::Launch(
            Call::AddResidual {
                residual: temp(f.residual as int),
                add: temp(fed_at),
                tot: hn as i32,
            },
        )
    };
    let s5 = exec(s4, add);
    let e = exec(exec(s5, put16(out, hn)), put16(fed_at, hn));
    assert(run(s4, seq![add, put16(out, hn), put16(fed_at, hn)]) == e);
    assert(run(s, m.layer_ops(f, segs, fuse, li)) == e);
    let w = layer(m, s0, p, li, y);
    assert(s5[res] == w);
    assert(trunk(m, s0, p, x, (li + 1) as nat) == w);
    assert(e[res] == w);
    assert(e[u] == a.first && e[v] == a.second);
    assert(settled(m, s0, e, p, x, li));
    assert forall|j: int| 0 <= j < li + 1 implies #[trigger] settled(m, s0, e, p, x, j) by {
        if j < li {
            assert(settled(m, s0, s, p, x, j));
            assert(e[cells(m, j).0] == s[cells(m, j).0]);
            assert(e[cells(m, j).1] == s[cells(m, j).1]);
        }
    }
    assert(held(m, s0, e, f, li + 1));
}

/// The first `k` layers.
proof fn lemma_layers(
    m: &GpuModel,
    s: Mem,
    f: Frame,
    segs: Seq<(usize, usize)>,
    fuse: bool,
    x: Val,
    k: nat,
)
    requires
        m.frame_ok(f),
        frame_apart(f),
        k <= m.layers@.len(),
        m.layers@.len() <= usize::MAX,
        f.n >= 1,
        m.cfg.hidden_size >= 1,
        s[temp(f.residual as int).region] == x,
        fuse ==> s[temp(f.normed as int).region] == normed(
            m,
            x,
            norm_after(m, s, 0),
            f.n as int,
        ),
    ensures
        reached(
            m,
            s,
            run(s, flat(k, |li: int| m.layer_ops(f, segs, fuse, li))),
            f,
            segs,
            fuse,
            x,
            k as int,
        ),
    decreases k,
{
    let row = |li: int| m.layer_ops(f, segs, fuse, li);
    if k > 0 {
        lemma_layers(m, s, f, segs, fuse, x, (k - 1) as nat);
        let e = run(s, flat((k - 1) as nat, row));
        lemma_layer(m, s, e, f, segs, fuse, x, k - 1);
        assert(flat(k, row) == flat((k - 1) as nat, row) + row(k - 1));
    }
}

/// The layers of a pass compute the model's trunk, and every layer remembers what it should. Nothing else
/// but scratch changes.
pub proof fn law_layers_compute(
    m: &GpuModel,
    s: Mem,
    f: Frame,
    segs: Seq<(usize, usize)>,
    fuse: bool,
)
    requires
        m.frame_ok(f),
        frame_apart(f),
        m.layers@.len() <= usize::MAX,
        f.n >= 1,
        m.cfg.hidden_size >= 1,
        fuse ==> s[temp(f.normed as int).region] == normed(
            m,
            s[temp(f.residual as int).region],
            norm_after(m, s, 0),
            f.n as int,
        ),
    ensures
        reached(
            m,
            s,
            run(s, m.layers_ops(f, segs, fuse)),
            f,
            segs,
            fuse,
            s[temp(f.residual as int).region],
            m.layers@.len() as int,
        ),
{
    lemma_layers(m, s, f, segs, fuse, s[temp(f.residual as int).region], m.layers@.len());
}

/// The output head's program computes the logits.
pub(crate) proof fn lemma_logits(m: &GpuModel, s: Mem, hidden: Ptr, n: int, id: int)
    requires
        0 <= id <= usize::MAX,
        hidden.region != temp(id).region,
        hidden.region != Region::Scratch(Scratch::Dequant),
    ensures
        ({
            let e = run(s, m.logits_ops(hidden, n, id));
            &&& e[temp(id).region] == logits_of(m, read(s, hidden), n)
            &&& forall|r: Region|
                r != temp(id).region && r != Region::Scratch(Scratch::Dequant)
                    ==> #[trigger] e[r] == s[r]
        }),
{
    let v = m.cfg.vocab_size as int;
    let s1 = run(s, seq![get16(id, v * n)]);
    assert(read(s1, hidden) == read(s, hidden));
    lemma_gemm(
        s1,
        m.head().0,
        m.head().1,
        hidden,
        temp(id),
        m.cfg.hidden_size as int,
        v,
        n,
    );
}

} // verus!
