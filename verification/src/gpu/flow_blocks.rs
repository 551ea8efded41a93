//! Linear attention and feed-forward blocks compute the model: what their buffers hold.
use vstd::prelude::*;

use crate::gpu::ffn::FFN_IDS;
use crate::gpu::flow::{
    kept, kept_but, lemma_gemm, lemma_gemm_binv, lemma_reduce, lemma_site, loose,
};
use crate::gpu::gdn::{GdnCall, RunTables, GDN_IDS};
use crate::gpu::gemm::{gemm_binv_ops, gemm_ops, shifted};
use crate::gpu::machine::{
    args1, exec, group_run, lemma_run_short, made, read, run, run_upto, Fun, Mem,
};
use crate::gpu::meaning::{
    carried, dense_out, experts_out, fed, first_head, gated_mlp, gdn_out, gdn_projected, gdn_run,
    gdn_sizes, gdn_step, halved, moe_out, share, times, vector,
};
use crate::gpu::model::{Ffn, GdnIn, GpuMlp, GpuModel, GpuMoe};
use crate::gpu::program::{
    at, get16, put16, temp, Block, BlockVec, Call, Op, Proj, Ptr, Region, Scratch, WeightId,
};
use crate::gpu::topo::MAX_VERIFY;

verus! {

broadcast use {group_run, lemma_run_short};

// ---- linear attention ----

/// What a linear-attention call reads lies outside what it changes.
pub open spec fn gdn_apart(c: GdnCall) -> bool {
    let (lo, hi) = (c.first as int, c.first + GDN_IDS);
    let free = |p: Ptr|
        !loose(p.region, lo, hi) && p.region != c.conv.region && p.region != c.state.region;
    &&& free(c.x)
    &&& free(c.slots)
    &&& c.conv.region is ConvState
    &&& c.state.region is SState
}

/// The sizes of a linear-attention block are the model's.
pub proof fn lemma_gdn_sizes(m: &GpuModel)
    ensures
        ({
            let z = gdn_sizes(m);
            &&& m.conv_dim() == z.channels
            &&& m.value_dim() == z.width
            &&& m.lin_v_heads() == z.nv
            &&& m.lin_k_heads() == z.nk
            &&& m.gdn_fused_m() == z.channels + z.width + 2 * m.cfg.lin_num_v_heads
            &&& m.head0() == first_head(m)
            &&& m.mixers_sharded() == halved(m)
            &&& m.conv_bytes() == z.channels * m.cfg.conv_kernel * 4
            &&& m.state_bytes() == z.nv * z.kd * z.vd * 4
        }),
{
}

proof fn lemma_gdn_project(m: &GpuModel, s: Mem, c: GdnCall)
    requires
        c.first + GDN_IDS <= usize::MAX,
        gdn_apart(c),
    ensures
        ({
            let e = run(s, m.gdn_project_ops(c));
            let (t, n) = (c.first as int, c.n as int);
            let x = read(s, c.x);
            &&& kept(s, e, t, t + 10)
            &&& e[temp(t).region] == gdn_projected(m, c.block, c.la, x, n, 0)
            &&& e[temp(t + 1).region] == gdn_projected(m, c.block, c.la, x, n, 1)
            &&& e[temp(t + 2).region] == gdn_projected(m, c.block, c.la, x, n, 2)
            &&& e[temp(t + 3).region] == gdn_projected(m, c.block, c.la, x, n, 3)
        }),
{
    lemma_gdn_sizes(m);
    let (t, n) = (c.first as int, c.n as int);
    let h = m.cfg.hidden_size as int;
    let (cd, vdim, nh, mm) = (m.conv_dim(), m.value_dim(), m.lin_v_heads(), m.gdn_fused_m());
    let w = |p: Proj| WeightId::Of(c.block, p);
    let s1 = run(
        s,
        seq![get16(t, cd * n), get16(t + 1, vdim * n), get16(t + 2, nh * n), get16(t + 3, nh * n)],
    );
    assert(kept(s, s1, t, t + 10));
    assert(read(s1, c.x) == read(s, c.x));
    match c.la.in_proj {
        GdnIn::Fused(f) => {
            let s2 = run(s1, seq![get16(t + 4, mm * n)]);
            assert(kept(s, s2, t, t + 10));
            assert(read(s2, c.x) == read(s, c.x));
            lemma_gemm(s2, f, w(Proj::GdnIn), c.x, temp(t + 4), h, mm, n);
            let s3 = run(s2, gemm_ops(f, w(Proj::GdnIn), c.x, temp(t + 4), h, mm, n));
            assert(kept(s, s3, t, t + 10));
        },
        GdnIn::Split { qkv, z, b, a } => {
            lemma_gemm(s1, qkv, w(Proj::GdnQkv), c.x, temp(t), h, cd, n);
            let s2 = run(s1, gemm_ops(qkv, w(Proj::GdnQkv), c.x, temp(t), h, cd, n));
            assert(kept(s, s2, t, t + 10));
            assert(read(s2, c.x) == read(s, c.x));
            lemma_gemm(s2, z, w(Proj::GdnZ), c.x, temp(t + 1), h, vdim, n);
            let s3 = run(s2, gemm_ops(z, w(Proj::GdnZ), c.x, temp(t + 1), h, vdim, n));
            assert(kept(s, s3, t, t + 10));
            assert(read(s3, c.x) == read(s, c.x));
            lemma_gemm(s3, b, w(Proj::GdnB), c.x, temp(t + 2), h, nh, n);
            let s4 = run(s3, gemm_ops(b, w(Proj::GdnB), c.x, temp(t + 2), h, nh, n));
            assert(kept(s, s4, t, t + 10));
            assert(read(s4, c.x) == read(s, c.x));
            lemma_gemm(s4, a, w(Proj::GdnA), c.x, temp(t + 3), h, nh, n);
            let s5 = run(s4, gemm_ops(a, w(Proj::GdnA), c.x, temp(t + 3), h, nh, n));
            assert(kept(s, s5, t, t + 10));
        },
    }
}

proof fn lemma_gdn_out(m: &GpuModel, s: Mem, c: GdnCall, qkv: int, core: int)
    requires
        c.first + GDN_IDS <= usize::MAX,
        qkv == c.first || qkv == c.first + 9,
        m.mixers_sharded() ==> m.reduce_fits(m.cfg.hidden_size * c.n),
        c.n >= 1,
        m.cfg.hidden_size >= 1,
    ensures
        ({
            let e = run(s, m.gdn_out_ops(c, qkv, core));
            let t = c.first as int;
            &&& kept(s, e, t, t + 10)
            &&& e[temp(t + 7).region] == gdn_out(
                m,
                s,
                c.block,
                s[temp(t + 5).region],
                s[temp(t + 1).region],
                c.n as int,
            )
        }),
{
    lemma_gdn_sizes(m);
    let (t, n) = (c.first as int, c.n as int);
    let h = m.cfg.hidden_size as int;
    let (cd, vdim, nh) = (m.conv_dim(), m.value_dim(), m.lin_v_heads());
    let o = WeightId::Of(c.block, Proj::GdnOut);
    assert(h * n >= 1) by (nonlinear_arith)
        requires
            h >= 1,
            n >= 1,
    ;
    let s1 = run(
        s,
        seq![
            get16(t + 6, vdim * n),
            Op::Launch(
                Call::RmsnormGated {
                    out: temp(t + 6),
                    x: temp(t + 5),
                    z: temp(t + 1),
                    w: at(Region::Vector(c.block, BlockVec::GdnNorm)),
                    vd: m.cfg.lin_v_dim as i32,
                    nh: nh as i32,
                    n: n as i32,
                    eps: m.cfg.rms_eps_bits,
                },
            ),
            get16(t + 7, h * n),
        ],
    );
    assert(kept(s, s1, t, t + 10));
    let s2 = if m.mixers_sharded() {
        lemma_site(m, s1, c.la.out_proj, o, temp(t + 6), t + 7, vdim, h, n, t + 8);
        run(
            s1,
            m.reduce_site_ops(c.la.out_proj, o, temp(t + 6), temp(t + 7), vdim, h, n, t + 8),
        )
    } else {
        lemma_gemm(s1, c.la.out_proj, o, temp(t + 6), temp(t + 7), vdim, h, n);
        run(s1, gemm_ops(c.la.out_proj, o, temp(t + 6), temp(t + 7), vdim, h, n))
    };
    assert(kept(s1, s2, t, t + 10));
    let e = run(
        s2,
        seq![
            put16(qkv, cd * n),
            put16(t + 1, vdim * n),
            put16(t + 2, nh * n),
            put16(t + 3, nh * n),
            put16(t + 5, core),
            put16(t + 6, vdim * n),
        ],
    );
    assert(run(s, m.gdn_out_ops(c, qkv, core)) == e);
    assert(kept(s2, e, t, t + 10));
    assert(e[temp(t + 7).region] == s2[temp(t + 7).region]);
}

/// A step of linear attention leaves what the model says: its output, the windows and the state.
pub proof fn law_linear_step_computes(m: &GpuModel, s: Mem, c: GdnCall)
    requires
        m.gdn_ok(c),
        gdn_apart(c),
        c.conv.offset == 0,
        c.state.offset == 0,
        c.n >= 1,
        m.cfg.hidden_size >= 1,
    ensures
        ({
            let e = run(s, m.linear_attn_ops(c));
            let a = gdn_step(
                m,
                s,
                c.block,
                c.la,
                read(s, c.x),
                s[c.conv.region],
                s[c.state.region],
                read(s, c.slots),
                c.n as int,
            );
            &&& kept_but(s, e, c.first as int, c.first + 10, c.conv.region, c.state.region)
            &&& e[temp(c.first + 7).region] == a.out
            &&& e[c.conv.region] == a.conv
            &&& e[c.state.region] == a.state
        }),
{
    lemma_gdn_sizes(m);
    let (t, n) = (c.first as int, c.n as int);
    let (nh, nk) = m.launch_heads();
    let vd = m.cfg.lin_v_dim as int;
    let vec = |v: BlockVec| at(Region::Vector(c.block, v));
    lemma_gdn_project(m, s, c);
    let s1 = run(s, m.gdn_project_ops(c));
    let conv = Op::Launch(
        Call::Conv1d {
            qkv: temp(t),
            state: c.conv,
            w: vec(BlockVec::Conv1d),
            conv_dim: m.conv_dim() as i32,
            ck: m.cfg.conv_kernel as i32,
            n: n as i32,
            slots: c.slots,
        },
    );
    let delta = Op::Launch(
        Call::DeltaStep {
            core: temp(t + 5),
            qkv: temp(t),
            state: c.state,
            b: temp(t + 2),
            a: temp(t + 3),
            nh: nh as i32,
            nk: nk as i32,
            kd: m.cfg.lin_k_dim as i32,
            vd: vd as i32,
            a_log: vec(BlockVec::ALog),
            dt_bias: vec(BlockVec::DtBias),
            slots: c.slots,
            visits: if m.head_proof_on() {
                at(Region::Scratch(Scratch::HeadVisits))
            } else {
                at(Region::Null)
            },
            n: n as i32,
        },
    );
    let ops = seq![conv, get16(t + 5, nh * vd * n), delta];
    let s2 = exec(s1, conv);
    assert(kept_but(s1, s2, t, t + 10, c.conv.region, c.state.region));
    assert(read(s2, c.slots) == read(s, c.slots));
    let s3 = exec(s2, get16(t + 5, nh * vd * n));
    assert(kept(s2, s3, t, t + 10));
    let s4 = exec(s3, delta);
    assert(run(s1, ops) == s4);
    assert(kept_but(s3, s4, t, t + 10, c.conv.region, c.state.region));
    assert(s4[c.conv.region] == s2[c.conv.region]);
    assert(s4[temp(t + 1).region] == s1[temp(t + 1).region]);
    lemma_gdn_out(m, s4, c, t, nh * vd * n);
    assert(run(s, m.linear_attn_ops(c)) == run(s4, m.gdn_out_ops(c, t, nh * vd * n)));
    assert(vector(s4, c.block, BlockVec::GdnNorm) == vector(s, c.block, BlockVec::GdnNorm));
}

/// The windows after the first `k` runs of columns.
proof fn lemma_carry(m: &GpuModel, s: Mem, c: GdnCall, segs: Seq<(usize, usize)>, k: nat)
    requires
        k <= segs.len(),
        gdn_apart(c),
        c.first + GDN_IDS <= usize::MAX,
    ensures
        ({
            let e = run_upto(s, segs.map_values(|g: (usize, usize)| m.carry_op(c, g)), k as int);
            &&& e[c.conv.region] == carried(
                m,
                s[c.conv.region],
                c.conv.offset,
                s[temp(c.first as int).region],
                read(s, c.slots),
                segs,
                k,
            )
            &&& forall|r: Region| r != c.conv.region ==> #[trigger] e[r] == s[r]
        }),
    decreases k,
{
    let ops = segs.map_values(|g: (usize, usize)| m.carry_op(c, g));
    if k > 0 {
        lemma_gdn_sizes(m);
        let j = (k - 1) as nat;
        lemma_carry(m, s, c, segs, j);
        let mid = run_upto(s, ops, j as int);
        assert(run_upto(s, ops, k as int) == exec(mid, ops[j as int]));
        assert(ops[j as int] == m.carry_op(c, segs[j as int]));
        assert(read(mid, c.slots) == read(s, c.slots));
    }
}

/// The tables of a run lie outside what it changes, and its checkpoints in its own state.
pub open spec fn tables_apart(c: GdnCall, tab: RunTables) -> bool {
    let (lo, hi) = (c.first as int, c.first + GDN_IDS);
    let free = |p: Ptr|
        !loose(p.region, lo, hi) && p.region != c.conv.region && p.region != c.state.region;
    &&& free(tab.winsrc)
    &&& free(tab.parent)
    &&& tab.mid_conv.region is Null || tab.mid_conv.region == c.conv.region
    &&& tab.mid_state.region is Null || tab.mid_state.region == c.state.region
}

/// A run of linear attention leaves what the model says: its output, the windows and the states.
///
/// `slot` is the lane whose state it works on, `ckpt` the first lane that keeps a column's state.
pub proof fn law_linear_run_computes(
    m: &GpuModel,
    s: Mem,
    c: GdnCall,
    tab: RunTables,
    segs: Seq<(usize, usize)>,
    slot: int,
    ckpt: Option<int>,
)
    requires
        m.gdn_ok(c),
        gdn_apart(c),
        tables_apart(c, tab),
        c.conv.offset == (slot * m.conv_bytes()) as u64,
        c.state.offset == (slot * m.state_bytes()) as u64,
        match ckpt {
            Some(k) => {
                &&& tab.mid_conv == shifted(at(c.conv.region), k * m.conv_bytes())
                &&& tab.mid_state == shifted(at(c.state.region), k * m.state_bytes())
            },
            None => tab.mid_conv.region is Null && tab.mid_state.region is Null,
        },
        c.n >= 1,
        m.cfg.hidden_size >= 1,
    ensures
        ({
            let e = run(s, m.gdn_run_ops(c, tab, segs));
            let a = gdn_run(
                m,
                s,
                c.block,
                c.la,
                read(s, c.x),
                s[c.conv.region],
                s[c.state.region],
                read(s, c.slots),
                read(s, tab.winsrc),
                read(s, tab.parent),
                slot,
                ckpt,
                segs,
                c.n as int,
            );
            &&& kept_but(s, e, c.first as int, c.first + 10, c.conv.region, c.state.region)
            &&& e[temp(c.first + 7).region] == a.out
            &&& e[c.conv.region] == a.conv
            &&& e[c.state.region] == a.state
        }),
{
    lemma_gdn_sizes(m);
    let (t, n) = (c.first as int, c.n as int);
    let (nh, nk) = (m.lin_v_heads(), m.lin_k_heads());
    let (cd, vd) = (m.conv_dim(), m.cfg.lin_v_dim as int);
    let vec = |v: BlockVec| at(Region::Vector(c.block, v));
    lemma_gdn_project(m, s, c);
    let s1 = run(s, m.gdn_project_ops(c));
    let conv = Op::Launch(
        Call::Conv1dPrefill {
            out: temp(t + 9),
            x: temp(t),
            state: c.conv,
            w: vec(BlockVec::Conv1d),
            conv_dim: cd as i32,
            ck: m.cfg.conv_kernel as i32,
            n: n as i32,
            mid: tab.mid_conv,
            winsrc: tab.winsrc,
            slots: c.slots,
        },
    );
    let s2 = exec(exec(s1, get16(t + 9, cd * n)), conv);
    assert(run(s1, seq![get16(t + 9, cd * n), conv]) == s2);
    assert(kept_but(s1, s2, t, t + 10, c.conv.region, c.state.region));
    assert(s2[c.state.region] == s[c.state.region]);
    assert(s2[temp(t).region] == s1[temp(t).region]);
    lemma_carry(m, s2, c, segs, segs.len());
    let carry = segs.map_values(|g: (usize, usize)| m.carry_op(c, g));
    let s3 = run(s2, carry);
    assert(s3 == run_upto(s2, carry, segs.len() as int));
    assert(kept_but(s2, s3, t, t + 10, c.conv.region, c.state.region));
    let delta = Op::Launch(
        Call::DeltaPrefill {
            core: temp(t + 5),
            qkv: temp(t + 9),
            state: c.state,
            b: temp(t + 2),
            a: temp(t + 3),
            nh: nh as i32,
            kd: m.cfg.lin_k_dim as i32,
            vd: vd as i32,
            a_log: vec(BlockVec::ALog),
            dt_bias: vec(BlockVec::DtBias),
            n: n as i32,
            nk: nk as i32,
            mid: tab.mid_state,
            parent: tab.parent,
        },
    );
    let s4 = exec(exec(s3, put16(t, cd * n)), get16(t + 5, nh * vd * n));
    assert(kept(s3, s4, t, t + 10));
    let s5 = exec(s4, delta);
    assert(run(s3, seq![put16(t, cd * n), get16(t + 5, nh * vd * n), delta]) == s5);
    assert(kept_but(s4, s5, t, t + 10, c.conv.region, c.state.region));
    assert(s5[c.conv.region] == s3[c.conv.region]);
    assert(s5[temp(t + 1).region] == s1[temp(t + 1).region]);
    lemma_gdn_out(m, s5, c, t + 9, nh * vd * n);
    assert(run(s, m.gdn_run_ops(c, tab, segs)) == run(
        s5,
        m.gdn_out_ops(c, t + 9, nh * vd * n),
    ));
    assert(vector(s5, c.block, BlockVec::GdnNorm) == vector(s, c.block, BlockVec::GdnNorm));
}

// ---- feed-forward ----

/// Gate and up projections of `x`, and their product, in buffer `g`.
proof fn lemma_gated(
    s: Mem,
    wg: crate::gpu::model::W,
    wu: crate::gpu::model::W,
    gate: WeightId,
    up: WeightId,
    x: Ptr,
    g: int,
    u: int,
    h: int,
    width: int,
    n: int,
)
    requires
        0 <= g <= usize::MAX,
        0 <= u <= usize::MAX,
        g != u,
        x.region != temp(g).region,
        x.region != temp(u).region,
        x.region != Region::Scratch(Scratch::Dequant),
    ensures
        ({
            let e = run(
                s,
                seq![get16(g, width * n), get16(u, width * n)] + gemm_ops(
                    wg,
                    gate,
                    x,
                    temp(g),
                    h,
                    width,
                    n,
                ) + gemm_ops(wu, up, x, temp(u), h, width, n),
            );
            &&& e[temp(g).region] == times(gate, read(s, x), h, width, n)
            &&& e[temp(u).region] == times(up, read(s, x), h, width, n)
            &&& forall|r: Region|
                r != temp(g).region && r != temp(u).region && r != Region::Scratch(Scratch::Dequant)
                    ==> #[trigger] e[r] == s[r]
        }),
{
    let s1 = run(s, seq![get16(g, width * n), get16(u, width * n)]);
    assert(read(s1, x) == read(s, x));
    lemma_gemm(s1, wg, gate, x, temp(g), h, width, n);
    let s2 = run(s1, gemm_ops(wg, gate, x, temp(g), h, width, n));
    assert(read(s2, x) == read(s, x));
    lemma_gemm(s2, wu, up, x, temp(u), h, width, n);
}

/// A dense feed-forward block leaves what the model says.
pub proof fn law_mlp_computes(
    m: &GpuModel,
    s: Mem,
    b: Block,
    mlp: GpuMlp,
    x: Ptr,
    n: int,
    sharded: bool,
    t: int,
)
    requires
        m.mlp_ok(mlp, n, sharded),
        0 <= t,
        t + FFN_IDS <= usize::MAX,
        !loose(x.region, t, t + 19),
        n >= 1,
        m.cfg.hidden_size >= 1,
    ensures
        ({
            let e = run(s, m.mlp_ops(b, mlp, x, n, sharded, t));
            &&& kept(s, e, t, t + 19)
            &&& e[temp(t + 2).region] == dense_out(m, b, read(s, x), n, sharded)
        }),
{
    let (h, im) = (m.cfg.hidden_size as int, m.mlp_width(sharded));
    assert(im == share(m.cfg.intermediate_size, sharded));
    assert(h * n >= 1) by (nonlinear_arith)
        requires
            h >= 1,
            n >= 1,
    ;
    let w = |p: Proj| WeightId::Of(b, p);
    let head = seq![get16(t, im * n), get16(t + 1, im * n)] + gemm_ops(
        mlp.gate,
        w(Proj::Gate),
        x,
        temp(t),
        h,
        im,
        n,
    ) + gemm_ops(mlp.up, w(Proj::Up), x, temp(t + 1), h, im, n);
    lemma_gated(s, mlp.gate, mlp.up, w(Proj::Gate), w(Proj::Up), x, t, t + 1, h, im, n);
    let s1 = run(s, head);
    let act = Op::Launch(
        Call::SiluMul { gate: temp(t), up: temp(t + 1), tot: (im * n) as i32 },
    );
    let s2 = run(s1, seq![act, get16(t + 2, h * n)]);
    assert(s2 == exec(exec(s1, act), get16(t + 2, h * n)));
    assert(kept(s, s2, t, t + 19));
    assert(s2[temp(t).region] == gated_mlp(w(Proj::Gate), w(Proj::Up), read(s, x), h, im, n));
    let s3 = if sharded {
        lemma_site(m, s2, mlp.down, w(Proj::Down), temp(t), t + 2, im, h, n, t + 3);
        run(
            s2,
            m.reduce_site_ops(mlp.down, w(Proj::Down), temp(t), temp(t + 2), im, h, n, t + 3),
        )
    } else {
        lemma_gemm(s2, mlp.down, w(Proj::Down), temp(t), temp(t + 2), im, h, n);
        run(s2, gemm_ops(mlp.down, w(Proj::Down), temp(t), temp(t + 2), im, h, n))
    };
    assert(kept(s, s3, t, t + 19));
    let e = run(s3, seq![put16(t, im * n), put16(t + 1, im * n)]);
    assert(run(s, m.mlp_ops(b, mlp, x, n, sharded, t)) == e);
}

/// The experts' sum in buffer `t + 1`.
proof fn lemma_experts(m: &GpuModel, s: Mem, b: Block, moe: GpuMoe, x: Ptr, n: int, t: int)
    requires
        m.moe_ok(moe, n),
        0 <= t,
        t + FFN_IDS <= usize::MAX,
        !loose(x.region, t, t + 19),
        n >= 1,
    ensures
        ({
            let e = run(s, m.route_ops(b, moe, x, n, t) + m.expert_ops(b, moe, x, n, t));
            &&& kept(s, e, t, t + 19)
            &&& e[temp(t + 1).region] == experts_out(m, b, moe, read(s, x), n)
        }),
{
    let c = m.cfg;
    let (h, ne, k) = (c.hidden_size as int, c.num_experts as int, c.num_experts_per_tok as int);
    let mi = c.moe_intermediate_size as int;
    let (ids, wts) = GpuModel::route_ptrs(n, t);
    let router = WeightId::Of(b, Proj::Router);
    let s1 = run(s, seq![get16(t, ne * n)]);
    assert(kept(s, s1, t, t + 19));
    assert(read(s1, x) == read(s, x));
    lemma_gemm_binv(s1, moe.router, router, x, temp(t), h, ne, n);
    let s2 = run(s1, gemm_binv_ops(moe.router, router, x, temp(t), h, ne, n));
    assert(kept(s, s2, t, t + 19));
    let own = if n > MAX_VERIFY {
        seq![
            Op::Alloc { id: (t + 2) as usize, len: (k * n) as usize },
            Op::Alloc { id: (t + 3) as usize, len: (k * n) as usize },
        ]
    } else {
        Seq::<Op>::empty()
    };
    let s3 = run(s2, own);
    assert(kept(s, s3, t, t + 19));
    assert(s3[temp(t).region] == s2[temp(t).region]);
    let top = Op::Launch(
        Call::MoeRouterTopk {
            ids,
            wts,
            logits: temp(t),
            ne: ne as i32,
            k: k as i32,
            n: n as i32,
        },
    );
    let s4 = exec(exec(exec(s3, top), put16(t, ne * n)), get16(t + 1, h * n));
    assert(run(s3, seq![top, put16(t, ne * n), get16(t + 1, h * n)]) == s4);
    assert(run(s, m.route_ops(b, moe, x, n, t)) == s4);
    assert(kept(s, s4, t, t + 19));
    let logits = args1(times(router, read(s, x), h, ne, n));
    let vids = made(Fun::ExpertIds { ne: ne as i32, k: k as i32, n: n as i32 }, logits);
    let vwts = made(Fun::ExpertWeights { ne: ne as i32, k: k as i32, n: n as i32 }, logits);
    assert(read(s4, ids) == vids);
    assert(read(s4, wts) == vwts);
    assert(read(s4, x) == read(s, x));
    assert(m.expert_span(moe) == share(c.num_experts, moe.experts_sharded));
    let ops = m.expert_ops(b, moe, x, n, t);
    let e = run(s4, ops);
    if moe.gate_up is Bf16 {
        assert(e == exec(s4, ops[0]));
    } else if n < 128 {
        let g3 = exec(exec(exec(s4, ops[0]), ops[1]), ops[2]);
        assert(kept(s, g3, t, t + 19));
        assert(read(g3, ids) == vids && read(g3, wts) == vwts && read(g3, x) == read(s, x));
        let g4 = exec(g3, ops[3]);
        assert(read(g4, ids) == vids && read(g4, wts) == vwts);
        let g5 = exec(g4, ops[4]);
        assert(read(g5, ids) == vids && read(g5, wts) == vwts);
        let g6 = exec(g5, ops[5]);
        assert(read(g6, wts) == vwts);
        let g7 = exec(g6, ops[6]);
        assert(kept(s, g7, t, t + 19));
        assert(e == exec(exec(exec(g7, ops[7]), ops[8]), ops[9]));
    } else {
        let g1 = exec(s4, ops[0]);
        assert(read(g1, ids) == vids);
        let g2 = exec(g1, ops[1]);
        assert(kept(s, g2, t, t + 19));
        let g4 = exec(exec(g2, ops[2]), ops[3]);
        let g5 = exec(g4, ops[4]);
        assert(kept(s, g5, t, t + 19));
        assert(read(g5, ids) == vids && read(g5, wts) == vwts && read(g5, x) == read(s, x));
        assert(e == exec(g5, ops[5]));
    }
}

/// An expert block leaves what the model says.
pub proof fn law_moe_computes(m: &GpuModel, s: Mem, b: Block, moe: GpuMoe, x: Ptr, n: int, t: int)
    requires
        m.moe_ok(moe, n),
        0 <= t,
        t + FFN_IDS <= usize::MAX,
        !loose(x.region, t, t + 19),
        n >= 1,
        m.cfg.hidden_size >= 1,
    ensures
        ({
            let e = run(s, m.moe_ops(b, moe, x, n, t));
            &&& kept(s, e, t, t + 19)
            &&& e[temp(t + 1).region] == moe_out(m, b, moe, read(s, x), n)
        }),
{
    let h = m.cfg.hidden_size as int;
    let si = m.cfg.shared_expert_intermediate_size as int;
    let w = |p: Proj| WeightId::Of(b, p);
    assert(h * n >= 1) by (nonlinear_arith)
        requires
            h >= 1,
            n >= 1,
    ;
    lemma_experts(m, s, b, moe, x, n, t);
    let s1 = run(s, m.route_ops(b, moe, x, n, t) + m.expert_ops(b, moe, x, n, t));
    let s2 = if moe.experts_sharded {
        assert(!(s1[temp(t + 1).region] is Summing));
        lemma_reduce(s1, temp(t + 1), temp(t + 1), h * n, m.chunk_elems(2), 2, 0);
        run(s1, m.reduce16_ops(temp(t + 1), h * n))
    } else {
        run(s1, Seq::<Op>::empty())
    };
    assert(kept(s, s2, t, t + 19));
    assert(read(s2, x) == read(s, x));
    let head = seq![get16(t + 15, si * n), get16(t + 16, si * n)] + gemm_ops(
        moe.shared.gate,
        w(Proj::SharedGateProj),
        x,
        temp(t + 15),
        h,
        si,
        n,
    ) + gemm_ops(moe.shared.up, w(Proj::SharedUp), x, temp(t + 16), h, si, n);
    lemma_gated(
        s2,
        moe.shared.gate,
        moe.shared.up,
        w(Proj::SharedGateProj),
        w(Proj::SharedUp),
        x,
        t + 15,
        t + 16,
        h,
        si,
        n,
    );
    let s3 = run(s2, head);
    let act = Op::Launch(
        Call::SiluMul { gate: temp(t + 15), up: temp(t + 16), tot: (si * n) as i32 },
    );
    let s4 = exec(exec(s3, act), get16(t + 17, h * n));
    assert(run(s3, seq![act, get16(t + 17, h * n)]) == s4);
    assert(kept(s, s4, t, t + 19));
    lemma_gemm(s4, moe.shared.down, w(Proj::SharedDown), temp(t + 15), temp(t + 17), si, h, n);
    let s5 = run(
        s4,
        gemm_ops(moe.shared.down, w(Proj::SharedDown), temp(t + 15), temp(t + 17), si, h, n),
    );
    let s6 = run(s5, seq![get16(t + 18, n)]);
    assert(kept(s, s6, t, t + 19));
    assert(read(s6, x) == read(s, x));
    lemma_gemm_binv(s6, moe.shared_gate, w(Proj::SharedGate), x, temp(t + 18), h, 1, n);
    let s7 = run(
        s6,
        gemm_binv_ops(moe.shared_gate, w(Proj::SharedGate), x, temp(t + 18), h, 1, n),
    );
    assert(kept(s, s7, t, t + 19));
    assert(s7[temp(t + 1).region] == s2[temp(t + 1).region]);
    let add = Op::Launch(
        Call::MoeSharedCombine {
            out: temp(t + 1),
            shared: temp(t + 17),
            gate: temp(t + 18),
            h: h as i32,
            n: n as i32,
        },
    );
    let s8 = exec(s7, add);
    let e = run(
        s7,
        seq![
            add,
            put16(t + 15, si * n),
            put16(t + 16, si * n),
            put16(t + 17, h * n),
            put16(t + 18, n),
        ],
    );
    assert(run(s2, m.shared_ops(b, moe, x, n, t)) == e);
    assert(run(s, m.moe_ops(b, moe, x, n, t)) == e);
    assert(kept(s8, e, t, t + 19));
    assert(e[temp(t + 1).region] == s8[temp(t + 1).region]);
}

/// A feed-forward block leaves what the model says.
pub proof fn law_ffn_computes(
    m: &GpuModel,
    s: Mem,
    b: Block,
    ffn: Ffn,
    x: Ptr,
    n: int,
    sharded: bool,
    t: int,
)
    requires
        m.ffn_ok(ffn, n, sharded),
        0 <= t,
        t + FFN_IDS <= usize::MAX,
        !loose(x.region, t, t + 19),
        n >= 1,
        m.cfg.hidden_size >= 1,
    ensures
        ({
            let e = run(s, m.ffn_ops(b, ffn, x, n, sharded, t));
            &&& kept(s, e, t, t + 19)
            &&& e[temp(GpuModel::ffn_out(ffn, t)).region] == fed(m, b, ffn, read(s, x), n, sharded)
        }),
{
    match ffn {
        Ffn::Dense(mlp) => law_mlp_computes(m, s, b, mlp, x, n, sharded, t),
        Ffn::Moe(moe) => law_moe_computes(m, s, b, moe, x, n, t),
    }
}

} // verus!
