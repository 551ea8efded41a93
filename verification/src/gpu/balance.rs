//! Every program gives back what it borrows, but for the buffers it hands on.
use vstd::prelude::*;

use crate::config::LayerType;
use crate::gpu::attn::{AttnCall, AttnMode, ATTN_IDS};
use crate::gpu::drafter::{MtpCall, MTP_IDS};
use crate::gpu::ffn::{grouped_ops, FFN_IDS};
use crate::gpu::forward::{Frame, Pass};
use crate::gpu::gdn::{GdnCall, RunTables, GDN_IDS};
use crate::gpu::gemm::{gemm_binv_ops, gemm_f32_ops, gemm_ops, reduce_chunk, reduce_ops};
use crate::gpu::model::{AttnIn, Ffn, GdnIn, GpuMlp, GpuModel, GpuMoe, W};
use crate::gpu::passes::DraftPenalty;
use crate::gpu::program::{
    at, borrowed_upto, delta, lemma_outstanding_concat, lemma_short, outstanding, put32, temp, Block,
    BlockVec, Grouped, Op, Proj, Ptr, Region, Scratch, WeightId,
};
use crate::gpu::single::product_ops;
use crate::gpu::single_calls::SingleCall;
use crate::gpu::tiled::{Tiled, TILED_IDS};
use crate::mma::div_up;
use crate::seqs::flat;

verus! {

broadcast use {lemma_outstanding_concat, lemma_short};

/// One where `id` is `out`, else nothing.
pub open spec fn only(id: int, out: int) -> int {
    if id == out {
        1
    } else {
        0
    }
}

proof fn lemma_gemm(w: W, wid: WeightId, x: Ptr, out: Ptr, inn: int, outn: int, n: int, id: int)
    ensures
        outstanding(gemm_ops(w, wid, x, out, inn, outn, n), id) == 0,
        outstanding(gemm_binv_ops(w, wid, x, out, inn, outn, n), id) == 0,
        outstanding(gemm_f32_ops(w, wid, x, out, inn, outn, n), id) == 0,
{
}

proof fn lemma_flat(n: nat, row: spec_fn(int) -> Seq<Op>, id: int)
    requires
        forall|i: int| 0 <= i < n ==> outstanding(#[trigger] row(i), id) == 0,
    ensures
        outstanding(flat(n, row), id) == 0,
    decreases n,
{
    if n > 0 {
        lemma_flat((n - 1) as nat, row, id);
        assert(outstanding(row(n - 1), id) == 0);
    }
}

proof fn lemma_reduce(out: Ptr, src: Ptr, n: int, chunk: int, eb: int, fp32: int, id: int)
    ensures
        outstanding(reduce_ops(out, src, n, chunk, eb, fp32), id) == 0,
{
    lemma_flat(
        div_up(n, chunk) as nat,
        |i: int| reduce_chunk(out, src, n, chunk, eb, fp32, i),
        id,
    );
}

proof fn lemma_site(
    m: &GpuModel,
    w: W,
    wid: WeightId,
    x: Ptr,
    out: Ptr,
    inn: int,
    outn: int,
    n: int,
    t: int,
    id: int,
)
    ensures
        outstanding(m.reduce_site_ops(w, wid, x, out, inn, outn, n, t), id) == 0,
{
    lemma_gemm(w, wid, x, out, inn, outn, n, id);
    lemma_gemm(w, wid, x, temp(t), inn, outn, n, id);
    lemma_reduce(out, out, outn * n, m.chunk_elems(2), 2, 0, id);
    lemma_reduce(out, temp(t), outn * n, m.chunk_elems(4), 4, 1, id);
}

/// The dense MLP leaves its result and nothing else.
pub proof fn law_mlp_gives_back(
    m: &GpuModel,
    block: Block,
    w: GpuMlp,
    x: Ptr,
    n: int,
    sharded: bool,
    t: int,
    id: int,
)
    requires
        0 <= t,
        t + FFN_IDS <= usize::MAX,
        0 <= id,
    ensures
        outstanding(m.mlp_ops(block, w, x, n, sharded, t), id) == only(id, t + 2),
{
    let (h, im) = (m.cfg.hidden_size as int, m.mlp_width(sharded));
    let wt = |p: Proj| WeightId::Of(block, p);
    let tp = |k: int| temp(k);
    lemma_gemm(w.gate, wt(Proj::Gate), x, tp(t), h, im, n, id);
    lemma_gemm(w.up, wt(Proj::Up), x, tp(t + 1), h, im, n, id);
    lemma_gemm(w.down, wt(Proj::Down), tp(t), tp(t + 2), im, h, n, id);
    lemma_site(m, w.down, wt(Proj::Down), tp(t), tp(t + 2), im, h, n, t + 3, id);
}


/// The expert block leaves its result and nothing else, but for the grouped pass, whose size the device
/// decides and which is balanced in itself.
pub proof fn law_moe_gives_back(
    m: &GpuModel,
    block: Block,
    moe: GpuMoe,
    x: Ptr,
    n: int,
    t: int,
    id: int,
)
    requires
        0 <= t,
        t + FFN_IDS <= usize::MAX,
        0 <= id,
    ensures
        outstanding(m.moe_ops(block, moe, x, n, t), id) == only(id, t + 1),
{
    let c = &m.cfg;
    let (h, ne, k) = (c.hidden_size as int, c.num_experts as int, c.num_experts_per_tok as int);
    let si = c.shared_expert_intermediate_size as int;
    let w = |p: Proj| WeightId::Of(block, p);
    lemma_gemm(moe.router, w(Proj::Router), x, temp(t), h, ne, n, id);
    assert(outstanding(m.route_ops(block, moe, x, n, t), id) == only(id, t + 1));
    assert(outstanding(m.expert_ops(block, moe, x, n, t), id) == 0);
    lemma_reduce(temp(t + 1), temp(t + 1), h * n, m.chunk_elems(2), 2, 0, id);
    lemma_gemm(moe.shared.gate, w(Proj::SharedGateProj), x, temp(t + 15), h, si, n, id);
    lemma_gemm(moe.shared.up, w(Proj::SharedUp), x, temp(t + 16), h, si, n, id);
    lemma_gemm(moe.shared.down, w(Proj::SharedDown), temp(t + 15), temp(t + 17), si, h, n, id);
    lemma_gemm(moe.shared_gate, w(Proj::SharedGate), x, temp(t + 18), h, 1, n, id);
    assert(outstanding(m.shared_ops(block, moe, x, n, t), id) == 0);
}

/// However many rows the device asks for, the grouped expert pass gives back all it borrows.
pub proof fn law_grouped_gives_back(g: Grouped, rows: int, id: int)
    requires
        g.first + FFN_IDS <= usize::MAX,
        0 <= id,
    ensures
        outstanding(grouped_ops(g, rows), id) == 0,
{
    reveal_with_fuel(borrowed_upto, 22);
}

/// A feed-forward block leaves its result and nothing else.
pub proof fn law_ffn_gives_back(
    m: &GpuModel,
    block: Block,
    ffn: Ffn,
    x: Ptr,
    n: int,
    sharded: bool,
    t: int,
    id: int,
)
    requires
        0 <= t,
        t + FFN_IDS <= usize::MAX,
        0 <= id,
    ensures
        outstanding(m.ffn_ops(block, ffn, x, n, sharded, t), id) == only(id, GpuModel::ffn_out(ffn, t)),
{
    match ffn {
        Ffn::Dense(w) => law_mlp_gives_back(m, block, w, x, n, sharded, t, id),
        Ffn::Moe(moe) => law_moe_gives_back(m, block, moe, x, n, t, id),
    }
}

/// Tiled attention gives back all it borrows.
pub proof fn law_tiled_gives_back(w: Tiled, id: int)
    requires
        w.first + TILED_IDS <= usize::MAX,
        0 <= id,
    ensures
        outstanding(w.ops(), id) == 0,
{
    assert forall|i: int, j: int| outstanding(#[trigger] w.pair_ops(i, j), id) == 0 by {
        lemma_flat(w.gqa() as nat, |r: int| w.head_ops(i, j, r), id);
    }
    assert forall|i: int| outstanding(#[trigger] w.tile_ops(i), id) == 0 by {
        lemma_flat(w.key_tiles(i) as nat, |j: int| w.pair_ops(i, j), id);
    }
    lemma_flat(w.query_tiles() as nat, |i: int| w.tile_ops(i), id);
}

/// An attention leaves its result and nothing else.
pub proof fn law_attention_gives_back(m: &GpuModel, c: AttnCall, id: int)
    requires
        c.first + ATTN_IDS <= usize::MAX,
        0 <= id,
    ensures
        outstanding(m.full_attn_ops(c), id) == only(id, c.first + 12),
{
    let (nh, nkv) = m.attn_heads(c.sharded);
    let (h, hd, n) = (m.cfg.hidden_size as int, m.cfg.head_dim as int, c.n as int);
    let t = c.first as int;
    let mtot = nh * hd * 2 + 2 * (nkv * hd);
    let w = |p: Proj| WeightId::Of(c.block, p);
    match c.fa.qkv {
        AttnIn::Fused(f) => lemma_gemm(f, w(Proj::Qkv), c.x, temp(t + 5), h, mtot, n, id),
        AttnIn::Split { q, k, v } => {
            lemma_gemm(q, w(Proj::Q), c.x, temp(t), h, nh * hd * 2, n, id);
            lemma_gemm(k, w(Proj::K), c.x, temp(t + 1), h, nkv * hd, n, id);
            lemma_gemm(v, w(Proj::V), c.x, temp(t + 2), h, nkv * hd, n, id);
        },
    }
    assert(outstanding(m.project_ops(c), id) == if t <= id < t + 5 {
        1int
    } else {
        0
    });
    if let AttnMode::Run { pos } = c.mode {
        law_tiled_gives_back(m.tiled_of(c, pos), id);
    }
    assert(outstanding(m.dispatch_ops(c), id) == only(id, t + 6));
    lemma_gemm(c.fa.o_proj, w(Proj::O), temp(t + 6), temp(t + 12), nh * hd, h, n, id);
    lemma_site(m, c.fa.o_proj, w(Proj::O), temp(t + 6), temp(t + 12), nh * hd, h, n, t + 13, id);
}


proof fn lemma_still(s: Seq<Op>, k: int, id: int)
    requires
        0 <= k <= s.len(),
        forall|i: int| 0 <= i < s.len() ==> delta(#[trigger] s[i], id) == 0,
    ensures
        borrowed_upto(s, k, id) == 0,
    decreases k,
{
    if k > 0 {
        lemma_still(s, k - 1, id);
        assert(delta(s[k - 1], id) == 0);
    }
}

proof fn lemma_gdn_project(m: &GpuModel, c: GdnCall, id: int)
    requires
        c.first + GDN_IDS <= usize::MAX,
        0 <= id,
    ensures
        outstanding(m.gdn_project_ops(c), id) == if c.first <= id < c.first + 4 {
            1int
        } else {
            0
        },
{
    let (t, n) = (c.first as int, c.n as int);
    let h = m.cfg.hidden_size as int;
    let (cd, vdim, nh, fused) = (m.conv_dim(), m.value_dim(), m.lin_v_heads(), m.gdn_fused_m());
    let w = |p: Proj| WeightId::Of(c.block, p);
    match c.la.in_proj {
        GdnIn::Fused(f) => lemma_gemm(f, w(Proj::GdnIn), c.x, temp(t + 4), h, fused, n, id),
        GdnIn::Split { qkv, z, b, a } => {
            lemma_gemm(qkv, w(Proj::GdnQkv), c.x, temp(t), h, cd, n, id);
            lemma_gemm(z, w(Proj::GdnZ), c.x, temp(t + 1), h, vdim, n, id);
            lemma_gemm(b, w(Proj::GdnB), c.x, temp(t + 2), h, nh, n, id);
            lemma_gemm(a, w(Proj::GdnA), c.x, temp(t + 3), h, nh, n, id);
        },
    }
}

proof fn lemma_gdn_out(m: &GpuModel, c: GdnCall, qkv: int, core: int, id: int)
    requires
        c.first + GDN_IDS <= usize::MAX,
        qkv == c.first || qkv == c.first + 9,
        0 <= id,
    ensures
        outstanding(m.gdn_out_ops(c, qkv, core), id) == only(id, c.first + 7) - only(id, qkv)
            - only(id, c.first + 1) - only(id, c.first + 2) - only(id, c.first + 3) - only(
            id,
            c.first + 5,
        ),
{
    let (t, n) = (c.first as int, c.n as int);
    let h = m.cfg.hidden_size as int;
    let vdim = m.value_dim();
    let o = WeightId::Of(c.block, Proj::GdnOut);
    lemma_gemm(c.la.out_proj, o, temp(t + 6), temp(t + 7), vdim, h, n, id);
    lemma_site(m, c.la.out_proj, o, temp(t + 6), temp(t + 7), vdim, h, n, t + 8, id);
}

/// A linear-attention step leaves its result and nothing else.
pub proof fn law_linear_attention_gives_back(m: &GpuModel, c: GdnCall, id: int)
    requires
        c.first + GDN_IDS <= usize::MAX,
        0 <= id,
    ensures
        outstanding(m.linear_attn_ops(c), id) == only(id, c.first + 7),
{
    lemma_gdn_project(m, c, id);
    lemma_gdn_out(m, c, c.first as int, m.launch_heads().0 * (m.cfg.lin_v_dim as int) * (c.n as int), id);
}

/// A run of linear attention leaves its result and nothing else.
pub proof fn law_linear_run_gives_back(
    m: &GpuModel,
    c: GdnCall,
    tab: RunTables,
    segs: Seq<(usize, usize)>,
    id: int,
)
    requires
        c.first + GDN_IDS <= usize::MAX,
        0 <= id,
    ensures
        outstanding(m.gdn_run_ops(c, tab, segs), id) == only(id, c.first + 7),
{
    lemma_gdn_project(m, c, id);
    let carry = segs.map_values(|s: (usize, usize)| m.carry_op(c, s));
    lemma_still(carry, carry.len() as int, id);
    lemma_gdn_out(m, c, c.first + 9, m.lin_v_heads() * (m.cfg.lin_v_dim as int) * (c.n as int), id);
}

/// A layer gives back all it borrows.
pub proof fn law_layer_gives_back(
    m: &GpuModel,
    f: Frame,
    segs: Seq<(usize, usize)>,
    fuse: bool,
    li: int,
    id: int,
)
    requires
        f.first + ATTN_IDS + FFN_IDS <= usize::MAX,
        0 <= id,
    ensures
        outstanding(m.layer_ops(f, segs, fuse, li), id) == 0,
{
    let t = f.first + ATTN_IDS;
    law_attention_gives_back(m, m.attn_call(f, li), id);
    law_linear_attention_gives_back(m, m.gdn_call(f, li), id);
    law_linear_run_gives_back(m, m.gdn_call(f, li), m.run_tables(f, li), segs, id);
    assert(outstanding(m.mixer_ops(f, segs, li), id) == only(id, m.mixer_out(f, li)));
    law_ffn_gives_back(
        m,
        Block::Layer(li as usize),
        m.layers@[li].mlp,
        temp(f.normed as int),
        f.n as int,
        m.tp.world == 2,
        t,
        id,
    );
}

proof fn lemma_layers(m: &GpuModel, f: Frame, segs: Seq<(usize, usize)>, fuse: bool, id: int)
    requires
        f.first + ATTN_IDS + FFN_IDS <= usize::MAX,
        0 <= id,
    ensures
        outstanding(m.layers_ops(f, segs, fuse), id) == 0,
{
    let row = |li: int| m.layer_ops(f, segs, fuse, li);
    assert forall|li: int| 0 <= li < m.layers@.len() implies outstanding(#[trigger] row(li), id)
        == 0 by {
        law_layer_gives_back(m, f, segs, fuse, li, id);
    }
    lemma_flat(m.layers@.len(), row, id);
}

proof fn lemma_logits(m: &GpuModel, hidden: Ptr, n: int, out: int, id: int)
    requires
        0 <= out <= usize::MAX,
        0 <= id,
    ensures
        outstanding(m.logits_ops(hidden, n, out), id) == only(id, out),
{
    lemma_gemm(
        m.head().0,
        m.head().1,
        hidden,
        temp(out),
        m.cfg.hidden_size as int,
        m.cfg.vocab_size as int,
        n,
        id,
    );
}

/// A decode step up to its logits leaves the logits, buffer 3, and nothing else; with its tokens chosen
/// it leaves nothing.
pub proof fn law_decode_gives_back(
    m: &GpuModel,
    kv_stride: usize,
    max_pc: usize,
    n: usize,
    id: int,
)
    requires
        0 <= id,
    ensures
        outstanding(m.decode_ops(kv_stride, max_pc, n), id) == only(id, 3),
        outstanding(m.greedy_decode_ops(kv_stride, max_pc, n), id) == 0,
        outstanding(m.sampled_decode_ops(kv_stride, max_pc, n), id) == 0,
{
    let f = m.decode_frame(kv_stride, max_pc, n);
    let fuse = m.knobs.fuse_residual;
    lemma_layers(m, f, Seq::<(usize, usize)>::empty(), fuse, id);
    assert(outstanding(m.trunk_ops(f, 2), id) == only(id, m.trunk_out(f, 2)) - only(id, 0));
    lemma_logits(m, temp(m.trunk_out(f, 2)), n as int, 3, id);
}

/// A verify leaves its logits, buffer 6, and nothing else in the pool.
pub proof fn law_verify_gives_back(
    m: &GpuModel,
    segs: Seq<(usize, usize)>,
    kv_stride: usize,
    pos: usize,
    ckpt: Option<usize>,
    forest: bool,
    n: usize,
    id: int,
)
    requires
        0 <= id,
    ensures
        outstanding(m.verify_ops(segs, kv_stride, pos, ckpt, forest, n), id) == only(id, 6),
{
    let f = m.run_frame(Pass::Verify { pos, ckpt, forest }, kv_stride, n);
    lemma_layers(m, f, segs, false, id);
    lemma_logits(m, temp(4), n as int, 6, id);
}

/// A prefill keeps the two angle tables and nothing else of what it takes from the pool.
pub proof fn law_prefill_gives_back(
    m: &GpuModel,
    slot: usize,
    kv_stride: usize,
    pos: usize,
    n: usize,
    id: int,
)
    requires
        0 <= id,
    ensures
        outstanding(m.prefill_ops(slot, kv_stride, pos, n), id) == only(id, 0) + only(id, 1),
{
    let f = m.run_frame(Pass::Prefill { slot, pos }, kv_stride, n);
    lemma_layers(m, f, seq![(0usize, n)], false, id);
    lemma_logits(m, temp(5), 1, 6, id);
}

/// A draft-head pass leaves its result and nothing else.
pub proof fn law_draft_head_gives_back(m: &GpuModel, c: MtpCall, id: int)
    requires
        c.first + MTP_IDS <= usize::MAX,
        0 <= id,
    ensures
        outstanding(m.mtp_ops(c), id) == only(id, c.first + 38),
{
    let (t, n) = (c.first as int, c.n as int);
    let h = m.cfg.hidden_size as int;
    let w = m.mtp->0;
    lemma_gemm(
        w.fc,
        WeightId::Of(Block::Mtp, Proj::Fc),
        temp(t + 2),
        temp(t + 3),
        2 * h,
        h,
        n,
        id,
    );
    law_attention_gives_back(m, m.mtp_attn(c), id);
    law_ffn_gives_back(m, Block::Mtp, w.mlp, temp(t + 4), n, false, t + 19, id);
}

/// A priming pass gives back all it borrows.
pub proof fn law_priming_gives_back(
    m: &GpuModel,
    hidden: Ptr,
    kc: Ptr,
    vc: Ptr,
    kv_stride: usize,
    pos_start: usize,
    c0: int,
    cn: int,
    id: int,
)
    requires
        0 <= id,
    ensures
        outstanding(m.prime_chunk_ops(hidden, kc, vc, kv_stride, pos_start, c0, cn), id) == 0,
{
    law_draft_head_gives_back(m, m.prime_call(kc, vc, kv_stride, pos_start, c0, cn), id);
}

/// The pass of a draft step leaves its angles, buffers 0 and 1, and the next hidden state.
proof fn lemma_draft_pass(
    m: &GpuModel,
    hidden: Ptr,
    pos: usize,
    kc: Ptr,
    vc: Ptr,
    kv_stride: usize,
    id: int,
)
    requires
        pos < usize::MAX,
        0 <= id,
    ensures
        outstanding(m.draft_pass_ops(hidden, pos, kc, vc, kv_stride), id) == only(id, 0) + only(
            id,
            1,
        ) + only(id, 40),
{
    let c = m.mtp_columns(
        hidden,
        Scratch::DraftTok,
        Scratch::DraftPos,
        kc,
        vc,
        (pos + 1) as usize,
        kv_stride,
        1,
    );
    law_draft_head_gives_back(m, c, id);
}

/// Sampling a draft gives back all it borrows.
proof fn lemma_sampling(m: &GpuModel, p: Option<DraftPenalty>, id: int)
    requires
        0 <= id,
    ensures
        outstanding(m.sample_draft_ops(p), id) == 0,
{
    let (w, wid, vocab) = m.draft_head_of();
    lemma_gemm(w, wid, temp(40), temp(41), m.cfg.hidden_size as int, vocab, 1, id);
}

/// Programs one after another.
proof fn lemma_then(a: Seq<Op>, b: Seq<Op>, c: Seq<Op>, id: int)
    ensures
        outstanding(a + b, id) == outstanding(a, id) + outstanding(b, id),
        outstanding(a + b + c, id) == outstanding(a, id) + outstanding(b, id) + outstanding(c, id),
{
}

/// The angles of a draft step go back.
proof fn lemma_angles(rd: int, id: int)
    requires
        0 <= id,
    ensures
        outstanding(seq![Op::Sync, put32(0, rd), put32(1, rd)], id) == -(only(id, 0) + only(id, 1)),
        outstanding(seq![put32(0, rd), put32(1, rd)], id) == -(only(id, 0) + only(id, 1)),
{
}

/// A draft step leaves the next hidden state, buffer 40, and nothing else, whether the draft is then
/// taken greedily or sampled in the same step.
pub proof fn law_draft_step_gives_back(
    m: &GpuModel,
    hidden: Ptr,
    pos: usize,
    kc: Ptr,
    vc: Ptr,
    kv_stride: usize,
    p: Option<DraftPenalty>,
    id: int,
)
    requires
        pos < usize::MAX,
        0 <= id,
    ensures
        outstanding(m.draft_step_ops(hidden, pos, kc, vc, kv_stride), id) == only(id, 40),
        outstanding(m.sampled_draft_ops(hidden, pos, kc, vc, kv_stride, p), id) == only(id, 40),
{
    let rd = m.cfg.rotary_dim as int;
    let pass = m.draft_pass_ops(hidden, pos, kc, vc, kv_stride);
    lemma_draft_pass(m, hidden, pos, kc, vc, kv_stride, id);
    lemma_sampling(m, p, id);
    lemma_angles(rd, id);
    lemma_then(pass, seq![Op::Sync, put32(0, rd), put32(1, rd)], Seq::empty(), id);
    lemma_then(pass, seq![put32(0, rd), put32(1, rd)], m.sample_draft_ops(p), id);
}

proof fn lemma_product(w: WeightId, x: Ptr, out: Ptr, inn: int, outn: int, t: int, id: int)
    requires
        0 <= t,
        t + 1 <= usize::MAX,
        0 <= id,
    ensures
        outstanding(product_ops(w, x, out, inn, outn, t), id) == 0,
{
}

/// The single-token path gives back all it borrows but its result, buffer 2, and consumes its residual,
/// buffer 0.
pub proof fn law_token_gives_back(
    m: &GpuModel,
    pos: int,
    cos: Ptr,
    sin: Ptr,
    capture: bool,
    id: int,
)
    requires
        0 <= id,
    ensures
        outstanding(m.one_token_ops(pos, cos, sin, capture), id) == only(id, 2) - only(id, 0),
{
    let row = |li: int| m.one_layer_ops(li, pos, cos, sin, capture);
    assert forall|li: int| 0 <= li < m.layers@.len() implies outstanding(#[trigger] row(li), id)
        == 0 by {
        lemma_one_layer(m, li, pos, cos, sin, capture, id);
    }
    lemma_flat(m.layers@.len(), row, id);
    assert(outstanding(flat(m.layers@.len(), row), id) == 0);
}

#[verifier::rlimit(60)]
#[verifier::spinoff_prover]
proof fn lemma_one_layer(
    m: &GpuModel,
    li: int,
    pos: int,
    cos: Ptr,
    sin: Ptr,
    capture: bool,
    id: int,
)
    requires
        0 <= id,
    ensures
        outstanding(m.one_layer_ops(li, pos, cos, sin, capture), id) == 0,
{
    let mixer = match m.layers@[li].layer_type {
        LayerType::FullAttention => m.one_attn_ops(li as usize, temp(1), pos, cos, sin, 3),
        LayerType::LinearAttention => m.one_gdn_ops(li as usize, temp(1), 3),
    };
    let mixed = m.one_mixer_out(li);
    lemma_one_attn(m, li as usize, pos, cos, sin, id);
    lemma_one_gdn(m, li as usize, id);
    lemma_one_mlp(m, Block::Layer(li as usize), id);
    assert(outstanding(mixer, id) == only(id, mixed));
    let b = Block::Layer(li as usize);
    let h = m.cfg.hidden_size as int;
    lemma_seven(
        seq![m.one_norm_op(temp(1), temp(0), at(Region::Vector(b, BlockVec::InputNorm)))],
        mixer,
        seq![
            Op::Single(
                SingleCall::FusedNorm {
                    out: temp(1),
                    residual: temp(0),
                    add: temp(mixed),
                    w: at(Region::Vector(b, BlockVec::PostNorm)),
                    h: h as i32,
                    eps: m.cfg.rms_eps_bits,
                },
            ),
        ],
        m.one_mlp_ops(b, temp(1), 14),
        seq![Op::Single(SingleCall::Add { residual: temp(0), add: temp(16), n: h as i32 })],
        if capture {
            seq![Op::Capture { src: temp(0), len: m.cfg.hidden_size }]
        } else {
            Seq::<Op>::empty()
        },
        seq![put32(mixed, h), put32(16, h)],
        id,
    );
}

/// Borrowing over a program in seven legs adds up.
proof fn lemma_seven(
    a: Seq<Op>,
    b: Seq<Op>,
    c: Seq<Op>,
    d: Seq<Op>,
    e: Seq<Op>,
    f: Seq<Op>,
    g: Seq<Op>,
    id: int,
)
    ensures
        outstanding(a + b + c + d + e + f + g, id) == outstanding(a, id) + outstanding(b, id)
            + outstanding(c, id) + outstanding(d, id) + outstanding(e, id) + outstanding(f, id)
            + outstanding(g, id),
{
}

proof fn lemma_one_mlp(m: &GpuModel, b: Block, id: int)
    requires
        0 <= id,
    ensures
        outstanding(m.one_mlp_ops(b, temp(1), 14), id) == only(id, 16),
{
    let (h, im) = (m.cfg.hidden_size as int, m.cfg.intermediate_size as int);
    let w = |p: Proj| WeightId::Of(b, p);
    lemma_product(w(Proj::Gate), temp(1), temp(14), h, im, 17, id);
    lemma_product(w(Proj::Up), temp(1), temp(15), h, im, 17, id);
    lemma_product(w(Proj::Down), temp(14), temp(16), im, h, 17, id);
}

proof fn lemma_one_attn(m: &GpuModel, li: usize, pos: int, cos: Ptr, sin: Ptr, id: int)
    requires
        0 <= id,
    ensures
        outstanding(m.one_attn_ops(li, temp(1), pos, cos, sin, 3), id) == only(id, 9),
{
    let c = &m.cfg;
    let (h, nh, nkv) = (c.hidden_size as int, c.num_heads as int, c.num_kv_heads as int);
    let hd = c.head_dim as int;
    let w = |p: Proj| WeightId::Of(Block::Layer(li), p);
    lemma_product(w(Proj::Q), temp(1), temp(3), h, nh * hd * 2, 10, id);
    lemma_product(w(Proj::K), temp(1), temp(4), h, nkv * hd, 10, id);
    lemma_product(w(Proj::V), temp(1), temp(5), h, nkv * hd, 10, id);
    lemma_product(w(Proj::O), temp(8), temp(9), nh * hd, h, 10, id);
}

proof fn lemma_one_gdn(m: &GpuModel, li: usize, id: int)
    requires
        0 <= id,
    ensures
        outstanding(m.one_gdn_ops(li, temp(1), 3), id) == only(id, 11),
{
    let c = &m.cfg;
    let (h, nh) = (c.hidden_size as int, c.lin_num_v_heads as int);
    let (cd, vdim) = (m.one_conv_dim(), c.spec_value_dim());
    let w = |p: Proj| WeightId::Of(Block::Layer(li), p);
    lemma_product(w(Proj::GdnQkv), temp(1), temp(3), h, cd, 7, id);
    lemma_product(w(Proj::GdnB), temp(1), temp(4), h, nh, 7, id);
    lemma_product(w(Proj::GdnA), temp(1), temp(5), h, nh, 7, id);
    assert(outstanding(m.one_core_ops(li, temp(1), 3), id) == only(id, 6));
    lemma_product(w(Proj::GdnZ), temp(1), temp(9), h, vdim, 12, id);
    lemma_product(w(Proj::GdnOut), temp(10), temp(11), vdim, h, 12, id);
}

} // verus!
