//! Ranks stay in step: how many barriers a program waits at depends on nothing that differs between them.
use vstd::prelude::*;

use crate::gpu::attn::AttnCall;
use crate::gpu::drafter::MtpCall;
use crate::gpu::ffn::grouped_ops;
use crate::gpu::forward::{Frame, Pass};
use crate::gpu::gdn::{GdnCall, RunTables};
use crate::gpu::gemm::{gemm_binv_ops, gemm_f32_ops, gemm_ops, law_reduction_barriers};
use crate::gpu::model::{AttnIn, Ffn, GdnIn, GpuModel, W};
use crate::gpu::program::{
    barriers, barriers_upto, lemma_barriers_concat, lemma_short_barriers, temp, waits, Block, Grouped,
    Op, Proj, Ptr, WeightId,
};
use crate::gpu::tiled::Tiled;
use crate::gpu::topo::MAX_VERIFY;
use crate::mma::div_up;
use crate::seqs::flat;

verus! {

broadcast use {lemma_barriers_concat, lemma_short_barriers};

impl GpuModel {
    /// Barriers of one reduction of `n` columns.
    pub open spec fn site_barriers(&self, n: int) -> int {
        let h = self.cfg.hidden_size as int;
        if self.fp32_on() && n <= MAX_VERIFY {
            div_up(h * n, self.chunk_elems(4))
        } else {
            div_up(h * n, self.chunk_elems(2))
        }
    }

    /// Barriers of a mixer.
    pub open spec fn mixer_barriers(&self, n: int) -> int {
        if self.mixers_sharded() {
            self.site_barriers(n)
        } else {
            0
        }
    }

    /// Barriers of a feed-forward block.
    pub open spec fn ffn_barriers(&self, ffn: Ffn, sharded: bool, n: int) -> int {
        match ffn {
            Ffn::Dense(_) => if sharded {
                self.site_barriers(n)
            } else {
                0
            },
            Ffn::Moe(e) => if e.experts_sharded {
                div_up(self.cfg.hidden_size * n, self.chunk_elems(2))
            } else {
                0
            },
        }
    }

    /// Barriers of the first `k` layers.
    pub open spec fn trunk_barriers(&self, n: int, k: int) -> int
        decreases k,
    {
        if k <= 0 {
            0
        } else {
            self.trunk_barriers(n, k - 1) + self.mixer_barriers(n) + self.ffn_barriers(
                self.layers@[k - 1].mlp,
                self.tp.world == 2,
                n,
            )
        }
    }
}

proof fn lemma_gemm(w: W, wid: WeightId, x: Ptr, out: Ptr, inn: int, outn: int, n: int)
    ensures
        barriers(gemm_ops(w, wid, x, out, inn, outn, n)) == 0,
        barriers(gemm_binv_ops(w, wid, x, out, inn, outn, n)) == 0,
        barriers(gemm_f32_ops(w, wid, x, out, inn, outn, n)) == 0,
{
}

proof fn lemma_flat(n: nat, row: spec_fn(int) -> Seq<Op>)
    requires
        forall|i: int| 0 <= i < n ==> barriers(#[trigger] row(i)) == 0,
    ensures
        barriers(flat(n, row)) == 0,
    decreases n,
{
    if n > 0 {
        lemma_flat((n - 1) as nat, row);
        assert(barriers(row(n - 1)) == 0);
    }
}

proof fn lemma_still(s: Seq<Op>, k: int)
    requires
        0 <= k <= s.len(),
        forall|i: int| 0 <= i < s.len() ==> waits(#[trigger] s[i]) == 0,
    ensures
        barriers_upto(s, k) == 0,
    decreases k,
{
    if k > 0 {
        lemma_still(s, k - 1);
        assert(waits(s[k - 1]) == 0);
    }
}

proof fn lemma_site(m: &GpuModel, w: W, wid: WeightId, x: Ptr, out: Ptr, inn: int, n: int, t: int)
    requires
        n >= 0,
    ensures
        barriers(m.reduce_site_ops(w, wid, x, out, inn, m.cfg.hidden_size as int, n, t))
            == m.site_barriers(n),
{
    let h = m.cfg.hidden_size as int;
    assert(0 <= h * n) by (nonlinear_arith)
        requires
            h >= 0,
            n >= 0,
    ;
    lemma_gemm(w, wid, x, out, inn, h, n);
    lemma_gemm(w, wid, x, temp(t), inn, h, n);
    law_reduction_barriers(out, out, h * n, m.chunk_elems(2), 2, 0);
    law_reduction_barriers(out, temp(t), h * n, m.chunk_elems(4), 4, 1);
}

proof fn lemma_ffn(m: &GpuModel, block: Block, ffn: Ffn, x: Ptr, n: int, sharded: bool, t: int)
    requires
        n >= 0,
    ensures
        barriers(m.ffn_ops(block, ffn, x, n, sharded, t)) == m.ffn_barriers(ffn, sharded, n),
{
    let c = &m.cfg;
    let (h, ne) = (c.hidden_size as int, c.num_experts as int);
    let si = c.shared_expert_intermediate_size as int;
    let im = m.mlp_width(sharded);
    let w = |p: Proj| WeightId::Of(block, p);
    assert(0 <= h * n) by (nonlinear_arith)
        requires
            h >= 0,
            n >= 0,
    ;
    match ffn {
        Ffn::Dense(d) => {
            lemma_gemm(d.gate, w(Proj::Gate), x, temp(t), h, im, n);
            lemma_gemm(d.up, w(Proj::Up), x, temp(t + 1), h, im, n);
            lemma_gemm(d.down, w(Proj::Down), temp(t), temp(t + 2), im, h, n);
            lemma_site(m, d.down, w(Proj::Down), temp(t), temp(t + 2), im, n, t + 3);
        },
        Ffn::Moe(moe) => {
            lemma_gemm(moe.router, w(Proj::Router), x, temp(t), h, ne, n);
            assert(barriers(m.route_ops(block, moe, x, n, t)) == 0);
            assert(barriers(m.expert_ops(block, moe, x, n, t)) == 0);
            law_reduction_barriers(temp(t + 1), temp(t + 1), h * n, m.chunk_elems(2), 2, 0);
            lemma_gemm(moe.shared.gate, w(Proj::SharedGateProj), x, temp(t + 15), h, si, n);
            lemma_gemm(moe.shared.up, w(Proj::SharedUp), x, temp(t + 16), h, si, n);
            lemma_gemm(moe.shared.down, w(Proj::SharedDown), temp(t + 15), temp(t + 17), si, h, n);
            lemma_gemm(moe.shared_gate, w(Proj::SharedGate), x, temp(t + 18), h, 1, n);
            assert(barriers(m.shared_ops(block, moe, x, n, t)) == 0);
        },
    }
}

proof fn lemma_tiled(w: Tiled)
    ensures
        barriers(w.ops()) == 0,
{
    assert forall|i: int, j: int| barriers(#[trigger] w.pair_ops(i, j)) == 0 by {
        lemma_flat(w.gqa() as nat, |r: int| w.head_ops(i, j, r));
    }
    assert forall|i: int| barriers(#[trigger] w.tile_ops(i)) == 0 by {
        lemma_flat(w.key_tiles(i) as nat, |j: int| w.pair_ops(i, j));
    }
    lemma_flat(w.query_tiles() as nat, |i: int| w.tile_ops(i));
}

proof fn lemma_attn(m: &GpuModel, c: AttnCall)
    ensures
        barriers(m.full_attn_ops(c)) == (if c.sharded {
            m.site_barriers(c.n as int)
        } else {
            0
        }),
{
    let (nh, nkv) = m.attn_heads(c.sharded);
    let (h, hd, n) = (m.cfg.hidden_size as int, m.cfg.head_dim as int, c.n as int);
    let t = c.first as int;
    let mtot = nh * hd * 2 + 2 * (nkv * hd);
    let w = |p: Proj| WeightId::Of(c.block, p);
    match c.fa.qkv {
        AttnIn::Fused(f) => lemma_gemm(f, w(Proj::Qkv), c.x, temp(t + 5), h, mtot, n),
        AttnIn::Split { q, k, v } => {
            lemma_gemm(q, w(Proj::Q), c.x, temp(t), h, nh * hd * 2, n);
            lemma_gemm(k, w(Proj::K), c.x, temp(t + 1), h, nkv * hd, n);
            lemma_gemm(v, w(Proj::V), c.x, temp(t + 2), h, nkv * hd, n);
        },
    }
    assert(barriers(m.project_ops(c)) == 0);
    if let crate::gpu::attn::AttnMode::Run { pos } = c.mode {
        lemma_tiled(m.tiled_of(c, pos));
    }
    assert(barriers(m.dispatch_ops(c)) == 0);
    lemma_gemm(c.fa.o_proj, w(Proj::O), temp(t + 6), temp(t + 12), nh * hd, h, n);
    lemma_site(m, c.fa.o_proj, w(Proj::O), temp(t + 6), temp(t + 12), nh * hd, n, t + 13);
}

proof fn lemma_gdn_parts(m: &GpuModel, c: GdnCall, qkv: int, core: int)
    ensures
        barriers(m.gdn_project_ops(c)) == 0,
        barriers(m.gdn_out_ops(c, qkv, core)) == m.mixer_barriers(c.n as int),
{
    let (t, n) = (c.first as int, c.n as int);
    let h = m.cfg.hidden_size as int;
    let (cd, vdim, nh, fused) = (m.conv_dim(), m.value_dim(), m.lin_v_heads(), m.gdn_fused_m());
    let w = |p: Proj| WeightId::Of(c.block, p);
    match c.la.in_proj {
        GdnIn::Fused(f) => lemma_gemm(f, w(Proj::GdnIn), c.x, temp(t + 4), h, fused, n),
        GdnIn::Split { qkv, z, b, a } => {
            lemma_gemm(qkv, w(Proj::GdnQkv), c.x, temp(t), h, cd, n);
            lemma_gemm(z, w(Proj::GdnZ), c.x, temp(t + 1), h, vdim, n);
            lemma_gemm(b, w(Proj::GdnB), c.x, temp(t + 2), h, nh, n);
            lemma_gemm(a, w(Proj::GdnA), c.x, temp(t + 3), h, nh, n);
        },
    }
    lemma_gemm(c.la.out_proj, w(Proj::GdnOut), temp(t + 6), temp(t + 7), vdim, h, n);
    lemma_site(m, c.la.out_proj, w(Proj::GdnOut), temp(t + 6), temp(t + 7), vdim, n, t + 8);
}

proof fn lemma_gdn(m: &GpuModel, c: GdnCall, tab: RunTables, segs: Seq<(usize, usize)>)
    ensures
        barriers(m.linear_attn_ops(c)) == m.mixer_barriers(c.n as int),
        barriers(m.gdn_run_ops(c, tab, segs)) == m.mixer_barriers(c.n as int),
{
    let vd = m.cfg.lin_v_dim as int;
    lemma_gdn_parts(m, c, c.first as int, m.launch_heads().0 * vd * (c.n as int));
    lemma_gdn_parts(m, c, c.first + 9, m.lin_v_heads() * vd * (c.n as int));
    let carry = segs.map_values(|s: (usize, usize)| m.carry_op(c, s));
    lemma_still(carry, carry.len() as int);
}

proof fn lemma_layer(m: &GpuModel, f: Frame, segs: Seq<(usize, usize)>, fuse: bool, li: int)
    ensures
        barriers(m.layer_ops(f, segs, fuse, li)) == m.mixer_barriers(f.n as int) + m.ffn_barriers(
            m.layers@[li].mlp,
            m.tp.world == 2,
            f.n as int,
        ),
{
    let t = f.first + crate::gpu::attn::ATTN_IDS;
    lemma_attn(m, m.attn_call(f, li));
    lemma_gdn(m, m.gdn_call(f, li), m.run_tables(f, li), segs);
    assert(barriers(m.mixer_ops(f, segs, li)) == m.mixer_barriers(f.n as int));
    lemma_ffn(
        m,
        Block::Layer(li as usize),
        m.layers@[li].mlp,
        temp(f.normed as int),
        f.n as int,
        m.tp.world == 2,
        t,
    );
}

proof fn lemma_layers(m: &GpuModel, f: Frame, segs: Seq<(usize, usize)>, fuse: bool, k: nat)
    ensures
        barriers(flat(k, |li: int| m.layer_ops(f, segs, fuse, li))) == m.trunk_barriers(
            f.n as int,
            k as int,
        ),
    decreases k,
{
    let row = |li: int| m.layer_ops(f, segs, fuse, li);
    if k > 0 {
        lemma_layers(m, f, segs, fuse, (k - 1) as nat);
        lemma_layer(m, f, segs, fuse, k - 1);
        assert(flat(k, row) == flat((k - 1) as nat, row) + row(k - 1));
    }
}

proof fn lemma_logits(m: &GpuModel, hidden: Ptr, n: int, out: int)
    ensures
        barriers(m.logits_ops(hidden, n, out)) == 0,
{
    lemma_gemm(
        m.head().0,
        m.head().1,
        hidden,
        temp(out),
        m.cfg.hidden_size as int,
        m.cfg.vocab_size as int,
        n,
    );
}

/// A decode step waits at as many barriers as its layers reduce in, which is computed from the model's
/// shape and from how it is split, never from the rank.
pub proof fn law_decode_barriers(m: &GpuModel, kv_stride: usize, max_pc: usize, n: usize)
    ensures
        barriers(m.decode_ops(kv_stride, max_pc, n)) == m.trunk_barriers(
            n as int,
            m.layers@.len() as int,
        ),
{
    let f = m.decode_frame(kv_stride, max_pc, n);
    let fuse = m.knobs.fuse_residual;
    let none = Seq::<(usize, usize)>::empty();
    lemma_layers(m, f, none, fuse, m.layers@.len());
    assert(barriers(m.layers_ops(f, none, fuse)) == m.trunk_barriers(
        n as int,
        m.layers@.len() as int,
    ));
    assert(barriers(m.trunk_ops(f, 2)) == m.trunk_barriers(n as int, m.layers@.len() as int));
    lemma_logits(m, temp(m.trunk_out(f, 2)), n as int, 3);
}

/// A verify waits at as many barriers as a decode step of the same width.
pub proof fn law_verify_barriers(
    m: &GpuModel,
    segs: Seq<(usize, usize)>,
    kv_stride: usize,
    pos: usize,
    ckpt: Option<usize>,
    forest: bool,
    n: usize,
)
    ensures
        barriers(m.verify_ops(segs, kv_stride, pos, ckpt, forest, n)) == m.trunk_barriers(
            n as int,
            m.layers@.len() as int,
        ),
{
    let f = m.run_frame(Pass::Verify { pos, ckpt, forest }, kv_stride, n);
    lemma_layers(m, f, segs, false, m.layers@.len());
    assert(barriers(m.layers_ops(f, segs, false)) == m.trunk_barriers(
        n as int,
        m.layers@.len() as int,
    ));
    lemma_logits(m, temp(4), n as int, 6);
}

/// A prefill waits at as many barriers as a decode step of the same width.
pub proof fn law_prefill_barriers(m: &GpuModel, slot: usize, kv_stride: usize, pos: usize, n: usize)
    ensures
        barriers(m.prefill_ops(slot, kv_stride, pos, n)) == m.trunk_barriers(
            n as int,
            m.layers@.len() as int,
        ),
{
    let f = m.run_frame(Pass::Prefill { slot, pos }, kv_stride, n);
    let segs = seq![(0usize, n)];
    lemma_layers(m, f, segs, false, m.layers@.len());
    assert(barriers(m.layers_ops(f, segs, false)) == m.trunk_barriers(
        n as int,
        m.layers@.len() as int,
    ));
    lemma_logits(m, temp(5), 1, 6);
}

/// Drafting never waits for a peer: the draft head is whole on every rank, as long as its experts are.
pub proof fn law_drafting_waits_for_nobody(m: &GpuModel, c: MtpCall)
    requires
        m.mtp matches Some(w) && (w.mlp matches Ffn::Moe(e) ==> !e.experts_sharded),
    ensures
        barriers(m.mtp_ops(c)) == 0,
{
    let (t, n) = (c.first as int, c.n as int);
    let h = m.cfg.hidden_size as int;
    let w = m.mtp->0;
    lemma_gemm(w.fc, WeightId::Of(Block::Mtp, Proj::Fc), temp(t + 2), temp(t + 3), 2 * h, h, n);
    lemma_attn(m, m.mtp_attn(c));
    lemma_ffn(m, Block::Mtp, w.mlp, temp(t + 4), n, false, t + 19);
}

/// A grouped expert pass waits at no barrier, however many rows the device asks for.
pub proof fn law_grouped_waits_for_nobody(g: Grouped, rows: int)
    ensures
        barriers(grouped_ops(g, rows)) == 0,
{
    let s = grouped_ops(g, rows);
    lemma_still(s, s.len() as int);
}

/// Ranks meet at the same barriers: two models that differ in their rank alone wait equally often in every
/// decode step, so neither can be left waiting for the other.
pub proof fn law_ranks_stay_in_step(
    a: &GpuModel,
    b: &GpuModel,
    kv_stride: usize,
    max_pc: usize,
    n: usize,
)
    requires
        b.cfg == a.cfg,
        b.layers == a.layers,
        b.tp.world == a.tp.world,
        b.tp.shard_mixers == a.tp.shard_mixers,
        b.tp.fp32_partials == a.tp.fp32_partials,
        b.tp.probe_batch == a.tp.probe_batch,
    ensures
        barriers(a.decode_ops(kv_stride, max_pc, n)) == barriers(
            b.decode_ops(kv_stride, max_pc, n),
        ),
{
    law_decode_barriers(a, kv_stride, max_pc, n);
    law_decode_barriers(b, kv_stride, max_pc, n);
    lemma_same_trunk(a, b, n as int, a.layers@.len() as int);
}

proof fn lemma_same_trunk(a: &GpuModel, b: &GpuModel, n: int, k: int)
    requires
        b.cfg == a.cfg,
        b.layers == a.layers,
        b.tp.world == a.tp.world,
        b.tp.shard_mixers == a.tp.shard_mixers,
        b.tp.fp32_partials == a.tp.fp32_partials,
        b.tp.probe_batch == a.tp.probe_batch,
    ensures
        a.trunk_barriers(n, k) == b.trunk_barriers(n, k),
    decreases k,
{
    if k > 0 {
        lemma_same_trunk(a, b, n, k - 1);
    }
}

} // verus!
