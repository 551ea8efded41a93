//! Splitting a loaded model between two ranks.
use vstd::prelude::*;

use crate::gpu::model::{
    AttnIn, Ffn, GdnIn, GpuFullAttn, GpuLayer, GpuLinearAttn, GpuMlp, GpuModel, GpuMoe, TpSettings, W,
};
use crate::gpu::program::{BlockVec, Proj};
use crate::shard::{count_rows, gdn_runs, gdn_segments, qkv_segments, rows_kept, seg_take, segs_ok, Segment};

verus! {

/// How a weight is divided between the ranks.
pub enum Cut {
    /// Both ranks keep it whole.
    Whole,
    /// Each rank keeps its rows of every run.
    Rows(Vec<Segment>),
    /// Each rank keeps its half of the columns, and the products are summed.
    Columns,
}

/// How a weight is divided between the ranks.
pub enum CutView {
    Whole,
    Rows(Seq<Segment>),
    Columns,
}

impl View for Cut {
    type V = CutView;

    open spec fn view(&self) -> CutView {
        match self {
            Cut::Whole => CutView::Whole,
            Cut::Rows(s) => CutView::Rows(s@),
            Cut::Columns => CutView::Columns,
        }
    }
}

/// Rows of a weight that carries its shape.
pub open spec fn rows_of(w: W) -> usize {
    match w {
        W::Nvfp4 { m, .. } => m,
        W::Fp8 { m, .. } => m,
        W::Nvfp4Raw { m, .. } => m,
        W::Bf16 => 0,
    }
}

/// What a rank holds of a weight.
pub open spec fn part_of(w: W, cut: CutView) -> W {
    match (cut, w) {
        (CutView::Rows(s), W::Nvfp4 { k, .. }) => W::Nvfp4 { m: rows_kept(s) as usize, k },
        (CutView::Rows(s), W::Fp8 { k, .. }) => W::Fp8 { m: rows_kept(s) as usize, k },
        (CutView::Columns, W::Nvfp4 { m, k }) => W::Nvfp4 { m, k: k / 2 },
        (CutView::Columns, W::Fp8 { m, k }) => W::Fp8 { m, k: k / 2 },
        _ => w,
    }
}

/// A weight can be divided so: it is in a tiled format, and the parts fall on tile boundaries.
pub open spec fn can_cut(w: W, cut: CutView) -> bool {
    match cut {
        CutView::Whole => true,
        CutView::Rows(s) => (w is Nvfp4 || w is Fp8) && segs_ok(s, rows_of(w) as int) && rows_kept(s)
            <= usize::MAX,
        CutView::Columns => match w {
            W::Nvfp4 { k, .. } => (k / 16) % 2 == 0 && (k / 2) % 32 == 0,
            W::Fp8 { k, .. } => (k / 16) % 2 == 0,
            _ => false,
        },
    }
}

/// All rows as one run that is halved.
pub open spec fn one_run(m: usize) -> Seq<Segment> {
    seq![(0usize, m, true)]
}

impl GpuModel {
    /// Runs of the fused attention projection.
    pub open spec fn qkv_runs(&self) -> Seq<Segment> {
        let c = &self.cfg;
        seq![
            (0usize, (c.num_heads * c.head_dim * 2) as usize, true),
            (
                (c.num_heads * c.head_dim * 2) as usize,
                (c.num_kv_heads * c.head_dim) as usize,
                true,
            ),
            (
                (c.num_heads * c.head_dim * 2 + c.num_kv_heads * c.head_dim) as usize,
                (c.num_kv_heads * c.head_dim) as usize,
                true,
            ),
        ]
    }

    /// How projection `p`, in format `w`, is divided. The feed-forward weights always are; mixers and
    /// experts only where they are sharded too. Experts are stacked along the rows, so that halving the
    /// rows gives each rank a contiguous band of whole experts.
    pub open spec fn cut_of(&self, p: Proj, w: W) -> CutView {
        match p {
            Proj::Gate | Proj::Up => CutView::Rows(one_run(rows_of(w))),
            Proj::Down => CutView::Columns,
            _ => if !self.mixers_sharded() {
                CutView::Whole
            } else {
                match p {
                    Proj::ExpertGateUp | Proj::ExpertDown => CutView::Rows(one_run(rows_of(w))),
                    Proj::Qkv => CutView::Rows(self.qkv_runs()),
                    Proj::GdnIn => CutView::Rows(
                        gdn_runs(
                            self.cfg.spec_key_dim(),
                            self.cfg.spec_value_dim(),
                            self.cfg.lin_num_v_heads as int,
                        ),
                    ),
                    Proj::O | Proj::GdnOut => CutView::Columns,
                    _ => CutView::Whole,
                }
            },
        }
    }

    /// What this rank holds of projection `p`.
    pub open spec fn rank_part(&self, p: Proj, w: W) -> W {
        part_of(w, self.cut_of(p, w))
    }

    /// Projection `p` can be divided.
    pub open spec fn divides(&self, p: Proj, w: W) -> bool {
        can_cut(w, self.cut_of(p, w))
    }

    /// A layer whose weights can be divided. Dense and stacked expert weights must be 4-bit, a sharded
    /// linear attention fused.
    pub open spec fn layer_divides(&self, l: GpuLayer) -> bool {
        &&& match l.mlp {
            Ffn::Dense(m) => {
                &&& m.gate is Nvfp4 && m.up is Nvfp4 && m.down is Nvfp4
                &&& self.divides(Proj::Gate, m.gate)
                &&& self.divides(Proj::Up, m.up)
                &&& self.divides(Proj::Down, m.down)
            },
            Ffn::Moe(e) => self.mixers_sharded() ==> {
                &&& e.gate_up is Nvfp4 && e.down is Nvfp4
                &&& self.divides(Proj::ExpertGateUp, e.gate_up)
                &&& self.divides(Proj::ExpertDown, e.down)
            },
        }
        &&& self.mixers_sharded() ==> (l.fa matches Some(fa) ==> {
            &&& fa.qkv matches AttnIn::Fused(w) ==> self.divides(Proj::Qkv, w)
            &&& self.divides(Proj::O, fa.o_proj)
        })
        &&& self.mixers_sharded() ==> (l.la matches Some(la) ==> {
            &&& la.in_proj matches GdnIn::Fused(w) && self.divides(Proj::GdnIn, w)
            &&& self.divides(Proj::GdnOut, la.out_proj)
        })
    }

    /// What this rank holds of a layer.
    pub open spec fn rank_layer(&self, l: GpuLayer) -> GpuLayer {
        let on = self.mixers_sharded();
        GpuLayer {
            layer_type: l.layer_type,
            fa: match l.fa {
                Some(fa) => Some(
                    GpuFullAttn {
                        qkv: match fa.qkv {
                            AttnIn::Fused(w) => AttnIn::Fused(self.rank_part(Proj::Qkv, w)),
                            AttnIn::Split { .. } => fa.qkv,
                        },
                        o_proj: self.rank_part(Proj::O, fa.o_proj),
                    },
                ),
                None => None,
            },
            la: match l.la {
                Some(la) => Some(
                    GpuLinearAttn {
                        in_proj: match la.in_proj {
                            GdnIn::Fused(w) => GdnIn::Fused(self.rank_part(Proj::GdnIn, w)),
                            GdnIn::Split { .. } => la.in_proj,
                        },
                        out_proj: self.rank_part(Proj::GdnOut, la.out_proj),
                    },
                ),
                None => None,
            },
            mlp: match l.mlp {
                Ffn::Dense(m) => Ffn::Dense(
                    GpuMlp {
                        gate: self.rank_part(Proj::Gate, m.gate),
                        up: self.rank_part(Proj::Up, m.up),
                        down: self.rank_part(Proj::Down, m.down),
                    },
                ),
                Ffn::Moe(e) => Ffn::Moe(
                    GpuMoe {
                        router: e.router,
                        gate_up: self.rank_part(Proj::ExpertGateUp, e.gate_up),
                        down: self.rank_part(Proj::ExpertDown, e.down),
                        shared: e.shared,
                        shared_gate: e.shared_gate,
                        experts_sharded: e.experts_sharded || on,
                    },
                ),
            },
        }
    }

    /// How projection `p`, in format `w`, is divided.
    pub fn tp_cut(&self, p: Proj, w: W) -> (c: Cut)
        requires
            AttnIn::spec_fused_m(&self.cfg) <= usize::MAX,
            self.cfg.spec_key_dim() * 2 + 2 * self.cfg.spec_value_dim() + 2 * self.cfg.lin_num_v_heads
                <= usize::MAX,
            0 <= self.cfg.spec_key_dim(),
            0 <= self.cfg.spec_value_dim(),
        ensures
            c@ == self.cut_of(p, w),
    {
        let m: usize = match w {
            W::Nvfp4 { m, .. } => m,
            W::Fp8 { m, .. } => m,
            W::Nvfp4Raw { m, .. } => m,
            W::Bf16 => 0,
        };
        let whole: Vec<Segment> = vec![(0, m, true)];
        proof {
            assert(whole@ =~= one_run(rows_of(w)));
        }
        let on: bool = self.tp_shard_mixers();
        match p {
            Proj::Gate | Proj::Up => Cut::Rows(whole),
            Proj::Down => Cut::Columns,
            Proj::ExpertGateUp | Proj::ExpertDown => if on {
                Cut::Rows(whole)
            } else {
                Cut::Whole
            },
            Proj::Qkv => if on {
                Cut::Rows(qkv_segments(&self.cfg))
            } else {
                Cut::Whole
            },
            Proj::GdnIn => if on {
                Cut::Rows(gdn_segments(&self.cfg))
            } else {
                Cut::Whole
            },
            Proj::O | Proj::GdnOut => if on {
                Cut::Columns
            } else {
                Cut::Whole
            },
            _ => Cut::Whole,
        }
    }

    /// The runs of a small vector that are halved between the ranks, with the entries per row; none for
    /// a vector that both ranks keep.
    pub fn tp_vector_cut(&self, v: BlockVec) -> (r: Option<(Vec<(usize, usize)>, usize)>)
        requires
            self.cfg.spec_key_dim() * 2 + self.cfg.spec_value_dim() <= usize::MAX,
            0 <= self.cfg.spec_key_dim(),
            0 <= self.cfg.spec_value_dim(),
        ensures
            match r {
                Some((runs, stride)) => self.mixers_sharded() && match v {
                    BlockVec::Conv1d => stride == self.cfg.conv_kernel && runs@ == seq![
                        (0usize, self.cfg.spec_key_dim() as usize),
                        (self.cfg.spec_key_dim() as usize, self.cfg.spec_key_dim() as usize),
                        (
                            (2 * self.cfg.spec_key_dim()) as usize,
                            self.cfg.spec_value_dim() as usize,
                        ),
                    ],
                    _ => (v == BlockVec::ALog || v == BlockVec::DtBias) && stride == 1 && runs@
                        == seq![(0usize, self.cfg.lin_num_v_heads)],
                },
                None => !self.mixers_sharded() || !(v == BlockVec::Conv1d || v == BlockVec::ALog || v
                    == BlockVec::DtBias),
            },
    {
        if !self.tp_shard_mixers() {
            return None;
        }
        match v {
            BlockVec::Conv1d => {
                let (kd, vd) = (self.cfg.key_dim(), self.cfg.value_dim());
                let runs: Vec<(usize, usize)> = vec![(0, kd), (kd, kd), (2 * kd, vd)];
                proof {
                    assert(runs@ =~= seq![
                        (0usize, kd),
                        (kd, kd),
                        ((2 * self.cfg.spec_key_dim()) as usize, vd),
                    ]);
                }
                Some((runs, self.cfg.conv_kernel))
            },
            BlockVec::ALog | BlockVec::DtBias => {
                let runs: Vec<(usize, usize)> = vec![(0, self.cfg.lin_num_v_heads)];
                proof {
                    assert(runs@ =~= seq![(0usize, self.cfg.lin_num_v_heads)]);
                }
                Some((runs, 1))
            },
            _ => None,
        }
    }

    fn part(&self, p: Proj, w: W) -> (r: W)
        requires
            AttnIn::spec_fused_m(&self.cfg) <= usize::MAX,
            self.cfg.spec_key_dim() * 2 + 2 * self.cfg.spec_value_dim() + 2 * self.cfg.lin_num_v_heads
                <= usize::MAX,
            0 <= self.cfg.spec_key_dim(),
            0 <= self.cfg.spec_value_dim(),
            self.divides(p, w),
        ensures
            r == self.rank_part(p, w),
    {
        match self.tp_cut(p, w) {
            Cut::Whole => w,
            Cut::Rows(s) => {
                let m: usize = count_rows(s.as_slice());
                match w {
                    W::Nvfp4 { k, .. } => W::Nvfp4 { m, k },
                    W::Fp8 { k, .. } => W::Fp8 { m, k },
                    _ => w,
                }
            },
            Cut::Columns => match w {
                W::Nvfp4 { m, k } => W::Nvfp4 { m, k: k / 2 },
                W::Fp8 { m, k } => W::Fp8 { m, k: k / 2 },
                _ => w,
            },
        }
    }

    fn tp_shard_layer(&self, l: GpuLayer) -> (r: GpuLayer)
        requires
            AttnIn::spec_fused_m(&self.cfg) <= usize::MAX,
            self.cfg.spec_key_dim() * 2 + 2 * self.cfg.spec_value_dim() + 2 * self.cfg.lin_num_v_heads
                <= usize::MAX,
            0 <= self.cfg.spec_key_dim(),
            0 <= self.cfg.spec_value_dim(),
            self.layer_divides(l),
        ensures
            r == self.rank_layer(l),
    {
        let on: bool = self.tp_shard_mixers();
        let mlp: Ffn = match l.mlp {
            Ffn::Dense(m) => Ffn::Dense(
                GpuMlp {
                    gate: self.part(Proj::Gate, m.gate),
                    up: self.part(Proj::Up, m.up),
                    down: self.part(Proj::Down, m.down),
                },
            ),
            Ffn::Moe(e) => if on {
                Ffn::Moe(
                    GpuMoe {
                        router: e.router,
                        gate_up: self.part(Proj::ExpertGateUp, e.gate_up),
                        down: self.part(Proj::ExpertDown, e.down),
                        shared: e.shared,
                        shared_gate: e.shared_gate,
                        experts_sharded: true,
                    },
                )
            } else {
                Ffn::Moe(e)
            },
        };
        if !on {
            return GpuLayer { layer_type: l.layer_type, la: l.la, fa: l.fa, mlp };
        }
        let fa: Option<GpuFullAttn> = match l.fa {
            Some(fa) => {
                let qkv: AttnIn = match fa.qkv {
                    AttnIn::Fused(w) => AttnIn::Fused(self.part(Proj::Qkv, w)),
                    AttnIn::Split { q, k, v } => AttnIn::Split { q, k, v },
                };
                Some(GpuFullAttn { qkv, o_proj: self.part(Proj::O, fa.o_proj) })
            },
            None => None,
        };
        let la: Option<GpuLinearAttn> = match l.la {
            Some(la) => {
                let in_proj: GdnIn = match la.in_proj {
                    GdnIn::Fused(w) => GdnIn::Fused(self.part(Proj::GdnIn, w)),
                    GdnIn::Split { qkv, z, b, a } => GdnIn::Split { qkv, z, b, a },
                };
                Some(GpuLinearAttn { in_proj, out_proj: self.part(Proj::GdnOut, la.out_proj) })
            },
            None => None,
        };
        GpuLayer { layer_type: l.layer_type, la, fa, mlp }
    }

    /// Divides the trunk. The draft head is left whole on both ranks: drafting must not wait for a peer.
    pub fn tp_shard_weights(&mut self)
        requires
            AttnIn::spec_fused_m(&old(self).cfg) <= usize::MAX,
            old(self).cfg.spec_key_dim() * 2 + 2 * old(self).cfg.spec_value_dim() + 2 * old(
                self,
            ).cfg.lin_num_v_heads <= usize::MAX,
            0 <= old(self).cfg.spec_key_dim(),
            0 <= old(self).cfg.spec_value_dim(),
            forall|i: int|
                0 <= i < old(self).layers@.len() ==> #[trigger] old(self).layer_divides(
                    old(self).layers@[i],
                ),
        ensures
            final(self).layers@ == old(self).layers@.map_values(
                |l: GpuLayer| old(self).rank_layer(l),
            ),
            final(self).mtp == old(self).mtp,
            final(self).embed == old(self).embed,
            final(self).lm_head == old(self).lm_head,
            final(self).draft_head == old(self).draft_head,
            final(self).draft_ids == old(self).draft_ids,
            final(self).cfg == old(self).cfg,
            final(self).tp == old(self).tp,
            final(self).knobs == old(self).knobs,
    {
        let ghost was = *self;
        let mut layers: Vec<GpuLayer> = Vec::new();
        let mut i: usize = 0;
        while i < self.layers.len()
            invariant
                i <= self.layers@.len(),
                *self == was,
                AttnIn::spec_fused_m(&was.cfg) <= usize::MAX,
                was.cfg.spec_key_dim() * 2 + 2 * was.cfg.spec_value_dim() + 2
                    * was.cfg.lin_num_v_heads <= usize::MAX,
                0 <= was.cfg.spec_key_dim(),
                0 <= was.cfg.spec_value_dim(),
                forall|i: int|
                    0 <= i < was.layers@.len() ==> #[trigger] was.layer_divides(was.layers@[i]),
                layers@ == was.layers@.take(i as int).map_values(
                    |l: GpuLayer| was.rank_layer(l),
                ),
            decreases self.layers@.len() - i,
        {
            proof {
                assert(was.layer_divides(was.layers@[i as int]));
            }
            layers.push(self.tp_shard_layer(self.layers[i]));
            i = i + 1;
            proof {
                assert(layers@ =~= was.layers@.take(i as int).map_values(
                    |l: GpuLayer| was.rank_layer(l),
                ));
            }
        }
        self.layers = layers;
        proof {
            assert(was.layers@.take(was.layers@.len() as int) =~= was.layers@);
        }
    }

    /// Joins a rank to the other one: divides the trunk, and settles how many bytes every reduction
    /// carries and whether as f32. A payload that does not fit a link slot is refused: the slot size is
    /// baked into captured graphs, so it cannot grow later. A single engine stays as it is.
    pub fn attach_tp(&mut self, rank: i32, world: i32, slot_bytes: usize) -> (r: Result<
        Option<(usize, bool)>,
        usize,
    >)
        requires
            ({
                let m = old(self).joined(rank, world);
                world == 2 ==> {
                    &&& AttnIn::spec_fused_m(&m.cfg) <= usize::MAX
                    &&& m.cfg.spec_key_dim() * 2 + 2 * m.cfg.spec_value_dim() + 2
                        * m.cfg.lin_num_v_heads <= usize::MAX
                    &&& 0 <= m.cfg.spec_key_dim()
                    &&& 0 <= m.cfg.spec_value_dim()
                    &&& m.cfg.hidden_size * m.tp.probe_batch * 4 <= usize::MAX
                    &&& forall|i: int|
                        0 <= i < m.layers@.len() ==> #[trigger] m.layer_divides(m.layers@[i])
                }
            }),
        ensures
            ({
                let m = old(self).joined(rank, world);
                let width = if m.fp32_on() {
                    4int
                } else {
                    2int
                };
                let bytes = m.cfg.hidden_size * m.tp.probe_batch * width;
                &&& final(self).tp == m.tp
                &&& final(self).cfg == m.cfg
                &&& final(self).mtp == m.mtp
                &&& final(self).embed == m.embed
                &&& final(self).lm_head == m.lm_head
                &&& final(self).draft_head == m.draft_head
                &&& final(self).draft_ids == m.draft_ids
                &&& final(self).knobs == m.knobs
                &&& world != 2 ==> r == Ok::<Option<(usize, bool)>, usize>(None) && final(self).layers
                    == m.layers
                &&& world == 2 ==> {
                    &&& final(self).layers@ == m.layers@.map_values(|l: GpuLayer| m.rank_layer(l))
                    &&& r == (if bytes <= slot_bytes {
                        Ok::<Option<(usize, bool)>, usize>(Some((bytes as usize, m.fp32_on())))
                    } else {
                        Err::<Option<(usize, bool)>, usize>(bytes as usize)
                    })
                }
            }),
    {
        let ghost m = self.joined(rank, world);
        self.tp.rank = rank;
        self.tp.world = world;
        proof {
            assert(*self == m);
        }
        if world != 2 {
            return Ok(None);
        }
        let fp32: bool = self.tp_fp32_partials();
        proof {
            let x = self.cfg.hidden_size * self.tp.probe_batch;
            assert(0 <= x) by (nonlinear_arith)
                requires
                    x == self.cfg.hidden_size * self.tp.probe_batch,
            ;
        }
        let elems: usize = self.cfg.hidden_size * self.tp.probe_batch;
        let bytes: usize = if fp32 {
            elems * 4
        } else {
            elems * 2
        };
        self.tp_shard_weights();
        if bytes <= slot_bytes {
            Ok(Some((bytes, fp32)))
        } else {
            Err(bytes)
        }
    }

    /// The model with a rank and a world.
    pub open spec fn joined(&self, rank: i32, world: i32) -> GpuModel {
        GpuModel {
            cfg: self.cfg,
            embed: self.embed,
            lm_head: self.lm_head,
            layers: self.layers,
            mtp: self.mtp,
            draft_head: self.draft_head,
            draft_ids: self.draft_ids,
            tp: TpSettings { rank, world, ..self.tp },
            knobs: self.knobs,
        }
    }

    /// The rows that a rank keeps of the fused projections are exactly those that its kernels ask for:
    /// the heads that halve do, and the rows that cannot be halved at tile granularity stay.
    pub proof fn law_parts_match_the_kernels(&self)
        requires
            self.mixers_sharded(),
            self.cfg.num_heads % 2 == 0,
            self.cfg.num_kv_heads % 2 == 0,
            self.cfg.lin_num_v_heads % 2 == 0,
            self.cfg.lin_num_k_heads % 2 == 0,
            AttnIn::spec_fused_m(&self.cfg) <= usize::MAX,
            GdnIn::spec_fused_m(&self.cfg) <= usize::MAX,
        ensures
            rows_kept(self.qkv_runs()) == self.heads() * self.cfg.head_dim * 2 + 2 * (
            self.kv_heads() * self.cfg.head_dim),
            rows_kept(
                gdn_runs(
                    self.cfg.spec_key_dim(),
                    self.cfg.spec_value_dim(),
                    self.cfg.lin_num_v_heads as int,
                ),
            ) == self.gdn_fused_m(),
    {
        let c = &self.cfg;
        let (nh, nkv, hd) = (c.num_heads as int, c.num_kv_heads as int, c.head_dim as int);
        let (nv, nk) = (c.lin_num_v_heads as int, c.lin_num_k_heads as int);
        let (kd, vd) = (c.lin_k_dim as int, c.lin_v_dim as int);
        lemma_half(nh, hd);
        lemma_half(nkv, hd);
        lemma_half(nv, vd);
        lemma_half(nk, kd);
        assert(nh * hd * 2 == 2 * (nh * hd));
        assert(2 * nkv * hd == 2 * (nkv * hd)) by (nonlinear_arith);
        lemma_three(self.qkv_runs());
        let g = gdn_runs(c.spec_key_dim(), c.spec_value_dim(), nv);
        let a = g.take(3);
        lemma_three(a);
        let b = g.take(4);
        assert(b.drop_last() =~= a);
        let d = g.take(5);
        assert(d.drop_last() =~= b);
        assert(g.drop_last() =~= d);
        assert(b.last() == g[3] && d.last() == g[4] && g.last() == g[5]);
        assert(kd * (nk / 2) == nk / 2 * kd && vd * (nv / 2) == nv / 2 * vd) by (nonlinear_arith);
        assert(rows_kept(a) == nk / 2 * kd * 2 + nv / 2 * vd);
        assert(rows_kept(b) == rows_kept(a) + seg_take(g[3]));
        assert(rows_kept(d) == rows_kept(b) + nv);
        assert(rows_kept(g) == rows_kept(d) + nv);
    }
}

proof fn lemma_half(n: int, d: int)
    requires
        n % 2 == 0,
        n >= 0,
        d >= 0,
    ensures
        n * d / 2 == n / 2 * d,
        n * d == 2 * (n / 2 * d),
        0 <= n * d,
{
    let h = n / 2;
    assert(n == 2 * h);
    assert(2 * h * d == 2 * (h * d)) by (nonlinear_arith);
    assert(0 <= h * d) by (nonlinear_arith)
        requires
            h >= 0,
            d >= 0,
    ;
}

proof fn lemma_three(s: Seq<Segment>)
    requires
        s.len() == 3,
    ensures
        rows_kept(s) == seg_take(s[0]) + seg_take(s[1]) + seg_take(s[2]),
{
    let b = s.drop_last();
    let a = b.drop_last();
    reveal_with_fuel(rows_kept, 4);
    assert(s.last() == s[2] && b.last() == s[1] && a.last() == s[0]);
}

} // verus!
