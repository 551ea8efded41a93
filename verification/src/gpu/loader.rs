//! Putting a model together from the tensors of a checkpoint.
use vstd::prelude::*;

use crate::checkpoint::{kept_in_f32, Catalog, Class, FaultView, LoadFault, Piece};
use crate::config::{Config, LayerType};
use crate::gpu::model::{
    AttnIn, Ffn, GdnIn, GpuFullAttn, GpuLayer, GpuLinearAttn, GpuMlp, GpuModel, GpuMoe,
    GpuMtpLayer, Knobs, TpSettings, W,
};
use crate::gpu::program::{Block, BlockVec, Proj, WeightId};
use crate::seqs::flat;
use crate::text::{
    append, contains_text, decimal, has_suffix, occurs_at, string_of, texts, to_decimal,
};
use crate::vocab::{draft_rows_of, draft_vocab_rows};

verus! {

// ---- names ----

/// What the names of a block's tensors begin with.
pub open spec fn block_prefix(b: Block) -> Seq<char> {
    match b {
        Block::Layer(i) => "model.language_model.layers."@ + decimal(i as nat),
        Block::Mtp => "mtp.layers.0"@,
    }
}

/// What follows the prefix in the name of a projection; `quantized` says whether stacked experts were
/// packed, which names them as weights.
pub open spec fn proj_suffix(p: Proj, quantized: bool) -> Seq<char> {
    match p {
        Proj::Q => ".self_attn.q_proj.weight"@,
        Proj::K => ".self_attn.k_proj.weight"@,
        Proj::V => ".self_attn.v_proj.weight"@,
        Proj::O => ".self_attn.o_proj.weight"@,
        Proj::GdnQkv => ".linear_attn.in_proj_qkv.weight"@,
        Proj::GdnZ => ".linear_attn.in_proj_z.weight"@,
        Proj::GdnB => ".linear_attn.in_proj_b.weight"@,
        Proj::GdnA => ".linear_attn.in_proj_a.weight"@,
        Proj::GdnOut => ".linear_attn.out_proj.weight"@,
        Proj::Gate => ".mlp.gate_proj.weight"@,
        Proj::Up => ".mlp.up_proj.weight"@,
        Proj::Down => ".mlp.down_proj.weight"@,
        Proj::Router => ".mlp.gate.weight"@,
        Proj::ExpertGateUp => if quantized {
            ".mlp.experts.gate_up_proj.weight"@
        } else {
            ".mlp.experts.gate_up_proj"@
        },
        Proj::ExpertDown => if quantized {
            ".mlp.experts.down_proj.weight"@
        } else {
            ".mlp.experts.down_proj"@
        },
        Proj::SharedGateProj => ".mlp.shared_expert.gate_proj.weight"@,
        Proj::SharedUp => ".mlp.shared_expert.up_proj.weight"@,
        Proj::SharedDown => ".mlp.shared_expert.down_proj.weight"@,
        Proj::SharedGate => ".mlp.shared_expert_gate.weight"@,
        Proj::Qkv | Proj::GdnIn | Proj::Fc => Seq::empty(),
    }
}

/// The single projections that a projection is made of.
pub open spec fn parts_of(p: Proj) -> Seq<Proj> {
    match p {
        Proj::Qkv => seq![Proj::Q, Proj::K, Proj::V],
        Proj::GdnIn => seq![Proj::GdnQkv, Proj::GdnZ, Proj::GdnB, Proj::GdnA],
        _ => seq![p],
    }
}

/// The tensors that a weight is made of, joined row-wise in this order.
pub open spec fn weight_names(id: WeightId, tied: bool, quantized: bool) -> Seq<Seq<char>> {
    match id {
        WeightId::Embed => seq!["model.language_model.embed_tokens.weight"@],
        WeightId::LmHead => seq!["lm_head.weight"@],
        WeightId::DraftHead => seq![
            if tied {
                "model.language_model.embed_tokens.weight"@
            } else {
                "lm_head.weight"@
            },
        ],
        WeightId::Of(b, p) => if p == Proj::Fc {
            seq!["mtp.fc.weight"@]
        } else {
            parts_of(p).map_values(|q: Proj| block_prefix(b) + proj_suffix(q, quantized))
        },
    }
}

/// The tensor of a block's small vector.
pub open spec fn vector_name_of(b: Block, v: BlockVec) -> Seq<char> {
    match v {
        BlockVec::InputNorm => block_prefix(b) + ".input_layernorm.weight"@,
        BlockVec::PostNorm => block_prefix(b) + ".post_attention_layernorm.weight"@,
        BlockVec::QNorm => block_prefix(b) + ".self_attn.q_norm.weight"@,
        BlockVec::KNorm => block_prefix(b) + ".self_attn.k_norm.weight"@,
        BlockVec::Conv1d => block_prefix(b) + ".linear_attn.conv1d.weight"@,
        BlockVec::ALog => block_prefix(b) + ".linear_attn.A_log"@,
        BlockVec::DtBias => block_prefix(b) + ".linear_attn.dt_bias"@,
        BlockVec::GdnNorm => block_prefix(b) + ".linear_attn.norm.weight"@,
        BlockVec::PreFcHidden => "mtp.pre_fc_norm_hidden.weight"@,
        BlockVec::PreFcEmbed => "mtp.pre_fc_norm_embedding.weight"@,
        BlockVec::FinalNorm => "mtp.norm.weight"@,
    }
}

fn prefix_text(b: Block) -> (r: String)
    ensures
        r@ == block_prefix(b),
{
    match b {
        Block::Layer(i) => {
            let mut r: String = "model.language_model.layers.".to_owned();
            let n: Vec<char> = to_decimal(i as u64);
            let d: String = string_of(n.as_slice());
            append(&mut r, d.as_str());
            r
        },
        Block::Mtp => "mtp.layers.0".to_owned(),
    }
}

fn suffix_text(p: Proj, quantized: bool) -> (s: &'static str)
    ensures
        p != Proj::Qkv && p != Proj::GdnIn && p != Proj::Fc ==> s@ == proj_suffix(p, quantized),
{
    match p {
        Proj::Q => ".self_attn.q_proj.weight",
        Proj::K => ".self_attn.k_proj.weight",
        Proj::V => ".self_attn.v_proj.weight",
        Proj::O => ".self_attn.o_proj.weight",
        Proj::GdnQkv => ".linear_attn.in_proj_qkv.weight",
        Proj::GdnZ => ".linear_attn.in_proj_z.weight",
        Proj::GdnB => ".linear_attn.in_proj_b.weight",
        Proj::GdnA => ".linear_attn.in_proj_a.weight",
        Proj::GdnOut => ".linear_attn.out_proj.weight",
        Proj::Gate => ".mlp.gate_proj.weight",
        Proj::Up => ".mlp.up_proj.weight",
        Proj::Down => ".mlp.down_proj.weight",
        Proj::Router => ".mlp.gate.weight",
        Proj::ExpertGateUp => if quantized {
            ".mlp.experts.gate_up_proj.weight"
        } else {
            ".mlp.experts.gate_up_proj"
        },
        Proj::ExpertDown => if quantized {
            ".mlp.experts.down_proj.weight"
        } else {
            ".mlp.experts.down_proj"
        },
        Proj::SharedGateProj => ".mlp.shared_expert.gate_proj.weight",
        Proj::SharedUp => ".mlp.shared_expert.up_proj.weight",
        Proj::SharedDown => ".mlp.shared_expert.down_proj.weight",
        Proj::SharedGate => ".mlp.shared_expert_gate.weight",
        Proj::Qkv | Proj::GdnIn | Proj::Fc => "",
    }
}

fn named(b: Block, suffix: &str) -> (r: String)
    ensures
        r@ == block_prefix(b) + suffix@,
{
    let mut r: String = prefix_text(b);
    append(&mut r, suffix);
    r
}

/// The tensors that a weight is made of, joined row-wise in this order.
pub fn tensor_names(id: WeightId, tied: bool, quantized: bool) -> (r: Vec<String>)
    ensures
        texts(r@) == weight_names(id, tied, quantized),
        r@.len() >= 1,
{
    let r: Vec<String> = match id {
        WeightId::Embed => vec!["model.language_model.embed_tokens.weight".to_owned()],
        WeightId::LmHead => vec!["lm_head.weight".to_owned()],
        WeightId::DraftHead => if tied {
            vec!["model.language_model.embed_tokens.weight".to_owned()]
        } else {
            vec!["lm_head.weight".to_owned()]
        },
        WeightId::Of(b, p) => match p {
            Proj::Fc => vec!["mtp.fc.weight".to_owned()],
            Proj::Qkv => vec![
                named(b, suffix_text(Proj::Q, quantized)),
                named(b, suffix_text(Proj::K, quantized)),
                named(b, suffix_text(Proj::V, quantized)),
            ],
            Proj::GdnIn => vec![
                named(b, suffix_text(Proj::GdnQkv, quantized)),
                named(b, suffix_text(Proj::GdnZ, quantized)),
                named(b, suffix_text(Proj::GdnB, quantized)),
                named(b, suffix_text(Proj::GdnA, quantized)),
            ],
            _ => vec![named(b, suffix_text(p, quantized))],
        },
    };
    proof {
        assert(texts(r@) =~= weight_names(id, tied, quantized));
    }
    r
}

/// The tensor of a block's small vector.
pub fn vector_name(b: Block, v: BlockVec) -> (r: String)
    ensures
        r@ == vector_name_of(b, v),
{
    match v {
        BlockVec::InputNorm => named(b, ".input_layernorm.weight"),
        BlockVec::PostNorm => named(b, ".post_attention_layernorm.weight"),
        BlockVec::QNorm => named(b, ".self_attn.q_norm.weight"),
        BlockVec::KNorm => named(b, ".self_attn.k_norm.weight"),
        BlockVec::Conv1d => named(b, ".linear_attn.conv1d.weight"),
        BlockVec::ALog => named(b, ".linear_attn.A_log"),
        BlockVec::DtBias => named(b, ".linear_attn.dt_bias"),
        BlockVec::GdnNorm => named(b, ".linear_attn.norm.weight"),
        BlockVec::PreFcHidden => "mtp.pre_fc_norm_hidden.weight".to_owned(),
        BlockVec::PreFcEmbed => "mtp.pre_fc_norm_embedding.weight".to_owned(),
        BlockVec::FinalNorm => "mtp.norm.weight".to_owned(),
    }
}


// ---- formats ----

/// Rows and row length of a quantized weight.
pub open spec fn piece_shape(p: Piece) -> (nat, nat) {
    match p {
        Piece::Nvfp4 { m, k, .. } => (m as nat, k as nat),
        Piece::Fp8 { m, k, .. } => (m as nat, k as nat),
        _ => (0, 0),
    }
}

/// Rows and row length of the weight called `key` under `class`.
pub open spec fn stored_shape(cat: &Catalog, class: Class, key: Seq<char>) -> (nat, nat) {
    piece_shape(cat.all()[choose|i: int| cat.is_latest(class, key, i)].piece)
}

/// Rows of the first `n` tensors together, or the first that is missing.
pub open spec fn joined_rows(cat: &Catalog, class: Class, names: Seq<Seq<char>>, n: nat) -> Result<
    nat,
    FaultView,
>
    decreases n,
{
    if n == 0 {
        Ok(0)
    } else {
        match joined_rows(cat, class, names, (n - 1) as nat) {
            Err(e) => Err(e),
            Ok(m) => if cat.has(class, names[n - 1]) {
                Ok(m + stored_shape(cat, class, names[n - 1]).0)
            } else {
                Err(FaultView::Missing(class, names[n - 1]))
            },
        }
    }
}

/// The format of a weight joined from quantized tensors.
pub open spec fn joined_format(cat: &Catalog, class: Class, names: Seq<Seq<char>>) -> Result<
    W,
    FaultView,
> {
    match joined_rows(cat, class, names, names.len()) {
        Err(e) => Err(e),
        Ok(m) => if m > usize::MAX {
            Err(FaultView::Malformed(names[0]))
        } else {
            let k = stored_shape(cat, class, names[0]).1 as usize;
            if class == Class::Nvfp4 {
                Ok(W::Nvfp4 { m: m as usize, k })
            } else {
                Ok(W::Fp8 { m: m as usize, k })
            }
        },
    }
}

/// The format of the weight that the named tensors make up. The first decides the class; tensors of
/// sixteen bits are not joined.
pub open spec fn format_of(cat: &Catalog, names: Seq<Seq<char>>) -> Result<W, FaultView> {
    if cat.has(Class::Nvfp4, names[0]) {
        joined_format(cat, Class::Nvfp4, names)
    } else if cat.has(Class::Fp8, names[0]) {
        joined_format(cat, Class::Fp8, names)
    } else if names.len() != 1 {
        Err(FaultView::Unfused(names[0]))
    } else if cat.has(Class::Bf16, names[0]) {
        Ok(W::Bf16)
    } else {
        Err(FaultView::Missing(Class::Bf16, names[0]))
    }
}

proof fn lemma_latest(cat: &Catalog, class: Class, key: Seq<char>, i: int)
    requires
        cat.is_latest(class, key, i),
    ensures
        cat.has(class, key),
        stored_shape(cat, class, key) == piece_shape(cat.all()[i].piece),
{
    let k = choose|k: int| cat.is_latest(class, key, k);
    assert(cat.is_latest(class, key, k));
    if i < k {
        assert(!cat.is_at(class, key, k));
    }
    if k < i {
        assert(!cat.is_at(class, key, i));
    }
}

fn join(cat: &Catalog, class: Class, names: &[String]) -> (r: Result<W, LoadFault>)
    requires
        class == Class::Nvfp4 || class == Class::Fp8,
        names.len() >= 1,
    ensures
        match r {
            Ok(w) => joined_format(cat, class, texts(names@)) == Ok::<W, FaultView>(w),
            Err(e) => joined_format(cat, class, texts(names@)) == Err::<W, FaultView>(e@),
        },
{
    let ghost ns = texts(names@);
    let mut m: Option<usize> = Some(0);
    let mut k: usize = 0;
    let mut i: usize = 0;
    while i < names.len()
        invariant
            i <= names.len(),
            ns == texts(names@),
            joined_rows(cat, class, ns, i as nat) is Ok,
            match m {
                Some(x) => joined_rows(cat, class, ns, i as nat)->Ok_0 == x,
                None => joined_rows(cat, class, ns, i as nat)->Ok_0 > usize::MAX,
            },
            i >= 1 ==> k == stored_shape(cat, class, ns[0]).1,
        decreases names.len() - i,
    {
        match cat.find(class, &names[i]) {
            None => {
                proof {
                    lemma_rows_stop(cat, class, ns, (i + 1) as nat, ns.len());
                }
                return Err(LoadFault::Missing(class, names[i].clone()));
            },
            Some(j) => {
                proof {
                    lemma_latest(cat, class, ns[i as int], j as int);
                }
                let (pm, pk): (usize, usize) = match cat.items[j].piece {
                    Piece::Nvfp4 { m, k, .. } => (m, k),
                    Piece::Fp8 { m, k, .. } => (m, k),
                    _ => (0, 0),
                };
                if i == 0 {
                    k = pk;
                }
                m = match m {
                    Some(x) => x.checked_add(pm),
                    None => None,
                };
            },
        }
        i = i + 1;
    }
    match m {
        None => {
            let e: LoadFault = LoadFault::Malformed(names[0].clone());
            Err(e)
        },
        Some(x) => if class == Class::Nvfp4 {
            Ok(W::Nvfp4 { m: x, k })
        } else {
            Ok(W::Fp8 { m: x, k })
        },
    }
}

proof fn lemma_rows_stop(cat: &Catalog, class: Class, names: Seq<Seq<char>>, k: nat, n: nat)
    requires
        k <= n,
        joined_rows(cat, class, names, k) is Err,
    ensures
        joined_rows(cat, class, names, n) == joined_rows(cat, class, names, k),
    decreases n,
{
    if k < n {
        lemma_rows_stop(cat, class, names, k, (n - 1) as nat);
    }
}

/// The format of the weight that the named tensors make up.
pub fn weight_format(cat: &Catalog, names: &[String]) -> (r: Result<W, LoadFault>)
    requires
        names.len() >= 1,
    ensures
        match r {
            Ok(w) => format_of(cat, texts(names@)) == Ok::<W, FaultView>(w),
            Err(e) => format_of(cat, texts(names@)) == Err::<W, FaultView>(e@),
        },
{
    proof {
        assert(texts(names@)[0] == names@[0]@);
    }
    if let Some(i) = cat.find(Class::Nvfp4, &names[0]) {
        proof {
            lemma_latest(cat, Class::Nvfp4, names@[0]@, i as int);
        }
        return join(cat, Class::Nvfp4, names);
    }
    if let Some(i) = cat.find(Class::Fp8, &names[0]) {
        proof {
            lemma_latest(cat, Class::Fp8, names@[0]@, i as int);
        }
        return join(cat, Class::Fp8, names);
    }
    if names.len() != 1 {
        return Err(LoadFault::Unfused(names[0].clone()));
    }
    match cat.find(Class::Bf16, &names[0]) {
        Some(i) => {
            proof {
                lemma_latest(cat, Class::Bf16, names@[0]@, i as int);
            }
            Ok(W::Bf16)
        },
        None => Err(LoadFault::Missing(Class::Bf16, names[0].clone())),
    }
}


// ---- what a model asks for ----

/// One thing that a model asks of a checkpoint.
#[derive(Clone, Copy, PartialEq, Eq, Structural)]
pub enum Request {
    /// A weight; the flag says whether stacked experts were packed.
    Weight(WeightId, bool),
    Vector(Block, BlockVec),
    FinalNorm,
}

/// Attention tensors of a block.
pub open spec fn attn_requests(b: Block, fuse: bool) -> Seq<Request> {
    (if fuse {
        seq![Request::Weight(WeightId::Of(b, Proj::Qkv), true)]
    } else {
        seq![
            Request::Weight(WeightId::Of(b, Proj::Q), false),
            Request::Weight(WeightId::Of(b, Proj::K), false),
            Request::Weight(WeightId::Of(b, Proj::V), false),
        ]
    }) + seq![
        Request::Weight(WeightId::Of(b, Proj::O), fuse),
        Request::Vector(b, BlockVec::QNorm),
        Request::Vector(b, BlockVec::KNorm),
    ]
}

/// Linear-attention tensors of a block.
pub open spec fn gdn_requests(b: Block, fuse: bool) -> Seq<Request> {
    (if fuse {
        seq![Request::Weight(WeightId::Of(b, Proj::GdnIn), true)]
    } else {
        seq![
            Request::Weight(WeightId::Of(b, Proj::GdnQkv), false),
            Request::Weight(WeightId::Of(b, Proj::GdnZ), false),
            Request::Weight(WeightId::Of(b, Proj::GdnB), false),
            Request::Weight(WeightId::Of(b, Proj::GdnA), false),
        ]
    }) + seq![
        Request::Vector(b, BlockVec::Conv1d),
        Request::Vector(b, BlockVec::ALog),
        Request::Vector(b, BlockVec::DtBias),
        Request::Vector(b, BlockVec::GdnNorm),
        Request::Weight(WeightId::Of(b, Proj::GdnOut), fuse),
    ]
}

/// Feed-forward tensors of a block.
pub open spec fn ffn_requests(b: Block, moe: bool, q: bool) -> Seq<Request> {
    if moe {
        seq![
            Request::Weight(WeightId::Of(b, Proj::Router), q),
            Request::Weight(WeightId::Of(b, Proj::ExpertGateUp), q),
            Request::Weight(WeightId::Of(b, Proj::ExpertDown), q),
            Request::Weight(WeightId::Of(b, Proj::SharedGateProj), q),
            Request::Weight(WeightId::Of(b, Proj::SharedUp), q),
            Request::Weight(WeightId::Of(b, Proj::SharedDown), q),
            Request::Weight(WeightId::Of(b, Proj::SharedGate), q),
        ]
    } else {
        seq![
            Request::Weight(WeightId::Of(b, Proj::Gate), q),
            Request::Weight(WeightId::Of(b, Proj::Up), q),
            Request::Weight(WeightId::Of(b, Proj::Down), q),
        ]
    }
}

/// Layer `i` has experts.
pub open spec fn moe_at(cfg: &Config, i: int) -> bool {
    cfg.is_moe && i < cfg.moe_layers@.len() && cfg.moe_layers@[i]
}

/// Tensors of layer `i`.
pub open spec fn layer_requests(cfg: &Config, q: bool, i: int) -> Seq<Request> {
    let b = Block::Layer(i as usize);
    (match cfg.layer_types@[i] {
        LayerType::LinearAttention => gdn_requests(b, q),
        LayerType::FullAttention => attn_requests(b, q),
    }) + ffn_requests(b, moe_at(cfg, i), q) + seq![
        Request::Vector(b, BlockVec::InputNorm),
        Request::Vector(b, BlockVec::PostNorm),
    ]
}

/// Tensors of the draft head.
pub open spec fn mtp_requests(cfg: &Config, q: bool) -> Seq<Request> {
    seq![
        Request::Weight(WeightId::Of(Block::Mtp, Proj::Fc), q),
        Request::Vector(Block::Mtp, BlockVec::PreFcHidden),
        Request::Vector(Block::Mtp, BlockVec::PreFcEmbed),
        Request::Vector(Block::Mtp, BlockVec::InputNorm),
        Request::Vector(Block::Mtp, BlockVec::PostNorm),
    ] + attn_requests(Block::Mtp, q) + ffn_requests(Block::Mtp, cfg.is_moe, q) + seq![
        Request::Vector(Block::Mtp, BlockVec::FinalNorm),
    ]
}

/// A checkpoint from which a model is put together.
pub struct Loader<'a> {
    pub cat: &'a Catalog,
    /// The embedding doubles as the output head.
    pub tied: bool,
}

impl<'a> Loader<'a> {
    /// The format of a weight.
    pub open spec fn format(&self, id: WeightId, q: bool) -> Result<W, FaultView> {
        format_of(self.cat, weight_names(id, self.tied, q))
    }

    /// The format of a weight that is there.
    pub open spec fn w(&self, id: WeightId, q: bool) -> W {
        self.format(id, q)->Ok_0
    }

    /// A projection that is there.
    pub open spec fn p(&self, b: Block, p: Proj, q: bool) -> W {
        self.w(WeightId::Of(b, p), q)
    }

    /// Why a request cannot be met.
    pub open spec fn fault(&self, r: Request) -> Option<FaultView> {
        match r {
            Request::Weight(id, q) => match self.format(id, q) {
                Ok(_) => None,
                Err(e) => Some(e),
            },
            Request::Vector(b, v) => if self.cat.has(Class::F32, vector_name_of(b, v)) {
                None
            } else {
                Some(FaultView::Missing(Class::F32, vector_name_of(b, v)))
            },
            Request::FinalNorm => if self.cat.has(
                Class::F32,
                "model.language_model.norm.weight"@,
            ) {
                None
            } else {
                Some(FaultView::Missing(Class::F32, "model.language_model.norm.weight"@))
            },
        }
    }

    /// The first request that cannot be met.
    pub open spec fn first_fault(&self, rs: Seq<Request>) -> Option<FaultView>
        decreases rs.len(),
    {
        if rs.len() == 0 {
            None
        } else {
            match self.first_fault(rs.drop_last()) {
                Some(e) => Some(e),
                None => self.fault(rs.last()),
            }
        }
    }

    /// Faults of two lists in turn.
    pub proof fn lemma_first_fault_concat(&self, a: Seq<Request>, b: Seq<Request>)
        ensures
            self.first_fault(a + b) == (match self.first_fault(a) {
                Some(e) => Some(e),
                None => self.first_fault(b),
            }),
        decreases b.len(),
    {
        if b.len() == 0 {
            assert(a + b =~= a);
        } else {
            assert((a + b).drop_last() =~= a + b.drop_last());
            self.lemma_first_fault_concat(a, b.drop_last());
        }
    }

    /// Without a fault every request is met.
    proof fn lemma_no_fault(&self, rs: Seq<Request>)
        requires
            self.first_fault(rs) is None,
        ensures
            forall|i: int| 0 <= i < rs.len() ==> self.fault(#[trigger] rs[i]) is None,
        decreases rs.len(),
    {
        if rs.len() > 0 {
            let d = rs.drop_last();
            self.lemma_no_fault(d);
            assert forall|i: int| 0 <= i < rs.len() implies self.fault(#[trigger] rs[i]) is None by {
                if i < rs.len() - 1 {
                    assert(d[i] == rs[i]);
                }
            }
        }
    }

    /// The attention of a block.
    pub open spec fn attn_of(&self, b: Block, fuse: bool) -> GpuFullAttn {
        GpuFullAttn {
            qkv: if fuse {
                AttnIn::Fused(self.p(b, Proj::Qkv, true))
            } else {
                AttnIn::Split {
                    q: self.p(b, Proj::Q, false),
                    k: self.p(b, Proj::K, false),
                    v: self.p(b, Proj::V, false),
                }
            },
            o_proj: self.p(b, Proj::O, fuse),
        }
    }

    /// The linear attention of a block.
    pub open spec fn gdn_of(&self, b: Block, fuse: bool) -> GpuLinearAttn {
        GpuLinearAttn {
            in_proj: if fuse {
                GdnIn::Fused(self.p(b, Proj::GdnIn, true))
            } else {
                GdnIn::Split {
                    qkv: self.p(b, Proj::GdnQkv, false),
                    z: self.p(b, Proj::GdnZ, false),
                    b: self.p(b, Proj::GdnB, false),
                    a: self.p(b, Proj::GdnA, false),
                }
            },
            out_proj: self.p(b, Proj::GdnOut, fuse),
        }
    }

    /// The feed-forward part of a block.
    pub open spec fn ffn_of(&self, b: Block, moe: bool, q: bool) -> Ffn {
        if moe {
            Ffn::Moe(
                GpuMoe {
                    router: self.p(b, Proj::Router, q),
                    gate_up: self.p(b, Proj::ExpertGateUp, q),
                    down: self.p(b, Proj::ExpertDown, q),
                    shared: GpuMlp {
                        gate: self.p(b, Proj::SharedGateProj, q),
                        up: self.p(b, Proj::SharedUp, q),
                        down: self.p(b, Proj::SharedDown, q),
                    },
                    shared_gate: self.p(b, Proj::SharedGate, q),
                    experts_sharded: false,
                },
            )
        } else {
            Ffn::Dense(
                GpuMlp {
                    gate: self.p(b, Proj::Gate, q),
                    up: self.p(b, Proj::Up, q),
                    down: self.p(b, Proj::Down, q),
                },
            )
        }
    }

    /// Layer `i`.
    pub open spec fn layer_of(&self, cfg: &Config, q: bool, i: int) -> GpuLayer {
        let b = Block::Layer(i as usize);
        let t = cfg.layer_types@[i];
        GpuLayer {
            layer_type: t,
            la: if t == LayerType::LinearAttention {
                Some(self.gdn_of(b, q))
            } else {
                None
            },
            fa: if t == LayerType::FullAttention {
                Some(self.attn_of(b, q))
            } else {
                None
            },
            mlp: self.ffn_of(b, moe_at(cfg, i), q),
        }
    }

    /// The draft head.
    pub open spec fn mtp_of(&self, cfg: &Config, q: bool) -> GpuMtpLayer {
        GpuMtpLayer {
            fc: self.p(Block::Mtp, Proj::Fc, q),
            fa: self.attn_of(Block::Mtp, q),
            mlp: self.ffn_of(Block::Mtp, cfg.is_moe, q),
        }
    }

    fn check(&self, r: Request) -> (f: Option<LoadFault>)
        ensures
            match f {
                None => self.fault(r) is None,
                Some(e) => self.fault(r) == Some(e@),
            },
    {
        match r {
            Request::Weight(id, q) => {
                let names: Vec<String> = tensor_names(id, self.tied, q);
                match weight_format(self.cat, names.as_slice()) {
                    Ok(_) => None,
                    Err(e) => Some(e),
                }
            },
            Request::Vector(b, v) => self.check_vector(vector_name(b, v)),
            Request::FinalNorm => self.check_vector("model.language_model.norm.weight".to_owned()),
        }
    }

    fn check_vector(&self, name: String) -> (f: Option<LoadFault>)
        ensures
            match f {
                None => self.cat.has(Class::F32, name@),
                Some(e) => !self.cat.has(Class::F32, name@) && e@ == FaultView::Missing(
                    Class::F32,
                    name@,
                ),
            },
    {
        match self.cat.find(Class::F32, &name) {
            Some(i) => {
                proof {
                    lemma_latest(self.cat, Class::F32, name@, i as int);
                }
                None
            },
            None => Some(LoadFault::Missing(Class::F32, name)),
        }
    }

    /// The first request that cannot be met.
    pub fn check_all(&self, rs: &[Request]) -> (f: Option<LoadFault>)
        ensures
            match f {
                None => self.first_fault(rs@) is None,
                Some(e) => self.first_fault(rs@) == Some(e@),
            },
    {
        let mut i: usize = 0;
        while i < rs.len()
            invariant
                i <= rs.len(),
                self.first_fault(rs@.take(i as int)) is None,
            decreases rs.len() - i,
        {
            proof {
                let a = rs@.take(i as int);
                let b = rs@.skip(i + 1);
                assert(rs@.take(i + 1) =~= a.push(rs@[i as int]));
                assert(rs@.take(i + 1).drop_last() =~= a);
                assert(rs@ =~= rs@.take(i + 1) + b);
                self.lemma_first_fault_concat(rs@.take(i + 1), b);
            }
            if let Some(e) = self.check(rs[i]) {
                return Some(e);
            }
            i = i + 1;
        }
        proof {
            assert(rs@.take(rs@.len() as int) =~= rs@);
        }
        None
    }

    fn get(&self, id: WeightId, q: bool) -> (w: W)
        requires
            self.fault(Request::Weight(id, q)) is None,
        ensures
            w == self.w(id, q),
    {
        let names: Vec<String> = tensor_names(id, self.tied, q);
        match weight_format(self.cat, names.as_slice()) {
            Ok(w) => w,
            Err(_) => W::Bf16,
        }
    }

    fn load_attn(&self, b: Block, fuse: bool) -> (r: Result<GpuFullAttn, LoadFault>)
        ensures
            match r {
                Ok(a) => self.first_fault(attn_requests(b, fuse)) is None && a == self.attn_of(
                    b,
                    fuse,
                ),
                Err(e) => self.first_fault(attn_requests(b, fuse)) == Some(e@),
            },
    {
        let o: Request = Request::Weight(WeightId::Of(b, Proj::O), fuse);
        let qn: Request = Request::Vector(b, BlockVec::QNorm);
        let kn: Request = Request::Vector(b, BlockVec::KNorm);
        let rs: Vec<Request> = if fuse {
            vec![Request::Weight(WeightId::Of(b, Proj::Qkv), true), o, qn, kn]
        } else {
            vec![
                Request::Weight(WeightId::Of(b, Proj::Q), false),
                Request::Weight(WeightId::Of(b, Proj::K), false),
                Request::Weight(WeightId::Of(b, Proj::V), false),
                o,
                qn,
                kn,
            ]
        };
        proof {
            assert(rs@ =~= attn_requests(b, fuse));
        }
        if let Some(e) = self.check_all(rs.as_slice()) {
            return Err(e);
        }
        proof {
            self.lemma_no_fault(rs@);
            assert(self.fault(rs@[0]) is None);
            assert(self.fault(rs@[1]) is None);
            if !fuse {
                assert(self.fault(rs@[2]) is None);
                assert(self.fault(rs@[3]) is None);
            }
        }
        let qkv: AttnIn = if fuse {
            AttnIn::Fused(self.get(WeightId::Of(b, Proj::Qkv), true))
        } else {
            AttnIn::Split {
                q: self.get(WeightId::Of(b, Proj::Q), false),
                k: self.get(WeightId::Of(b, Proj::K), false),
                v: self.get(WeightId::Of(b, Proj::V), false),
            }
        };
        Ok(GpuFullAttn { qkv, o_proj: self.get(WeightId::Of(b, Proj::O), fuse) })
    }

    fn load_gdn(&self, b: Block, fuse: bool) -> (r: Result<GpuLinearAttn, LoadFault>)
        ensures
            match r {
                Ok(a) => self.first_fault(gdn_requests(b, fuse)) is None && a == self.gdn_of(
                    b,
                    fuse,
                ),
                Err(e) => self.first_fault(gdn_requests(b, fuse)) == Some(e@),
            },
    {
        let conv: Request = Request::Vector(b, BlockVec::Conv1d);
        let alog: Request = Request::Vector(b, BlockVec::ALog);
        let dt: Request = Request::Vector(b, BlockVec::DtBias);
        let norm: Request = Request::Vector(b, BlockVec::GdnNorm);
        let out: Request = Request::Weight(WeightId::Of(b, Proj::GdnOut), fuse);
        let rs: Vec<Request> = if fuse {
            vec![
                Request::Weight(WeightId::Of(b, Proj::GdnIn), true),
                conv,
                alog,
                dt,
                norm,
                out,
            ]
        } else {
            vec![
                Request::Weight(WeightId::Of(b, Proj::GdnQkv), false),
                Request::Weight(WeightId::Of(b, Proj::GdnZ), false),
                Request::Weight(WeightId::Of(b, Proj::GdnB), false),
                Request::Weight(WeightId::Of(b, Proj::GdnA), false),
                conv,
                alog,
                dt,
                norm,
                out,
            ]
        };
        proof {
            assert(rs@ =~= gdn_requests(b, fuse));
        }
        if let Some(e) = self.check_all(rs.as_slice()) {
            return Err(e);
        }
        proof {
            self.lemma_no_fault(rs@);
            assert(self.fault(rs@[0]) is None);
            assert(self.fault(rs@.last()) is None);
            if !fuse {
                assert(self.fault(rs@[1]) is None);
                assert(self.fault(rs@[2]) is None);
                assert(self.fault(rs@[3]) is None);
            }
        }
        let in_proj: GdnIn = if fuse {
            GdnIn::Fused(self.get(WeightId::Of(b, Proj::GdnIn), true))
        } else {
            GdnIn::Split {
                qkv: self.get(WeightId::Of(b, Proj::GdnQkv), false),
                z: self.get(WeightId::Of(b, Proj::GdnZ), false),
                b: self.get(WeightId::Of(b, Proj::GdnB), false),
                a: self.get(WeightId::Of(b, Proj::GdnA), false),
            }
        };
        Ok(GpuLinearAttn { in_proj, out_proj: self.get(WeightId::Of(b, Proj::GdnOut), fuse) })
    }

    fn load_ffn(&self, b: Block, moe: bool, q: bool) -> (r: Result<Ffn, LoadFault>)
        ensures
            match r {
                Ok(f) => self.first_fault(ffn_requests(b, moe, q)) is None && f == self.ffn_of(
                    b,
                    moe,
                    q,
                ),
                Err(e) => self.first_fault(ffn_requests(b, moe, q)) == Some(e@),
            },
    {
        let rs: Vec<Request> = if moe {
            vec![
                Request::Weight(WeightId::Of(b, Proj::Router), q),
                Request::Weight(WeightId::Of(b, Proj::ExpertGateUp), q),
                Request::Weight(WeightId::Of(b, Proj::ExpertDown), q),
                Request::Weight(WeightId::Of(b, Proj::SharedGateProj), q),
                Request::Weight(WeightId::Of(b, Proj::SharedUp), q),
                Request::Weight(WeightId::Of(b, Proj::SharedDown), q),
                Request::Weight(WeightId::Of(b, Proj::SharedGate), q),
            ]
        } else {
            vec![
                Request::Weight(WeightId::Of(b, Proj::Gate), q),
                Request::Weight(WeightId::Of(b, Proj::Up), q),
                Request::Weight(WeightId::Of(b, Proj::Down), q),
            ]
        };
        proof {
            assert(rs@ =~= ffn_requests(b, moe, q));
        }
        if let Some(e) = self.check_all(rs.as_slice()) {
            return Err(e);
        }
        proof {
            self.lemma_no_fault(rs@);
            assert(self.fault(rs@[0]) is None);
            assert(self.fault(rs@[1]) is None);
            assert(self.fault(rs@[2]) is None);
            if moe {
                assert(self.fault(rs@[3]) is None);
                assert(self.fault(rs@[4]) is None);
                assert(self.fault(rs@[5]) is None);
                assert(self.fault(rs@[6]) is None);
            }
        }
        if moe {
            Ok(
                Ffn::Moe(
                    GpuMoe {
                        router: self.get(WeightId::Of(b, Proj::Router), q),
                        gate_up: self.get(WeightId::Of(b, Proj::ExpertGateUp), q),
                        down: self.get(WeightId::Of(b, Proj::ExpertDown), q),
                        shared: GpuMlp {
                            gate: self.get(WeightId::Of(b, Proj::SharedGateProj), q),
                            up: self.get(WeightId::Of(b, Proj::SharedUp), q),
                            down: self.get(WeightId::Of(b, Proj::SharedDown), q),
                        },
                        shared_gate: self.get(WeightId::Of(b, Proj::SharedGate), q),
                        experts_sharded: false,
                    },
                ),
            )
        } else {
            Ok(
                Ffn::Dense(
                    GpuMlp {
                        gate: self.get(WeightId::Of(b, Proj::Gate), q),
                        up: self.get(WeightId::Of(b, Proj::Up), q),
                        down: self.get(WeightId::Of(b, Proj::Down), q),
                    },
                ),
            )
        }
    }

    fn load_layer(&self, cfg: &Config, q: bool, i: usize) -> (r: Result<GpuLayer, LoadFault>)
        requires
            i < cfg.layer_types@.len(),
        ensures
            match r {
                Ok(l) => self.first_fault(layer_requests(cfg, q, i as int)) is None && l
                    == self.layer_of(cfg, q, i as int),
                Err(e) => self.first_fault(layer_requests(cfg, q, i as int)) == Some(e@),
            },
    {
        let b: Block = Block::Layer(i);
        let t: LayerType = cfg.layer_types[i];
        let ghost mixer = match t {
            LayerType::LinearAttention => gdn_requests(b, q),
            LayerType::FullAttention => attn_requests(b, q),
        };
        let ghost ffn = ffn_requests(b, moe_at(cfg, i as int), q);
        let norms: Vec<Request> = vec![
            Request::Vector(b, BlockVec::InputNorm),
            Request::Vector(b, BlockVec::PostNorm),
        ];
        proof {
            assert(norms@ =~= seq![
                Request::Vector(b, BlockVec::InputNorm),
                Request::Vector(b, BlockVec::PostNorm),
            ]);
            self.lemma_first_fault_concat(mixer, ffn);
            self.lemma_first_fault_concat(mixer + ffn, norms@);
        }
        let mut la: Option<GpuLinearAttn> = None;
        let mut fa: Option<GpuFullAttn> = None;
        match t {
            LayerType::LinearAttention => {
                match self.load_gdn(b, q) {
                    Ok(a) => {
                        la = Some(a);
                    },
                    Err(e) => {
                        return Err(e);
                    },
                }
            },
            LayerType::FullAttention => {
                match self.load_attn(b, q) {
                    Ok(a) => {
                        fa = Some(a);
                    },
                    Err(e) => {
                        return Err(e);
                    },
                }
            },
        }
        let mlp: Ffn = match self.load_ffn(b, cfg.is_moe_layer(i), q) {
            Ok(f) => f,
            Err(e) => {
                return Err(e);
            },
        };
        if let Some(e) = self.check_all(norms.as_slice()) {
            return Err(e);
        }
        Ok(GpuLayer { layer_type: t, la, fa, mlp })
    }

    fn load_mtp(&self, cfg: &Config, q: bool) -> (r: Result<GpuMtpLayer, LoadFault>)
        ensures
            match r {
                Ok(m) => self.first_fault(mtp_requests(cfg, q)) is None && m == self.mtp_of(cfg, q),
                Err(e) => self.first_fault(mtp_requests(cfg, q)) == Some(e@),
            },
    {
        let b: Block = Block::Mtp;
        let head: Vec<Request> = vec![
            Request::Weight(WeightId::Of(Block::Mtp, Proj::Fc), q),
            Request::Vector(Block::Mtp, BlockVec::PreFcHidden),
            Request::Vector(Block::Mtp, BlockVec::PreFcEmbed),
            Request::Vector(Block::Mtp, BlockVec::InputNorm),
            Request::Vector(Block::Mtp, BlockVec::PostNorm),
        ];
        let last: Vec<Request> = vec![Request::Vector(Block::Mtp, BlockVec::FinalNorm)];
        proof {
            let (a, f) = (attn_requests(b, q), ffn_requests(b, cfg.is_moe, q));
            self.lemma_first_fault_concat(head@, a);
            self.lemma_first_fault_concat(head@ + a, f);
            self.lemma_first_fault_concat(head@ + a + f, last@);
            assert(head@ + a + f + last@ =~= mtp_requests(cfg, q));
        }
        if let Some(e) = self.check_all(head.as_slice()) {
            return Err(e);
        }
        let fa: GpuFullAttn = match self.load_attn(b, q) {
            Ok(a) => a,
            Err(e) => {
                return Err(e);
            },
        };
        let mlp: Ffn = match self.load_ffn(b, cfg.is_moe, q) {
            Ok(f) => f,
            Err(e) => {
                return Err(e);
            },
        };
        if let Some(e) = self.check_all(last.as_slice()) {
            return Err(e);
        }
        proof {
            self.lemma_no_fault(head@);
            assert(self.fault(head@[0]) is None);
        }
        Ok(GpuMtpLayer { fc: self.get(WeightId::Of(b, Proj::Fc), q), fa, mlp })
    }

    /// The checkpoint has a draft head that can be run: its projection is there, and its experts, if
    /// any, are stacked.
    pub open spec fn has_mtp(&self, cfg: &Config) -> bool {
        let fc = "mtp.fc.weight"@;
        (self.cat.has(Class::Bf16, fc) || self.cat.has(Class::Nvfp4, fc) || self.cat.has(
            Class::Fp8,
            fc,
        )) && (cfg.is_moe ==> self.cat.has_key_under("mtp.layers.0.mlp.experts.gate_up_proj"@))
    }

    /// The draft head is quantized.
    pub open spec fn mtp_quantized(&self) -> bool {
        self.cat.has(Class::Nvfp4, "mtp.fc.weight"@) || self.cat.has(Class::Fp8, "mtp.fc.weight"@)
    }

    /// Everything that the model asks for, in order.
    pub open spec fn model_requests(&self, cfg: &Config) -> Seq<Request> {
        let q = self.cat.keeps_quantized();
        seq![Request::Weight(WeightId::Embed, q), Request::FinalNorm] + (if self.tied {
            Seq::<Request>::empty()
        } else {
            seq![Request::Weight(WeightId::LmHead, q)]
        }) + flat(cfg.num_layers as nat, |i: int| layer_requests(cfg, q, i)) + (if self.has_mtp(
            cfg,
        ) {
            mtp_requests(cfg, self.mtp_quantized())
        } else {
            Seq::<Request>::empty()
        })
    }

    /// Rows that the draft head keeps.
    pub open spec fn draft_rows(cfg: &Config, top: int) -> Seq<u32> {
        let v = cfg.vocab_size as int;
        draft_rows_of(top, v)
    }

    /// The draft head: some rows of a quantized output head, where there is one and any are asked for.
    pub open spec fn draft_of(&self, cfg: &Config, top: int) -> Option<W> {
        let name = weight_names(WeightId::DraftHead, self.tied, false)[0];
        let m = Self::draft_rows(cfg, top).len() as usize;
        if top == 0 {
            None
        } else if self.cat.has(Class::Nvfp4, name) {
            Some(W::Nvfp4 { m, k: stored_shape(self.cat, Class::Nvfp4, name).1 as usize })
        } else if self.cat.has(Class::Fp8, name) {
            Some(W::Fp8 { m, k: stored_shape(self.cat, Class::Fp8, name).1 as usize })
        } else {
            None
        }
    }

    fn has_name(&self, class: Class, name: &String) -> (b: bool)
        ensures
            b == self.cat.has(class, name@),
    {
        match self.cat.find(class, name) {
            Some(i) => {
                proof {
                    lemma_latest(self.cat, class, name@, i as int);
                }
                true
            },
            None => false,
        }
    }

    /// The draft head and the token ids of its rows.
    pub fn load_draft_head(&self, cfg: &Config, top: usize) -> (r: (Option<W>, Vec<u32>))
        requires
            cfg.vocab_size <= u32::MAX,
        ensures
            r.0 == self.draft_of(cfg, top as int),
            r.1@ == (if r.0 is Some {
                Self::draft_rows(cfg, top as int)
            } else {
                Seq::<u32>::empty()
            }),
    {
        let none: Vec<u32> = Vec::new();
        if top == 0 {
            return (None, none);
        }
        let names: Vec<String> = tensor_names(WeightId::DraftHead, self.tied, false);
        proof {
            assert(texts(names@)[0] == names@[0]@);
        }
        let rows: Vec<u32> = draft_vocab_rows(top, cfg.vocab_size);
        match self.cat.find(Class::Nvfp4, &names[0]) {
            Some(i) => {
                proof {
                    lemma_latest(self.cat, Class::Nvfp4, names@[0]@, i as int);
                }
                let k: usize = match self.cat.items[i].piece {
                    Piece::Nvfp4 { k, .. } => k,
                    Piece::Fp8 { k, .. } => k,
                    _ => 0,
                };
                (Some(W::Nvfp4 { m: rows.len(), k }), rows)
            },
            None => match self.cat.find(Class::Fp8, &names[0]) {
                Some(i) => {
                    proof {
                        lemma_latest(self.cat, Class::Fp8, names@[0]@, i as int);
                    }
                    let k: usize = match self.cat.items[i].piece {
                        Piece::Nvfp4 { k, .. } => k,
                        Piece::Fp8 { k, .. } => k,
                        _ => 0,
                    };
                    (Some(W::Fp8 { m: rows.len(), k }), rows)
                },
                None => (None, none),
            },
        }
    }

    /// Puts the model together, or says what the checkpoint lacks.
    pub fn load_model(&self, cfg: Config, draft_top: usize, tp: TpSettings, knobs: Knobs) -> (r:
        Result<GpuModel, LoadFault>)
        requires
            cfg.num_layers <= cfg.layer_types@.len(),
            cfg.vocab_size <= u32::MAX,
        ensures
            match r {
                Ok(m) => {
                    let q = self.cat.keeps_quantized();
                    &&& self.first_fault(self.model_requests(&cfg)) is None
                    &&& m.cfg == cfg
                    &&& m.embed == self.w(WeightId::Embed, q)
                    &&& m.lm_head == (if self.tied {
                        None
                    } else {
                        Some(self.w(WeightId::LmHead, q))
                    })
                    &&& m.layers@ == Seq::new(
                        cfg.num_layers as nat,
                        |i: int| self.layer_of(&cfg, q, i),
                    )
                    &&& m.mtp == (if self.has_mtp(&cfg) {
                        Some(self.mtp_of(&cfg, self.mtp_quantized()))
                    } else {
                        None
                    })
                    &&& m.draft_head == self.draft_of(&cfg, draft_top as int)
                    &&& m.draft_ids@ == (if m.draft_head is Some {
                        Self::draft_rows(&cfg, draft_top as int)
                    } else {
                        Seq::<u32>::empty()
                    })
                    &&& m.tp == tp
                    &&& m.knobs == knobs
                },
                Err(e) => self.first_fault(self.model_requests(&cfg)) == Some(e@),
            },
    {
        let q: bool = self.cat.quantized();
        let fc: String = "mtp.fc.weight".to_owned();
        let mtp_q: bool = self.has_name(Class::Nvfp4, &fc) || self.has_name(Class::Fp8, &fc);
        let has_mtp: bool = (self.has_name(Class::Bf16, &fc) || mtp_q) && (!cfg.is_moe
            || self.cat.any_under("mtp.layers.0.mlp.experts.gate_up_proj"));
        let (draft_head, draft_ids) = self.load_draft_head(&cfg, draft_top);
        let head: Vec<Request> = if self.tied {
            vec![Request::Weight(WeightId::Embed, q), Request::FinalNorm]
        } else {
            vec![
                Request::Weight(WeightId::Embed, q),
                Request::FinalNorm,
                Request::Weight(WeightId::LmHead, q),
            ]
        };
        let ghost row = |i: int| layer_requests(&cfg, q, i);
        let ghost tail = if has_mtp {
            mtp_requests(&cfg, mtp_q)
        } else {
            Seq::<Request>::empty()
        };
        let ghost n = cfg.num_layers as nat;
        proof {
            assert(self.model_requests(&cfg) =~= head@ + flat(n, row) + tail);
            self.lemma_first_fault_concat(head@ + flat(n, row), tail);
            self.lemma_first_fault_concat(head@, flat(n, row));
        }
        if let Some(e) = self.check_all(head.as_slice()) {
            return Err(e);
        }
        proof {
            self.lemma_no_fault(head@);
            assert(self.fault(head@[0]) is None);
            if !self.tied {
                assert(self.fault(head@[2]) is None);
            }
        }
        let embed: W = self.get(WeightId::Embed, q);
        let lm_head: Option<W> = if self.tied {
            None
        } else {
            Some(self.get(WeightId::LmHead, q))
        };
        let mut layers: Vec<GpuLayer> = Vec::new();
        let mut i: usize = 0;
        while i < cfg.num_layers
            invariant
                i <= cfg.num_layers <= cfg.layer_types@.len(),
                row == (|i: int| layer_requests(&cfg, q, i)),
                n == cfg.num_layers,
                self.first_fault(flat(i as nat, row)) is None,
                layers@ == Seq::new(i as nat, |i: int| self.layer_of(&cfg, q, i)),
                self.first_fault(head@) is None,
                self.first_fault(self.model_requests(&cfg)) == (match self.first_fault(
                    flat(n, row),
                ) {
                    Some(e) => Some(e),
                    None => self.first_fault(tail),
                }),
            decreases cfg.num_layers - i,
        {
            proof {
                self.lemma_first_fault_concat(flat(i as nat, row), row(i as int));
                self.lemma_flat_fault((i + 1) as nat, n, row);
            }
            match self.load_layer(&cfg, q, i) {
                Ok(l) => layers.push(l),
                Err(e) => {
                    return Err(e);
                },
            }
            i = i + 1;
            proof {
                assert(layers@ =~= Seq::new(i as nat, |i: int| self.layer_of(&cfg, q, i)));
            }
        }
        let mtp: Option<GpuMtpLayer> = if has_mtp {
            match self.load_mtp(&cfg, mtp_q) {
                Ok(m) => Some(m),
                Err(e) => {
                    return Err(e);
                },
            }
        } else {
            None
        };
        Ok(GpuModel { cfg, embed, lm_head, layers, mtp, draft_head, draft_ids, tp, knobs })
    }

    proof fn lemma_flat_fault(&self, k: nat, n: nat, row: spec_fn(int) -> Seq<Request>)
        requires
            k <= n,
        ensures
            self.first_fault(flat(k, row)) is Some ==> self.first_fault(flat(n, row))
                == self.first_fault(flat(k, row)),
        decreases n,
    {
        if k < n {
            self.lemma_flat_fault(k, (n - 1) as nat, row);
            self.lemma_first_fault_concat(flat((n - 1) as nat, row), row(n - 1));
        }
    }
}


/// A model whose weights the host already holds: sixteen bits throughout, nothing fused, dense layers.
pub open spec fn host_layer(t: LayerType) -> GpuLayer {
    GpuLayer {
        layer_type: t,
        la: if t == LayerType::LinearAttention {
            Some(
                GpuLinearAttn {
                    in_proj: GdnIn::Split { qkv: W::Bf16, z: W::Bf16, b: W::Bf16, a: W::Bf16 },
                    out_proj: W::Bf16,
                },
            )
        } else {
            None
        },
        fa: if t == LayerType::FullAttention {
            Some(host_attn())
        } else {
            None
        },
        mlp: Ffn::Dense(host_mlp()),
    }
}

/// An attention of sixteen bits.
pub open spec fn host_attn() -> GpuFullAttn {
    GpuFullAttn {
        qkv: AttnIn::Split { q: W::Bf16, k: W::Bf16, v: W::Bf16 },
        o_proj: W::Bf16,
    }
}

/// A feed-forward part of sixteen bits.
pub open spec fn host_mlp() -> GpuMlp {
    GpuMlp { gate: W::Bf16, up: W::Bf16, down: W::Bf16 }
}

impl GpuModel {
    /// A model whose weights the host already holds.
    pub fn new(cfg: Config, lm_head: bool, mtp: bool, tp: TpSettings, knobs: Knobs) -> (m: GpuModel)
        ensures
            m.cfg == cfg,
            m.embed == W::Bf16,
            m.lm_head == (if lm_head {
                Some(W::Bf16)
            } else {
                None
            }),
            m.layers@ == cfg.layer_types@.map_values(|t: LayerType| host_layer(t)),
            m.mtp == (if mtp {
                Some(
                    GpuMtpLayer { fc: W::Bf16, fa: host_attn(), mlp: Ffn::Dense(host_mlp()) },
                )
            } else {
                None
            }),
            m.draft_head is None,
            m.draft_ids@.len() == 0,
            m.tp == tp,
            m.knobs == knobs,
    {
        let fa: GpuFullAttn = GpuFullAttn {
            qkv: AttnIn::Split { q: W::Bf16, k: W::Bf16, v: W::Bf16 },
            o_proj: W::Bf16,
        };
        let la: GpuLinearAttn = GpuLinearAttn {
            in_proj: GdnIn::Split { qkv: W::Bf16, z: W::Bf16, b: W::Bf16, a: W::Bf16 },
            out_proj: W::Bf16,
        };
        let mlp: Ffn = Ffn::Dense(GpuMlp { gate: W::Bf16, up: W::Bf16, down: W::Bf16 });
        let mut layers: Vec<GpuLayer> = Vec::new();
        let mut i: usize = 0;
        while i < cfg.layer_types.len()
            invariant
                i <= cfg.layer_types@.len(),
                fa == host_attn(),
                la == host_layer(LayerType::LinearAttention).la->0,
                mlp == Ffn::Dense(host_mlp()),
                layers@ == cfg.layer_types@.take(i as int).map_values(
                    |t: LayerType| host_layer(t),
                ),
            decreases cfg.layer_types@.len() - i,
        {
            let t: LayerType = cfg.layer_types[i];
            let l: GpuLayer = match t {
                LayerType::LinearAttention => GpuLayer {
                    layer_type: t,
                    la: Some(la),
                    fa: None,
                    mlp,
                },
                LayerType::FullAttention => GpuLayer {
                    layer_type: t,
                    la: None,
                    fa: Some(fa),
                    mlp,
                },
            };
            layers.push(l);
            i = i + 1;
            proof {
                assert(layers@ =~= cfg.layer_types@.take(i as int).map_values(
                    |t: LayerType| host_layer(t),
                ));
            }
        }
        proof {
            assert(cfg.layer_types@.take(cfg.layer_types@.len() as int) =~= cfg.layer_types@);
        }
        GpuModel {
            cfg,
            embed: W::Bf16,
            lm_head: if lm_head {
                Some(W::Bf16)
            } else {
                None
            },
            layers,
            mtp: if mtp {
                Some(GpuMtpLayer { fc: W::Bf16, fa, mlp })
            } else {
                None
            },
            draft_head: None,
            draft_ids: Vec::new(),
            tp,
            knobs,
        }
    }
}

proof fn lemma_tail_suffix(a: Seq<char>, b: Seq<char>, p: Seq<char>)
    requires
        has_suffix(b, p),
    ensures
        has_suffix(a + b, p),
{
    let s = a + b;
    let k = b.len() - p.len();
    assert(s.subrange(a.len() + k, s.len() as int) =~= b.subrange(k, b.len() as int));
}

proof fn lemma_tail_contains(a: Seq<char>, b: Seq<char>, p: Seq<char>, i: int)
    requires
        occurs_at(b, p, i),
    ensures
        contains_text(a + b, p),
{
    let s = a + b;
    assert(s.subrange(a.len() + i, a.len() + i + p.len()) =~= b.subrange(i, i + p.len()));
    assert(occurs_at(s, p, a.len() + i));
}

/// A small vector that the model asks for is one that loading keeps in 32 bits, so the model finds it
/// where it looks.
pub proof fn law_vectors_are_kept_in_f32(b: Block, v: BlockVec)
    ensures
        kept_in_f32(vector_name_of(b, v)),
        kept_in_f32("model.language_model.norm.weight"@),
{
    let p = block_prefix(b);
    reveal_strlit("norm");
    reveal_strlit(".weight");
    reveal_strlit("A_log");
    reveal_strlit("dt_bias");
    reveal_strlit("conv1d.weight");
    reveal_strlit("model.language_model.norm.weight");
    assert(kept_in_f32("model.language_model.norm.weight"@)) by {
        let s = "model.language_model.norm.weight"@;
        assert(s.subrange(21, 25) =~= "norm"@);
        assert(occurs_at(s, "norm"@, 21));
        assert(s.subrange(25, 32) =~= ".weight"@);
    }
    match v {
        BlockVec::InputNorm => {
            reveal_strlit(".input_layernorm.weight");
            let s = ".input_layernorm.weight"@;
            assert(s.subrange(12, 16) =~= "norm"@);
            assert(occurs_at(s, "norm"@, 12));
            assert(s.subrange(16, 23) =~= ".weight"@);
            lemma_tail_contains(p, s, "norm"@, 12);
            lemma_tail_suffix(p, s, ".weight"@);
        },
        BlockVec::PostNorm => {
            reveal_strlit(".post_attention_layernorm.weight");
            let s = ".post_attention_layernorm.weight"@;
            assert(s.subrange(21, 25) =~= "norm"@);
            assert(occurs_at(s, "norm"@, 21));
            assert(s.subrange(25, 32) =~= ".weight"@);
            lemma_tail_contains(p, s, "norm"@, 21);
            lemma_tail_suffix(p, s, ".weight"@);
        },
        BlockVec::QNorm => {
            reveal_strlit(".self_attn.q_norm.weight");
            let s = ".self_attn.q_norm.weight"@;
            assert(s.subrange(13, 17) =~= "norm"@);
            assert(occurs_at(s, "norm"@, 13));
            assert(s.subrange(17, 24) =~= ".weight"@);
            lemma_tail_contains(p, s, "norm"@, 13);
            lemma_tail_suffix(p, s, ".weight"@);
        },
        BlockVec::KNorm => {
            reveal_strlit(".self_attn.k_norm.weight");
            let s = ".self_attn.k_norm.weight"@;
            assert(s.subrange(13, 17) =~= "norm"@);
            assert(occurs_at(s, "norm"@, 13));
            assert(s.subrange(17, 24) =~= ".weight"@);
            lemma_tail_contains(p, s, "norm"@, 13);
            lemma_tail_suffix(p, s, ".weight"@);
        },
        BlockVec::GdnNorm => {
            reveal_strlit(".linear_attn.norm.weight");
            let s = ".linear_attn.norm.weight"@;
            assert(s.subrange(13, 17) =~= "norm"@);
            assert(occurs_at(s, "norm"@, 13));
            assert(s.subrange(17, 24) =~= ".weight"@);
            lemma_tail_contains(p, s, "norm"@, 13);
            lemma_tail_suffix(p, s, ".weight"@);
        },
        BlockVec::PreFcHidden => {
            reveal_strlit("mtp.pre_fc_norm_hidden.weight");
            let s = "mtp.pre_fc_norm_hidden.weight"@;
            assert(s.subrange(11, 15) =~= "norm"@);
            assert(occurs_at(s, "norm"@, 11));
            assert(s.subrange(22, 29) =~= ".weight"@);
        },
        BlockVec::PreFcEmbed => {
            reveal_strlit("mtp.pre_fc_norm_embedding.weight");
            let s = "mtp.pre_fc_norm_embedding.weight"@;
            assert(s.subrange(11, 15) =~= "norm"@);
            assert(occurs_at(s, "norm"@, 11));
            assert(s.subrange(25, 32) =~= ".weight"@);
        },
        BlockVec::FinalNorm => {
            reveal_strlit("mtp.norm.weight");
            let s = "mtp.norm.weight"@;
            assert(s.subrange(4, 8) =~= "norm"@);
            assert(occurs_at(s, "norm"@, 4));
            assert(s.subrange(8, 15) =~= ".weight"@);
        },
        BlockVec::Conv1d => {
            reveal_strlit(".linear_attn.conv1d.weight");
            let s = ".linear_attn.conv1d.weight"@;
            assert(s.subrange(13, 26) =~= "conv1d.weight"@);
            lemma_tail_suffix(p, s, "conv1d.weight"@);
        },
        BlockVec::ALog => {
            reveal_strlit(".linear_attn.A_log");
            let s = ".linear_attn.A_log"@;
            assert(s.subrange(13, 18) =~= "A_log"@);
            lemma_tail_suffix(p, s, "A_log"@);
        },
        BlockVec::DtBias => {
            reveal_strlit(".linear_attn.dt_bias");
            let s = ".linear_attn.dt_bias"@;
            assert(s.subrange(13, 20) =~= "dt_bias"@);
            lemma_tail_suffix(p, s, "dt_bias"@);
        },
    }
}

} // verus!
