//! What the host knows of a loaded model: shapes, weight formats, tensor-parallel settings.
use vstd::prelude::*;

use crate::config::{Config, LayerType};
use crate::gpu::topo::MAX_VERIFY;

verus! {

/// Query positions that one block of the short prefill kernel serves.
pub const GQA_PF_QT: usize = 8;

/// Query tile of the tiled prefill attention.
pub const PF_BR: usize = 1024;

/// Key tile of the tiled prefill attention.
pub const PF_BC: usize = 1024;

/// Columns below which the tiled prefill attention does not pay.
pub const PF_MIN: usize = 128;

/// Widest verify that the step profile runs. Its caller needs `2 + PROFILE_MAX_N` state slots.
pub const PROFILE_MAX_N: usize = 8;

/// Most frequent token ids that the draft head keeps.
pub const DRAFT_VOCAB_TOP: usize = 65536;

/// Deepest draft chain that the depth policy may choose.
pub const MAX_AUTO_DEPTH: usize = 8;

/// Recurrent-state columns per block of the scan kernels.
pub const GDN_C: usize = 32;

/// Tokens whose repetition a lane is penalized for.
pub const MAX_PEN_TOKENS: usize = 64;

/// A weight matrix, in whatever format it is stored.
#[derive(Clone, Copy, PartialEq, Eq, Structural)]
pub enum W {
    Bf16,
    Fp8 { m: usize, k: usize },
    Nvfp4 { m: usize, k: usize },
    /// 4-bit weights in row order, as the experts of some checkpoints store them.
    Nvfp4Raw { m: usize, k: usize },
}

impl W {
    /// The weight is stored in fewer than sixteen bits.
    pub fn is_quantized(&self) -> (b: bool)
        ensures
            b == !(self is Bf16),
    {
        match *self {
            W::Bf16 => false,
            _ => true,
        }
    }

    /// Bytes that one token streams of the weight; zero where the format does not carry its shape.
    pub fn bytes(&self) -> (n: usize)
        requires
            match *self {
                W::Bf16 => true,
                W::Fp8 { m, k } => m * k + m * 4 <= usize::MAX,
                W::Nvfp4 { m, k } => m * k <= usize::MAX && m * k / 2 + m * k / 16 + m / 4
                    <= usize::MAX,
                W::Nvfp4Raw { m, k } => m * k <= usize::MAX && m * k / 2 + m * k / 16
                    <= usize::MAX,
            },
        ensures
            n == (match *self {
                W::Bf16 => 0,
                W::Fp8 { m, k } => m * k + m * 4,
                W::Nvfp4 { m, k } => m * k / 2 + m * k / 16 + m / 4,
                W::Nvfp4Raw { m, k } => m * k / 2 + m * k / 16,
            }),
    {
        match *self {
            W::Bf16 => 0,
            W::Fp8 { m, k } => {
                proof {
                    assert(0 <= m * k) by (nonlinear_arith);
                }
                m * k + m * 4
            },
            W::Nvfp4 { m, k } => {
                proof {
                    assert(0 <= m * k) by (nonlinear_arith);
                }
                m * k / 2 + m * k / 16 + m / 4
            },
            W::Nvfp4Raw { m, k } => {
                proof {
                    assert(0 <= m * k) by (nonlinear_arith);
                }
                m * k / 2 + m * k / 16
            },
        }
    }
}

/// Attention input projections: one fused weight, or three.
#[derive(Clone, Copy, PartialEq, Eq, Structural)]
pub enum AttnIn {
    Fused(W),
    Split { q: W, k: W, v: W },
}

/// Linear-attention input projections: one fused weight, or four.
#[derive(Clone, Copy, PartialEq, Eq, Structural)]
pub enum GdnIn {
    Fused(W),
    Split { qkv: W, z: W, b: W, a: W },
}

impl AttnIn {
    /// Rows of the fused weight: queries and gates, keys, values.
    pub open spec fn spec_fused_m(cfg: &Config) -> int {
        cfg.num_heads * cfg.head_dim * 2 + 2 * cfg.num_kv_heads * cfg.head_dim
    }

    /// Rows of the fused weight: queries and gates, keys, values.
    pub fn fused_m(cfg: &Config) -> (m: usize)
        requires
            Self::spec_fused_m(cfg) <= usize::MAX,
        ensures
            m == Self::spec_fused_m(cfg),
    {
        let (nh, nkv, hd) = (cfg.num_heads, cfg.num_kv_heads, cfg.head_dim);
        proof {
            let (a, b, c) = (nh as int, nkv as int, hd as int);
            assert(0 <= a * c && 0 <= 2 * b * c && 0 <= 2 * b && (c == 0 || 2 * b <= 2 * b * c))
                by (nonlinear_arith)
                requires
                    0 <= a,
                    0 <= b,
                    0 <= c,
            ;
        }
        if hd == 0 {
            proof {
                assert(nh * hd == 0 && 2 * nkv * hd == 0) by (nonlinear_arith)
                    requires
                        hd == 0,
                ;
            }
            0
        } else {
            nh * hd * 2 + 2 * nkv * hd
        }
    }
}

impl GdnIn {
    /// Rows of the fused weight: convolved q, k, v, then z, b and a.
    pub open spec fn spec_fused_m(cfg: &Config) -> int {
        cfg.spec_key_dim() * 2 + cfg.spec_value_dim() + cfg.spec_value_dim() + 2
            * cfg.lin_num_v_heads
    }

    /// Rows of the fused weight: convolved q, k, v, then z, b and a.
    pub fn fused_m(cfg: &Config) -> (m: usize)
        requires
            Self::spec_fused_m(cfg) <= usize::MAX,
        ensures
            m == Self::spec_fused_m(cfg),
    {
        proof {
            let (a, b, c, d) = (
                cfg.lin_num_k_heads as int,
                cfg.lin_k_dim as int,
                cfg.lin_num_v_heads as int,
                cfg.lin_v_dim as int,
            );
            assert(0 <= a * b && 0 <= c * d) by (nonlinear_arith)
                requires
                    0 <= a,
                    0 <= b,
                    0 <= c,
                    0 <= d,
            ;
        }
        cfg.key_dim() * 2 + cfg.value_dim() + cfg.value_dim() + 2 * cfg.lin_num_v_heads
    }
}

/// Attention weights of a block.
#[derive(Clone, Copy, PartialEq, Eq, Structural)]
pub struct GpuFullAttn {
    pub qkv: AttnIn,
    pub o_proj: W,
}

/// Linear-attention weights of a block.
#[derive(Clone, Copy, PartialEq, Eq, Structural)]
pub struct GpuLinearAttn {
    pub in_proj: GdnIn,
    pub out_proj: W,
}

/// Dense feed-forward weights.
#[derive(Clone, Copy, PartialEq, Eq, Structural)]
pub struct GpuMlp {
    pub gate: W,
    pub up: W,
    pub down: W,
}

/// Mixture-of-experts weights. Experts are stacked, gate and up fused.
#[derive(Clone, Copy, PartialEq, Eq, Structural)]
pub struct GpuMoe {
    pub router: W,
    pub gate_up: W,
    pub down: W,
    pub shared: GpuMlp,
    pub shared_gate: W,
    /// This rank holds only its half of the experts. A property of the tensors, not of the process.
    pub experts_sharded: bool,
}

/// Feed-forward part of a block.
#[derive(Clone, Copy, PartialEq, Eq, Structural)]
pub enum Ffn {
    Dense(GpuMlp),
    Moe(GpuMoe),
}

/// One layer of the trunk.
#[derive(Clone, Copy, PartialEq, Eq, Structural)]
pub struct GpuLayer {
    pub layer_type: LayerType,
    pub la: Option<GpuLinearAttn>,
    pub fa: Option<GpuFullAttn>,
    pub mlp: Ffn,
}

/// The draft head: a projection and one attention layer.
#[derive(Clone, Copy, PartialEq, Eq, Structural)]
pub struct GpuMtpLayer {
    pub fc: W,
    pub fa: GpuFullAttn,
    pub mlp: Ffn,
}

/// Tensor-parallel settings of this process.
#[derive(Clone, Copy, PartialEq, Eq, Structural)]
pub struct TpSettings {
    pub rank: i32,
    pub world: i32,
    /// Split the attention mixers too, not only the feed-forward weights.
    pub shard_mixers: bool,
    /// Ship unrounded f32 partials where the width allows.
    pub fp32_partials: bool,
    /// Batch that the link's payload is sized for.
    pub probe_batch: usize,
    /// Prove at run time that kernels stay within this rank's heads.
    pub head_proof: bool,
    /// Negative control of that proof: launch at the full head count.
    pub head_fault: bool,
}

/// Switches read once at start-up.
#[derive(Clone, Copy, PartialEq, Eq, Structural)]
pub struct Knobs {
    /// Use the scalar prefill kernel at every width.
    pub prefill_scalar: bool,
    /// Zero a lane's KV cache on a cold admit.
    pub zero_kv: bool,
    /// Fold the feed-forward residual into the next norm.
    pub fuse_residual: bool,
}

/// A loaded model, as the host sees it.
pub struct GpuModel {
    pub cfg: Config,
    pub embed: W,
    /// Absent where the embedding doubles as the output head.
    pub lm_head: Option<W>,
    pub layers: Vec<GpuLayer>,
    pub mtp: Option<GpuMtpLayer>,
    pub draft_head: Option<W>,
    /// Token id of each row of the draft head.
    pub draft_ids: Vec<u32>,
    pub tp: TpSettings,
    pub knobs: Knobs,
}

/// Blocks per sequence and head, and shared bytes, of the scan kernels.
pub fn gdn_launch(kd: usize, vd: usize) -> (r: (usize, u32))
    requires
        vd % GDN_C == 0,
        4 * (kd * 33 + kd + 96 + 2 * kd) <= u32::MAX,
    ensures
        r.0 == vd / 32,
        r.1 == 4 * (kd * 33 + kd + 96 + 2 * kd),
{
    let floats: usize = kd * (GDN_C + 1) + kd + 3 * GDN_C + 2 * kd;
    (vd / GDN_C, (floats * 4) as u32)
}

/// Position stride of a cache that holds the longest context the model allows.
pub fn state_stride(cfg: &Config) -> (n: usize)
    ensures
        n == cfg.max_position_embeddings,
{
    cfg.max_position_embeddings
}

/// A count as a 64-bit kernel argument.
pub fn u(x: usize) -> (r: u64)
    ensures
        r == x,
{
    x as u64
}

/// One-dimensional launch grid that covers `n` elements with blocks of 256 threads.
pub fn grid(n: usize) -> (g: (u32, u32, u32))
    requires
        n + 255 <= usize::MAX,
        (n + 255) / 256 <= u32::MAX,
    ensures
        g.0 == (n + 255) / 256,
        g.1 == 1,
        g.2 == 1,
{
    (((n + 255) / 256) as u32, 1, 1)
}

impl GpuModel {
    /// The mixers of this process hold half the heads.
    pub open spec fn mixers_sharded(&self) -> bool {
        self.tp.world == 2 && self.tp.shard_mixers
    }

    /// Divisor of the mixer dimensions.
    pub open spec fn split(&self) -> int {
        if self.mixers_sharded() {
            2
        } else {
            1
        }
    }

    /// Query heads of this rank.
    pub open spec fn heads(&self) -> int {
        self.cfg.num_heads as int / self.split()
    }

    /// KV heads of this rank.
    pub open spec fn kv_heads(&self) -> int {
        self.cfg.num_kv_heads as int / self.split()
    }

    /// Linear-attention value heads of this rank.
    pub open spec fn lin_v_heads(&self) -> int {
        self.cfg.lin_num_v_heads as int / self.split()
    }

    /// Linear-attention key heads of this rank.
    pub open spec fn lin_k_heads(&self) -> int {
        self.cfg.lin_num_k_heads as int / self.split()
    }

    /// Linear-attention key width of this rank.
    pub open spec fn key_dim(&self) -> int {
        self.cfg.lin_k_dim * self.lin_k_heads()
    }

    /// Linear-attention value width of this rank.
    pub open spec fn value_dim(&self) -> int {
        self.cfg.lin_v_dim * self.lin_v_heads()
    }

    /// Convolved channels of this rank.
    pub open spec fn conv_dim(&self) -> int {
        self.key_dim() * 2 + self.value_dim()
    }

    /// Rows of this rank's fused linear-attention weight. The per-head rows stay at the full count:
    /// they are too few to halve on tile boundaries.
    pub open spec fn gdn_fused_m(&self) -> int {
        self.conv_dim() + self.value_dim() + 2 * self.cfg.lin_num_v_heads
    }

    /// First value head of this rank.
    pub open spec fn head0(&self) -> int {
        if self.mixers_sharded() {
            (if self.tp.rank >= 0 {
                self.tp.rank as int
            } else {
                0
            }) * self.lin_v_heads()
        } else {
            0
        }
    }

    /// Linear-attention dimensions fit the machine.
    pub open spec fn gdn_fits(&self) -> bool {
        self.gdn_fused_m() <= usize::MAX
    }

    /// Unrounded partials are shipped.
    pub open spec fn fp32_on(&self) -> bool {
        self.tp.world == 2 && self.tp.fp32_partials
    }

    /// The run-time head proof is on.
    pub open spec fn head_proof_on(&self) -> bool {
        self.mixers_sharded() && self.tp.head_proof
    }

    /// The model's shape.
    pub fn cfg(&self) -> (c: &Config)
        ensures
            *c == self.cfg,
    {
        &self.cfg
    }

    /// Layer `li`.
    pub fn layer(&self, li: usize) -> (l: &GpuLayer)
        requires
            li < self.layers@.len(),
        ensures
            *l == self.layers@[li as int],
    {
        &self.layers[li]
    }

    pub fn tp_world(&self) -> (w: i32)
        ensures
            w == self.tp.world,
    {
        self.tp.world
    }

    pub fn tp_rank(&self) -> (r: i32)
        ensures
            r == self.tp.rank,
    {
        self.tp.rank
    }

    /// Whether the attention mixers are split between the ranks.
    pub fn tp_shard_mixers(&self) -> (b: bool)
        ensures
            b == self.mixers_sharded(),
    {
        self.tp.world == 2 && self.tp.shard_mixers
    }

    /// Whether unrounded partials are shipped.
    pub fn tp_fp32_partials(&self) -> (b: bool)
        ensures
            b == self.fp32_on(),
    {
        self.tp.world == 2 && self.tp.fp32_partials
    }

    /// Whether the run-time head proof is on.
    pub fn tp_head_proof(&self) -> (b: bool)
        ensures
            b == self.head_proof_on(),
    {
        self.tp_shard_mixers() && self.tp.head_proof
    }

    fn gdn_split(&self) -> (d: usize)
        ensures
            d == self.split(),
            d == 1 || d == 2,
    {
        if self.tp_shard_mixers() {
            2
        } else {
            1
        }
    }

    pub fn eff_num_heads(&self) -> (n: usize)
        ensures
            n == self.heads(),
    {
        self.cfg.num_heads / self.gdn_split()
    }

    pub fn eff_num_kv_heads(&self) -> (n: usize)
        ensures
            n == self.kv_heads(),
    {
        self.cfg.num_kv_heads / self.gdn_split()
    }

    pub fn eff_lin_v_heads(&self) -> (n: usize)
        ensures
            n == self.lin_v_heads(),
    {
        self.cfg.lin_num_v_heads / self.gdn_split()
    }

    pub fn eff_lin_k_heads(&self) -> (n: usize)
        ensures
            n == self.lin_k_heads(),
    {
        self.cfg.lin_num_k_heads / self.gdn_split()
    }

    proof fn lemma_dims_nonneg(&self)
        ensures
            0 <= self.key_dim(),
            0 <= self.value_dim(),
            0 <= self.lin_v_heads(),
            0 <= self.lin_k_heads(),
            0 <= self.conv_dim(),
    {
        let (a, b, c, d) = (
            self.cfg.lin_k_dim as int,
            self.lin_k_heads(),
            self.cfg.lin_v_dim as int,
            self.lin_v_heads(),
        );
        assert(b >= 0 && d >= 0);
        assert(0 <= a * b && 0 <= c * d) by (nonlinear_arith)
            requires
                0 <= a,
                0 <= b,
                0 <= c,
                0 <= d,
        ;
    }

    pub fn eff_key_dim(&self) -> (n: usize)
        requires
            self.gdn_fits(),
        ensures
            n == self.key_dim(),
    {
        proof {
            self.lemma_dims_nonneg();
        }
        self.cfg.lin_k_dim * self.eff_lin_k_heads()
    }

    pub fn eff_value_dim(&self) -> (n: usize)
        requires
            self.gdn_fits(),
        ensures
            n == self.value_dim(),
    {
        proof {
            self.lemma_dims_nonneg();
        }
        self.cfg.lin_v_dim * self.eff_lin_v_heads()
    }

    pub fn eff_conv_dim(&self) -> (n: usize)
        requires
            self.gdn_fits(),
        ensures
            n == self.conv_dim(),
    {
        proof {
            self.lemma_dims_nonneg();
        }
        self.eff_key_dim() * 2 + self.eff_value_dim()
    }

    pub fn eff_gdn_fused_m(&self) -> (n: usize)
        requires
            self.gdn_fits(),
        ensures
            n == self.gdn_fused_m(),
    {
        proof {
            self.lemma_dims_nonneg();
        }
        self.eff_conv_dim() + self.eff_value_dim() + 2 * self.cfg.lin_num_v_heads
    }

    /// First value head of this rank.
    pub fn gdn_head0(&self) -> (n: usize)
        requires
            self.head0() <= usize::MAX,
        ensures
            n == self.head0(),
    {
        if self.tp_shard_mixers() {
            let r: usize = if self.tp.rank >= 0 {
                self.tp.rank as usize
            } else {
                0
            };
            r * self.eff_lin_v_heads()
        } else {
            0
        }
    }

    /// Position stride of the longest cache.
    pub fn kv_stride(&self) -> (n: usize)
        ensures
            n == self.cfg.max_position_embeddings,
    {
        self.cfg.max_position_embeddings
    }

    /// The draft head is loaded.
    pub fn mtp_present(&self) -> (b: bool)
        ensures
            b == (self.mtp is Some),
    {
        self.mtp.is_some()
    }

    /// Tokens that the draft head proposes from.
    pub fn draft_vocab(&self) -> (n: usize)
        ensures
            n == (if self.draft_head is Some {
                self.draft_ids@.len() as int
            } else {
                self.cfg.vocab_size as int
            }),
    {
        if self.draft_head.is_some() {
            self.draft_ids.len()
        } else {
            self.cfg.vocab_size
        }
    }

    /// Token id of row `row` of the draft head's logits. A row past the end reads the last one.
    pub fn draft_token(&self, row: usize) -> (t: u32)
        requires
            self.draft_head is Some ==> self.draft_ids@.len() > 0,
            self.draft_head is None ==> row <= u32::MAX,
        ensures
            t == (if self.draft_head is Some {
                self.draft_ids@[if row < self.draft_ids@.len() {
                    row as int
                } else {
                    self.draft_ids@.len() - 1
                }] as int
            } else {
                row as int
            }),
    {
        match self.draft_head {
            Some(_) => {
                let n: usize = self.draft_ids.len();
                if row < n {
                    self.draft_ids[row]
                } else {
                    self.draft_ids[n - 1]
                }
            },
            None => row as u32,
        }
    }

    /// Bytes of one all-reduce payload, where it fits a link slot of `slot_bytes`.
    pub fn tp_payload(&self, slot_bytes: usize) -> (r: Option<usize>)
        requires
            self.cfg.hidden_size * self.tp.probe_batch <= usize::MAX,
            self.cfg.hidden_size * self.tp.probe_batch * 4 <= usize::MAX,
        ensures
            ({
                let width = if self.fp32_on() {
                    4int
                } else {
                    2int
                };
                let n = self.cfg.hidden_size * self.tp.probe_batch * width;
                r == (if n <= slot_bytes {
                    Some(n as usize)
                } else {
                    None::<usize>
                })
            }),
    {
        let elems: usize = self.cfg.hidden_size * self.tp.probe_batch;
        let n: usize = if self.tp_fp32_partials() {
            elems * 4
        } else {
            elems * 2
        };
        if n <= slot_bytes {
            Some(n)
        } else {
            None
        }
    }
}

/// Batch that the link is sized for: the asked-for one where it is a serving width, else one.
pub fn tp_probe_batch(asked: Option<usize>) -> (n: usize)
    ensures
        n == (match asked {
            Some(k) => if 1 <= k <= MAX_VERIFY {
                k as int
            } else {
                1
            },
            None => 1,
        }),
{
    match asked {
        Some(k) => if k >= 1 && k <= MAX_VERIFY {
            k
        } else {
            1
        },
        None => 1,
    }
}

/// Splitting between two ranks keeps every group of value heads with its key head, where the counts
/// halve evenly: the ratio of value heads to key heads does not change.
pub proof fn law_split_keeps_head_groups(nv: int, nk: int, g: int)
    requires
        nk > 0,
        nk % 2 == 0,
        nv == g * nk,
    ensures
        nv / 2 == g * (nk / 2),
        nv % 2 == 0,
{
    let h = nk / 2;
    assert(nk == 2 * h);
    assert(g * (2 * h) == 2 * (g * h)) by (nonlinear_arith);
}

} // verus!
