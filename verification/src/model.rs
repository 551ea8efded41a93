//! The dense half-precision model: its shape, its weights, and loading them from one file.
use vstd::prelude::*;

use crate::bits::{half_at, halves_of};
use crate::checkpoint::{
    distinct_names, entry_index, entry_map, find_entry, header_refused, read_header, shard_header,
    HeaderFault, TensorEntry, HEADER_LEN_BYTES,
};
use crate::memory::{aligned_up, OutOfMemory, UnifiedMemoryPool};
use crate::seqs::{fill, filled};
use crate::text::{append, decimal, string_of, to_decimal};

verus! {

/// Shape of a model.
#[derive(Clone, Copy, Debug, PartialEq, Eq, Structural)]
pub struct ModelConfig {
    pub hidden_size: usize,
    pub num_heads: usize,
    pub num_kv_heads: usize,
    pub head_dim: usize,
    pub num_layers: usize,
    pub vocab_size: usize,
    pub intermediate_size: usize,
    pub max_seq_len: usize,
    /// Bit pattern of the f32 epsilon.
    pub rms_norm_eps_bits: u32,
    pub num_experts: usize,
    pub experts_per_token: usize,
}

/// The shape of the smallest model.
pub open spec fn smallest() -> ModelConfig {
    ModelConfig {
        hidden_size: 1024,
        num_heads: 16,
        num_kv_heads: 8,
        head_dim: 128,
        num_layers: 24,
        vocab_size: 151936,
        intermediate_size: 2816,
        max_seq_len: 4096,
        rms_norm_eps_bits: 0x3586_37BD,
        num_experts: 0,
        experts_per_token: 0,
    }
}

impl Default for ModelConfig {
    fn default() -> (c: ModelConfig)
        ensures
            c == smallest(),
    {
        ModelConfig {
            hidden_size: 1024,
            num_heads: 16,
            num_kv_heads: 8,
            head_dim: 128,
            num_layers: 24,
            vocab_size: 151936,
            intermediate_size: 2816,
            max_seq_len: 4096,
            rms_norm_eps_bits: 0x3586_37BD,
            num_experts: 0,
            experts_per_token: 0,
        }
    }
}

impl ModelConfig {
    /// The shape of the smallest model.
    pub fn qwen3_5_0_08b() -> (c: ModelConfig)
        ensures
            c == smallest(),
    {
        ModelConfig::default()
    }

    /// Parameters of the model: both embeddings, and per layer four square projections and three
    /// feed-forward ones.
    pub open spec fn spec_total_params(&self) -> int {
        let (h, v, im) = (
            self.hidden_size as int,
            self.vocab_size as int,
            self.intermediate_size as int,
        );
        v * h + v * h + self.num_layers * (3 * (h * h) + h * h + 2 * (h * im) + h * im)
    }

    /// Parameters of the model.
    pub fn total_params(&self) -> (n: usize)
        requires
            self.spec_total_params() <= usize::MAX,
            self.hidden_size * self.hidden_size * 4 <= usize::MAX,
            self.hidden_size * self.intermediate_size * 3 <= usize::MAX,
            self.hidden_size * self.hidden_size * 4 + self.hidden_size * self.intermediate_size * 3
                <= usize::MAX,
        ensures
            n == self.spec_total_params(),
    {
        let (h, v, im) = (self.hidden_size, self.vocab_size, self.intermediate_size);
        proof {
            assert(0 <= v * h && 0 <= h * h && 0 <= h * im) by (nonlinear_arith);
            let layer = 3 * (h * h) + h * h + 2 * (h * im) + h * im;
            let n = self.num_layers as int;
            assert(0 <= n * layer) by (nonlinear_arith)
                requires
                    n >= 0,
                    layer >= 0,
            ;
        }
        let per_layer: usize = 4 * (h * h) + 3 * (h * im);
        v * h + v * h + self.num_layers * per_layer
    }
}

/// One block of packed weights: its scale as half-precision bits, and its codes.
#[derive(Clone, Copy, Debug, PartialEq, Eq, Structural)]
pub struct NVFP4WeightBlock {
    pub scale: u16,
    pub packed_values: u64,
}

impl NVFP4WeightBlock {
    /// A block of zeros.
    pub fn zero() -> (b: NVFP4WeightBlock)
        ensures
            b.scale == 0,
            b.packed_values == 0,
    {
        NVFP4WeightBlock { scale: 0, packed_values: 0 }
    }

    /// The block's scale is zero, of either sign.
    pub fn is_zero(&self) -> (b: bool)
        ensures
            b == (self.scale & 0x7FFF == 0),
    {
        self.scale & 0x7FFF == 0
    }
}

/// Blocks that cover `n` elements.
pub open spec fn blocks_of(n: int, size: int) -> int {
    (n + size - 1) / size
}

/// A projection in packed form.
pub struct PackedLinear {
    pub weights: Vec<NVFP4WeightBlock>,
    pub scales: Vec<u16>,
    pub in_features: usize,
    pub out_features: usize,
    pub block_size: usize,
}

impl PackedLinear {
    /// A projection of zeros: every output has its own blocks along the inputs.
    pub fn new(in_features: usize, out_features: usize, block_size: usize) -> (p: PackedLinear)
        requires
            block_size >= 1,
            in_features + block_size <= usize::MAX,
            blocks_of(in_features as int, block_size as int) * out_features <= usize::MAX,
        ensures
            p.in_features == in_features,
            p.out_features == out_features,
            p.block_size == block_size,
            ({
                let n = (blocks_of(in_features as int, block_size as int) * out_features) as nat;
                p.weights@ == fill(n, NVFP4WeightBlock { scale: 0, packed_values: 0 }) && p.scales@
                    == fill(n, 0u16)
            }),
    {
        let n: usize = (in_features + block_size - 1) / block_size * out_features;
        PackedLinear {
            weights: filled(n, NVFP4WeightBlock::zero()),
            scales: filled(n, 0u16),
            in_features,
            out_features,
            block_size,
        }
    }

    /// Square blocks that cover the projection.
    pub fn num_blocks(&self) -> (n: usize)
        requires
            self.block_size >= 1,
            self.in_features + self.block_size <= usize::MAX,
            self.out_features + self.block_size <= usize::MAX,
            blocks_of(self.out_features as int, self.block_size as int) * blocks_of(
                self.in_features as int,
                self.block_size as int,
            ) <= usize::MAX,
        ensures
            n == blocks_of(self.out_features as int, self.block_size as int) * blocks_of(
                self.in_features as int,
                self.block_size as int,
            ),
    {
        let rows: usize = (self.out_features + self.block_size - 1) / self.block_size;
        let cols: usize = (self.in_features + self.block_size - 1) / self.block_size;
        rows * cols
    }
}

// ---- the weights that are loaded ----

/// A tensor of a layer.
#[derive(Clone, Copy, Debug, PartialEq, Eq, Structural)]
pub enum LayerPart {
    InputNorm,
    PostNorm,
    Q,
    K,
    V,
    O,
    Gate,
    Up,
    Down,
}

/// A tensor of the model.
#[derive(Clone, Copy, Debug, PartialEq, Eq, Structural)]
pub enum Target {
    Embed,
    LmHead,
    Layer(usize, LayerPart),
}

/// The tensors of a layer, in the order they are loaded.
pub open spec fn layer_parts() -> Seq<LayerPart> {
    seq![
        LayerPart::InputNorm,
        LayerPart::PostNorm,
        LayerPart::Q,
        LayerPart::K,
        LayerPart::V,
        LayerPart::O,
        LayerPart::Gate,
        LayerPart::Up,
        LayerPart::Down,
    ]
}

/// Name of a layer's tensor behind the layer's prefix.
pub open spec fn part_suffix(p: LayerPart) -> Seq<char> {
    match p {
        LayerPart::InputNorm => ".input_layernorm.weight"@,
        LayerPart::PostNorm => ".post_attention_layernorm.weight"@,
        LayerPart::Q => ".self_attn.q_proj.weight"@,
        LayerPart::K => ".self_attn.k_proj.weight"@,
        LayerPart::V => ".self_attn.v_proj.weight"@,
        LayerPart::O => ".self_attn.o_proj.weight"@,
        LayerPart::Gate => ".mlp.gate_proj.weight"@,
        LayerPart::Up => ".mlp.up_proj.weight"@,
        LayerPart::Down => ".mlp.down_proj.weight"@,
    }
}

/// Name of a tensor in the file.
pub open spec fn target_name(t: Target) -> Seq<char> {
    match t {
        Target::Embed => "model.embed_tokens.weight"@,
        Target::LmHead => "lm_head.weight"@,
        Target::Layer(i, p) => "model.layers."@ + decimal(i as nat) + part_suffix(p),
    }
}

/// Elements of a tensor.
pub open spec fn target_len(c: &ModelConfig, t: Target) -> int {
    let (h, im) = (c.hidden_size as int, c.intermediate_size as int);
    let kv = c.num_kv_heads * c.head_dim;
    match t {
        Target::Embed | Target::LmHead => c.vocab_size * h,
        Target::Layer(_, p) => match p {
            LayerPart::InputNorm | LayerPart::PostNorm => h,
            LayerPart::Q | LayerPart::O => h * h,
            LayerPart::K | LayerPart::V => kv * h,
            LayerPart::Gate | LayerPart::Up | LayerPart::Down => im * h,
        },
    }
}

/// Bits of the half-precision one.
pub const F16_ONE: u16 = 0x3C00;

/// What a tensor holds before it is loaded: ones for the norms, else zeros.
pub open spec fn initial(c: &ModelConfig, t: Target) -> Seq<u16> {
    let norm = match t {
        Target::Layer(_, LayerPart::InputNorm) => true,
        Target::Layer(_, LayerPart::PostNorm) => true,
        _ => false,
    };
    fill(
        target_len(c, t) as nat,
        if norm {
            F16_ONE
        } else {
            0u16
        },
    )
}

/// Why a model could not be loaded.
pub enum ModelFault {
    /// The bytes are not a weight file.
    Header(HeaderFault),
    /// A tensor starts at an odd place of the file, where no 16-bit word can stand.
    Unaligned(String),
    /// A tensor is not made of 16-bit words.
    Cast(String),
    /// A tensor has another size than the model's shape asks for.
    Size { name: String, expected: usize, got: usize },
}

/// Name of a tensor in the file.
pub fn tensor_name(t: Target) -> (r: String)
    ensures
        r@ == target_name(t),
{
    match t {
        Target::Embed => "model.embed_tokens.weight".to_owned(),
        Target::LmHead => "lm_head.weight".to_owned(),
        Target::Layer(i, p) => {
            let mut r: String = "model.layers.".to_owned();
            let d: Vec<char> = to_decimal(i as u64);
            append(&mut r, string_of(d.as_slice()).as_str());
            append(
                &mut r,
                match p {
                    LayerPart::InputNorm => ".input_layernorm.weight",
                    LayerPart::PostNorm => ".post_attention_layernorm.weight",
                    LayerPart::Q => ".self_attn.q_proj.weight",
                    LayerPart::K => ".self_attn.k_proj.weight",
                    LayerPart::V => ".self_attn.v_proj.weight",
                    LayerPart::O => ".self_attn.o_proj.weight",
                    LayerPart::Gate => ".mlp.gate_proj.weight",
                    LayerPart::Up => ".mlp.up_proj.weight",
                    LayerPart::Down => ".mlp.down_proj.weight",
                },
            );
            r
        },
    }
}

/// The shape's tensors fit the machine.
pub open spec fn shape_fits(c: &ModelConfig) -> bool {
    &&& c.vocab_size * c.hidden_size <= usize::MAX
    &&& c.hidden_size * c.hidden_size <= usize::MAX
    &&& c.num_kv_heads * c.head_dim <= usize::MAX
    &&& c.num_kv_heads * c.head_dim * c.hidden_size <= usize::MAX
    &&& c.intermediate_size * c.hidden_size <= usize::MAX
    &&& c.num_layers * 9 + 2 <= usize::MAX
    &&& c.hidden_size + PACKED_BLOCK <= usize::MAX
    &&& c.intermediate_size + PACKED_BLOCK <= usize::MAX
}

/// Every tensor of the model, in the order they are loaded.
pub open spec fn targets_of(c: &ModelConfig) -> Seq<Target> {
    seq![Target::Embed, Target::LmHead] + Seq::new(
        (c.num_layers * 9) as nat,
        |k: int| Target::Layer((k / 9) as usize, layer_parts()[k % 9]),
    )
}

/// Every tensor of the model, in the order they are loaded.
pub fn targets(c: &ModelConfig) -> (r: Vec<Target>)
    requires
        shape_fits(c),
    ensures
        r@ == targets_of(c),
{
    let parts: Vec<LayerPart> = vec![
        LayerPart::InputNorm,
        LayerPart::PostNorm,
        LayerPart::Q,
        LayerPart::K,
        LayerPart::V,
        LayerPart::O,
        LayerPart::Gate,
        LayerPart::Up,
        LayerPart::Down,
    ];
    let ghost f = |k: int| Target::Layer((k / 9) as usize, layer_parts()[k % 9]);
    let mut r: Vec<Target> = vec![Target::Embed, Target::LmHead];
    proof {
        assert(parts@ =~= layer_parts());
        assert(r@ =~= seq![Target::Embed, Target::LmHead] + Seq::new(0, f));
    }
    let n: usize = c.num_layers * 9;
    let mut k: usize = 0;
    while k < n
        invariant
            k <= n,
            n == c.num_layers * 9,
            parts@ == layer_parts(),
            f == (|k: int| Target::Layer((k / 9) as usize, layer_parts()[k % 9])),
            r@ == seq![Target::Embed, Target::LmHead] + Seq::new(k as nat, f),
        decreases n - k,
    {
        r.push(Target::Layer(k / 9, parts[k % 9]));
        k = k + 1;
        proof {
            assert(r@ =~= seq![Target::Embed, Target::LmHead] + Seq::new(k as nat, f));
        }
    }
    r
}

/// Where the tensor called `name` starts in the file, and its bytes, if the file has it.
pub open spec fn bytes_in(
    raw: Seq<u8>,
    start: int,
    es: Seq<TensorEntry>,
    name: Seq<char>,
) -> Option<(int, Seq<u8>)> {
    let i = entry_index(es, name);
    if i < es.len() {
        Some((start + es[i].start, raw.subrange(start + es[i].start, start + es[i].end)))
    } else {
        None
    }
}

/// A tensor that the file leaves alone, or gives as words, in the size that the shape asks for.
pub open spec fn loads(c: &ModelConfig, found: Option<(int, Seq<u8>)>, t: Target) -> bool {
    match found {
        None => true,
        Some((at, b)) => at % 2 == 0 && b.len() % 2 == 0 && b.len() / 2 == target_len(c, t),
    }
}

/// What a tensor holds once it is loaded.
pub open spec fn loaded(c: &ModelConfig, found: Option<(int, Seq<u8>)>, t: Target) -> Seq<u16> {
    match found {
        None => initial(c, t),
        Some((_, b)) => Seq::new((b.len() / 2) as nat, |i: int| half_at(b, i) as u16),
    }
}

/// The tensor of target `t` is what the file makes of it.
pub open spec fn tensor_ok(
    c: &ModelConfig,
    raw: Seq<u8>,
    start: int,
    es: Seq<TensorEntry>,
    t: Target,
    tensor: Seq<u16>,
) -> bool {
    let b = bytes_in(raw, start, es, target_name(t));
    loads(c, b, t) && tensor == loaded(c, b, t)
}

/// A projection in half precision, with the addresses of its parts once they are uploaded.
pub struct DenseLinear {
    pub weight: Vec<u16>,
    pub bias: Vec<u16>,
    pub weight_ptr: Option<u64>,
    pub bias_ptr: Option<u64>,
}

/// `d` is a projection of zeros that is not uploaded.
pub open spec fn zero_dense(d: DenseLinear, in_features: int, out_features: int) -> bool {
    &&& d.weight@ == fill((out_features * in_features) as nat, 0u16)
    &&& d.bias@ == fill(out_features as nat, 0u16)
    &&& d.weight_ptr is None
    &&& d.bias_ptr is None
}

impl DenseLinear {
    /// A projection of zeros.
    pub fn new(in_features: usize, out_features: usize) -> (d: DenseLinear)
        requires
            out_features * in_features <= usize::MAX,
        ensures
            zero_dense(d, in_features as int, out_features as int),
    {
        DenseLinear {
            weight: filled(out_features * in_features, 0u16),
            bias: filled(out_features, 0u16),
            weight_ptr: None,
            bias_ptr: None,
        }
    }
}

/// Block size of the packed projections.
pub const PACKED_BLOCK: usize = 16;

/// `p` is a packed projection of zeros.
pub open spec fn zero_packed(p: PackedLinear, in_features: int, out_features: int) -> bool {
    let n = (blocks_of(in_features, PACKED_BLOCK as int) * out_features) as nat;
    &&& p.in_features == in_features
    &&& p.out_features == out_features
    &&& p.block_size == PACKED_BLOCK
    &&& p.weights@ == fill(n, NVFP4WeightBlock { scale: 0, packed_values: 0 })
    &&& p.scales@ == fill(n, 0u16)
}

/// The weights of a layer, packed and in half precision.
pub struct TransformerLayer {
    pub q_proj: PackedLinear,
    pub k_proj: PackedLinear,
    pub v_proj: PackedLinear,
    pub o_proj: PackedLinear,
    pub gate_proj: PackedLinear,
    pub up_proj: PackedLinear,
    pub down_proj: PackedLinear,
    pub dense_q_proj: DenseLinear,
    pub dense_k_proj: DenseLinear,
    pub dense_v_proj: DenseLinear,
    pub dense_o_proj: DenseLinear,
    pub dense_gate_proj: DenseLinear,
    pub dense_up_proj: DenseLinear,
    pub dense_down_proj: DenseLinear,
    pub input_layernorm_weight: Vec<u16>,
    pub post_attention_layernorm_weight: Vec<u16>,
    pub input_layernorm_weight_ptr: Option<u64>,
    pub post_attention_layernorm_weight_ptr: Option<u64>,
}

impl TransformerLayer {
    /// The tensor that a file gives for part `p`.
    pub open spec fn tensor(&self, p: LayerPart) -> Seq<u16> {
        match p {
            LayerPart::InputNorm => self.input_layernorm_weight@,
            LayerPart::PostNorm => self.post_attention_layernorm_weight@,
            LayerPart::Q => self.dense_q_proj.weight@,
            LayerPart::K => self.dense_k_proj.weight@,
            LayerPart::V => self.dense_v_proj.weight@,
            LayerPart::O => self.dense_o_proj.weight@,
            LayerPart::Gate => self.dense_gate_proj.weight@,
            LayerPart::Up => self.dense_up_proj.weight@,
            LayerPart::Down => self.dense_down_proj.weight@,
        }
    }

    /// Where part `p` was uploaded.
    pub open spec fn ptr(&self, p: LayerPart) -> Option<u64> {
        match p {
            LayerPart::InputNorm => self.input_layernorm_weight_ptr,
            LayerPart::PostNorm => self.post_attention_layernorm_weight_ptr,
            LayerPart::Q => self.dense_q_proj.weight_ptr,
            LayerPart::K => self.dense_k_proj.weight_ptr,
            LayerPart::V => self.dense_v_proj.weight_ptr,
            LayerPart::O => self.dense_o_proj.weight_ptr,
            LayerPart::Gate => self.dense_gate_proj.weight_ptr,
            LayerPart::Up => self.dense_up_proj.weight_ptr,
            LayerPart::Down => self.dense_down_proj.weight_ptr,
        }
    }

    /// The layers agree in all that files and uploads leave alone.
    #[verifier::opaque]
    pub open spec fn same_rest(&self, o: TransformerLayer) -> bool {
        &&& self.q_proj == o.q_proj
        &&& self.k_proj == o.k_proj
        &&& self.v_proj == o.v_proj
        &&& self.o_proj == o.o_proj
        &&& self.gate_proj == o.gate_proj
        &&& self.up_proj == o.up_proj
        &&& self.down_proj == o.down_proj
        &&& self.dense_q_proj.bias == o.dense_q_proj.bias
        &&& self.dense_q_proj.bias_ptr == o.dense_q_proj.bias_ptr
        &&& self.dense_k_proj.bias == o.dense_k_proj.bias
        &&& self.dense_k_proj.bias_ptr == o.dense_k_proj.bias_ptr
        &&& self.dense_v_proj.bias == o.dense_v_proj.bias
        &&& self.dense_v_proj.bias_ptr == o.dense_v_proj.bias_ptr
        &&& self.dense_o_proj.bias == o.dense_o_proj.bias
        &&& self.dense_o_proj.bias_ptr == o.dense_o_proj.bias_ptr
        &&& self.dense_gate_proj.bias == o.dense_gate_proj.bias
        &&& self.dense_gate_proj.bias_ptr == o.dense_gate_proj.bias_ptr
        &&& self.dense_up_proj.bias == o.dense_up_proj.bias
        &&& self.dense_up_proj.bias_ptr == o.dense_up_proj.bias_ptr
        &&& self.dense_down_proj.bias == o.dense_down_proj.bias
        &&& self.dense_down_proj.bias_ptr == o.dense_down_proj.bias_ptr
    }

    /// The packed projections are zeros, and so are the biases.
    #[verifier::opaque]
    pub open spec fn rest_is_zero(&self, c: &ModelConfig) -> bool {
        let (h, im) = (c.hidden_size as int, c.intermediate_size as int);
        let kv = c.num_kv_heads * c.head_dim;
        &&& zero_packed(self.q_proj, h, h)
        &&& zero_packed(self.k_proj, h, kv)
        &&& zero_packed(self.v_proj, h, kv)
        &&& zero_packed(self.o_proj, h, h)
        &&& zero_packed(self.gate_proj, h, im)
        &&& zero_packed(self.up_proj, h, im)
        &&& zero_packed(self.down_proj, im, h)
        &&& self.dense_q_proj.bias@ == fill(h as nat, 0u16)
        &&& self.dense_q_proj.bias_ptr is None
        &&& self.dense_k_proj.bias@ == fill(kv as nat, 0u16)
        &&& self.dense_k_proj.bias_ptr is None
        &&& self.dense_v_proj.bias@ == fill(kv as nat, 0u16)
        &&& self.dense_v_proj.bias_ptr is None
        &&& self.dense_o_proj.bias@ == fill(h as nat, 0u16)
        &&& self.dense_o_proj.bias_ptr is None
        &&& self.dense_gate_proj.bias@ == fill(im as nat, 0u16)
        &&& self.dense_gate_proj.bias_ptr is None
        &&& self.dense_up_proj.bias@ == fill(im as nat, 0u16)
        &&& self.dense_up_proj.bias_ptr is None
        &&& self.dense_down_proj.bias@ == fill(h as nat, 0u16)
        &&& self.dense_down_proj.bias_ptr is None
    }

    /// A layer before loading: norms of one, all else zero.
    pub fn new(config: &ModelConfig) -> (l: TransformerLayer)
        requires
            shape_fits(config),
        ensures
            l.rest_is_zero(config),
            forall|p: LayerPart| #[trigger]
                l.tensor(p) == initial(config, Target::Layer(0, p)) && l.ptr(p) is None,
    {
        let (hidden, intermediate) = (config.hidden_size, config.intermediate_size);
        let kv_heads: usize = config.num_kv_heads * config.head_dim;
        proof {
            reveal(TransformerLayer::rest_is_zero);
            let (h, im, kv) = (hidden as int, intermediate as int, kv_heads as int);
            assert(kv * h == h * kv && im * h == h * im) by (nonlinear_arith);
            lemma_blocks(h, h);
            lemma_blocks(h, kv);
            lemma_blocks(h, im);
            lemma_blocks(im, h);
        }
        TransformerLayer {
            q_proj: PackedLinear::new(hidden, hidden, PACKED_BLOCK),
            k_proj: PackedLinear::new(hidden, kv_heads, PACKED_BLOCK),
            v_proj: PackedLinear::new(hidden, kv_heads, PACKED_BLOCK),
            o_proj: PackedLinear::new(hidden, hidden, PACKED_BLOCK),
            gate_proj: PackedLinear::new(hidden, intermediate, PACKED_BLOCK),
            up_proj: PackedLinear::new(hidden, intermediate, PACKED_BLOCK),
            down_proj: PackedLinear::new(intermediate, hidden, PACKED_BLOCK),
            dense_q_proj: DenseLinear::new(hidden, hidden),
            dense_k_proj: DenseLinear::new(hidden, kv_heads),
            dense_v_proj: DenseLinear::new(hidden, kv_heads),
            dense_o_proj: DenseLinear::new(hidden, hidden),
            dense_gate_proj: DenseLinear::new(hidden, intermediate),
            dense_up_proj: DenseLinear::new(hidden, intermediate),
            dense_down_proj: DenseLinear::new(intermediate, hidden),
            input_layernorm_weight: filled(hidden, F16_ONE),
            post_attention_layernorm_weight: filled(hidden, F16_ONE),
            input_layernorm_weight_ptr: None,
            post_attention_layernorm_weight_ptr: None,
        }
    }

    fn tensor_of(&self, p: LayerPart) -> (v: &Vec<u16>)
        ensures
            v@ == self.tensor(p),
    {
        match p {
            LayerPart::InputNorm => &self.input_layernorm_weight,
            LayerPart::PostNorm => &self.post_attention_layernorm_weight,
            LayerPart::Q => &self.dense_q_proj.weight,
            LayerPart::K => &self.dense_k_proj.weight,
            LayerPart::V => &self.dense_v_proj.weight,
            LayerPart::O => &self.dense_o_proj.weight,
            LayerPart::Gate => &self.dense_gate_proj.weight,
            LayerPart::Up => &self.dense_up_proj.weight,
            LayerPart::Down => &self.dense_down_proj.weight,
        }
    }

    fn set_tensor(&mut self, p: LayerPart, v: Vec<u16>)
        ensures
            final(self).same_rest(*old(self)),
            forall|q: LayerPart| #[trigger]
                final(self).tensor(q) == (if q == p {
                    v@
                } else {
                    old(self).tensor(q)
                }),
            forall|q: LayerPart| #[trigger] final(self).ptr(q) == old(self).ptr(q),
    {
        proof {
            reveal(TransformerLayer::same_rest);
        }
        match p {
            LayerPart::InputNorm => self.input_layernorm_weight = v,
            LayerPart::PostNorm => self.post_attention_layernorm_weight = v,
            LayerPart::Q => self.dense_q_proj.weight = v,
            LayerPart::K => self.dense_k_proj.weight = v,
            LayerPart::V => self.dense_v_proj.weight = v,
            LayerPart::O => self.dense_o_proj.weight = v,
            LayerPart::Gate => self.dense_gate_proj.weight = v,
            LayerPart::Up => self.dense_up_proj.weight = v,
            LayerPart::Down => self.dense_down_proj.weight = v,
        }
    }

    fn set_ptr(&mut self, p: LayerPart, a: u64)
        ensures
            final(self).same_rest(*old(self)),
            forall|q: LayerPart| #[trigger] final(self).tensor(q) == old(self).tensor(q),
            forall|q: LayerPart| #[trigger]
                final(self).ptr(q) == (if q == p {
                    Some(a)
                } else {
                    old(self).ptr(q)
                }),
    {
        proof {
            reveal(TransformerLayer::same_rest);
        }
        match p {
            LayerPart::InputNorm => self.input_layernorm_weight_ptr = Some(a),
            LayerPart::PostNorm => self.post_attention_layernorm_weight_ptr = Some(a),
            LayerPart::Q => self.dense_q_proj.weight_ptr = Some(a),
            LayerPart::K => self.dense_k_proj.weight_ptr = Some(a),
            LayerPart::V => self.dense_v_proj.weight_ptr = Some(a),
            LayerPart::O => self.dense_o_proj.weight_ptr = Some(a),
            LayerPart::Gate => self.dense_gate_proj.weight_ptr = Some(a),
            LayerPart::Up => self.dense_up_proj.weight_ptr = Some(a),
            LayerPart::Down => self.dense_down_proj.weight_ptr = Some(a),
        }
    }
}

/// What files and uploads leave alone stays over several of them.
proof fn lemma_rest(a: TransformerLayer, b: TransformerLayer, c: TransformerLayer, m: &ModelConfig)
    requires
        a.same_rest(b),
    ensures
        b.same_rest(c) ==> a.same_rest(c),
        b.rest_is_zero(m) ==> a.rest_is_zero(m),
{
    reveal(TransformerLayer::same_rest);
    reveal(TransformerLayer::rest_is_zero);
}

/// A language model on the host, with the addresses of its tensors once they are uploaded.
pub struct Qwen3Model {
    pub config: ModelConfig,
    pub embed_tokens: Vec<u16>,
    pub lm_head: Vec<u16>,
    pub lm_head_packed: PackedLinear,
    pub layers: Vec<TransformerLayer>,
    pub embed_tokens_ptr: Option<u64>,
    pub lm_head_ptr: Option<u64>,
}

/// The fault of tensor `t`, whose bytes `b` start at place `at` of the file: the first that holds.
pub open spec fn fault_is(c: &ModelConfig, at: int, b: Seq<u8>, t: Target, f: ModelFault) -> bool {
    match f {
        ModelFault::Header(_) => false,
        ModelFault::Unaligned(n) => at % 2 != 0 && n@ == target_name(t),
        ModelFault::Cast(n) => at % 2 == 0 && b.len() % 2 != 0 && n@ == target_name(t),
        ModelFault::Size { name, expected, got } => at % 2 == 0 && b.len() % 2 == 0 && name@
            == target_name(t) && expected == target_len(c, t) && got == b.len() / 2 && expected != got,
    }
}

impl Qwen3Model {
    /// The model has the tensor.
    pub open spec fn has(&self, t: Target) -> bool {
        t matches Target::Layer(i, _) ==> i < self.layers@.len()
    }

    /// The tensor that a file gives for `t`.
    pub open spec fn tensor(&self, t: Target) -> Seq<u16> {
        match t {
            Target::Embed => self.embed_tokens@,
            Target::LmHead => self.lm_head@,
            Target::Layer(i, p) => self.layers@[i as int].tensor(p),
        }
    }

    /// Where the tensor was uploaded.
    pub open spec fn ptr(&self, t: Target) -> Option<u64> {
        match t {
            Target::Embed => self.embed_tokens_ptr,
            Target::LmHead => self.lm_head_ptr,
            Target::Layer(i, p) => self.layers@[i as int].ptr(p),
        }
    }

    /// The models agree in all that files and uploads leave alone.
    pub open spec fn same_rest(&self, o: Qwen3Model) -> bool {
        &&& self.config == o.config
        &&& self.lm_head_packed == o.lm_head_packed
        &&& self.layers@.len() == o.layers@.len()
        &&& forall|i: int|
            0 <= i < self.layers@.len() ==> (#[trigger] self.layers@[i]).same_rest(o.layers@[i])
    }

    /// The model has the shape, and what no file gives is zero.
    pub open spec fn rest_is_zero(&self, config: ModelConfig) -> bool {
        &&& self.config == config
        &&& self.layers@.len() == config.num_layers
        &&& zero_packed(self.lm_head_packed, config.hidden_size as int, config.vocab_size as int)
        &&& forall|i: int|
            0 <= i < self.layers@.len() ==> (#[trigger] self.layers@[i]).rest_is_zero(&config)
    }

    /// A model before loading: norms of one, all else zero.
    pub fn new(config: ModelConfig) -> (m: Qwen3Model)
        requires
            shape_fits(&config),
        ensures
            m.rest_is_zero(config),
            forall|t: Target| #[trigger]
                m.has(t) ==> m.tensor(t) == initial(&config, t) && m.ptr(t) is None,
    {
        let mut layers: Vec<TransformerLayer> = Vec::new();
        let mut i: usize = 0;
        while i < config.num_layers
            invariant
                i <= config.num_layers,
                shape_fits(&config),
                layers@.len() == i,
                forall|j: int, p: LayerPart|
                    0 <= j < i ==> #[trigger] layers@[j].tensor(p) == initial(
                        &config,
                        Target::Layer(j as usize, p),
                    ) && layers@[j].ptr(p) is None,
                forall|j: int| 0 <= j < i ==> (#[trigger] layers@[j]).rest_is_zero(&config),
            decreases config.num_layers - i,
        {
            let l: TransformerLayer = TransformerLayer::new(&config);
            proof {
                assert forall|p: LayerPart| #[trigger]
                    l.tensor(p) == initial(&config, Target::Layer(i, p)) && l.ptr(p) is None by {
                    assert(l.tensor(p) == initial(&config, Target::Layer(0, p)));
                    assert(initial(&config, Target::Layer(0, p)) == initial(
                        &config,
                        Target::Layer(i, p),
                    ));
                }
            }
            layers.push(l);
            i = i + 1;
        }
        proof {
            let (h, v) = (config.hidden_size as int, config.vocab_size as int);
            lemma_blocks(h, v);
            assert(v * h == h * v) by (nonlinear_arith);
        }
        let m: Qwen3Model = Qwen3Model {
            config,
            embed_tokens: filled(config.vocab_size * config.hidden_size, 0u16),
            lm_head: filled(config.vocab_size * config.hidden_size, 0u16),
            lm_head_packed: PackedLinear::new(config.hidden_size, config.vocab_size, PACKED_BLOCK),
            layers,
            embed_tokens_ptr: None,
            lm_head_ptr: None,
        };
        proof {
            assert forall|t: Target| #[trigger] m.has(t) implies m.tensor(t) == initial(&config, t)
                && m.ptr(t) is None by {
                if let Target::Layer(i, p) = t {
                    assert(m.layers@[i as int].tensor(p) == initial(&config, t));
                }
            }
        }
        m
    }

    fn tensor_of(&self, t: Target) -> (v: &Vec<u16>)
        requires
            self.has(t),
        ensures
            v@ == self.tensor(t),
    {
        match t {
            Target::Embed => &self.embed_tokens,
            Target::LmHead => &self.lm_head,
            Target::Layer(i, p) => self.layers[i].tensor_of(p),
        }
    }

    fn set_tensor(&mut self, t: Target, v: Vec<u16>)
        requires
            old(self).has(t),
        ensures
            final(self).same_rest(*old(self)),
            forall|u: Target| #[trigger]
                final(self).has(u) ==> final(self).tensor(u) == (if u == t {
                    v@
                } else {
                    old(self).tensor(u)
                }) && final(self).ptr(u) == old(self).ptr(u),
    {
        proof {
            reveal(TransformerLayer::same_rest);
        }
        match t {
            Target::Embed => self.embed_tokens = v,
            Target::LmHead => self.lm_head = v,
            Target::Layer(i, p) => self.layers[i].set_tensor(p, v),
        }
    }

    fn set_ptr(&mut self, t: Target, a: u64)
        requires
            old(self).has(t),
        ensures
            final(self).same_rest(*old(self)),
            forall|u: Target| #[trigger]
                final(self).has(u) ==> final(self).tensor(u) == old(self).tensor(u) && final(self).ptr(u) == (if u == t {
                    Some(a)
                } else {
                    old(self).ptr(u)
                }),
    {
        proof {
            reveal(TransformerLayer::same_rest);
        }
        match t {
            Target::Embed => self.embed_tokens_ptr = Some(a),
            Target::LmHead => self.lm_head_ptr = Some(a),
            Target::Layer(i, p) => self.layers[i].set_ptr(p, a),
        }
    }

    /// Takes a tensor over from the file's bytes, which start at place `at` of the file.
    fn copy_tensor(&mut self, t: Target, at: usize, src: &[u8]) -> (r: Result<(), ModelFault>)
        requires
            old(self).has(t),
            old(self).tensor(t).len() == target_len(&old(self).config, t),
        ensures
            match r {
                Ok(_) => {
                    &&& loads(&old(self).config, Some((at as int, src@)), t)
                    &&& final(self).same_rest(*old(self))
                    &&& forall|u: Target| #[trigger]
                        final(self).has(u) ==> final(self).tensor(u) == (if u == t {
                            loaded(&old(self).config, Some((at as int, src@)), t)
                        } else {
                            old(self).tensor(u)
                        }) && final(self).ptr(u) == old(self).ptr(u)
                },
                Err(f) => !loads(&old(self).config, Some((at as int, src@)), t) && fault_is(
                    &old(self).config,
                    at as int,
                    src@,
                    t,
                    f,
                ),
            },
    {
        if at % 2 != 0 {
            return Err(ModelFault::Unaligned(tensor_name(t)));
        }
        if src.len() % 2 != 0 {
            return Err(ModelFault::Cast(tensor_name(t)));
        }
        let expected: usize = self.tensor_of(t).len();
        let got: usize = src.len() / 2;
        if expected != got {
            return Err(ModelFault::Size { name: tensor_name(t), expected, got });
        }
        let v: Vec<u16> = halves_of(src);
        self.set_tensor(t, v);
        Ok(())
    }

    /// Loads a model from the bytes of one file. Tensors that the file does not have stay as they are. A
    /// tensor must start at an even place of the file: memory that holds a file starts at an even address,
    /// so elsewhere its words would not stand at even ones.
    pub fn load_from_safetensors(raw: &[u8], config: ModelConfig) -> (r: Result<Qwen3Model, ModelFault>)
        requires
            shape_fits(&config),
        ensures
            match r {
                Ok(m) => shard_header(raw@) matches Some(h) && m.rest_is_zero(config) && exists|
                    es: Seq<TensorEntry>,
                |
                    {
                        &&& h.1 == #[trigger] entry_map(es)
                        &&& distinct_names(es)
                        &&& forall|t: Target| #[trigger]
                            m.has(t) ==> m.ptr(t) is None && tensor_ok(
                                &config,
                                raw@,
                                HEADER_LEN_BYTES + h.0,
                                es,
                                t,
                                m.tensor(t),
                            )
                    },
                Err(ModelFault::Header(f)) => header_refused(raw@, f),
                Err(f) => shard_header(raw@) matches Some(h) && exists|es: Seq<TensorEntry>, k: int|
                    {
                        &&& h.1 == #[trigger] entry_map(es)
                        &&& distinct_names(es)
                        &&& 0 <= k < targets_of(&config).len()
                        &&& bytes_in(
                            raw@,
                            HEADER_LEN_BYTES + h.0,
                            es,
                            target_name(#[trigger] targets_of(&config)[k]),
                        ) matches Some((at, b)) && fault_is(&config, at, b, targets_of(&config)[k], f)
                        &&& forall|j: int|
                            0 <= j < k ==> loads(
                                &config,
                                bytes_in(
                                    raw@,
                                    HEADER_LEN_BYTES + h.0,
                                    es,
                                    target_name(#[trigger] targets_of(&config)[j]),
                                ),
                                targets_of(&config)[j],
                            )
                    },
            },
    {
        let size: usize = raw.len();
        let (n, es): (usize, Vec<TensorEntry>) = match read_header(raw) {
            Ok(h) => h,
            Err(e) => {
                return Err(ModelFault::Header(e));
            },
        };
        let start: usize = HEADER_LEN_BYTES + n;
        let ts: Vec<Target> = targets(&config);
        let mut m: Qwen3Model = Qwen3Model::new(config);
        let ghost em = entry_map(es@);
        let mut k: usize = 0;
        proof {
            assert forall|j: int| 0 <= j < ts@.len() implies m.tensor(#[trigger] ts@[j]) == initial(
                &config,
                ts@[j],
            ) by {
                lemma_target_at(&config, j);
                assert(m.has(ts@[j]));
            }
        }
        while k < ts.len()
            invariant
                k <= ts@.len(),
                ts@ == targets_of(&config),
                shape_fits(&config),
                m.rest_is_zero(config),
                start == HEADER_LEN_BYTES + n,
                size == raw@.len(),
                em == entry_map(es@),
                shard_header(raw@) == Some((n as nat, em)),
                distinct_names(es@),
                forall|i: int|
                    0 <= i < es@.len() ==> (#[trigger] es@[i]).start <= es@[i].end && start
                        + es@[i].end <= raw@.len(),
                forall|t: Target| #[trigger] m.has(t) ==> m.ptr(t) is None,
                forall|j: int|
                    k <= j < ts@.len() ==> m.tensor(#[trigger] ts@[j]) == initial(&config, ts@[j]),
                forall|j: int|
                    0 <= j < k ==> tensor_ok(
                        &config,
                        raw@,
                        start as int,
                        es@,
                        #[trigger] ts@[j],
                        m.tensor(ts@[j]),
                    ),
            decreases ts@.len() - k,
        {
            let t: Target = ts[k];
            let name: String = tensor_name(t);
            let i: usize = find_entry(es.as_slice(), &name);
            let ghost before = m;
            proof {
                lemma_target_at(&config, k as int);
                assert(m.has(t));
                assert(m.tensor(ts@[k as int]) == initial(&config, ts@[k as int]));
                lemma_target_len(&config, t);
            }
            if i < es.len() {
                proof {
                    assert(es@[i as int].start <= es@[i as int].end);
                }
                let lo: usize = start + es[i].start;
                let hi: usize = start + es[i].end;
                let src: &[u8] = vstd::slice::slice_subrange(raw, lo, hi);
                match m.copy_tensor(t, lo, src) {
                    Ok(_) => {},
                    Err(f) => {
                        proof {
                            let j = k as int;
                            assert(target_name(targets_of(&config)[j]) == name@);
                        }
                        return Err(f);
                    },
                }
            }
            proof {
                assert forall|i: int| 0 <= i < m.layers@.len() implies (
                #[trigger] m.layers@[i]).rest_is_zero(&config) by {
                    assert(before.layers@[i].rest_is_zero(&config));
                    if m != before {
                        lemma_rest(m.layers@[i], before.layers@[i], before.layers@[i], &config);
                    }
                }
                assert forall|u: Target| #[trigger] m.has(u) implies m.ptr(u) is None by {
                    assert(before.has(u));
                }
                let b = bytes_in(raw@, start as int, es@, target_name(t));
                assert(m.has(t));
                assert(tensor_ok(&config, raw@, start as int, es@, t, m.tensor(t)));
                assert forall|j: int| 0 <= j < k + 1 implies tensor_ok(
                    &config,
                    raw@,
                    start as int,
                    es@,
                    #[trigger] ts@[j],
                    m.tensor(ts@[j]),
                ) by {
                    lemma_target_at(&config, j);
                    assert(m.has(ts@[j]));
                    if j < k {
                        lemma_targets_differ(&config, j, k as int);
                        assert(m.tensor(ts@[j]) == before.tensor(ts@[j]));
                    }
                }
                assert forall|j: int| k + 1 <= j < ts@.len() implies m.tensor(#[trigger] ts@[j])
                    == initial(&config, ts@[j]) by {
                    lemma_target_at(&config, j);
                    lemma_targets_differ(&config, k as int, j);
                    assert(m.has(ts@[j]));
                    assert(m.tensor(ts@[j]) == before.tensor(ts@[j]));
                }
            }
            k = k + 1;
        }
        proof {
            assert(entry_map(es@) == em);
            assert forall|t: Target| #[trigger] m.has(t) implies m.ptr(t) is None && tensor_ok(
                &config,
                raw@,
                start as int,
                es@,
                t,
                m.tensor(t),
            ) by {
                let j = lemma_target_listed(&config, t);
                assert(ts@[j] == t);
            }
        }
        Ok(m)
    }

    /// Bytes of the first `k` tensors.
    pub open spec fn bytes_before(&self, k: int) -> int
        decreases k,
    {
        if k <= 0 {
            0
        } else {
            self.bytes_before(k - 1) + self.tensor(targets_of(&self.config)[k - 1]).len() * 2
        }
    }

    /// Bytes of all tensors.
    pub open spec fn all_bytes(&self) -> int {
        self.bytes_before(targets_of(&self.config).len() as int)
    }

    proof fn lemma_bytes_grow(&self, k: int, n: int)
        requires
            0 <= k <= n,
        ensures
            0 <= self.bytes_before(k) <= self.bytes_before(n),
        decreases n,
    {
        if k < n {
            self.lemma_bytes_grow(k, n - 1);
        } else if k > 0 {
            self.lemma_bytes_grow(k - 1, n - 1);
        }
    }

    /// Where tensor number `k` is put by an upload into a pool that starts at `base` and has handed out
    /// `next` bytes.
    pub open spec fn address_of(&self, base: int, next: int, k: int) -> u64 {
        (base + aligned_up(next + self.bytes_before(k), 16)) as u64
    }

    /// How many of the first `n` tensors stand before the first that no longer fits a pool of `size` bytes
    /// that has handed out `next`.
    pub open spec fn fitting_before(&self, next: int, size: int, n: int) -> int
        decreases n,
    {
        if n <= 0 {
            0
        } else {
            let k = self.fitting_before(next, size, n - 1);
            if k == n - 1 && next + self.bytes_before(n) <= size {
                n
            } else {
                k
            }
        }
    }

    /// A tensor that does not fit ends the upload.
    proof fn lemma_fitting_ends(&self, next: int, size: int, k: int, n: int)
        requires
            0 <= k < n,
            self.fitting_before(next, size, k) == k,
            next + self.bytes_before(k + 1) > size,
        ensures
            self.fitting_before(next, size, n) == k,
        decreases n,
    {
        if k + 1 < n {
            self.lemma_fitting_ends(next, size, k, n - 1);
        }
    }

    /// Reserves memory for every tensor, in the order they are loaded, and keeps the address of each.
    /// Where the memory runs out, the tensors before keep theirs, and the one that did not fit is counted.
    pub fn upload_to_device(&mut self, pool: &mut UnifiedMemoryPool) -> (r: Result<(), OutOfMemory>)
        requires
            shape_fits(&old(self).config),
            old(self).layers@.len() == old(self).config.num_layers,
            old(pool).next + old(self).all_bytes() + 16 <= usize::MAX,
            old(pool).base + old(pool).next + old(self).all_bytes() + 16 <= u64::MAX,
        ensures
            r is Ok <==> old(pool).next + old(self).all_bytes() <= old(pool).size,
            ({
                let ts = targets_of(&old(self).config);
                let n = ts.len() as int;
                let next = old(pool).next as int;
                let k = old(self).fitting_before(next, old(pool).size as int, n);
                &&& r is Ok <==> k == n
                &&& final(pool).next == next + old(self).bytes_before(
                    if k < n {
                        k + 1
                    } else {
                        n
                    },
                )
                &&& forall|j: int|
                    0 <= j < n ==> #[trigger] final(self).ptr(ts[j]) == (if j < k {
                        Some(old(self).address_of(old(pool).base as int, next, j))
                    } else {
                        old(self).ptr(ts[j])
                    })
            }),
            final(self).same_rest(*old(self)),
            forall|t: Target| #[trigger]
                old(self).has(t) ==> final(self).tensor(t) == old(self).tensor(t),
            final(pool).base == old(pool).base,
            final(pool).size == old(pool).size,
    {
        let ghost (b0, n0, s0) = (pool.base as int, pool.next as int, pool.size as int);
        let ghost was = *self;
        let ts: Vec<Target> = targets(&self.config);
        let mut k: usize = 0;
        proof {
            lemma_rest_itself(was);
            was.lemma_bytes_grow(0, ts@.len() as int);
        }
        while k < ts.len()
            invariant
                k <= ts@.len(),
                was == *old(self),
                ts@ == targets_of(&was.config),
                shape_fits(&was.config),
                was.layers@.len() == was.config.num_layers,
                n0 + was.all_bytes() + 16 <= usize::MAX,
                b0 + n0 + was.all_bytes() + 16 <= u64::MAX,
                b0 == old(pool).base,
                n0 == old(pool).next,
                s0 == old(pool).size,
                pool.base == b0,
                pool.size == s0,
                pool.next == n0 + was.bytes_before(k as int),
                k > 0 ==> n0 + was.bytes_before(k as int) <= s0,
                self.same_rest(was),
                forall|t: Target| #[trigger] was.has(t) ==> self.tensor(t) == was.tensor(t),
                was.fitting_before(n0, s0, k as int) == k,
                forall|j: int|
                    0 <= j < ts@.len() ==> #[trigger] self.ptr(ts@[j]) == (if j < k {
                        Some(was.address_of(b0, n0, j))
                    } else {
                        was.ptr(ts@[j])
                    }),
            decreases ts@.len() - k,
        {
            let t: Target = ts[k];
            let ghost before = *self;
            proof {
                was.lemma_bytes_grow(k as int, k + 1);
                was.lemma_bytes_grow(k + 1, ts@.len() as int);
                let n = n0 + was.bytes_before(k as int);
                assert(aligned_up(n, 16) <= n + 15);
                lemma_target_at(&was.config, k as int);
                assert(was.has(t) && self.has(t));
                assert(self.tensor(t) == was.tensor(t));
            }
            let len: usize = self.tensor_of(t).len();
            match pool.allocate(len, 2, 2) {
                Ok(a) => {
                    self.set_ptr(t, a);
                },
                Err(e) => {
                    proof {
                        was.lemma_fitting_ends(n0, s0, k as int, ts@.len() as int);
                    }
                    return Err(e);
                },
            }
            proof {
                assert forall|u: Target| #[trigger] was.has(u) implies self.tensor(u) == was.tensor(
                    u,
                ) by {
                    assert(self.has(u));
                    assert(before.tensor(u) == was.tensor(u));
                }
                assert forall|i: int| 0 <= i < self.layers@.len() implies (
                #[trigger] self.layers@[i]).same_rest(was.layers@[i]) by {
                    assert(before.layers@[i].same_rest(was.layers@[i]));
                    lemma_rest(self.layers@[i], before.layers@[i], was.layers@[i], &was.config);
                }
                assert forall|j: int| 0 <= j < ts@.len() implies #[trigger] self.ptr(ts@[j]) == (if j
                    < k + 1 {
                    Some(was.address_of(b0, n0, j))
                } else {
                    was.ptr(ts@[j])
                }) by {
                    lemma_target_at(&was.config, j);
                    assert(self.has(ts@[j]));
                    if j < k {
                        lemma_targets_differ(&was.config, j, k as int);
                    } else if j > k {
                        lemma_targets_differ(&was.config, k as int, j);
                    }
                    assert(j != k ==> before.ptr(ts@[j]) == self.ptr(ts@[j]));
                }
            }
            k = k + 1;
        }
        Ok(())
    }
}

proof fn lemma_rest_itself(m: Qwen3Model)
    ensures
        m.same_rest(m),
{
    reveal(TransformerLayer::same_rest);
}

/// A part of a tensor's rows packs into no more blocks than it has elements.
proof fn lemma_blocks(n: int, rows: int)
    requires
        0 <= n,
        0 <= rows,
    ensures
        0 <= blocks_of(n, PACKED_BLOCK as int) * rows <= n * rows,
{
    let b = blocks_of(n, PACKED_BLOCK as int);
    assert(b == (n + 15) / 16);
    assert(0 <= b * rows <= n * rows) by (nonlinear_arith)
        requires
            0 <= b <= n,
            0 <= rows,
    ;
}

/// Every listed tensor is the model's.
proof fn lemma_target_at(c: &ModelConfig, i: int)
    requires
        c.num_layers * 9 + 2 <= usize::MAX,
        0 <= i < targets_of(c).len(),
    ensures
        targets_of(c)[i] matches Target::Layer(l, _) ==> l < c.num_layers,
{
}

/// No tensor is listed twice.
proof fn lemma_targets_differ(c: &ModelConfig, i: int, j: int)
    requires
        c.num_layers * 9 + 2 <= usize::MAX,
        0 <= i < j < targets_of(c).len(),
    ensures
        targets_of(c)[i] != targets_of(c)[j],
{
    let ts = targets_of(c);
    if i >= 2 {
        let (a, b) = (i - 2, j - 2);
        assert(ts[i] == Target::Layer((a / 9) as usize, layer_parts()[a % 9]));
        assert(ts[j] == Target::Layer((b / 9) as usize, layer_parts()[b % 9]));
        if a / 9 == b / 9 {
            lemma_parts_differ(a % 9, b % 9);
        }
    }
}

proof fn lemma_parts_differ(a: int, b: int)
    requires
        0 <= a < b < 9,
    ensures
        layer_parts()[a] != layer_parts()[b],
{
}

/// Every tensor of the model is listed.
proof fn lemma_target_listed(c: &ModelConfig, t: Target) -> (j: int)
    requires
        c.num_layers * 9 + 2 <= usize::MAX,
        t matches Target::Layer(l, _) ==> l < c.num_layers,
    ensures
        0 <= j < targets_of(c).len(),
        targets_of(c)[j] == t,
{
    match t {
        Target::Embed => 0,
        Target::LmHead => 1,
        Target::Layer(l, p) => {
            let q = match p {
                LayerPart::InputNorm => 0int,
                LayerPart::PostNorm => 1,
                LayerPart::Q => 2,
                LayerPart::K => 3,
                LayerPart::V => 4,
                LayerPart::O => 5,
                LayerPart::Gate => 6,
                LayerPart::Up => 7,
                LayerPart::Down => 8,
            };
            let k = l * 9 + q;
            assert(k / 9 == l && k % 9 == q);
            assert(layer_parts()[q] == p);
            k + 2
        },
    }
}

proof fn lemma_target_len(c: &ModelConfig, t: Target)
    requires
        shape_fits(c),
    ensures
        0 <= target_len(c, t),
        initial(c, t).len() == target_len(c, t),
{
    let (h, im, v) = (c.hidden_size as int, c.intermediate_size as int, c.vocab_size as int);
    let kv = c.num_kv_heads * c.head_dim;
    assert(0 <= kv) by (nonlinear_arith)
        requires
            kv == c.num_kv_heads * c.head_dim,
    ;
    assert(0 <= v * h && 0 <= h * h && 0 <= kv * h && 0 <= im * h) by (nonlinear_arith)
        requires
            0 <= v,
            0 <= h,
            0 <= kv,
            0 <= im,
    ;
}

} // verus!
