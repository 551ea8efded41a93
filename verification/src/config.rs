//! The model's shape, as read from its configuration.
use vstd::prelude::*;

verus! {

/// Which mixer a decoder layer runs.
#[derive(Clone, Copy, Debug, PartialEq, Eq, Structural)]
pub enum LayerType {
    /// Gated delta-rule recurrence (constant-size state).
    LinearAttention,
    /// Grouped-query softmax attention (KV cache).
    FullAttention,
}

/// Dimensions and ids of one checkpoint.
pub struct Config {
    pub hidden_size: usize,
    pub vocab_size: usize,
    pub num_layers: usize,
    pub num_heads: usize,
    pub num_kv_heads: usize,
    pub head_dim: usize,
    pub rotary_dim: usize,
    pub intermediate_size: usize,
    pub lin_num_v_heads: usize,
    pub lin_num_k_heads: usize,
    pub lin_k_dim: usize,
    pub lin_v_dim: usize,
    pub conv_kernel: usize,
    pub layer_types: Vec<LayerType>,
    pub max_position_embeddings: usize,
    pub tie_word_embeddings: bool,
    /// The feed-forward blocks are mixtures of experts.
    pub is_moe: bool,
    /// Which layers have experts.
    pub moe_layers: Vec<bool>,
    pub num_experts: usize,
    pub num_experts_per_tok: usize,
    pub moe_intermediate_size: usize,
    pub shared_expert_intermediate_size: usize,
    /// Longest n-gram that the hashed embedding looks up, and the heads of each length.
    pub ple_ngram_size: usize,
    pub ple_heads_per_ngram: usize,
    /// Rows of the smallest head, and what the table is padded to a multiple of.
    pub ple_vocab_base: usize,
    pub ple_vocab_divisor: usize,
    pub ple_seed: u64,
    pub eos_token_id: u32,
    /// Bit pattern of the f32 epsilon handed to the norm kernels.
    pub rms_eps_bits: u32,
}

impl Config {
    /// Width of the linear-attention keys: heads times head width.
    pub open spec fn spec_key_dim(&self) -> int {
        self.lin_num_k_heads * self.lin_k_dim
    }

    /// Width of the linear-attention values: heads times head width.
    pub open spec fn spec_value_dim(&self) -> int {
        self.lin_num_v_heads * self.lin_v_dim
    }

    /// Heads of the hashed embedding: some for every n-gram length from two on.
    pub open spec fn spec_ple_heads(&self) -> int {
        if self.ple_ngram_size == 0 {
            0
        } else {
            (self.ple_ngram_size - 1) * self.ple_heads_per_ngram
        }
    }

    /// Heads of the hashed embedding.
    pub fn ple_heads(&self) -> (n: usize)
        requires
            self.spec_ple_heads() <= usize::MAX,
        ensures
            n == self.spec_ple_heads(),
    {
        if self.ple_ngram_size == 0 {
            0
        } else {
            (self.ple_ngram_size - 1) * self.ple_heads_per_ngram
        }
    }

    /// Layer `i` has experts.
    pub fn is_moe_layer(&self, i: usize) -> (b: bool)
        ensures
            b == (self.is_moe && i < self.moe_layers@.len() && self.moe_layers@[i as int]),
    {
        self.is_moe && i < self.moe_layers.len() && self.moe_layers[i]
    }

    /// Width of the linear-attention keys.
    pub fn key_dim(&self) -> (d: usize)
        requires
            self.spec_key_dim() <= usize::MAX,
        ensures
            d == self.spec_key_dim(),
    {
        self.lin_num_k_heads * self.lin_k_dim
    }

    /// Width of the linear-attention values.
    pub fn value_dim(&self) -> (d: usize)
        requires
            self.spec_value_dim() <= usize::MAX,
        ensures
            d == self.spec_value_dim(),
    {
        self.lin_num_v_heads * self.lin_v_dim
    }
}

} // verus!
