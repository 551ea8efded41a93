//! The key and value cache of the dense model.
use vstd::prelude::*;

use crate::memory::{aligned_up, plane_bytes, KVCachePtrs, OutOfMemory, UnifiedMemoryPool};
use crate::model::ModelConfig;

verus! {

/// Keys and values of all layers at all positions.
pub struct KVCache {
    pub max_seq_len: usize,
    pub current_len: usize,
    pub num_layers: usize,
    pub num_kv_heads: usize,
    pub head_dim: usize,
    pub ptrs: KVCachePtrs,
}

/// Where one position's keys and values lie.
#[derive(Clone, Copy, Debug, PartialEq, Eq, Structural)]
pub struct KvRow {
    pub k: u64,
    pub v: u64,
    /// Elements of each.
    pub len: usize,
}

impl KVCache {
    /// A cache for a model, empty.
    pub fn new(config: &ModelConfig, pool: &mut UnifiedMemoryPool) -> (r: Result<KVCache, OutOfMemory>)
        requires
            config.num_kv_heads * config.max_seq_len <= usize::MAX,
            config.head_dim * 2 <= usize::MAX,
            ({
                let plane = plane_bytes(
                    config.num_kv_heads as int,
                    config.max_seq_len as int,
                    config.head_dim as int,
                );
                &&& plane * 2 <= usize::MAX
                &&& config.num_layers * (plane * 2) <= usize::MAX
                &&& old(pool).next + config.num_layers * (plane * 2) <= usize::MAX
                &&& old(pool).next + 16 <= usize::MAX
                &&& old(pool).base + aligned_up(old(pool).next as int, 16) + plane <= u64::MAX
            }),
        ensures
            ({
                let plane = plane_bytes(
                    config.num_kv_heads as int,
                    config.max_seq_len as int,
                    config.head_dim as int,
                );
                let total = config.num_layers * (plane * 2);
                let at = old(pool).base + aligned_up(old(pool).next as int, 16);
                &&& final(pool).base == old(pool).base
                &&& final(pool).size == old(pool).size
                &&& final(pool).next == old(pool).next + total
                &&& match r {
                    Err(_) => old(pool).next + total > old(pool).size,
                    Ok(c) => {
                        &&& old(pool).next + total <= old(pool).size
                        &&& c.current_len == 0
                        &&& c.max_seq_len == config.max_seq_len
                        &&& c.num_layers == config.num_layers
                        &&& c.num_kv_heads == config.num_kv_heads
                        &&& c.head_dim == config.head_dim
                        &&& c.ptrs.wf()
                        &&& c.ptrs.base_k == at
                        &&& c.ptrs.base_v == at + plane
                        &&& c.ptrs.bytes_per_k == plane
                        &&& c.ptrs.num_layers == config.num_layers
                        &&& c.ptrs.num_kv_heads == config.num_kv_heads
                        &&& c.ptrs.head_dim == config.head_dim
                        &&& c.ptrs.max_seq_len == config.max_seq_len
                    },
                }
            }),
    {
        proof {
            let p = plane_bytes(
                config.num_kv_heads as int,
                config.max_seq_len as int,
                config.head_dim as int,
            );
            let x = config.num_kv_heads * config.max_seq_len;
            assert(0 <= x) by (nonlinear_arith)
                requires
                    x == config.num_kv_heads * config.max_seq_len,
            ;
            let y = config.head_dim * 2;
            assert(0 <= x * y) by (nonlinear_arith)
                requires
                    x >= 0,
                    y >= 0,
            ;
        }
        match pool.allocate_kv_cache(
            config.num_layers,
            config.num_kv_heads,
            config.head_dim,
            config.max_seq_len,
        ) {
            Ok(ptrs) => Ok(
                KVCache {
                    max_seq_len: config.max_seq_len,
                    current_len: 0,
                    num_layers: config.num_layers,
                    num_kv_heads: config.num_kv_heads,
                    head_dim: config.head_dim,
                    ptrs,
                },
            ),
            Err(e) => Err(e),
        }
    }

    /// Where the keys and values of `pos` in `layer` are read and written.
    pub fn row(&self, layer: usize, pos: usize) -> (r: KvRow)
        requires
            self.num_kv_heads * self.head_dim <= usize::MAX,
            self.ptrs.bytes_per_k * 2 <= usize::MAX,
            layer * (self.ptrs.bytes_per_k * 2) <= usize::MAX,
            pos * self.ptrs.num_kv_heads <= usize::MAX,
            self.ptrs.reach(layer as int, pos as int) <= usize::MAX,
            self.ptrs.base_k + self.ptrs.reach(layer as int, pos as int) <= u64::MAX,
            self.ptrs.base_v + self.ptrs.reach(layer as int, pos as int) <= u64::MAX,
        ensures
            r.k == self.ptrs.row_at(layer as int, pos as int, false),
            r.v == self.ptrs.row_at(layer as int, pos as int, true),
            r.len == self.num_kv_heads * self.head_dim,
    {
        KvRow {
            k: self.ptrs.k_ptr(layer, pos),
            v: self.ptrs.v_ptr(layer, pos),
            len: self.num_kv_heads * self.head_dim,
        }
    }

    /// One more position is filled.
    pub fn advance(&mut self)
        requires
            old(self).current_len < usize::MAX,
        ensures
            final(self).current_len == old(self).current_len + 1,
            final(self).max_seq_len == old(self).max_seq_len,
            final(self).num_layers == old(self).num_layers,
            final(self).num_kv_heads == old(self).num_kv_heads,
            final(self).head_dim == old(self).head_dim,
            final(self).ptrs == old(self).ptrs,
    {
        self.current_len = self.current_len + 1;
    }

    /// A new sequence starts.
    pub fn reset(&mut self)
        ensures
            final(self).current_len == 0,
            final(self).max_seq_len == old(self).max_seq_len,
            final(self).num_layers == old(self).num_layers,
            final(self).num_kv_heads == old(self).num_kv_heads,
            final(self).head_dim == old(self).head_dim,
            final(self).ptrs == old(self).ptrs,
    {
        self.current_len = 0;
    }
}

} // verus!
