//! One region of unified memory, handed out from its start; and what a model needs of it.
use vstd::prelude::*;

use crate::model::ModelConfig;

verus! {

/// Bytes of a 16-bit float.
pub const F16_BYTES: usize = 2;

/// Least alignment of an allocation.
pub const MIN_ALIGN: usize = 16;

/// The region is used up.
#[derive(Clone, Copy, Debug, PartialEq, Eq, Structural)]
pub struct OutOfMemory;

/// A region of unified memory.
pub struct UnifiedMemoryPool {
    pub base: u64,
    pub size: usize,
    /// Bytes handed out.
    pub next: usize,
}

/// `n` rounded up to a multiple of `align`.
pub open spec fn aligned_up(n: int, align: int) -> int {
    (n + align - 1) / align * align
}

/// Alignment that an allocation gets: the type's, at least sixteen.
pub open spec fn alignment(align: usize) -> usize {
    if align < 16 {
        16
    } else {
        align
    }
}

impl UnifiedMemoryPool {
    /// A region of `size_gb` times 2^30 bytes at `base`.
    pub fn new(base: u64, size_gb: usize) -> (p: UnifiedMemoryPool)
        requires
            size_gb * 0x4000_0000 <= usize::MAX,
        ensures
            p.base == base,
            p.size == size_gb * 0x4000_0000,
            p.next == 0,
    {
        UnifiedMemoryPool { base, size: size_gb * 0x4000_0000, next: 0 }
    }

    /// Bytes of the region.
    pub fn size(&self) -> (n: usize)
        ensures
            n == self.size,
    {
        self.size
    }

    /// Hands out `count` elements of `size` bytes. The address is the first aligned one at or after what
    /// was handed out; what is counted is the size without the padding, also where it no longer fits.
    pub fn allocate(&mut self, count: usize, size: usize, align: usize) -> (r: Result<u64, OutOfMemory>)
        requires
            count * size <= usize::MAX,
            old(self).next + count * size <= usize::MAX,
            old(self).next + alignment(align) <= usize::MAX,
            old(self).base + aligned_up(old(self).next as int, alignment(align) as int) <= u64::MAX,
        ensures
            final(self).base == old(self).base,
            final(self).size == old(self).size,
            final(self).next == old(self).next + count * size,
            r == (if old(self).next + count * size > old(self).size {
                Err::<u64, OutOfMemory>(OutOfMemory)
            } else {
                Ok::<u64, OutOfMemory>(
                    (old(self).base + aligned_up(
                        old(self).next as int,
                        alignment(align) as int,
                    )) as u64,
                )
            }),
    {
        let bytes: usize = count * size;
        let a: usize = if align < MIN_ALIGN {
            MIN_ALIGN
        } else {
            align
        };
        let current: usize = self.next;
        proof {
            let (n, d) = (current + a - 1, a as int);
            assert(0 <= n / d * d <= n) by (nonlinear_arith)
                requires
                    n >= 0,
                    d >= 1,
            ;
        }
        let aligned: usize = (current + a - 1) / a * a;
        self.next = current + bytes;
        if current + bytes > self.size {
            return Err(OutOfMemory);
        }
        Ok(self.base + aligned as u64)
    }

    /// Memory for the keys and values of all layers: the key plane of a layer, then its value plane.
    pub fn allocate_kv_cache(
        &mut self,
        num_layers: usize,
        num_kv_heads: usize,
        head_dim: usize,
        max_seq_len: usize,
    ) -> (r: Result<KVCachePtrs, OutOfMemory>)
        requires
            num_kv_heads * max_seq_len <= usize::MAX,
            head_dim * 2 <= usize::MAX,
            plane_bytes(num_kv_heads as int, max_seq_len as int, head_dim as int) * 2 <= usize::MAX,
            num_layers * (plane_bytes(num_kv_heads as int, max_seq_len as int, head_dim as int) * 2)
                <= usize::MAX,
            old(self).next + num_layers * (plane_bytes(
                num_kv_heads as int,
                max_seq_len as int,
                head_dim as int,
            ) * 2) <= usize::MAX,
            old(self).next + 16 <= usize::MAX,
            old(self).base + aligned_up(old(self).next as int, 16) + plane_bytes(
                num_kv_heads as int,
                max_seq_len as int,
                head_dim as int,
            ) <= u64::MAX,
        ensures
            ({
                let plane = plane_bytes(
                    num_kv_heads as int,
                    max_seq_len as int,
                    head_dim as int,
                );
                let total = num_layers * (plane * 2);
                let at = old(self).base + aligned_up(old(self).next as int, 16);
                &&& final(self).base == old(self).base
                &&& final(self).size == old(self).size
                &&& final(self).next == old(self).next + total
                &&& r matches Ok(c) ==> c.wf()
                &&& r == (if old(self).next + total > old(self).size {
                    Err::<KVCachePtrs, OutOfMemory>(OutOfMemory)
                } else {
                    Ok::<KVCachePtrs, OutOfMemory>(
                        KVCachePtrs {
                            base_k: at as u64,
                            base_v: (at + plane) as u64,
                            num_layers,
                            num_kv_heads,
                            head_dim,
                            max_seq_len,
                            bytes_per_k: plane as usize,
                        },
                    )
                })
            }),
    {
        let row: usize = head_dim * F16_BYTES;
        proof {
            assert(0 <= num_kv_heads * max_seq_len) by (nonlinear_arith);
            let x = num_kv_heads * max_seq_len;
            assert(0 <= x * row) by (nonlinear_arith)
                requires
                    x >= 0,
            ;
        }
        let plane: usize = num_kv_heads * max_seq_len * row;
        let ghost p2 = plane + plane;
        proof {
            assert(0 <= num_layers * p2) by (nonlinear_arith)
                requires
                    p2 >= 0,
            ;
            assert(p2 == plane_bytes(num_kv_heads as int, max_seq_len as int, head_dim as int) * 2);
        }
        let total: usize = num_layers * (plane + plane);
        proof {
            assert(total * 1 == total);
        }
        match self.allocate(total, 1, 1) {
            Ok(k) => Ok(
                KVCachePtrs {
                    base_k: k,
                    base_v: k + plane as u64,
                    num_layers,
                    num_kv_heads,
                    head_dim,
                    max_seq_len,
                    bytes_per_k: plane,
                },
            ),
            Err(e) => Err(e),
        }
    }
}

/// Bytes of one layer's keys.
pub open spec fn plane_bytes(num_kv_heads: int, max_seq_len: int, head_dim: int) -> int {
    num_kv_heads * max_seq_len * (head_dim * 2)
}

/// Where the keys and values of a model lie.
#[derive(Clone, Copy, Debug, PartialEq, Eq, Structural)]
pub struct KVCachePtrs {
    pub base_k: u64,
    pub base_v: u64,
    pub num_layers: usize,
    pub num_kv_heads: usize,
    pub head_dim: usize,
    pub max_seq_len: usize,
    pub bytes_per_k: usize,
}

impl KVCachePtrs {
    /// The planes are those of the counts, and the values of a layer follow its keys.
    pub open spec fn wf(&self) -> bool {
        &&& self.bytes_per_k == plane_bytes(
            self.num_kv_heads as int,
            self.max_seq_len as int,
            self.head_dim as int,
        )
        &&& self.base_v == self.base_k + self.bytes_per_k
    }

    /// Bytes of one position's keys, or of its values.
    pub open spec fn row_bytes(&self) -> int {
        self.num_kv_heads * self.head_dim * 2
    }

    /// Bytes from the start of the first layer's keys to those of `pos` in `layer`; as many lie between
    /// the values.
    pub open spec fn reach(&self, layer: int, pos: int) -> int {
        layer * (self.bytes_per_k * 2) + pos * self.num_kv_heads * self.head_dim * 2
    }

    /// Where the keys, or the values, of `pos` in `layer` start.
    pub open spec fn row_at(&self, layer: int, pos: int, values: bool) -> int {
        (if values {
            self.base_v
        } else {
            self.base_k
        }) + self.reach(layer, pos)
    }

    fn offset(&self, layer: usize, pos: usize) -> (bytes: usize)
        requires
            self.bytes_per_k * 2 <= usize::MAX,
            layer * (self.bytes_per_k * 2) <= usize::MAX,
            pos * self.num_kv_heads <= usize::MAX,
            self.reach(layer as int, pos as int) <= usize::MAX,
        ensures
            bytes == self.reach(layer as int, pos as int),
    {
        proof {
            assert(0 <= layer * (self.bytes_per_k * 2) && 0 <= pos * self.num_kv_heads)
                by (nonlinear_arith);
            let x = pos * self.num_kv_heads;
            assert(0 <= x * self.head_dim) by (nonlinear_arith)
                requires
                    x >= 0,
            ;
        }
        layer * (self.bytes_per_k * 2) + pos * self.num_kv_heads * self.head_dim * F16_BYTES
    }

    /// Address of the keys at `pos`.
    pub fn k_ptr(&self, layer: usize, pos: usize) -> (a: u64)
        requires
            self.bytes_per_k * 2 <= usize::MAX,
            layer * (self.bytes_per_k * 2) <= usize::MAX,
            pos * self.num_kv_heads <= usize::MAX,
            self.reach(layer as int, pos as int) <= usize::MAX,
            self.base_k + self.reach(layer as int, pos as int) <= u64::MAX,
        ensures
            a == self.base_k + self.reach(layer as int, pos as int),
            a == self.row_at(layer as int, pos as int, false),
    {
        self.base_k + self.offset(layer, pos) as u64
    }

    /// Address of the values at `pos`.
    pub fn v_ptr(&self, layer: usize, pos: usize) -> (a: u64)
        requires
            self.bytes_per_k * 2 <= usize::MAX,
            layer * (self.bytes_per_k * 2) <= usize::MAX,
            pos * self.num_kv_heads <= usize::MAX,
            self.reach(layer as int, pos as int) <= usize::MAX,
            self.base_v + self.reach(layer as int, pos as int) <= u64::MAX,
        ensures
            a == self.base_v + self.reach(layer as int, pos as int),
            a == self.row_at(layer as int, pos as int, true),
    {
        self.base_v + self.offset(layer, pos) as u64
    }

    /// Elements of one layer's keys.
    pub fn stride_k_layer(&self) -> (n: usize)
        requires
            self.num_kv_heads * self.max_seq_len <= usize::MAX,
            self.num_kv_heads * self.max_seq_len * self.head_dim <= usize::MAX,
        ensures
            n == self.num_kv_heads * self.max_seq_len * self.head_dim,
    {
        self.num_kv_heads * self.max_seq_len * self.head_dim
    }
}

/// A row's place among all the rows of a cache: keys before values, layer by layer.
pub open spec fn row_index(max_seq_len: int, layer: int, pos: int, values: bool) -> int {
    (layer * 2 + (if values {
        1int
    } else {
        0int
    })) * max_seq_len + pos
}

/// Rows stand one after another, in the order of their places.
proof fn lemma_row_at(c: KVCachePtrs, layer: int, pos: int, values: bool)
    requires
        c.wf(),
    ensures
        c.row_at(layer, pos, values) == c.base_k + row_index(
            c.max_seq_len as int,
            layer,
            pos,
            values,
        ) * c.row_bytes(),
{
    let (k, m, d) = (c.num_kv_heads as int, c.max_seq_len as int, c.head_dim as int);
    let v: int = if values {
        1
    } else {
        0
    };
    let plane = k * m * (d * 2);
    let r = k * d * 2;
    assert(plane == m * r) by (nonlinear_arith)
        requires
            plane == k * m * (d * 2),
            r == k * d * 2,
    ;
    assert(pos * k * d * 2 == pos * r) by (nonlinear_arith)
        requires
            r == k * d * 2,
    ;
    assert(((layer * 2 + v) * m + pos) * r == layer * (plane * 2) + v * plane + pos * r)
        by (nonlinear_arith)
        requires
            plane == m * r,
    ;
    assert(v * plane == (if values {
        plane
    } else {
        0
    })) by (nonlinear_arith)
        requires
            v == (if values {
                1int
            } else {
                0int
            }),
    ;
}

/// A place is one of the cache's, and no other row has it.
proof fn lemma_row_index(m: int, layers: int, layer: int, pos: int, values: bool)
    requires
        0 <= layer < layers,
        0 <= pos < m,
    ensures
        0 <= row_index(m, layer, pos, values) < layers * 2 * m,
        row_index(m, layer, pos, values) % m == pos,
        row_index(m, layer, pos, values) / m == layer * 2 + (if values {
            1int
        } else {
            0int
        }),
{
    let q: int = layer * 2 + (if values {
        1int
    } else {
        0int
    });
    vstd::arithmetic::div_mod::lemma_fundamental_div_mod_converse(q * m + pos, m, q, pos);
    assert(0 <= q * m + pos < layers * 2 * m) by (nonlinear_arith)
        requires
            0 <= q < layers * 2,
            0 <= pos < m,
    ;
}

/// Every row lies in the memory of the cache, and two rows share no byte: a position's keys and values
/// stay as written, whatever is written elsewhere.
pub proof fn law_rows_are_disjoint(
    c: KVCachePtrs,
    layer: int,
    pos: int,
    values: bool,
    other_layer: int,
    other_pos: int,
    other_values: bool,
)
    requires
        c.wf(),
        0 <= layer < c.num_layers,
        0 <= pos < c.max_seq_len,
        0 <= other_layer < c.num_layers,
        0 <= other_pos < c.max_seq_len,
    ensures
        c.base_k <= c.row_at(layer, pos, values),
        c.row_at(layer, pos, values) + c.row_bytes() <= c.base_k + c.num_layers * (c.bytes_per_k * 2),
        (layer, pos, values) != (other_layer, other_pos, other_values) ==> {
            ||| c.row_at(layer, pos, values) + c.row_bytes() <= c.row_at(
                other_layer,
                other_pos,
                other_values,
            )
            ||| c.row_at(other_layer, other_pos, other_values) + c.row_bytes() <= c.row_at(
                layer,
                pos,
                values,
            )
        },
{
    let (m, n, r) = (c.max_seq_len as int, c.num_layers as int, c.row_bytes());
    let i = row_index(m, layer, pos, values);
    let j = row_index(m, other_layer, other_pos, other_values);
    lemma_row_at(c, layer, pos, values);
    lemma_row_at(c, other_layer, other_pos, other_values);
    lemma_row_index(m, n, layer, pos, values);
    lemma_row_index(m, n, other_layer, other_pos, other_values);
    let (k, d) = (c.num_kv_heads as int, c.head_dim as int);
    assert(0 <= k * d) by (nonlinear_arith)
        requires
            0 <= k,
            0 <= d,
    ;
    let plane = c.bytes_per_k as int;
    assert(n * (plane * 2) == n * 2 * m * r) by (nonlinear_arith)
        requires
            plane == k * m * (d * 2),
            r == k * d * 2,
    ;
    assert(0 <= i * r && i * r + r <= n * 2 * m * r) by (nonlinear_arith)
        requires
            0 <= i,
            i + 1 <= n * 2 * m,
            0 <= r,
    ;
    if i < j {
        assert(i * r + r <= j * r) by (nonlinear_arith)
            requires
                i + 1 <= j,
                0 <= r,
        ;
    } else if j < i {
        assert(j * r + r <= i * r) by (nonlinear_arith)
            requires
                j + 1 <= i,
                0 <= r,
        ;
    }
}

/// Memory that a model needs, in mebibytes.
#[derive(Clone, Copy, Debug, PartialEq, Eq, Structural)]
pub struct MemoryRequirements {
    pub weights_mb: usize,
    pub kv_cache_mb: usize,
    pub activations_mb: usize,
    pub total_mb: usize,
}

/// Bytes of a model's weights: both embeddings, and per layer the projections, the feed-forward part and
/// the norms.
pub open spec fn weight_bytes(c: &ModelConfig) -> int {
    let (h, v, im) = (c.hidden_size as int, c.vocab_size as int, c.intermediate_size as int);
    2 * (v * h * 2) + c.num_layers * (4 * (h * h) * 2 + h * im * 2 * 2 + im * h * 2 + 2 * h * 2)
}

/// Bytes of a model's keys and values.
pub open spec fn kv_total_bytes(c: &ModelConfig) -> int {
    c.num_layers * c.num_kv_heads * c.head_dim * c.max_seq_len * 2 * 2
}

/// Memory that a model needs. Each part is rounded down on its own.
pub fn compute_memory_requirements(config: &ModelConfig) -> (r: MemoryRequirements)
    requires
        weight_bytes(config) + kv_total_bytes(config) + config.hidden_size * 8 <= u64::MAX,
        weight_bytes(config) + kv_total_bytes(config) + config.hidden_size * 8 <= usize::MAX,
    ensures
        r.weights_mb == weight_bytes(config) / 1024 / 1024,
        r.kv_cache_mb == kv_total_bytes(config) / 1024 / 1024,
        r.activations_mb == (config.hidden_size * 8) as int / 1024 / 1024,
        r.total_mb == (weight_bytes(config) + kv_total_bytes(config) + config.hidden_size * 8) / 1024
            / 1024,
{
    let w: u128 = weights(config);
    let kv: u128 = kv_total(config);
    let act: u128 = config.hidden_size as u128 * 8;
    proof {
        lemma_nonneg(config);
    }
    MemoryRequirements {
        weights_mb: (w / 1024 / 1024) as usize,
        kv_cache_mb: (kv / 1024 / 1024) as usize,
        activations_mb: (act / 1024 / 1024) as usize,
        total_mb: ((w + kv + act) / 1024 / 1024) as usize,
    }
}

proof fn lemma_nonneg(c: &ModelConfig)
    ensures
        0 <= weight_bytes(c),
        0 <= kv_total_bytes(c),
{
    let (h, v, im) = (c.hidden_size as int, c.vocab_size as int, c.intermediate_size as int);
    let n = c.num_layers as int;
    assert(0 <= v * h && 0 <= h * h && 0 <= h * im && 0 <= im * h) by (nonlinear_arith)
        requires
            h >= 0,
            v >= 0,
            im >= 0,
    ;
    let layer = 4 * (h * h) * 2 + h * im * 2 * 2 + im * h * 2 + 2 * h * 2;
    assert(0 <= n * layer) by (nonlinear_arith)
        requires
            n >= 0,
            layer >= 0,
    ;
    let (k, d, m) = (c.num_kv_heads as int, c.head_dim as int, c.max_seq_len as int);
    assert(0 <= n * k) by (nonlinear_arith)
        requires
            n >= 0,
            k >= 0,
    ;
    assert(0 <= n * k * d) by (nonlinear_arith)
        requires
            n * k >= 0,
            d >= 0,
    ;
    assert(0 <= n * k * d * m) by (nonlinear_arith)
        requires
            n * k * d >= 0,
            m >= 0,
    ;
}

/// A product that is known to fit.
fn fitting(a: u128, b: u128) -> (p: u128)
    requires
        a * b <= u64::MAX,
    ensures
        p == a * b,
{
    proof {
        assert(0 <= a * b) by (nonlinear_arith);
    }
    a * b
}

fn weights(c: &ModelConfig) -> (w: u128)
    requires
        weight_bytes(c) <= u64::MAX,
    ensures
        w == weight_bytes(c),
{
    let (h, v, im, n) = (
        c.hidden_size as u128,
        c.vocab_size as u128,
        c.intermediate_size as u128,
        c.num_layers as u128,
    );
    proof {
        let b = 0x1_0000_0000_0000_0000int;
        assert(0 <= v * h <= (b - 1) * (b - 1) && 0 <= h * h <= (b - 1) * (b - 1) && 0 <= h * im <= (b
            - 1) * (b - 1) && h * im == im * h) by (nonlinear_arith)
            requires
                0 <= h < b,
                0 <= v < b,
                0 <= im < b,
        ;
        lemma_nonneg(c);
    }
    if n == 0 {
        proof {
            let layer = 4 * (h * h) * 2 + h * im * 2 * 2 + im * h * 2 + 2 * h * 2;
            assert(n * layer == 0) by (nonlinear_arith)
                requires
                    n == 0,
            ;
        }
        return 4 * fitting(v, h);
    }
    proof {
        let layer = 4 * (h * h) * 2 + h * im * 2 * 2 + im * h * 2 + 2 * h * 2;
        assert(layer <= n * layer) by (nonlinear_arith)
            requires
                n >= 1,
                layer >= 0,
        ;
    }
    let layer: u128 = 8 * fitting(h, h) + 4 * fitting(h, im) + 2 * fitting(im, h) + 4 * h;
    4 * fitting(v, h) + fitting(n, layer)
}

fn kv_total(c: &ModelConfig) -> (w: u128)
    requires
        kv_total_bytes(c) <= u64::MAX,
    ensures
        w == kv_total_bytes(c),
{
    let (n, k, d, m) = (
        c.num_layers as u128,
        c.num_kv_heads as u128,
        c.head_dim as u128,
        c.max_seq_len as u128,
    );
    proof {
        lemma_nonneg(c);
    }
    if m == 0 || d == 0 {
        proof {
            let x = n * k;
            assert(x * d * m == 0) by (nonlinear_arith)
                requires
                    m == 0 || d == 0,
            ;
        }
        return 0;
    }
    proof {
        let x = n * k;
        assert(0 <= x) by (nonlinear_arith)
            requires
                n >= 0,
                k >= 0,
                x == n * k,
        ;
        assert(x <= x * d && x * d <= x * d * m) by (nonlinear_arith)
            requires
                x >= 0,
                d >= 1,
                m >= 1,
        ;
    }
    let a: u128 = fitting(n, k);
    let b: u128 = fitting(a, d);
    let e: u128 = fitting(b, m);
    e * 2 * 2
}

} // verus!
