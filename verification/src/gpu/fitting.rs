//! Whether a pass can be planned at all: the sizes that the plans ask for, decided before they are made.
use vstd::prelude::*;

use crate::config::LayerType;
use crate::gpu::attn::{split_bound, AttnMode, ATTN_IDS};
use crate::gpu::drafter::{mtp_prime_plan, prime_chunks, MtpCall, MTP_IDS, PRIME_CHUNK};
use crate::gpu::ffn::{dense, FFN_IDS};
use crate::gpu::forward::{Frame, Pass};
use crate::gpu::gdn::GDN_IDS;
use crate::gpu::model::{
    AttnIn, Ffn, GdnIn, GpuFullAttn, GpuLinearAttn, GpuMlp, GpuModel, GpuMoe, PF_BC, PF_BR, PF_MIN, W,
};
use crate::gpu::program::{ptr, tmp, Ptr, Region, Scratch};
use crate::gpu::tiled::TILED_IDS;
use crate::gpu::topo::{TreeTopo, MAX_VERIFY};
use crate::gpu::verify::covers;
use crate::seqs::min_usize;

verus! {

/// The largest count that a kernel takes.
pub const COUNT_MAX: usize = 0x7FFF_FFFF;

/// The largest offset into a cache.
pub const OFFSET_MAX: u64 = 0xFFFF_FFFF_FFFF;

impl GpuModel {
    /// Every dimension of the model is a count that a kernel can take.
    pub open spec fn small(&self) -> bool {
        let c = &self.cfg;
        &&& c.hidden_size <= COUNT_MAX && c.vocab_size <= COUNT_MAX
        &&& c.num_heads <= COUNT_MAX && c.num_kv_heads <= COUNT_MAX && c.head_dim <= COUNT_MAX
        &&& c.rotary_dim <= COUNT_MAX && c.intermediate_size <= COUNT_MAX
        &&& c.lin_num_v_heads <= COUNT_MAX && c.lin_num_k_heads <= COUNT_MAX
        &&& c.lin_k_dim <= COUNT_MAX && c.lin_v_dim <= COUNT_MAX && c.conv_kernel <= COUNT_MAX
        &&& c.num_experts <= COUNT_MAX && c.num_experts_per_tok <= COUNT_MAX
        &&& c.moe_intermediate_size <= COUNT_MAX && c.shared_expert_intermediate_size <= COUNT_MAX
        &&& self.tp.probe_batch <= COUNT_MAX
    }

    fn is_small(&self) -> (b: bool)
        ensures
            b == self.small(),
    {
        let c = &self.cfg;
        c.hidden_size <= COUNT_MAX && c.vocab_size <= COUNT_MAX && c.num_heads <= COUNT_MAX
            && c.num_kv_heads <= COUNT_MAX && c.head_dim <= COUNT_MAX && c.rotary_dim <= COUNT_MAX
            && c.intermediate_size <= COUNT_MAX && c.lin_num_v_heads <= COUNT_MAX && c.lin_num_k_heads
            <= COUNT_MAX && c.lin_k_dim <= COUNT_MAX && c.lin_v_dim <= COUNT_MAX && c.conv_kernel
            <= COUNT_MAX && c.num_experts <= COUNT_MAX && c.num_experts_per_tok <= COUNT_MAX
            && c.moe_intermediate_size <= COUNT_MAX && c.shared_expert_intermediate_size <= COUNT_MAX
            && self.tp.probe_batch <= COUNT_MAX
    }
}

fn is_dense(w: W) -> (b: bool)
    ensures
        b == dense(w),
{
    match w {
        W::Nvfp4Raw { .. } => false,
        _ => true,
    }
}

fn is_tiled(w: W) -> (b: bool)
    ensures
        b == (w is Nvfp4 || w is Fp8),
{
    match w {
        W::Nvfp4 { .. } | W::Fp8 { .. } => true,
        _ => false,
    }
}

proof fn lemma_product(a: int, b: int, m: int, n: int)
    requires
        0 <= a <= m,
        0 <= b <= n,
    ensures
        0 <= a * b <= m * n,
{
    assert(0 <= a * b <= m * n) by (nonlinear_arith)
        requires
            0 <= a <= m,
            0 <= b <= n,
    ;
}

/// A product of two counts.
fn twice(a: usize, b: usize) -> (r: u128)
    ensures
        r == a * b,
{
    proof {
        lemma_product(a as int, b as int, u64::MAX as int, u64::MAX as int);
    }
    a as u128 * b as u128
}

/// A product of three small counts.
fn thrice(a: usize, b: usize, c: usize) -> (r: u128)
    requires
        a <= COUNT_MAX,
        b <= COUNT_MAX,
        c <= COUNT_MAX,
    ensures
        r == a * b * c,
        r <= 0x7FFF_FFFF * 0x7FFF_FFFF * 0x7FFF_FFFF,
{
    proof {
        lemma_product(a as int, b as int, 0x7FFF_FFFF, 0x7FFF_FFFF);
        lemma_product(a * b, c as int, 0x7FFF_FFFFint * 0x7FFF_FFFF, 0x7FFF_FFFF);
    }
    a as u128 * b as u128 * c as u128
}

/// A product of four small counts.
fn four_times(a: usize, b: usize, c: usize, d: usize) -> (r: u128)
    requires
        a <= COUNT_MAX,
        b <= COUNT_MAX,
        c <= COUNT_MAX,
        d <= COUNT_MAX,
    ensures
        r == a * b * c * d,
{
    let t: u128 = thrice(a, b, c);
    proof {
        lemma_product(
            a * b * c,
            d as int,
            0x7FFF_FFFFint * 0x7FFF_FFFF * 0x7FFF_FFFF,
            0x7FFF_FFFF,
        );
    }
    t * d as u128
}

impl GpuModel {
    /// A reduction of `h * n` elements fits.
    fn reduces(&self, n: usize) -> (b: bool)
        requires
            self.small(),
            n <= COUNT_MAX,
        ensures
            b == self.reduce_fits(self.cfg.hidden_size * n),
    {
        let e: u128 = twice(self.cfg.hidden_size, n);
        let p: u128 = twice(self.cfg.hidden_size, self.tp.probe_batch);
        proof {
            lemma_product(self.cfg.hidden_size as int, n as int, 0x7FFF_FFFF, 0x7FFF_FFFF);
            lemma_product(
                self.cfg.hidden_size as int,
                self.tp.probe_batch as int,
                0x7FFF_FFFF,
                0x7FFF_FFFF,
            );
        }
        e * 4 <= COUNT_MAX as u128 && e + p * 4 + 1 <= usize::MAX as u128
    }

    /// The partial results of a verify can be taken before they are rounded, where that is asked.
    fn partials_suit(&self, n: usize, w: W) -> (b: bool)
        ensures
            b == (self.fp32_on() && n <= MAX_VERIFY ==> w is Nvfp4 || w is Fp8),
    {
        !(self.tp_fp32_partials() && n <= MAX_VERIFY) || is_tiled(w)
    }

    fn mlp_fits(&self, m: GpuMlp, n: usize, sharded: bool) -> (b: bool)
        requires
            self.small(),
        ensures
            b == self.mlp_ok(m, n as int, sharded),
    {
        let im: usize = if sharded {
            self.cfg.intermediate_size / 2
        } else {
            self.cfg.intermediate_size
        };
        is_dense(m.gate) && is_dense(m.up) && is_dense(m.down) && n <= COUNT_MAX && twice(im, n)
            <= COUNT_MAX as u128 && twice(self.cfg.hidden_size, n) <= COUNT_MAX as u128 && (!sharded || (
        self.reduces(n) && self.partials_suit(n, m.down)))
    }

    fn moe_fits(&self, moe: GpuMoe, n: usize) -> (b: bool)
        requires
            self.small(),
        ensures
            b == self.moe_ok(moe, n as int),
    {
        let c = &self.cfg;
        let (h, ne, k) = (c.hidden_size, c.num_experts, c.num_experts_per_tok);
        let (mi, si) = (c.moe_intermediate_size, c.shared_expert_intermediate_size);
        if !(is_dense(moe.router) && is_dense(moe.shared_gate) && is_dense(moe.shared.gate) && is_dense(
            moe.shared.up,
        ) && is_dense(moe.shared.down)) {
            return false;
        }
        let alike: bool = match (moe.gate_up, moe.down) {
            (W::Bf16, W::Bf16) => true,
            (W::Nvfp4 { .. }, W::Nvfp4 { .. }) => true,
            _ => false,
        };
        if !alike || n > COUNT_MAX || mi > COUNT_MAX / 2 {
            return false;
        }
        let top: u128 = COUNT_MAX as u128;
        let all: u128 = usize::MAX as u128;
        let pairs: u128 = twice(n, k);
        if !(twice(ne, n) <= top && twice(h, n) <= top && twice(si, n) <= top && pairs <= top) {
            return false;
        }
        if !(four_times(n, k, 2, mi) <= all && thrice(n, k, mi) <= all && thrice(n, k, 2) <= all
            && thrice(n, k, h) <= all && pairs + ne as u128 * 16 <= top) {
            return false;
        }
        let half: usize = if moe.experts_sharded {
            ne / 2
        } else {
            ne
        };
        let rank: usize = if moe.experts_sharded && self.tp.rank >= 0 {
            self.tp.rank as usize
        } else {
            0
        };
        proof {
            lemma_product(rank as int, half as int, 0x7FFF_FFFF, 0x7FFF_FFFF);
        }
        twice(rank, half) + half as u128 <= top && (!moe.experts_sharded || self.reduces(n))
    }

    fn ffn_fits(&self, ffn: Ffn, n: usize, sharded: bool) -> (b: bool)
        requires
            self.small(),
        ensures
            b == self.ffn_ok(ffn, n as int, sharded),
    {
        match ffn {
            Ffn::Dense(m) => self.mlp_fits(m, n, sharded),
            Ffn::Moe(e) => self.moe_fits(e, n),
        }
    }
}

impl GpuModel {
    /// Linear-attention widths of this rank: rows of the fused weight, convolved channels, values.
    fn gdn_widths(&self) -> (r: (u128, u128, u128))
        requires
            self.small(),
        ensures
            r.0 == self.gdn_fused_m(),
            r.1 == self.conv_dim(),
            r.2 == self.value_dim(),
            r.0 <= 0x5_0000_0000_0000_0000,
            r.1 <= r.0,
            r.2 <= r.1,
    {
        let c = &self.cfg;
        let (nv, nk) = (self.eff_lin_v_heads(), self.eff_lin_k_heads());
        let key: u128 = twice(c.lin_k_dim, nk);
        let value: u128 = twice(c.lin_v_dim, nv);
        proof {
            lemma_product(c.lin_k_dim as int, nk as int, 0x7FFF_FFFF, 0x7FFF_FFFF);
            lemma_product(c.lin_v_dim as int, nv as int, 0x7FFF_FFFF, 0x7FFF_FFFF);
        }
        let conv: u128 = key * 2 + value;
        (conv + value + 2 * c.lin_num_v_heads as u128, conv, value)
    }

    fn gdn_call_fits(&self, la: GpuLinearAttn, n: usize, first: usize) -> (b: bool)
        requires
            self.small(),
        ensures
            forall|c: crate::gpu::gdn::GdnCall|
                c.la == la && c.n == n && c.first == first ==> b == #[trigger] self.gdn_ok(c),
    {
        let c = &self.cfg;
        let nv: usize = self.eff_lin_v_heads();
        let ins: bool = match la.in_proj {
            GdnIn::Fused(w) => is_dense(w),
            GdnIn::Split { qkv, z, b, a } => is_dense(qkv) && is_dense(z) && is_dense(b) && is_dense(a),
        };
        if !ins || !is_dense(la.out_proj) || n > COUNT_MAX || first > usize::MAX - GDN_IDS {
            return false;
        }
        let top: u128 = COUNT_MAX as u128;
        let all: u128 = usize::MAX as u128;
        let (fused, conv, value) = self.gdn_widths();
        if fused > top {
            return false;
        }
        let rank: usize = if self.tp_shard_mixers() && self.tp.rank >= 0 {
            self.tp.rank as usize
        } else {
            0
        };
        let head0: u128 = twice(rank, nv);
        let h: u128 = twice(c.hidden_size, n);
        if head0 > top || h > top {
            return false;
        }
        proof {
            lemma_product(fused as int, n as int, 0x7FFF_FFFF, 0x7FFF_FFFF);
            lemma_product(conv as int, n as int, 0x7FFF_FFFF, 0x7FFF_FFFF);
            lemma_product(value as int, n as int, 0x7FFF_FFFF, 0x7FFF_FFFF);
        }
        let m: u128 = n as u128;
        fused * m <= all && conv * m <= all && value * m <= all && twice(nv, n) <= all && thrice(
            c.lin_num_v_heads,
            c.lin_v_dim,
            n,
        ) <= all && twice(c.lin_num_v_heads, c.lin_v_dim) <= all && (!self.tp_shard_mixers() || (
        self.reduces(n) && self.partials_suit(n, la.out_proj)))
    }

    /// The tiled path's own limits.
    fn tiles_fit(&self, nh: usize, nkv: usize, kv_stride: usize, n: usize, pos: usize, off: u64) -> (b:
        bool)
        requires
            self.small(),
            nh <= COUNT_MAX,
            nkv <= COUNT_MAX,
            n <= COUNT_MAX,
        ensures
            forall|w: crate::gpu::tiled::Tiled|
                w.nh == nh && w.nkv == nkv && w.hd == self.cfg.head_dim && w.n == n && w.pos == pos
                    && w.stride == kv_stride && w.kc.offset == off && w.vc.offset == off && w.q.offset
                    == 0 && w.first + TILED_IDS <= usize::MAX ==> b == #[trigger] w.fits(),
    {
        let hd: usize = self.cfg.head_dim;
        let br: usize = min_usize(PF_BR, n);
        let all: u128 = usize::MAX as u128;
        n >= 1 && nkv >= 1 && hd <= 256 && nh <= 65535 && nkv <= 65535 && kv_stride <= COUNT_MAX
            && pos as u128 + n as u128 + PF_BC as u128 <= COUNT_MAX as u128 && twice(nh, hd)
            <= COUNT_MAX as u128 && thrice(br, PF_BC, nkv) <= all && thrice(br, hd, nh) <= all
            && twice(br, nh) <= all && off <= OFFSET_MAX
    }

    fn attn_fits(
        &self,
        fa: GpuFullAttn,
        kv_stride: usize,
        n: usize,
        sharded: bool,
        run: Option<usize>,
        max_pc: usize,
        off: u64,
        first: usize,
    ) -> (b: bool)
        requires
            self.small(),
        ensures
            forall|c: crate::gpu::attn::AttnCall|
                c.fa == fa && c.kv_stride == kv_stride && c.n == n && c.sharded == sharded && c.first
                    == first && c.kc.offset == off && c.vc.offset == off && (match c.mode {
                    AttnMode::Run { pos } => run == Some(pos),
                    AttnMode::Columns { max_pc: m, .. } => run is None && m == max_pc,
                }) ==> b == #[trigger] self.attn_ok(c),
    {
        let c = &self.cfg;
        let (h, hd) = (c.hidden_size, c.head_dim);
        let (nh, nkv) = if sharded {
            (self.eff_num_heads(), self.eff_num_kv_heads())
        } else {
            (c.num_heads, c.num_kv_heads)
        };
        let ins: bool = match fa.qkv {
            AttnIn::Fused(w) => is_dense(w),
            AttnIn::Split { q, k, v } => is_dense(q) && is_dense(k) && is_dense(v),
        };
        if !ins || !is_dense(fa.o_proj) || n > COUNT_MAX || kv_stride > COUNT_MAX || first > usize::MAX
            - ATTN_IDS {
            return false;
        }
        let top: u128 = COUNT_MAX as u128;
        let all: u128 = usize::MAX as u128;
        let (q, kv) = (twice(nh, hd), twice(nkv, hd));
        proof {
            lemma_product(nh as int, hd as int, 0x7FFF_FFFF, 0x7FFF_FFFF);
            lemma_product(nkv as int, hd as int, 0x7FFF_FFFF, 0x7FFF_FFFF);
        }
        let rows: u128 = q * 2 + 2 * kv;
        if rows > top {
            return false;
        }
        proof {
            lemma_product(rows as int, n as int, 0x7FFF_FFFF, 0x7FFF_FFFF);
        }
        if !(rows * n as u128 <= all && thrice(nh, hd, n) <= top && thrice(nkv, hd, n) <= top && twice(
            h,
            n,
        ) <= top) {
            return false;
        }
        if sharded && !(self.reduces(n) && self.partials_suit(n, fa.o_proj)) {
            return false;
        }
        match run {
            Some(pos) => pos <= COUNT_MAX && (n < PF_MIN || self.knobs.prefill_scalar
                || self.tiles_fit(nh, nkv, kv_stride, n, pos, off)),
            None => {
                let s: usize = max_pc / 256;
                let splits: usize = if s < 1 {
                    1
                } else if s > 32 {
                    32
                } else {
                    s
                };
                proof {
                    assert(splits == split_bound(max_pc as int));
                }
                thrice(n, nh, splits) <= all && four_times(n, nh, splits, hd) <= all && twice(n, nh)
                    <= all
            },
        }
    }

    /// Bytes of one lane's convolution state, recurrent state and key cache, where the machine can count
    /// them.
    fn lane_bytes(&self, kv_stride: usize) -> (r: Option<(usize, usize, usize)>)
        requires
            self.small(),
        ensures
            r is Some <==> self.gdn_fits() && self.conv_bytes() <= usize::MAX && self.state_bytes()
                <= usize::MAX && self.kv_bytes(kv_stride as int) <= usize::MAX,
            r matches Some(b) ==> b.0 == self.conv_bytes() && b.1 == self.state_bytes() && b.2
                == self.kv_bytes(kv_stride as int),
    {
        let c = &self.cfg;
        let all: u128 = usize::MAX as u128;
        let (fused, conv, _value) = self.gdn_widths();
        if fused > all {
            return None;
        }
        let (nv, nkv) = (self.eff_lin_v_heads(), self.eff_num_kv_heads());
        proof {
            lemma_product(
                conv as int,
                c.conv_kernel as int,
                0x5_0000_0000_0000_0000,
                0x7FFF_FFFF,
            );
            lemma_product(nkv as int, kv_stride as int, 0x7FFF_FFFF, u64::MAX as int);
            lemma_product(
                nkv * kv_stride,
                c.head_dim as int,
                0x7FFF_FFFFint * u64::MAX,
                0x7FFF_FFFF,
            );
        }
        let conv_bytes: u128 = conv * c.conv_kernel as u128 * 4;
        let state_bytes: u128 = thrice(nv, c.lin_k_dim, c.lin_v_dim) * 4;
        let kv_bytes: u128 = twice(nkv, kv_stride) * c.head_dim as u128 * 2;
        if conv_bytes > all || state_bytes > all || kv_bytes > all {
            return None;
        }
        Some((conv_bytes as usize, state_bytes as usize, kv_bytes as usize))
    }

    /// Whether lane `slot` of every state buffer can be addressed.
    pub fn lane_fits(&self, slot: usize, kv_stride: usize) -> (b: bool)
        ensures
            b == (self.small() && self.slot_fits(slot as int, kv_stride as int)),
    {
        if !self.is_small() {
            return false;
        }
        let far: u128 = OFFSET_MAX as u128;
        match self.lane_bytes(kv_stride) {
            Some((conv, state, kv)) => twice(slot, conv) <= far && twice(slot, state) <= far && twice(
                slot,
                kv,
            ) <= far,
            None => false,
        }
    }

    /// Whether the state of every layer can be sized.
    pub fn states_fit(&self, kv_slots: usize, state_slots: usize, stride: usize) -> (b: bool)
        ensures
            b == (self.small() && self.state_fits(
                kv_slots as int,
                state_slots as int,
                stride as int,
            )),
    {
        if !self.is_small() {
            return false;
        }
        let all: u128 = usize::MAX as u128;
        match self.lane_bytes(stride) {
            Some((conv, state, kv)) => twice(state_slots, conv) <= all && twice(state_slots, state)
                <= all && twice(kv_slots, kv) <= all,
            None => false,
        }
    }
}

impl GpuModel {
    /// The offset of lane `slot` in the KV caches.
    fn kv_offset(&self, slot: usize, kv_stride: usize) -> (o: u64)
        requires
            self.small(),
            self.slot_fits(slot as int, kv_stride as int),
        ensures
            o == slot * self.kv_bytes(kv_stride as int),
    {
        let kb: usize = self.kv_slot_bytes(kv_stride);
        proof {
            assert(0 <= slot * kb) by (nonlinear_arith);
        }
        slot as u64 * kb as u64
    }

    fn layer_fits(&self, f: Frame, li: usize) -> (b: bool)
        requires
            self.small(),
            li < self.layers@.len(),
            f.pass matches Pass::Prefill { slot, .. } ==> self.slot_fits(
                slot as int,
                f.kv_stride as int,
            ),
            f.pass matches Pass::Verify { pos, .. } ==> pos + f.n <= usize::MAX,
        ensures
            b == self.layer_ok(f, li as int),
    {
        let layer = &self.layers[li];
        let (run, max_pc, off) = match f.pass {
            Pass::Decode { max_pc, .. } => (None, max_pc, 0),
            Pass::Prefill { slot, pos } => (Some(pos), 0, self.kv_offset(slot, f.kv_stride)),
            Pass::Verify { pos, .. } => (None, pos + f.n, 0),
        };
        let mixer: bool = match layer.layer_type {
            LayerType::FullAttention => match layer.fa {
                Some(fa) => self.attn_fits(
                    fa,
                    f.kv_stride,
                    f.n,
                    self.tp_shard_mixers(),
                    run,
                    max_pc,
                    off,
                    f.first,
                ),
                None => false,
            },
            LayerType::LinearAttention => match layer.la {
                Some(la) => self.gdn_call_fits(la, f.n, f.first),
                None => false,
            },
        };
        proof {
            let c = self.attn_call(f, li as int);
            let g = self.gdn_call(f, li as int);
            assert(self.gdn_ok(g) == self.gdn_ok(g));
            assert(self.attn_ok(c) == self.attn_ok(c));
        }
        mixer && self.ffn_fits(layer.mlp, f.n, self.tp.world == 2)
    }

    /// Whether every layer can run in frame `f`.
    fn frame_fits(&self, f: Frame) -> (b: bool)
        ensures
            b == (self.small() && self.frame_ok(f)),
    {
        if !self.is_small() || f.first > usize::MAX - ATTN_IDS - FFN_IDS || f.n > COUNT_MAX || twice(
            self.cfg.hidden_size,
            f.n,
        ) > COUNT_MAX as u128 {
            return false;
        }
        let pass: bool = match f.pass {
            Pass::Decode { .. } => true,
            Pass::Prefill { slot, pos } => self.lane_fits(slot, f.kv_stride) && pos <= usize::MAX - f.n
                && f.n >= 1,
            Pass::Verify { pos, ckpt, .. } => pos <= usize::MAX - f.n && (match ckpt {
                Some(s) => self.lane_fits(s, f.kv_stride),
                None => true,
            }),
        };
        if !pass {
            return false;
        }
        let mut li: usize = 0;
        while li < self.layers.len()
            invariant
                li <= self.layers@.len(),
                self.small(),
                f.pass matches Pass::Prefill { slot, .. } ==> self.slot_fits(
                    slot as int,
                    f.kv_stride as int,
                ),
                f.pass matches Pass::Verify { pos, .. } ==> pos + f.n <= usize::MAX,
                forall|j: int| 0 <= j < li ==> #[trigger] self.layer_ok(f, j),
            decreases self.layers@.len() - li,
        {
            if !self.layer_fits(f, li) {
                proof {
                    assert(!self.layer_ok(f, li as int));
                }
                return false;
            }
            li = li + 1;
        }
        true
    }

    fn head_fits(&self, n: usize) -> (b: bool)
        requires
            self.small(),
        ensures
            b == self.head_ok(n as int),
    {
        let w: W = match self.lm_head {
            Some(w) => w,
            None => self.embed,
        };
        is_dense(w) && is_dense(self.embed) && n <= COUNT_MAX && twice(self.cfg.vocab_size, n)
            <= usize::MAX as u128
    }

    fn rope_fits(&self, n: usize) -> (b: bool)
        requires
            self.small(),
        ensures
            b == self.rope_ok(n as int),
    {
        twice(self.cfg.rotary_dim, n) <= usize::MAX as u128
    }

    /// Whether a decode step of `n` lanes can be planned.
    pub fn decode_fits(&self, kv_stride: usize, max_pc: usize, n: usize) -> (b: bool)
        ensures
            b == (self.small() && self.decode_ok(kv_stride, max_pc, n)),
    {
        let f: Frame = self.decode_frame_of(kv_stride, max_pc, n);
        self.frame_fits(f) && self.layers.len() >= 1 && self.head_fits(n) && self.rope_fits(n)
    }

    /// Whether a prefill or a verify of `n` columns can be planned.
    pub fn run_fits(&self, pass: Pass, kv_stride: usize, n: usize) -> (b: bool)
        ensures
            b == (self.small() && self.run_ok(pass, kv_stride, n)),
    {
        let f: Frame = self.run_frame_of(pass, kv_stride, n);
        n >= 1 && self.frame_fits(f) && self.head_fits(1) && self.head_fits(n) && self.rope_fits(n)
    }

    /// Whether a prefill of `n` tokens can be planned.
    pub fn prefill_fits(&self, n: usize, slot: usize, kv_stride: usize, pos_start: usize) -> (b: bool)
        ensures
            b == (self.small() && self.run_ok(Pass::Prefill { slot, pos: pos_start }, kv_stride, n)),
            b ==> (n - 1) * self.cfg.hidden_size * 2 <= u64::MAX && self.cfg.hidden_size * 2
                <= usize::MAX,
    {
        let b: bool = self.run_fits(Pass::Prefill { slot, pos: pos_start }, kv_stride, n);
        proof {
            if b {
                let (m, h) = (n - 1, self.cfg.hidden_size as int);
                lemma_product(m, h, 0x7FFF_FFFF, 0x7FFF_FFFF);
            }
        }
        b
    }

    /// Whether a verify of `n` columns can be planned.
    pub fn verify_fits(
        &self,
        n: usize,
        slot: usize,
        kv_stride: usize,
        pos_start: usize,
        ckpt_slot: Option<usize>,
        topo: Option<&TreeTopo>,
    ) -> (b: bool)
        ensures
            b == (self.small() && self.verify_ok(n, slot, kv_stride, pos_start, ckpt_slot, topo)),
    {
        let ck: usize = self.cfg.conv_kernel;
        if n < 1 || n > MAX_VERIFY || pos_start > COUNT_MAX - n || slot > COUNT_MAX || ck < 1 || ck
            > COUNT_MAX - n {
            return false;
        }
        let forest: bool = match topo {
            Some(t) => {
                if !topo_covers(t, n, ck) {
                    return false;
                }
                t.col_pos_start.is_some()
            },
            None => false,
        };
        self.run_fits(Pass::Verify { pos: pos_start, ckpt: ckpt_slot, forest }, kv_stride, n)
    }

    /// Whether the draft head can run `c`.
    pub fn mtp_fits(&self, c: MtpCall) -> (b: bool)
        requires
            c.kc.offset == c.vc.offset,
        ensures
            b == (self.small() && self.mtp_ok(c)),
    {
        if !self.is_small() {
            return false;
        }
        let h: usize = self.cfg.hidden_size;
        let m = match &self.mtp {
            Some(m) => m,
            None => {
                return false;
            },
        };
        if !(is_dense(m.fc) && is_dense(self.embed) && h <= COUNT_MAX / 2 && c.n <= COUNT_MAX && twice(
            2 * h,
            c.n,
        ) <= COUNT_MAX as u128 && c.first <= usize::MAX - MTP_IDS) {
            proof {
                let n = c.n as int;
                assert(0 <= h * n && 2 * h * n == 2 * (h * n)) by (nonlinear_arith)
                    requires
                        h >= 0,
                        n >= 0,
                ;
            }
            return false;
        }
        proof {
            let n = c.n as int;
            assert(0 <= h * n && 2 * h * n == 2 * (h * n)) by (nonlinear_arith)
                requires
                    h >= 0,
                    n >= 0,
            ;
            let a = self.mtp_attn(c);
            assert(self.attn_ok(a) == self.attn_ok(a));
        }
        self.attn_fits(m.fa, c.kv_stride, c.n, false, c.run, c.max_pc, c.kc.offset, c.first + 5)
            && self.ffn_fits(m.mlp, c.n, false)
    }
}

impl GpuModel {
    /// Whether a draft step at position `pos` can be planned, over caches at the start of their buffers.
    pub fn draft_step_fits(&self, hidden: Ptr, pos: usize, kc: Ptr, vc: Ptr, kv_stride: usize) -> (b: bool)
        requires
            kc.offset == vc.offset,
        ensures
            b == (self.small() && self.draft_step_ok(hidden, pos, kc, vc, kv_stride)),
    {
        if !self.is_small() || pos == usize::MAX {
            return false;
        }
        let c: MtpCall = MtpCall {
            hidden,
            tokens: ptr(Region::Scratch(Scratch::DraftTok)),
            pos: ptr(Region::Scratch(Scratch::DraftPos)),
            kc,
            vc,
            max_pc: pos + 1,
            cos: tmp(0),
            sin: tmp(1),
            kv_stride,
            n: 1,
            run: None,
            first: 2,
        };
        self.rope_fits(1) && self.mtp_fits(c)
    }

    /// Whether a re-prime of `n` columns can be planned.
    pub fn reprime_fits(
        &self,
        hidden: Ptr,
        n: usize,
        pos_start: usize,
        kc: Ptr,
        vc: Ptr,
        kv_stride: usize,
    ) -> (b: bool)
        requires
            kc.offset == vc.offset,
        ensures
            b == (self.small() && n <= MAX_VERIFY && pos_start + n <= usize::MAX && (n >= 1
                ==> self.rope_ok(n as int) && self.mtp_ok(
                self.mtp_columns(
                    hidden,
                    Scratch::ReprimeTok,
                    Scratch::ReprimePos,
                    kc,
                    vc,
                    (pos_start + n) as usize,
                    kv_stride,
                    n,
                ),
            ))),
    {
        if !self.is_small() || n > MAX_VERIFY || pos_start > usize::MAX - n {
            return false;
        }
        let c: MtpCall = MtpCall {
            hidden,
            tokens: ptr(Region::Scratch(Scratch::ReprimeTok)),
            pos: ptr(Region::Scratch(Scratch::ReprimePos)),
            kc,
            vc,
            max_pc: pos_start + n,
            cos: tmp(0),
            sin: tmp(1),
            kv_stride,
            n,
            run: None,
            first: 2,
        };
        n == 0 || (self.rope_fits(n) && self.mtp_fits(c))
    }

    /// Whether the priming pass over columns `c0 .. c0 + cn` can be planned.
    pub fn prime_fits(
        &self,
        hidden: Ptr,
        kc: Ptr,
        vc: Ptr,
        kv_stride: usize,
        pos_start: usize,
        c0: usize,
        cn: usize,
    ) -> (b: bool)
        requires
            kc.offset == vc.offset,
        ensures
            b == (self.small() && self.prime_ok(
                hidden,
                kc,
                vc,
                kv_stride,
                pos_start,
                c0 as int,
                cn as int,
            )),
    {
        if !self.is_small() || cn > COUNT_MAX || pos_start > usize::MAX - cn || c0 > usize::MAX - cn
            - pos_start {
            return false;
        }
        let c: MtpCall = MtpCall {
            hidden: tmp(2),
            tokens: tmp(3),
            pos: tmp(4),
            kc,
            vc,
            max_pc: pos_start + c0 + cn,
            cos: tmp(0),
            sin: tmp(1),
            kv_stride,
            n: cn,
            run: Some(pos_start + c0),
            first: 5,
        };
        let h: usize = self.cfg.hidden_size;
        proof {
            lemma_product(cn as int, h as int, 0x7FFF_FFFF, 0x7FFF_FFFF);
            lemma_product(c0 as int, h as int, u64::MAX as int, 0x7FFF_FFFF);
        }
        self.rope_fits(cn) && self.mtp_fits(c) && twice(cn, h) * 2 <= usize::MAX as u128 && hidden.offset
            as u128 + twice(c0, h) * 2 <= u64::MAX as u128
    }

    /// Whether a prompt of `n` tokens can be primed.
    pub fn prompt_fits(
        &self,
        hidden: Ptr,
        kc: Ptr,
        vc: Ptr,
        kv_stride: usize,
        pos_start: usize,
        n: usize,
    ) -> (b: bool)
        requires
            kc.offset == vc.offset,
        ensures
            b == (self.small() && self.prompt_ok(hidden, kc, vc, kv_stride, pos_start, n as int)),
    {
        if !self.is_small() || n > usize::MAX - PRIME_CHUNK || n > COUNT_MAX || pos_start > COUNT_MAX
            - n {
            return false;
        }
        let plan: Vec<(usize, usize)> = mtp_prime_plan(n);
        let mut i: usize = 0;
        while i < plan.len()
            invariant
                i <= plan@.len(),
                plan@ == prime_chunks(n as int),
                self.small(),
                kc.offset == vc.offset,
                forall|k: int|
                    0 <= k < i ==> {
                        let (c0, cn) = #[trigger] prime_chunks(n as int)[k];
                        self.prime_ok(hidden, kc, vc, kv_stride, pos_start, c0 as int, cn as int)
                    },
            decreases plan@.len() - i,
        {
            let (c0, cn) = plan[i];
            if !self.prime_fits(hidden, kc, vc, kv_stride, pos_start, c0, cn) {
                proof {
                    assert(prime_chunks(n as int)[i as int] == (c0, cn));
                }
                return false;
            }
            i = i + 1;
        }
        true
    }

    /// Whether a draft can be chosen.
    pub fn draft_head_fits(&self) -> (b: bool)
        ensures
            b == self.draft_ok(),
    {
        let (w, rows) = match self.draft_head {
            Some(w) => (w, self.draft_ids.len()),
            None => match self.lm_head {
                Some(w) => (w, self.cfg.vocab_size),
                None => (self.embed, self.cfg.vocab_size),
            },
        };
        is_dense(w) && rows <= COUNT_MAX && self.cfg.hidden_size <= COUNT_MAX
    }
}

fn topo_covers(t: &TreeTopo, n: usize, ck: usize) -> (b: bool)
    requires
        n <= MAX_VERIFY,
        ck <= COUNT_MAX,
    ensures
        b == covers(t, n as int, ck as int),
{
    let slots: bool = match &t.slot {
        Some(s) => n <= s.len(),
        None => true,
    };
    let starts: bool = match &t.col_pos_start {
        Some(s) => n <= s.len(),
        None => true,
    };
    n <= t.kv_pos.len() && n <= t.rope.len() && n <= t.parent.len() && n * MAX_VERIFY <= t.path.len()
        && twice(n, ck) <= t.winsrc.len() as u128 && slots && starts
}

} // verus!
