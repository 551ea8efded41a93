//! Device programs: what is launched, copied and borrowed from the pool, in order.
use vstd::prelude::*;

use crate::gpu::single_calls::SingleCall;

verus! {

// ---- what a program refers to ----

/// A decoder block: a layer of the trunk, or the draft head's own layer.
#[derive(Clone, Copy, Debug, PartialEq, Eq, Hash, Structural)]
pub enum Block {
    Layer(usize),
    Mtp,
}

/// A weight matrix of a block.
#[derive(Clone, Copy, Debug, PartialEq, Eq, Hash, Structural)]
pub enum Proj {
    Qkv,
    Q,
    K,
    V,
    O,
    GdnIn,
    GdnQkv,
    GdnZ,
    GdnB,
    GdnA,
    GdnOut,
    Gate,
    Up,
    Down,
    Router,
    ExpertGateUp,
    ExpertDown,
    SharedGateProj,
    SharedUp,
    SharedDown,
    SharedGate,
    Fc,
}

/// A weight matrix of the model.
#[derive(Clone, Copy, Debug, PartialEq, Eq, Hash, Structural)]
pub enum WeightId {
    Embed,
    LmHead,
    DraftHead,
    Of(Block, Proj),
}

/// One of the buffers that make up a weight.
#[derive(Clone, Copy, Debug, PartialEq, Eq, Hash, Structural)]
pub enum Part {
    Packed,
    Scales,
    TileScale,
    RowScale,
}

/// A small vector of a block.
#[derive(Clone, Copy, Debug, PartialEq, Eq, Hash, Structural)]
pub enum BlockVec {
    InputNorm,
    PostNorm,
    QNorm,
    KNorm,
    Conv1d,
    ALog,
    DtBias,
    GdnNorm,
    PreFcHidden,
    PreFcEmbed,
    FinalNorm,
}

/// A persistent scratch or staging buffer.
#[derive(Clone, Copy, Debug, PartialEq, Eq, Hash, Structural)]
pub enum Scratch {
    Pos,
    Rope,
    Slot,
    WinSrc,
    Parent,
    Path,
    Tok,
    PStart,
    MoeIds,
    MoeWts,
    DraftTok,
    DraftPos,
    SampleF32,
    SampleI32,
    SampleSeeds,
    SampleProb,
    SampleResid,
    ReprimeTok,
    ReprimePos,
    MtpSlots,
    HeadVisits,
    Dequant,
}

/// A staging buffer of the decode loop.
#[derive(Clone, Copy, Debug, PartialEq, Eq, Hash, Structural)]
pub enum DecodeBuf {
    Pos,
    Tokens,
    SlotIds,
    Cos,
    Sin,
    TokenIds,
    PenaltyTokens,
    PenaltyCounts,
    Temps,
    TopK,
    TopP,
    Seeds,
    RepPen,
    Presence,
    Frequency,
}

/// A piece of device memory.
#[derive(Clone, Copy, Debug, PartialEq, Eq, Hash, Structural)]
pub enum Region {
    /// No buffer: the kernel's "absent" argument.
    Null,
    /// A buffer that the program borrowed or was handed, by number.
    Temp(usize),
    /// A raw device address.
    Raw(u64),
    Scratch(Scratch),
    Decode(DecodeBuf),
    Weight(WeightId, Part),
    Vector(Block, BlockVec),
    FinalNorm,
    CosTable,
    SinTable,
    KCache(usize),
    VCache(usize),
    ConvState(usize),
    SState(usize),
    TpContext,
}

/// A position in device memory: a region and a byte offset.
#[derive(Clone, Copy, Debug, PartialEq, Eq, Structural)]
pub struct Ptr {
    pub region: Region,
    pub offset: u64,
}

/// The start of a region.
pub open spec fn at(region: Region) -> Ptr {
    Ptr { region, offset: 0 }
}

/// The start of buffer `id` of the program.
pub open spec fn temp(id: int) -> Ptr {
    Ptr { region: Region::Temp(id as usize), offset: 0 }
}

/// The start of a region.
pub fn ptr(region: Region) -> (p: Ptr)
    ensures
        p == at(region),
{
    Ptr { region, offset: 0 }
}

/// The start of buffer `id` of the program.
pub fn tmp(id: usize) -> (p: Ptr)
    ensures
        p == temp(id as int),
{
    Ptr { region: Region::Temp(id), offset: 0 }
}

/// A kernel argument.
#[derive(Clone, Copy, Debug, PartialEq, Eq, Structural)]
pub enum Arg {
    Ptr(Ptr),
    I32(i32),
    I64(i64),
    /// An f32 given by its bit pattern, in a 64-bit slot.
    FBits(u32),
    /// One over the square root of the given width, as an f32 in a 64-bit slot.
    InvSqrt(i32),
}

// ---- packed words ----

/// Batch (from bit 25), split bound (from bit 19) and KV stride of the split attention kernel.
pub open spec fn splitk_word(n: i32, splits: i32, stride: i32) -> i32 {
    (n << 25) | (splits << 19) | stride
}

/// Query heads and KV heads in decimal places.
pub open spec fn heads_word(nh: i32, nkv: i32) -> i32 {
    (nh * 1000 + nkv) as i32
}

/// Two half-words: `a` in the low half, `b` in the high half.
pub open spec fn pair_word(a: i32, b: i32) -> i32 {
    a | (b << 16)
}

/// Columns (24 bits) and key heads (8 bits) of the scan kernel.
pub open spec fn scan_word(n: i32, nk: i32) -> i32 {
    (n & 0xFFFFFF) | ((nk & 0xFF) << 24)
}

/// Query heads, group size and index within the group in decimal places.
pub open spec fn tile_heads_word(nh: i32, gqa: i32, r: i32) -> i32 {
    (nh * 10000 + gqa * 100 + r) as i32
}

/// First key of a tile (high half) and number of keys (low half).
pub open spec fn keys_word(s0: i32, pc: i32) -> i64 {
    ((s0 as i64) << 32) | (pc as i64)
}

fn pack_splitk_word(n: i32, splits: i32, stride: i32) -> (w: i32)
    ensures
        w == splitk_word(n, splits, stride),
{
    (n << 25) | (splits << 19) | stride
}

fn pack_heads_word(nh: i32, nkv: i32) -> (w: i32)
    ensures
        w == heads_word(nh, nkv),
{
    #[verifier::truncate]
    ((nh as i64 * 1000 + nkv as i64) as i32)
}

fn pack_pair_word(a: i32, b: i32) -> (w: i32)
    ensures
        w == pair_word(a, b),
{
    a | (b << 16)
}

fn pack_scan_word(n: i32, nk: i32) -> (w: i32)
    ensures
        w == scan_word(n, nk),
{
    (n & 0xFFFFFF) | ((nk & 0xFF) << 24)
}

fn pack_tile_heads_word(nh: i32, gqa: i32, r: i32) -> (w: i32)
    ensures
        w == tile_heads_word(nh, gqa, r),
{
    #[verifier::truncate]
    ((nh as i64 * 10000 + gqa as i64 * 100 + r as i64) as i32)
}

fn pack_keys_word(s0: i32, pc: i32) -> (w: i64)
    ensures
        w == keys_word(s0, pc),
{
    ((s0 as i64) << 32) | (pc as i64)
}

/// The split attention word holds its three fields apart.
pub proof fn law_splitk_word_unpacks(n: i32, splits: i32, stride: i32)
    requires
        0 <= n < 64,
        0 <= splits < 64,
        0 <= stride < 0x8_0000,
    ensures
        (splitk_word(n, splits, stride) >> 25) & 0x3F == n,
        (splitk_word(n, splits, stride) >> 19) & 0x3F == splits,
        splitk_word(n, splits, stride) & 0x7_FFFF == stride,
{
    assert((((n << 25) | (splits << 19) | stride) >> 25) & 0x3F == n && (((n << 25) | (splits << 19)
        | stride) >> 19) & 0x3F == splits && ((n << 25) | (splits << 19) | stride) & 0x7_FFFF
        == stride) by (bit_vector)
        requires
            0 <= n < 64,
            0 <= splits < 64,
            0 <= stride < 0x8_0000,
    ;
}

/// The scan word holds its two fields apart.
pub proof fn law_scan_word_unpacks(n: i32, nk: i32)
    requires
        0 <= n < 0x100_0000,
        0 <= nk < 256,
    ensures
        scan_word(n, nk) & 0xFF_FFFF == n,
        (scan_word(n, nk) >> 24) & 0xFF == nk,
{
    assert(((n & 0xFFFFFF) | ((nk & 0xFF) << 24)) & 0xFF_FFFF == n && (((n & 0xFFFFFF) | ((nk
        & 0xFF) << 24)) >> 24) & 0xFF == nk) by (bit_vector)
        requires
            0 <= n < 0x100_0000,
            0 <= nk < 256,
    ;
}

/// The head words hold their fields apart while the KV heads stay below their decimal place.
pub proof fn law_heads_word_unpacks(nh: i32, nkv: i32)
    requires
        0 <= nh <= 2_000_000,
        0 <= nkv < 1000,
    ensures
        heads_word(nh, nkv) as int / 1000 == nh,
        heads_word(nh, nkv) as int % 1000 == nkv,
{
}

// ---- launch geometry ----

/// Blocks of 256 threads that cover `n` elements.
pub open spec fn blocks_for(n: int) -> int {
    (n + 255) / 256
}

/// Product of three counts.
pub(crate) fn product(a: u64, b: u64, c: u64) -> (p: u128)
    requires
        a <= 0x2_0000_0000,
        b <= 0x2_0000_0000,
        c <= 0x2_0000_0000,
    ensures
        p == a * b * c,
{
    proof {
        assert(a * b <= 0x2_0000_0000 * 0x2_0000_0000) by (nonlinear_arith)
            requires
                a <= 0x2_0000_0000,
                b <= 0x2_0000_0000,
        ;
        assert(a * b * c <= 0x2_0000_0000 * 0x2_0000_0000 * 0x2_0000_0000) by (nonlinear_arith)
            requires
                a * b <= 0x2_0000_0000 * 0x2_0000_0000,
                c <= 0x2_0000_0000,
        ;
    }
    (a as u128) * (b as u128) * (c as u128)
}

/// Blocks of 256 threads that cover a product of three counts.
pub(crate) fn cover(a: u64, b: u64, c: u64) -> (g: u32)
    requires
        a <= 0x2_0000_0000,
        b <= 0x2_0000_0000,
        c <= 0x2_0000_0000,
        blocks_for(a * b * c) <= u32::MAX,
    ensures
        g == blocks_for(a * b * c),
{
    let p: u128 = product(a, b, c);
    proof {
        assert(a * b <= 0x2_0000_0000 * 0x2_0000_0000) by (nonlinear_arith)
            requires
                a <= 0x2_0000_0000,
                b <= 0x2_0000_0000,
        ;
        assert(a * b * c <= 0x2_0000_0000 * 0x2_0000_0000 * 0x2_0000_0000) by (nonlinear_arith)
            requires
                a * b <= 0x2_0000_0000 * 0x2_0000_0000,
                c <= 0x2_0000_0000,
        ;
    }
    ((p + 255) / 256) as u32
}

/// Shared memory of the split attention kernel: partial outputs and running statistics per warp.
fn attn_smem(hd: u64) -> (s: u32)
    requires
        hd <= i32::MAX,
        4 * ((hd / 32) * hd + 2 * (hd / 32)) <= u32::MAX,
    ensures
        s == 4 * ((hd / 32) * hd + 2 * (hd / 32)),
{
    let p: u128 = product(hd / 32, hd, 1);
    (4 * (p + 2 * (hd as u128 / 32))) as u32
}

/// One kernel launch, by what it reads and writes.
#[allow(inconsistent_fields)]
#[derive(Clone, Copy, PartialEq, Eq, Structural)]
pub enum Call {
    /// Gathers the rotary angles of `n` positions.
    GatherRope { cos: Ptr, sin: Ptr, pos: Ptr, rdim: i32, n: i32 },
    /// Root-mean-square norm of `n` columns.
    Rmsnorm { out: Ptr, x: Ptr, w: Ptr, h: i32, n: i32, eps: u32 },
    /// Adds into the residual, then norms it.
    FusedResRmsnorm { out: Ptr, residual: Ptr, add: Ptr, w: Ptr, h: i32, n: i32, eps: u32 },
    /// Adds into the residual.
    AddResidual { residual: Ptr, add: Ptr, tot: i32 },
    /// Gated activation of the dense MLP.
    SiluMul { gate: Ptr, up: Ptr, tot: i32 },
    /// Splits the fused attention projection.
    SplitQkv { qg: Ptr, k: Ptr, v: Ptr, fused: Ptr, qrows: i32, kvrows: i32, n: i32 },
    /// Splits queries from their gates.
    SplitQgate { q: Ptr, gate: Ptr, qg: Ptr, nh: i32, hd: i32, n: i32 },
    /// Norms every head in place.
    RmsnormPerhead { x: Ptr, w: Ptr, nh: i32, hd: i32, n: i32, eps: u32 },
    /// Rotates every head in place.
    Rope { x: Ptr, cos: Ptr, sin: Ptr, nh: i32, hd: i32, rdim: i32, n: i32 },
    /// Writes a run of KV entries of one lane.
    WriteKvPrefill {
        kc: Ptr,
        vc: Ptr,
        k: Ptr,
        v: Ptr,
        stride: i32,
        nkv: i32,
        hd: i32,
        n: i32,
        pos: i32,
    },
    /// Writes one KV entry per column.
    WriteKv {
        kc: Ptr,
        vc: Ptr,
        k: Ptr,
        v: Ptr,
        pos: Ptr,
        stride: i32,
        nkv: i32,
        hd: i32,
        n: i32,
        slots: Ptr,
    },
    /// Causal attention of a short run of columns.
    AttnPrefill {
        attn: Ptr,
        q: Ptr,
        kc: Ptr,
        vc: Ptr,
        stride: i32,
        nh: i32,
        nkv: i32,
        hd: i32,
        n: i32,
        pos: i32,
    },
    /// Attention partials, one block per column, head and split.
    AttnSplitk {
        pm: Ptr,
        pl: Ptr,
        pa: Ptr,
        q: Ptr,
        kc: Ptr,
        vc: Ptr,
        logical: Ptr,
        n: i32,
        splits: i32,
        stride: i32,
        nh: i32,
        nkv: i32,
        hd: i32,
        slots: Ptr,
        path: Ptr,
        starts: Ptr,
    },
    /// Merges the partials of every column and head.
    AttnReduce {
        attn: Ptr,
        pm: Ptr,
        pl: Ptr,
        pa: Ptr,
        logical: Ptr,
        splits: i32,
        n: i32,
        nh: i32,
        nkv: i32,
        hd: i32,
    },
    /// Gates the attention output.
    SigmoidGate { attn: Ptr, gate: Ptr, tot: i32 },
    /// Splits the fused linear-attention projection.
    SplitGdn {
        qkv: Ptr,
        z: Ptr,
        b: Ptr,
        a: Ptr,
        fused: Ptr,
        conv_dim: i32,
        value_dim: i32,
        nh: i32,
        n: i32,
        full_nv: i32,
        head0: i32,
    },
    /// One convolution step per lane.
    Conv1d { qkv: Ptr, state: Ptr, w: Ptr, conv_dim: i32, ck: i32, n: i32, slots: Ptr },
    /// One recurrence step per lane.
    DeltaStep {
        core: Ptr,
        qkv: Ptr,
        state: Ptr,
        b: Ptr,
        a: Ptr,
        nh: i32,
        nk: i32,
        kd: i32,
        vd: i32,
        a_log: Ptr,
        dt_bias: Ptr,
        slots: Ptr,
        visits: Ptr,
        n: i32,
    },
    /// Gated norm of the recurrence output.
    RmsnormGated { out: Ptr, x: Ptr, z: Ptr, w: Ptr, vd: i32, nh: i32, n: i32, eps: u32 },
    /// Convolution of a run of columns, out of place.
    Conv1dPrefill {
        out: Ptr,
        x: Ptr,
        state: Ptr,
        w: Ptr,
        conv_dim: i32,
        ck: i32,
        n: i32,
        mid: Ptr,
        winsrc: Ptr,
        slots: Ptr,
    },
    /// Carries a run's final window into the state.
    Conv1dState { state: Ptr, x: Ptr, conv_dim: i32, ck: i32, last: i32, len: i32, slots: Ptr },
    /// Recurrence over a run of columns.
    DeltaPrefill {
        core: Ptr,
        qkv: Ptr,
        state: Ptr,
        b: Ptr,
        a: Ptr,
        nh: i32,
        kd: i32,
        vd: i32,
        a_log: Ptr,
        dt_bias: Ptr,
        n: i32,
        nk: i32,
        mid: Ptr,
        parent: Ptr,
    },
    /// 4-bit matrix product at decode width.
    GemmFp4 { out: Ptr, w: WeightId, x: Ptr, outn: i32, inn: i32, n: i32, acc: Ptr },
    /// 8-bit matrix product at decode width.
    GemmFp8 { out: Ptr, w: WeightId, x: Ptr, outn: i32, inn: i32, n: i32, acc: Ptr },
    /// Batch-invariant bf16 matrix product.
    GemmBinv { out: Ptr, w: WeightId, x: Ptr, outn: i32, inn: i32, n: i32 },
    /// Expands a 4-bit weight.
    DequantFp4 { out: Ptr, w: WeightId, outn: i32, inn: i32 },
    /// Expands an 8-bit weight.
    DequantFp8 { out: Ptr, w: WeightId, outn: i32, inn: i32 },
    /// Gathers embedding rows.
    EmbedBf16 { out: Ptr, toks: Ptr, h: i32, n: i32 },
    /// Gathers 4-bit embedding rows.
    EmbedFp4 { out: Ptr, toks: Ptr, h: i32, n: i32 },
    /// Gathers 8-bit embedding rows.
    EmbedFp8 { out: Ptr, toks: Ptr, h: i32, n: i32 },
    /// Greedy token of every column.
    Argmax { out: Ptr, logits: Ptr, vocab: i32, n: i32 },
    /// Penalizes recently emitted tokens.
    RepPenalty {
        logits: Ptr,
        tokens: Ptr,
        counts: Ptr,
        rep: Ptr,
        presence: Ptr,
        freq: Ptr,
        vocab: i32,
        n: i32,
    },
    /// Samples every column.
    Sample {
        out: Ptr,
        logits: Ptr,
        temps: Ptr,
        topk: Ptr,
        topp: Ptr,
        seeds: Ptr,
        vocab: i32,
        n: i32,
    },
    /// Samples every column and reports the probability.
    SampleProb {
        out: Ptr,
        prob: Ptr,
        logits: Ptr,
        temps: Ptr,
        topk: Ptr,
        topp: Ptr,
        seeds: Ptr,
        vocab: i32,
        n: i32,
    },
    /// Judges drafts against the target distribution.
    SpecVerify {
        prob: Ptr,
        resid: Ptr,
        logits: Ptr,
        drafts: Ptr,
        qprob: Ptr,
        temps: Ptr,
        topk: Ptr,
        topp: Ptr,
        seeds: Ptr,
        vocab: i32,
        n: i32,
    },
    /// Negative log-likelihood of the targets.
    Nll { out: Ptr, logits: Ptr, targets: Ptr, vocab: i32, n: i32 },
    /// Picks and weighs the experts of every token.
    MoeRouterTopk { ids: Ptr, wts: Ptr, logits: Ptr, ne: i32, k: i32, n: i32 },
    /// Runs bf16 experts token by token.
    MoeExperts {
        out: Ptr,
        x: Ptr,
        ids: Ptr,
        wts: Ptr,
        gate_up: WeightId,
        down: WeightId,
        h: i32,
        mi: i32,
        k: i32,
        n: i32,
    },
    /// Expert product, one block row per token and slot.
    MoeGemm {
        out: Ptr,
        w: WeightId,
        x: Ptr,
        ids: Ptr,
        outn: i32,
        inn: i32,
        k: i32,
        per_slot: i32,
        e_base: i32,
        e_span: i32,
        pairs: i32,
    },
    /// Gated activation of the experts.
    MoeSilu { out: Ptr, x: Ptr, mi: i32, rows: i32 },
    /// Weighted sum over a token's experts.
    MoeCombine { out: Ptr, x: Ptr, wts: Ptr, h: i32, k: i32, n: i32 },
    /// Counts tokens per expert.
    MoeCount { count: Ptr, ids: Ptr, pairs: i32, lo: i32, hi: i32 },
    /// Padded start of every expert's group.
    MoeOffsets { poff: Ptr, cursor: Ptr, count: Ptr, ne: i32 },
    /// Sorts tokens by expert.
    MoeScatter {
        perm: Ptr,
        wt: Ptr,
        inv: Ptr,
        cursor: Ptr,
        ids: Ptr,
        wts: Ptr,
        pairs: i32,
        k: i32,
        lo: i32,
        hi: i32,
    },
    /// Expert of every token group.
    MoeTilemap { tile: Ptr, poff: Ptr, ne: i32 },
    /// Gathers tokens in expert order.
    MoeGatherX { out: Ptr, x: Ptr, perm: Ptr, h: i32, rows: i32 },
    /// Expert product over groups of sixteen tokens.
    MoeGrouped {
        out: Ptr,
        w: WeightId,
        x: Ptr,
        tile: Ptr,
        outn: i32,
        inn: i32,
        e_base: i32,
        groups: i32,
    },
    /// Weighted sum over a token's experts, from expert order.
    MoeCombineGrouped { out: Ptr, x: Ptr, wt: Ptr, inv: Ptr, h: i32, k: i32, n: i32 },
    /// Adds the gated shared expert.
    MoeSharedCombine { out: Ptr, shared: Ptr, gate: Ptr, h: i32, n: i32 },
    /// Stacks two columns.
    Concat { out: Ptr, first: Ptr, second: Ptr, h: i32, n: i32 },
    /// Publishes this rank's partial.
    TpSignal { src: Ptr, bytes: i32 },
    /// Adds the partials in rank order.
    TpWaitAdd { out: Ptr, src: Ptr, elems: i32, fp32: i32 },
    /// Gathers or scatters the KV entries of an accepted path.
    CompactKv {
        kc: Ptr,
        vc: Ptr,
        ks: Ptr,
        vs: Ptr,
        src: Ptr,
        len: i32,
        pos: i32,
        slot: i32,
        nkv: i32,
        stride: i32,
        hd: i32,
        dir: i32,
    },
    /// Clears a query tile.
    AttnTileInit { o: Ptr, m: Ptr, l: Ptr, br: i32, hd: i32, nh: i32 },
    /// Online softmax of one key tile.
    AttnSoftmaxTile {
        s: Ptr,
        p: Ptr,
        o: Ptr,
        m: Ptr,
        l: Ptr,
        br: i32,
        bc: i32,
        hd: i32,
        nh: i32,
        gqa: i32,
        r: i32,
        rows: i32,
        qpos: i32,
        s0: i32,
        pc: i32,
        nkv: i32,
    },
    /// Normalizes a query tile into the output.
    AttnFinalize { attn: Ptr, o: Ptr, l: Ptr, br: i32, hd: i32, nh: i32, t0: i32, n: i32 },
}

impl Call {
    /// The kernel's name in its module.
    pub open spec fn spec_symbol(&self) -> Seq<char> {
        match *self {
            Call::GatherRope { .. } => "gather_rope_b"@,
            Call::Rmsnorm { .. } => "rmsnorm_b"@,
            Call::FusedResRmsnorm { .. } => "fused_res_rmsnorm_b"@,
            Call::AddResidual { .. } => "add_residual_b"@,
            Call::SiluMul { .. } => "silu_mul_b"@,
            Call::SplitQkv { .. } => "split_qkv_b"@,
            Call::SplitQgate { .. } => "split_qgate_b"@,
            Call::RmsnormPerhead { .. } => "rmsnorm_perhead_b"@,
            Call::Rope { .. } => "rope_b"@,
            Call::WriteKvPrefill { .. } => "write_kv_prefill"@,
            Call::WriteKv { .. } => "write_kv_b"@,
            Call::AttnPrefill { .. } => "gqa_attn_prefill"@,
            Call::AttnSplitk { .. } => "gqa_attn_splitk"@,
            Call::AttnReduce { .. } => "gqa_attn_reduce"@,
            Call::SigmoidGate { .. } => "sigmoid_gate_b"@,
            Call::SplitGdn { .. } => "split_gdn_b"@,
            Call::Conv1d { .. } => "conv1d_b"@,
            Call::DeltaStep { .. } => "delta_step_b"@,
            Call::RmsnormGated { .. } => "rmsnorm_gated_b"@,
            Call::Conv1dPrefill { .. } => "conv1d_prefill"@,
            Call::Conv1dState { .. } => "conv1d_prefill_state"@,
            Call::DeltaPrefill { .. } => "delta_step_prefill"@,
            Call::GemmFp4 { .. } => "gemm_mma_fp4_b"@,
            Call::GemmFp8 { .. } => "gemm_mma_fp8_b"@,
            Call::GemmBinv { .. } => "gemm_binv_b"@,
            Call::DequantFp4 { .. } => "dequant_fp4_tiled_b"@,
            Call::DequantFp8 { .. } => "dequant_fp8_tiled_b"@,
            Call::EmbedBf16 { .. } => "embed_gather_b"@,
            Call::EmbedFp4 { .. } => "embed_gather_fp4_tiled_b"@,
            Call::EmbedFp8 { .. } => "embed_gather_fp8_tiled_b"@,
            Call::Argmax { .. } => "argmax_b"@,
            Call::RepPenalty { .. } => "rep_penalty_b"@,
            Call::Sample { .. } => "sample_b"@,
            Call::SampleProb { .. } => "sample_prob_b"@,
            Call::SpecVerify { .. } => "spec_verify_b"@,
            Call::Nll { .. } => "nll_b"@,
            Call::MoeRouterTopk { .. } => "moe_router_topk_b"@,
            Call::MoeExperts { .. } => "moe_experts_b"@,
            Call::MoeGemm { .. } => "gemm_moe_mma_fp4"@,
            Call::MoeSilu { .. } => "moe_silu_bf16_b"@,
            Call::MoeCombine { .. } => "moe_combine_experts_b"@,
            Call::MoeCount { .. } => "moe_count_b"@,
            Call::MoeOffsets { .. } => "moe_offsets_b"@,
            Call::MoeScatter { .. } => "moe_scatter_b"@,
            Call::MoeTilemap { .. } => "moe_tilemap_b"@,
            Call::MoeGatherX { .. } => "moe_gather_x_b"@,
            Call::MoeGrouped { .. } => "gemm_moe_grouped_mma_fp4"@,
            Call::MoeCombineGrouped { .. } => "moe_combine_grouped_b"@,
            Call::MoeSharedCombine { .. } => "moe_shared_combine_b"@,
            Call::Concat { .. } => "concat_b"@,
            Call::TpSignal { .. } => "tp_gate_copy_signal"@,
            Call::TpWaitAdd { .. } => "tp_wait_add"@,
            Call::CompactKv { .. } => "compact_kv_b"@,
            Call::AttnTileInit { .. } => "attn_tile_init"@,
            Call::AttnSoftmaxTile { .. } => "attn_softmax_tile"@,
            Call::AttnFinalize { .. } => "attn_finalize"@,
        }
    }

    /// The kernel's name in its module.
    pub fn symbol(&self) -> (s: &'static str)
        ensures
            s@ == self.spec_symbol(),
    {
        match *self {
            Call::GatherRope { .. } => "gather_rope_b",
            Call::Rmsnorm { .. } => "rmsnorm_b",
            Call::FusedResRmsnorm { .. } => "fused_res_rmsnorm_b",
            Call::AddResidual { .. } => "add_residual_b",
            Call::SiluMul { .. } => "silu_mul_b",
            Call::SplitQkv { .. } => "split_qkv_b",
            Call::SplitQgate { .. } => "split_qgate_b",
            Call::RmsnormPerhead { .. } => "rmsnorm_perhead_b",
            Call::Rope { .. } => "rope_b",
            Call::WriteKvPrefill { .. } => "write_kv_prefill",
            Call::WriteKv { .. } => "write_kv_b",
            Call::AttnPrefill { .. } => "gqa_attn_prefill",
            Call::AttnSplitk { .. } => "gqa_attn_splitk",
            Call::AttnReduce { .. } => "gqa_attn_reduce",
            Call::SigmoidGate { .. } => "sigmoid_gate_b",
            Call::SplitGdn { .. } => "split_gdn_b",
            Call::Conv1d { .. } => "conv1d_b",
            Call::DeltaStep { .. } => "delta_step_b",
            Call::RmsnormGated { .. } => "rmsnorm_gated_b",
            Call::Conv1dPrefill { .. } => "conv1d_prefill",
            Call::Conv1dState { .. } => "conv1d_prefill_state",
            Call::DeltaPrefill { .. } => "delta_step_prefill",
            Call::GemmFp4 { .. } => "gemm_mma_fp4_b",
            Call::GemmFp8 { .. } => "gemm_mma_fp8_b",
            Call::GemmBinv { .. } => "gemm_binv_b",
            Call::DequantFp4 { .. } => "dequant_fp4_tiled_b",
            Call::DequantFp8 { .. } => "dequant_fp8_tiled_b",
            Call::EmbedBf16 { .. } => "embed_gather_b",
            Call::EmbedFp4 { .. } => "embed_gather_fp4_tiled_b",
            Call::EmbedFp8 { .. } => "embed_gather_fp8_tiled_b",
            Call::Argmax { .. } => "argmax_b",
            Call::RepPenalty { .. } => "rep_penalty_b",
            Call::Sample { .. } => "sample_b",
            Call::SampleProb { .. } => "sample_prob_b",
            Call::SpecVerify { .. } => "spec_verify_b",
            Call::Nll { .. } => "nll_b",
            Call::MoeRouterTopk { .. } => "moe_router_topk_b",
            Call::MoeExperts { .. } => "moe_experts_b",
            Call::MoeGemm { .. } => "gemm_moe_mma_fp4",
            Call::MoeSilu { .. } => "moe_silu_bf16_b",
            Call::MoeCombine { .. } => "moe_combine_experts_b",
            Call::MoeCount { .. } => "moe_count_b",
            Call::MoeOffsets { .. } => "moe_offsets_b",
            Call::MoeScatter { .. } => "moe_scatter_b",
            Call::MoeTilemap { .. } => "moe_tilemap_b",
            Call::MoeGatherX { .. } => "moe_gather_x_b",
            Call::MoeGrouped { .. } => "gemm_moe_grouped_mma_fp4",
            Call::MoeCombineGrouped { .. } => "moe_combine_grouped_b",
            Call::MoeSharedCombine { .. } => "moe_shared_combine_b",
            Call::Concat { .. } => "concat_b",
            Call::TpSignal { .. } => "tp_gate_copy_signal",
            Call::TpWaitAdd { .. } => "tp_wait_add",
            Call::CompactKv { .. } => "compact_kv_b",
            Call::AttnTileInit { .. } => "attn_tile_init",
            Call::AttnSoftmaxTile { .. } => "attn_softmax_tile",
            Call::AttnFinalize { .. } => "attn_finalize",
        }
    }

    /// Blocks along each axis.
    pub open spec fn spec_grid(&self) -> (int, int, int) {
        match *self {
            Call::GatherRope { rdim, n, .. } => (blocks_for(rdim * n), 1, 1),
            Call::Rmsnorm { n, .. } => (n as int, 1, 1),
            Call::FusedResRmsnorm { n, .. } => (n as int, 1, 1),
            Call::AddResidual { tot, .. } => (blocks_for(tot as int), 1, 1),
            Call::SiluMul { tot, .. } => (blocks_for(tot as int), 1, 1),
            Call::SplitQkv { qrows, kvrows, n, .. } => (blocks_for((qrows + 2 * kvrows) * n), 1, 1),
            Call::SplitQgate { nh, hd, n, .. } => (blocks_for(nh * hd * n), 1, 1),
            Call::RmsnormPerhead { nh, n, .. } => (n * nh, 1, 1),
            Call::Rope { nh, rdim, n, .. } => (blocks_for(n * nh * (rdim / 2)), 1, 1),
            Call::WriteKvPrefill { nkv, hd, n, .. } => (blocks_for(n * nkv * hd), 1, 1),
            Call::WriteKv { nkv, hd, n, .. } => (blocks_for(n * nkv * hd), 1, 1),
            Call::AttnPrefill { nh, n, .. } => (((n + 7) / 8) * nh, 1, 1),
            Call::AttnSplitk { n, splits, nh, .. } => (n * nh * splits, 1, 1),
            Call::AttnReduce { n, nh, .. } => (n * nh, 1, 1),
            Call::SigmoidGate { tot, .. } => (blocks_for(tot as int), 1, 1),
            Call::SplitGdn { conv_dim, value_dim, n, full_nv, .. } => (
                blocks_for((conv_dim + value_dim + 2 * full_nv) * n),
                1,
                1,
            ),
            Call::Conv1d { conv_dim, n, .. } => (blocks_for(n * conv_dim), 1, 1),
            Call::DeltaStep { nh, vd, n, .. } => (n * nh * (vd / 32), 1, 1),
            Call::RmsnormGated { nh, n, .. } => (n * nh, 1, 1),
            Call::Conv1dPrefill { conv_dim, n, .. } => (blocks_for(conv_dim * n), 1, 1),
            Call::Conv1dState { conv_dim, .. } => (blocks_for(conv_dim as int), 1, 1),
            Call::DeltaPrefill { nh, vd, .. } => (nh * (vd / 32), 1, 1),
            Call::GemmFp4 { outn, .. } => ((outn / 16), 1, 1),
            Call::GemmFp8 { outn, .. } => ((outn / 16), 1, 1),
            Call::GemmBinv { outn, .. } => (outn as int, 1, 1),
            Call::DequantFp4 { outn, inn, .. } => (blocks_for(inn * outn), 1, 1),
            Call::DequantFp8 { outn, inn, .. } => (blocks_for(inn * outn), 1, 1),
            Call::EmbedBf16 { h, n, .. } => (blocks_for(h * n), 1, 1),
            Call::EmbedFp4 { h, n, .. } => (blocks_for(h * n), 1, 1),
            Call::EmbedFp8 { h, n, .. } => (blocks_for(h * n), 1, 1),
            Call::Argmax { n, .. } => (n as int, 1, 1),
            Call::RepPenalty { n, .. } => (n as int, 1, 1),
            Call::Sample { n, .. } => (n as int, 1, 1),
            Call::SampleProb { n, .. } => (n as int, 1, 1),
            Call::SpecVerify { n, .. } => (n as int, 1, 1),
            Call::Nll { n, .. } => (n as int, 1, 1),
            Call::MoeRouterTopk { n, .. } => (n as int, 1, 1),
            Call::MoeExperts { n, .. } => (n as int, 1, 1),
            Call::MoeGemm { outn, pairs, .. } => ((outn / 16), pairs as int, 1),
            Call::MoeSilu { mi, rows, .. } => (blocks_for(rows * mi), 1, 1),
            Call::MoeCombine { h, n, .. } => (blocks_for(n * h), 1, 1),
            Call::MoeCount { pairs, .. } => (blocks_for(pairs as int), 1, 1),
            Call::MoeOffsets { .. } => (1, 1, 1),
            Call::MoeScatter { pairs, .. } => (blocks_for(pairs as int), 1, 1),
            Call::MoeTilemap { ne, .. } => (blocks_for(ne as int), 1, 1),
            Call::MoeGatherX { h, rows, .. } => (blocks_for(rows * h), 1, 1),
            Call::MoeGrouped { outn, groups, .. } => ((outn / 16), groups as int, 1),
            Call::MoeCombineGrouped { h, n, .. } => (blocks_for(n * h), 1, 1),
            Call::MoeSharedCombine { h, n, .. } => (blocks_for(h * n), 1, 1),
            Call::Concat { h, n, .. } => (blocks_for(2 * h * n), 1, 1),
            Call::TpSignal { .. } => (1, 1, 1),
            Call::TpWaitAdd { .. } => (1, 1, 1),
            Call::CompactKv { len, nkv, hd, .. } => (blocks_for(len * nkv * hd), 1, 1),
            Call::AttnTileInit { br, hd, nh, .. } => (blocks_for(nh * br * hd), 1, 1),
            Call::AttnSoftmaxTile { br, nkv, .. } => (br as int, nkv as int, 1),
            Call::AttnFinalize { br, nh, .. } => (((br + 31) / 32), nh as int, 1),
        }
    }

    /// Threads along each axis of a block.
    pub open spec fn spec_block(&self) -> (int, int, int) {
        match *self {
            Call::GatherRope { .. } => (256, 1, 1),
            Call::Rmsnorm { .. } => (1024, 1, 1),
            Call::FusedResRmsnorm { .. } => (1024, 1, 1),
            Call::AddResidual { .. } => (256, 1, 1),
            Call::SiluMul { .. } => (256, 1, 1),
            Call::SplitQkv { .. } => (256, 1, 1),
            Call::SplitQgate { .. } => (256, 1, 1),
            Call::RmsnormPerhead { hd, .. } => (hd as int, 1, 1),
            Call::Rope { .. } => (256, 1, 1),
            Call::WriteKvPrefill { .. } => (256, 1, 1),
            Call::WriteKv { .. } => (256, 1, 1),
            Call::AttnPrefill { hd, .. } => (hd as int, 1, 1),
            Call::AttnSplitk { hd, .. } => (hd as int, 1, 1),
            Call::AttnReduce { hd, .. } => (hd as int, 1, 1),
            Call::SigmoidGate { .. } => (256, 1, 1),
            Call::SplitGdn { .. } => (256, 1, 1),
            Call::Conv1d { .. } => (256, 1, 1),
            Call::DeltaStep { kd, .. } => (kd as int, 1, 1),
            Call::RmsnormGated { vd, .. } => (vd as int, 1, 1),
            Call::Conv1dPrefill { .. } => (256, 1, 1),
            Call::Conv1dState { .. } => (256, 1, 1),
            Call::DeltaPrefill { kd, .. } => (kd as int, 1, 1),
            Call::GemmFp4 { .. } => (256, 1, 1),
            Call::GemmFp8 { .. } => (256, 1, 1),
            Call::GemmBinv { .. } => (256, 1, 1),
            Call::DequantFp4 { .. } => (256, 1, 1),
            Call::DequantFp8 { .. } => (256, 1, 1),
            Call::EmbedBf16 { .. } => (256, 1, 1),
            Call::EmbedFp4 { .. } => (256, 1, 1),
            Call::EmbedFp8 { .. } => (256, 1, 1),
            Call::Argmax { .. } => (1024, 1, 1),
            Call::RepPenalty { .. } => (256, 1, 1),
            Call::Sample { .. } => (256, 1, 1),
            Call::SampleProb { .. } => (256, 1, 1),
            Call::SpecVerify { .. } => (256, 1, 1),
            Call::Nll { .. } => (1024, 1, 1),
            Call::MoeRouterTopk { .. } => (256, 1, 1),
            Call::MoeExperts { .. } => (256, 1, 1),
            Call::MoeGemm { .. } => (256, 1, 1),
            Call::MoeSilu { .. } => (256, 1, 1),
            Call::MoeCombine { .. } => (256, 1, 1),
            Call::MoeCount { .. } => (256, 1, 1),
            Call::MoeOffsets { .. } => (32, 1, 1),
            Call::MoeScatter { .. } => (256, 1, 1),
            Call::MoeTilemap { .. } => (256, 1, 1),
            Call::MoeGatherX { .. } => (256, 1, 1),
            Call::MoeGrouped { .. } => (256, 1, 1),
            Call::MoeCombineGrouped { .. } => (256, 1, 1),
            Call::MoeSharedCombine { .. } => (256, 1, 1),
            Call::Concat { .. } => (256, 1, 1),
            Call::TpSignal { .. } => (512, 1, 1),
            Call::TpWaitAdd { .. } => (512, 1, 1),
            Call::CompactKv { .. } => (256, 1, 1),
            Call::AttnTileInit { .. } => (256, 1, 1),
            Call::AttnSoftmaxTile { .. } => (256, 1, 1),
            Call::AttnFinalize { .. } => (32, 8, 1),
        }
    }

    /// Bytes of shared memory.
    pub open spec fn spec_smem(&self) -> int {
        match *self {
            Call::GatherRope { .. } => 0,
            Call::Rmsnorm { .. } => 4096,
            Call::FusedResRmsnorm { .. } => 4096,
            Call::AddResidual { .. } => 0,
            Call::SiluMul { .. } => 0,
            Call::SplitQkv { .. } => 0,
            Call::SplitQgate { .. } => 0,
            Call::RmsnormPerhead { hd, .. } => 4 * hd,
            Call::Rope { .. } => 0,
            Call::WriteKvPrefill { .. } => 0,
            Call::WriteKv { .. } => 0,
            Call::AttnPrefill { .. } => 0,
            Call::AttnSplitk { hd, .. } => 4 * ((hd / 32) * hd + 2 * (hd / 32)),
            Call::AttnReduce { .. } => 0,
            Call::SigmoidGate { .. } => 0,
            Call::SplitGdn { .. } => 0,
            Call::Conv1d { .. } => 0,
            Call::DeltaStep { kd, .. } => 4 * (kd * 33 + kd + 96 + 2 * kd),
            Call::RmsnormGated { vd, .. } => 4 * vd,
            Call::Conv1dPrefill { .. } => 0,
            Call::Conv1dState { .. } => 0,
            Call::DeltaPrefill { kd, .. } => 4 * (kd * 33 + kd + 96 + 2 * kd),
            Call::GemmFp4 { .. } => 0,
            Call::GemmFp8 { .. } => 0,
            Call::GemmBinv { n, .. } => 4 * (n * 256),
            Call::DequantFp4 { .. } => 0,
            Call::DequantFp8 { .. } => 0,
            Call::EmbedBf16 { .. } => 0,
            Call::EmbedFp4 { .. } => 0,
            Call::EmbedFp8 { .. } => 0,
            Call::Argmax { .. } => 8192,
            Call::RepPenalty { .. } => 0,
            Call::Sample { .. } => 2560,
            Call::SampleProb { .. } => 2560,
            Call::SpecVerify { .. } => 2560,
            Call::Nll { .. } => 4096,
            Call::MoeRouterTopk { ne, .. } => 4 * ne,
            Call::MoeExperts { h, mi, .. } => 4 * (2 * mi + mi + h),
            Call::MoeGemm { .. } => 0,
            Call::MoeSilu { .. } => 0,
            Call::MoeCombine { .. } => 0,
            Call::MoeCount { .. } => 0,
            Call::MoeOffsets { .. } => 0,
            Call::MoeScatter { .. } => 0,
            Call::MoeTilemap { .. } => 0,
            Call::MoeGatherX { .. } => 0,
            Call::MoeGrouped { .. } => 0,
            Call::MoeCombineGrouped { .. } => 0,
            Call::MoeSharedCombine { .. } => 0,
            Call::Concat { .. } => 0,
            Call::TpSignal { .. } => 0,
            Call::TpWaitAdd { .. } => 0,
            Call::CompactKv { .. } => 0,
            Call::AttnTileInit { .. } => 0,
            Call::AttnSoftmaxTile { .. } => 1024,
            Call::AttnFinalize { .. } => 0,
        }
    }

    /// The arguments, in order.
    pub open spec fn spec_args(&self) -> Seq<Arg> {
        match *self {
            Call::GatherRope { cos, sin, pos, rdim, n } => seq![
                Arg::Ptr(cos),
                Arg::Ptr(sin),
                Arg::Ptr(at(Region::CosTable)),
                Arg::Ptr(at(Region::SinTable)),
                Arg::Ptr(pos),
                Arg::I32(rdim),
                Arg::I32(n),
            ],
            Call::Rmsnorm { out, x, w, h, n, eps } => seq![
                Arg::Ptr(out),
                Arg::Ptr(x),
                Arg::Ptr(w),
                Arg::I32(h),
                Arg::I32(n),
                Arg::FBits(eps),
            ],
            Call::FusedResRmsnorm { out, residual, add, w, h, n, eps } => seq![
                Arg::Ptr(out),
                Arg::Ptr(residual),
                Arg::Ptr(add),
                Arg::Ptr(w),
                Arg::I32(h),
                Arg::I32(n),
                Arg::FBits(eps),
            ],
            Call::AddResidual { residual, add, tot } => seq![
                Arg::Ptr(residual),
                Arg::Ptr(residual),
                Arg::Ptr(add),
                Arg::I32(tot),
            ],
            Call::SiluMul { gate, up, tot } => seq![
                Arg::Ptr(gate),
                Arg::Ptr(gate),
                Arg::Ptr(up),
                Arg::I32(tot),
            ],
            Call::SplitQkv { qg, k, v, fused, qrows, kvrows, n } => seq![
                Arg::Ptr(qg),
                Arg::Ptr(k),
                Arg::Ptr(v),
                Arg::Ptr(fused),
                Arg::I32(qrows),
                Arg::I32(kvrows),
                Arg::I32(n),
            ],
            Call::SplitQgate { q, gate, qg, nh, hd, n } => seq![
                Arg::Ptr(q),
                Arg::Ptr(gate),
                Arg::Ptr(qg),
                Arg::I32(nh),
                Arg::I32(hd),
                Arg::I32(n),
            ],
            Call::RmsnormPerhead { x, w, nh, hd, n, eps } => seq![
                Arg::Ptr(x),
                Arg::Ptr(x),
                Arg::Ptr(w),
                Arg::I32(nh),
                Arg::I32(hd),
                Arg::I32(n),
                Arg::FBits(eps),
            ],
            Call::Rope { x, cos, sin, nh, hd, rdim, n } => seq![
                Arg::Ptr(x),
                Arg::Ptr(cos),
                Arg::Ptr(sin),
                Arg::I32(nh),
                Arg::I32(hd),
                Arg::I32(rdim),
                Arg::I32(n),
            ],
            Call::WriteKvPrefill { kc, vc, k, v, stride, nkv, hd, n, pos } => seq![
                Arg::Ptr(kc),
                Arg::Ptr(vc),
                Arg::Ptr(k),
                Arg::Ptr(v),
                Arg::I32(stride),
                Arg::I32(nkv),
                Arg::I32(hd),
                Arg::I32(n),
                Arg::I32(pos),
            ],
            Call::WriteKv { kc, vc, k, v, pos, stride, nkv, hd, n, slots } => seq![
                Arg::Ptr(kc),
                Arg::Ptr(vc),
                Arg::Ptr(k),
                Arg::Ptr(v),
                Arg::Ptr(pos),
                Arg::I32(stride),
                Arg::I32(nkv),
                Arg::I32(hd),
                Arg::I32(n),
                Arg::Ptr(slots),
            ],
            Call::AttnPrefill { attn, q, kc, vc, stride, nh, nkv, hd, n, pos } => seq![
                Arg::Ptr(attn),
                Arg::Ptr(q),
                Arg::Ptr(kc),
                Arg::Ptr(vc),
                Arg::I32(stride),
                Arg::I32(nh),
                Arg::I32(nkv),
                Arg::I32(hd),
                Arg::InvSqrt(hd),
                Arg::I32(n),
                Arg::I32(pos),
            ],
            Call::AttnSplitk {
                pm, pl, pa, q, kc, vc, logical, n, splits, stride, nh, nkv, slots, path, starts, ..
            } => seq![
                Arg::Ptr(pm),
                Arg::Ptr(pl),
                Arg::Ptr(pa),
                Arg::Ptr(q),
                Arg::Ptr(kc),
                Arg::Ptr(vc),
                Arg::Ptr(logical),
                Arg::I32(splitk_word(n, splits, stride)),
                Arg::I32(heads_word(nh, nkv)),
                Arg::Ptr(slots),
                Arg::Ptr(path),
                Arg::Ptr(starts),
            ],
            Call::AttnReduce { attn, pm, pl, pa, logical, splits, n, nh, nkv, .. } => seq![
                Arg::Ptr(attn),
                Arg::Ptr(pm),
                Arg::Ptr(pl),
                Arg::Ptr(pa),
                Arg::Ptr(logical),
                Arg::I32(splits),
                Arg::I32(n),
                Arg::I32(heads_word(nh, nkv)),
            ],
            Call::SigmoidGate { attn, gate, tot } => seq![
                Arg::Ptr(attn),
                Arg::Ptr(gate),
                Arg::I32(tot),
            ],
            Call::SplitGdn {
                qkv, z, b, a, fused, conv_dim, value_dim, nh, n, full_nv, head0,
            } => seq![
                Arg::Ptr(qkv),
                Arg::Ptr(z),
                Arg::Ptr(b),
                Arg::Ptr(a),
                Arg::Ptr(fused),
                Arg::I32(conv_dim),
                Arg::I32(value_dim),
                Arg::I32(nh),
                Arg::I32(n),
                Arg::I32(full_nv),
                Arg::I32(head0),
            ],
            Call::Conv1d { qkv, state, w, conv_dim, ck, n, slots } => seq![
                Arg::Ptr(qkv),
                Arg::Ptr(state),
                Arg::Ptr(w),
                Arg::I32(conv_dim),
                Arg::I32(ck),
                Arg::I32(n),
                Arg::Ptr(slots),
            ],
            Call::DeltaStep {
                core, qkv, state, b, a, nh, nk, kd, vd, a_log, dt_bias, slots, visits, ..
            } => seq![
                Arg::Ptr(core),
                Arg::Ptr(qkv),
                Arg::Ptr(state),
                Arg::Ptr(b),
                Arg::Ptr(a),
                Arg::I32(pair_word(nh, nk)),
                Arg::I32(kd),
                Arg::I32(vd),
                Arg::Ptr(a_log),
                Arg::Ptr(dt_bias),
                Arg::Ptr(slots),
                Arg::Ptr(visits),
            ],
            Call::RmsnormGated { out, x, z, w, vd, nh, n, eps } => seq![
                Arg::Ptr(out),
                Arg::Ptr(x),
                Arg::Ptr(z),
                Arg::Ptr(w),
                Arg::I32(vd),
                Arg::I32(nh),
                Arg::I32(n),
                Arg::FBits(eps),
            ],
            Call::Conv1dPrefill { out, x, state, w, conv_dim, ck, n, mid, winsrc, slots } => seq![
                Arg::Ptr(out),
                Arg::Ptr(x),
                Arg::Ptr(state),
                Arg::Ptr(w),
                Arg::I32(conv_dim),
                Arg::I32(ck),
                Arg::I32(n),
                Arg::Ptr(mid),
                Arg::Ptr(winsrc),
                Arg::Ptr(slots),
            ],
            Call::Conv1dState { state, x, conv_dim, ck, last, len, slots } => seq![
                Arg::Ptr(state),
                Arg::Ptr(x),
                Arg::I32(conv_dim),
                Arg::I32(ck),
                Arg::I32(last),
                Arg::I32(len),
                Arg::Ptr(slots),
            ],
            Call::DeltaPrefill {
                core, qkv, state, b, a, nh, kd, vd, a_log, dt_bias, n, nk, mid, parent,
            } => seq![
                Arg::Ptr(core),
                Arg::Ptr(qkv),
                Arg::Ptr(state),
                Arg::Ptr(b),
                Arg::Ptr(a),
                Arg::I32(nh),
                Arg::I32(pair_word(kd, vd)),
                Arg::Ptr(a_log),
                Arg::Ptr(dt_bias),
                Arg::I32(scan_word(n, nk)),
                Arg::Ptr(mid),
                Arg::Ptr(parent),
            ],
            Call::GemmFp4 { out, w, x, outn, inn, n, acc } => seq![
                Arg::Ptr(out),
                Arg::Ptr(at(Region::Weight(w, Part::Packed))),
                Arg::Ptr(at(Region::Weight(w, Part::Scales))),
                Arg::Ptr(at(Region::Weight(w, Part::TileScale))),
                Arg::Ptr(x),
                Arg::I32(outn),
                Arg::I32(inn),
                Arg::I32(n),
                Arg::Ptr(acc),
            ],
            Call::GemmFp8 { out, w, x, outn, inn, n, acc } => seq![
                Arg::Ptr(out),
                Arg::Ptr(at(Region::Weight(w, Part::Packed))),
                Arg::Ptr(at(Region::Weight(w, Part::RowScale))),
                Arg::Ptr(x),
                Arg::I32(outn),
                Arg::I32(inn),
                Arg::I32(n),
                Arg::Ptr(acc),
            ],
            Call::GemmBinv { out, w, x, outn, inn, n } => seq![
                Arg::Ptr(out),
                Arg::Ptr(at(Region::Weight(w, Part::Packed))),
                Arg::Ptr(x),
                Arg::I32(outn),
                Arg::I32(inn),
                Arg::I32(n),
            ],
            Call::DequantFp4 { out, w, outn, inn } => seq![
                Arg::Ptr(out),
                Arg::Ptr(at(Region::Weight(w, Part::Packed))),
                Arg::Ptr(at(Region::Weight(w, Part::Scales))),
                Arg::Ptr(at(Region::Weight(w, Part::TileScale))),
                Arg::I32(outn),
                Arg::I32(inn),
            ],
            Call::DequantFp8 { out, w, outn, inn } => seq![
                Arg::Ptr(out),
                Arg::Ptr(at(Region::Weight(w, Part::Packed))),
                Arg::Ptr(at(Region::Weight(w, Part::RowScale))),
                Arg::I32(outn),
                Arg::I32(inn),
            ],
            Call::EmbedBf16 { out, toks, h, n } => seq![
                Arg::Ptr(out),
                Arg::Ptr(at(Region::Weight(WeightId::Embed, Part::Packed))),
                Arg::Ptr(toks),
                Arg::I32(h),
                Arg::I32(n),
            ],
            Call::EmbedFp4 { out, toks, h, n } => seq![
                Arg::Ptr(out),
                Arg::Ptr(at(Region::Weight(WeightId::Embed, Part::Packed))),
                Arg::Ptr(at(Region::Weight(WeightId::Embed, Part::Scales))),
                Arg::Ptr(at(Region::Weight(WeightId::Embed, Part::TileScale))),
                Arg::Ptr(toks),
                Arg::I32(h),
                Arg::I32(n),
            ],
            Call::EmbedFp8 { out, toks, h, n } => seq![
                Arg::Ptr(out),
                Arg::Ptr(at(Region::Weight(WeightId::Embed, Part::Packed))),
                Arg::Ptr(at(Region::Weight(WeightId::Embed, Part::RowScale))),
                Arg::Ptr(toks),
                Arg::I32(h),
                Arg::I32(n),
            ],
            Call::Argmax { out, logits, vocab, n } => seq![
                Arg::Ptr(out),
                Arg::Ptr(logits),
                Arg::I32(vocab),
                Arg::I32(n),
            ],
            Call::RepPenalty { logits, tokens, counts, rep, presence, freq, vocab, n } => seq![
                Arg::Ptr(logits),
                Arg::Ptr(tokens),
                Arg::Ptr(counts),
                Arg::I32(64),
                Arg::Ptr(rep),
                Arg::Ptr(presence),
                Arg::Ptr(freq),
                Arg::I32(vocab),
                Arg::I32(n),
            ],
            Call::Sample { out, logits, temps, topk, topp, seeds, vocab, n } => seq![
                Arg::Ptr(out),
                Arg::Ptr(logits),
                Arg::Ptr(temps),
                Arg::Ptr(topk),
                Arg::Ptr(topp),
                Arg::Ptr(seeds),
                Arg::I32(vocab),
                Arg::I32(n),
            ],
            Call::SampleProb { out, prob, logits, temps, topk, topp, seeds, vocab, n } => seq![
                Arg::Ptr(out),
                Arg::Ptr(prob),
                Arg::Ptr(logits),
                Arg::Ptr(temps),
                Arg::Ptr(topk),
                Arg::Ptr(topp),
                Arg::Ptr(seeds),
                Arg::I32(vocab),
                Arg::I32(n),
            ],
            Call::SpecVerify {
                prob, resid, logits, drafts, qprob, temps, topk, topp, seeds, vocab, n,
            } => seq![
                Arg::Ptr(prob),
                Arg::Ptr(resid),
                Arg::Ptr(logits),
                Arg::Ptr(drafts),
                Arg::Ptr(qprob),
                Arg::Ptr(temps),
                Arg::Ptr(topk),
                Arg::Ptr(topp),
                Arg::Ptr(seeds),
                Arg::I32(vocab),
                Arg::I32(n),
            ],
            Call::Nll { out, logits, targets, vocab, n } => seq![
                Arg::Ptr(out),
                Arg::Ptr(logits),
                Arg::Ptr(targets),
                Arg::I32(vocab),
                Arg::I32(n),
            ],
            Call::MoeRouterTopk { ids, wts, logits, ne, k, n } => seq![
                Arg::Ptr(ids),
                Arg::Ptr(wts),
                Arg::Ptr(logits),
                Arg::I32(ne),
                Arg::I32(k),
                Arg::I32(n),
            ],
            Call::MoeExperts { out, x, ids, wts, gate_up, down, h, mi, k, n } => seq![
                Arg::Ptr(out),
                Arg::Ptr(x),
                Arg::Ptr(ids),
                Arg::Ptr(wts),
                Arg::Ptr(at(Region::Weight(gate_up, Part::Packed))),
                Arg::Ptr(at(Region::Weight(down, Part::Packed))),
                Arg::I32(h),
                Arg::I32(mi),
                Arg::I32(k),
                Arg::I32(n),
            ],
            Call::MoeGemm { out, w, x, ids, outn, inn, k, per_slot, e_base, e_span, .. } => seq![
                Arg::Ptr(out),
                Arg::Ptr(at(Region::Weight(w, Part::Packed))),
                Arg::Ptr(at(Region::Weight(w, Part::Scales))),
                Arg::Ptr(at(Region::Weight(w, Part::TileScale))),
                Arg::Ptr(x),
                Arg::Ptr(ids),
                Arg::I32(outn),
                Arg::I32(inn),
                Arg::I32(k),
                Arg::I32(per_slot),
                Arg::I32(e_base),
                Arg::I32(e_span),
            ],
            Call::MoeSilu { out, x, mi, rows } => seq![
                Arg::Ptr(out),
                Arg::Ptr(x),
                Arg::I32(mi),
                Arg::I32(rows),
            ],
            Call::MoeCombine { out, x, wts, h, k, n } => seq![
                Arg::Ptr(out),
                Arg::Ptr(x),
                Arg::Ptr(wts),
                Arg::I32(h),
                Arg::I32(k),
                Arg::I32(n),
            ],
            Call::MoeCount { count, ids, pairs, lo, hi } => seq![
                Arg::Ptr(count),
                Arg::Ptr(ids),
                Arg::I32(pairs),
                Arg::I32(lo),
                Arg::I32(hi),
            ],
            Call::MoeOffsets { poff, cursor, count, ne } => seq![
                Arg::Ptr(poff),
                Arg::Ptr(cursor),
                Arg::Ptr(count),
                Arg::I32(ne),
            ],
            Call::MoeScatter { perm, wt, inv, cursor, ids, wts, pairs, k, lo, hi } => seq![
                Arg::Ptr(perm),
                Arg::Ptr(wt),
                Arg::Ptr(inv),
                Arg::Ptr(cursor),
                Arg::Ptr(ids),
                Arg::Ptr(wts),
                Arg::I32(pairs),
                Arg::I32(k),
                Arg::I32(lo),
                Arg::I32(hi),
            ],
            Call::MoeTilemap { tile, poff, ne } => seq![
                Arg::Ptr(tile),
                Arg::Ptr(poff),
                Arg::I32(ne),
            ],
            Call::MoeGatherX { out, x, perm, h, rows } => seq![
                Arg::Ptr(out),
                Arg::Ptr(x),
                Arg::Ptr(perm),
                Arg::I32(h),
                Arg::I32(rows),
            ],
            Call::MoeGrouped { out, w, x, tile, outn, inn, e_base, .. } => seq![
                Arg::Ptr(out),
                Arg::Ptr(at(Region::Weight(w, Part::Packed))),
                Arg::Ptr(at(Region::Weight(w, Part::Scales))),
                Arg::Ptr(at(Region::Weight(w, Part::TileScale))),
                Arg::Ptr(x),
                Arg::Ptr(tile),
                Arg::I32(outn),
                Arg::I32(inn),
                Arg::I32(e_base),
            ],
            Call::MoeCombineGrouped { out, x, wt, inv, h, k, n } => seq![
                Arg::Ptr(out),
                Arg::Ptr(x),
                Arg::Ptr(wt),
                Arg::Ptr(inv),
                Arg::I32(h),
                Arg::I32(k),
                Arg::I32(n),
            ],
            Call::MoeSharedCombine { out, shared, gate, h, n } => seq![
                Arg::Ptr(out),
                Arg::Ptr(shared),
                Arg::Ptr(gate),
                Arg::I32(h),
                Arg::I32(n),
            ],
            Call::Concat { out, first, second, h, n } => seq![
                Arg::Ptr(out),
                Arg::Ptr(first),
                Arg::Ptr(second),
                Arg::I32(h),
                Arg::I32(n),
            ],
            Call::TpSignal { src, bytes } => seq![
                Arg::Ptr(at(Region::TpContext)),
                Arg::Ptr(src),
                Arg::I32(bytes),
            ],
            Call::TpWaitAdd { out, src, elems, fp32 } => seq![
                Arg::Ptr(at(Region::TpContext)),
                Arg::Ptr(out),
                Arg::Ptr(src),
                Arg::I32(elems),
                Arg::I32(fp32),
            ],
            Call::CompactKv { kc, vc, ks, vs, src, len, pos, slot, nkv, stride, hd, dir } => seq![
                Arg::Ptr(kc),
                Arg::Ptr(vc),
                Arg::Ptr(ks),
                Arg::Ptr(vs),
                Arg::Ptr(src),
                Arg::I32(len),
                Arg::I32(pos),
                Arg::I32(slot),
                Arg::I32(nkv),
                Arg::I32(stride),
                Arg::I32(hd),
                Arg::I32(dir),
            ],
            Call::AttnTileInit { o, m, l, br, hd, nh } => seq![
                Arg::Ptr(o),
                Arg::Ptr(m),
                Arg::Ptr(l),
                Arg::I32(br),
                Arg::I32(hd),
                Arg::I32(nh),
            ],
            Call::AttnSoftmaxTile {
                s, p, o, m, l, br, bc, hd, nh, gqa, r, rows, qpos, s0, pc, ..
            } => seq![
                Arg::Ptr(s),
                Arg::Ptr(p),
                Arg::Ptr(o),
                Arg::Ptr(m),
                Arg::Ptr(l),
                Arg::I32(br),
                Arg::I32(bc),
                Arg::I32(hd),
                Arg::I32(tile_heads_word(nh, gqa, r)),
                Arg::I32(rows),
                Arg::I32(qpos),
                Arg::I64(keys_word(s0, pc)),
            ],
            Call::AttnFinalize { attn, o, l, br, hd, nh, t0, n } => seq![
                Arg::Ptr(attn),
                Arg::Ptr(o),
                Arg::Ptr(l),
                Arg::I32(br),
                Arg::I32(hd),
                Arg::I32(nh),
                Arg::I32(t0),
                Arg::I32(n),
            ],
        }
    }

    /// Every count is non-negative.
    pub open spec fn counts_ok(&self) -> bool {
        match *self {
            Call::GatherRope { rdim, n, .. } => rdim >= 0 && n >= 0,
            Call::Rmsnorm { h, n, .. } => h >= 0 && n >= 0,
            Call::FusedResRmsnorm { h, n, .. } => h >= 0 && n >= 0,
            Call::AddResidual { tot, .. } => tot >= 0,
            Call::SiluMul { tot, .. } => tot >= 0,
            Call::SplitQkv { qrows, kvrows, n, .. } => qrows >= 0 && kvrows >= 0 && n >= 0,
            Call::SplitQgate { nh, hd, n, .. } => nh >= 0 && hd >= 0 && n >= 0,
            Call::RmsnormPerhead { nh, hd, n, .. } => nh >= 0 && hd >= 0 && n >= 0,
            Call::Rope { nh, hd, rdim, n, .. } => nh >= 0 && hd >= 0 && rdim >= 0 && n >= 0,
            Call::WriteKvPrefill { stride, nkv, hd, n, pos, .. } => stride >= 0 && nkv >= 0
                && hd >= 0 && n >= 0 && pos >= 0,
            Call::WriteKv { stride, nkv, hd, n, .. } => stride >= 0 && nkv >= 0 && hd >= 0 && n >= 0,
            Call::AttnPrefill { stride, nh, nkv, hd, n, pos, .. } => stride >= 0 && nh >= 0
                && nkv >= 0 && hd >= 0 && n >= 0 && pos >= 0,
            Call::AttnSplitk { n, splits, stride, nh, nkv, hd, .. } => n >= 0 && splits >= 0
                && stride >= 0 && nh >= 0 && nkv >= 0 && hd >= 0,
            Call::AttnReduce { splits, n, nh, nkv, hd, .. } => splits >= 0 && n >= 0 && nh >= 0
                && nkv >= 0 && hd >= 0,
            Call::SigmoidGate { tot, .. } => tot >= 0,
            Call::SplitGdn { conv_dim, value_dim, nh, n, full_nv, head0, .. } => conv_dim >= 0
                && value_dim >= 0 && nh >= 0 && n >= 0 && full_nv >= 0 && head0 >= 0,
            Call::Conv1d { conv_dim, ck, n, .. } => conv_dim >= 0 && ck >= 0 && n >= 0,
            Call::DeltaStep { nh, nk, kd, vd, n, .. } => nh >= 0 && nk >= 0 && kd >= 0 && vd >= 0
                && n >= 0,
            Call::RmsnormGated { vd, nh, n, .. } => vd >= 0 && nh >= 0 && n >= 0,
            Call::Conv1dPrefill { conv_dim, ck, n, .. } => conv_dim >= 0 && ck >= 0 && n >= 0,
            Call::Conv1dState { conv_dim, ck, last, len, .. } => conv_dim >= 0 && ck >= 0
                && last >= 0 && len >= 0,
            Call::DeltaPrefill { nh, kd, vd, n, nk, .. } => nh >= 0 && kd >= 0 && vd >= 0 && n >= 0
                && nk >= 0,
            Call::GemmFp4 { outn, inn, n, .. } => outn >= 0 && inn >= 0 && n >= 0,
            Call::GemmFp8 { outn, inn, n, .. } => outn >= 0 && inn >= 0 && n >= 0,
            Call::GemmBinv { outn, inn, n, .. } => outn >= 0 && inn >= 0 && n >= 0,
            Call::DequantFp4 { outn, inn, .. } => outn >= 0 && inn >= 0,
            Call::DequantFp8 { outn, inn, .. } => outn >= 0 && inn >= 0,
            Call::EmbedBf16 { h, n, .. } => h >= 0 && n >= 0,
            Call::EmbedFp4 { h, n, .. } => h >= 0 && n >= 0,
            Call::EmbedFp8 { h, n, .. } => h >= 0 && n >= 0,
            Call::Argmax { vocab, n, .. } => vocab >= 0 && n >= 0,
            Call::RepPenalty { vocab, n, .. } => vocab >= 0 && n >= 0,
            Call::Sample { vocab, n, .. } => vocab >= 0 && n >= 0,
            Call::SampleProb { vocab, n, .. } => vocab >= 0 && n >= 0,
            Call::SpecVerify { vocab, n, .. } => vocab >= 0 && n >= 0,
            Call::Nll { vocab, n, .. } => vocab >= 0 && n >= 0,
            Call::MoeRouterTopk { ne, k, n, .. } => ne >= 0 && k >= 0 && n >= 0,
            Call::MoeExperts { h, mi, k, n, .. } => h >= 0 && mi >= 0 && k >= 0 && n >= 0,
            Call::MoeGemm { outn, inn, k, per_slot, e_base, e_span, pairs, .. } => outn >= 0
                && inn >= 0 && k >= 0 && per_slot >= 0 && e_base >= 0 && e_span >= 0 && pairs >= 0,
            Call::MoeSilu { mi, rows, .. } => mi >= 0 && rows >= 0,
            Call::MoeCombine { h, k, n, .. } => h >= 0 && k >= 0 && n >= 0,
            Call::MoeCount { pairs, lo, hi, .. } => pairs >= 0 && lo >= 0 && hi >= 0,
            Call::MoeOffsets { ne, .. } => ne >= 0,
            Call::MoeScatter { pairs, k, lo, hi, .. } => pairs >= 0 && k >= 0 && lo >= 0 && hi >= 0,
            Call::MoeTilemap { ne, .. } => ne >= 0,
            Call::MoeGatherX { h, rows, .. } => h >= 0 && rows >= 0,
            Call::MoeGrouped { outn, inn, e_base, groups, .. } => outn >= 0 && inn >= 0
                && e_base >= 0 && groups >= 0,
            Call::MoeCombineGrouped { h, k, n, .. } => h >= 0 && k >= 0 && n >= 0,
            Call::MoeSharedCombine { h, n, .. } => h >= 0 && n >= 0,
            Call::Concat { h, n, .. } => h >= 0 && n >= 0,
            Call::TpSignal { bytes, .. } => bytes >= 0,
            Call::TpWaitAdd { elems, fp32, .. } => elems >= 0 && fp32 >= 0,
            Call::CompactKv { len, pos, slot, nkv, stride, hd, dir, .. } => len >= 0 && pos >= 0
                && slot >= 0 && nkv >= 0 && stride >= 0 && hd >= 0 && dir >= 0,
            Call::AttnTileInit { br, hd, nh, .. } => br >= 0 && hd >= 0 && nh >= 0,
            Call::AttnSoftmaxTile { br, bc, hd, nh, gqa, r, rows, qpos, s0, pc, nkv, .. } => br >= 0
                && bc >= 0 && hd >= 0 && nh >= 0 && gqa >= 0 && r >= 0 && rows >= 0 && qpos >= 0
                && s0 >= 0 && pc >= 0 && nkv >= 0,
            Call::AttnFinalize { br, hd, nh, t0, n, .. } => br >= 0 && hd >= 0 && nh >= 0 && t0 >= 0
                && n >= 0,
        }
    }

    /// The launch fits the device's limits on grid, block and shared memory.
    pub open spec fn launchable(&self) -> bool {
        &&& self.counts_ok()
        &&& self.spec_grid().0 <= u32::MAX
        &&& self.spec_grid().1 <= u32::MAX
        &&& self.spec_grid().2 <= u32::MAX
        &&& self.spec_block().0 <= u32::MAX
        &&& self.spec_smem() <= u32::MAX
    }

    /// Grid, block and shared memory of the launch.
    pub fn geometry(&self) -> (g: ((u32, u32, u32), (u32, u32, u32), u32))
        requires
            self.launchable(),
        ensures
            g.0.0 == self.spec_grid().0,
            g.0.1 == self.spec_grid().1,
            g.0.2 == self.spec_grid().2,
            g.1.0 == self.spec_block().0,
            g.1.1 == self.spec_block().1,
            g.1.2 == self.spec_block().2,
            g.2 == self.spec_smem(),
    {
        match *self {
            Call::GatherRope { rdim, n, .. } => (
                (cover(rdim as u64, n as u64, 1), 1, 1),
                (256, 1, 1),
                0,
            ),
            Call::Rmsnorm { n, .. } => ((product(n as u64, 1, 1) as u32, 1, 1), (1024, 1, 1), 4096),
            Call::FusedResRmsnorm { n, .. } => (
                (product(n as u64, 1, 1) as u32, 1, 1),
                (1024, 1, 1),
                4096,
            ),
            Call::AddResidual { tot, .. } => ((cover(tot as u64, 1, 1), 1, 1), (256, 1, 1), 0),
            Call::SiluMul { tot, .. } => ((cover(tot as u64, 1, 1), 1, 1), (256, 1, 1), 0),
            Call::SplitQkv { qrows, kvrows, n, .. } => (
                (cover(((qrows as u64) + 2 * (kvrows as u64)), n as u64, 1), 1, 1),
                (256, 1, 1),
                0,
            ),
            Call::SplitQgate { nh, hd, n, .. } => (
                (cover(nh as u64, hd as u64, n as u64), 1, 1),
                (256, 1, 1),
                0,
            ),
            Call::RmsnormPerhead { nh, hd, n, .. } => (
                (product(n as u64, nh as u64, 1) as u32, 1, 1),
                (hd as u32, 1, 1),
                (4 * (hd as u64)) as u32,
            ),
            Call::Rope { nh, rdim, n, .. } => (
                (cover(n as u64, nh as u64, ((rdim as u64) / 2)), 1, 1),
                (256, 1, 1),
                0,
            ),
            Call::WriteKvPrefill { nkv, hd, n, .. } => (
                (cover(n as u64, nkv as u64, hd as u64), 1, 1),
                (256, 1, 1),
                0,
            ),
            Call::WriteKv { nkv, hd, n, .. } => (
                (cover(n as u64, nkv as u64, hd as u64), 1, 1),
                (256, 1, 1),
                0,
            ),
            Call::AttnPrefill { nh, hd, n, .. } => (
                (product((((n as u64) + 7) / 8), nh as u64, 1) as u32, 1, 1),
                (hd as u32, 1, 1),
                0,
            ),
            Call::AttnSplitk { n, splits, nh, hd, .. } => (
                (product(n as u64, nh as u64, splits as u64) as u32, 1, 1),
                (hd as u32, 1, 1),
                attn_smem(hd as u64),
            ),
            Call::AttnReduce { n, nh, hd, .. } => (
                (product(n as u64, nh as u64, 1) as u32, 1, 1),
                (hd as u32, 1, 1),
                0,
            ),
            Call::SigmoidGate { tot, .. } => ((cover(tot as u64, 1, 1), 1, 1), (256, 1, 1), 0),
            Call::SplitGdn { conv_dim, value_dim, n, full_nv, .. } => (
                (cover(((conv_dim as u64) + (value_dim as u64) + 2 * (full_nv as u64)), n as u64, 1), 1, 1),
                (256, 1, 1),
                0,
            ),
            Call::Conv1d { conv_dim, n, .. } => (
                (cover(n as u64, conv_dim as u64, 1), 1, 1),
                (256, 1, 1),
                0,
            ),
            Call::DeltaStep { nh, kd, vd, n, .. } => (
                (product(n as u64, nh as u64, ((vd as u64) / 32)) as u32, 1, 1),
                (kd as u32, 1, 1),
                (4 * ((kd as u64) * 33 + (kd as u64) + 96 + 2 * (kd as u64))) as u32,
            ),
            Call::RmsnormGated { vd, nh, n, .. } => (
                (product(n as u64, nh as u64, 1) as u32, 1, 1),
                (vd as u32, 1, 1),
                (4 * (vd as u64)) as u32,
            ),
            Call::Conv1dPrefill { conv_dim, n, .. } => (
                (cover(conv_dim as u64, n as u64, 1), 1, 1),
                (256, 1, 1),
                0,
            ),
            Call::Conv1dState { conv_dim, .. } => (
                (cover(conv_dim as u64, 1, 1), 1, 1),
                (256, 1, 1),
                0,
            ),
            Call::DeltaPrefill { nh, kd, vd, .. } => (
                (product(nh as u64, ((vd as u64) / 32), 1) as u32, 1, 1),
                (kd as u32, 1, 1),
                (4 * ((kd as u64) * 33 + (kd as u64) + 96 + 2 * (kd as u64))) as u32,
            ),
            Call::GemmFp4 { outn, .. } => (
                (product(((outn as u64) / 16), 1, 1) as u32, 1, 1),
                (256, 1, 1),
                0,
            ),
            Call::GemmFp8 { outn, .. } => (
                (product(((outn as u64) / 16), 1, 1) as u32, 1, 1),
                (256, 1, 1),
                0,
            ),
            Call::GemmBinv { outn, n, .. } => (
                (product(outn as u64, 1, 1) as u32, 1, 1),
                (256, 1, 1),
                (4 * ((n as u64) * 256)) as u32,
            ),
            Call::DequantFp4 { outn, inn, .. } => (
                (cover(inn as u64, outn as u64, 1), 1, 1),
                (256, 1, 1),
                0,
            ),
            Call::DequantFp8 { outn, inn, .. } => (
                (cover(inn as u64, outn as u64, 1), 1, 1),
                (256, 1, 1),
                0,
            ),
            Call::EmbedBf16 { h, n, .. } => ((cover(h as u64, n as u64, 1), 1, 1), (256, 1, 1), 0),
            Call::EmbedFp4 { h, n, .. } => ((cover(h as u64, n as u64, 1), 1, 1), (256, 1, 1), 0),
            Call::EmbedFp8 { h, n, .. } => ((cover(h as u64, n as u64, 1), 1, 1), (256, 1, 1), 0),
            Call::Argmax { n, .. } => ((product(n as u64, 1, 1) as u32, 1, 1), (1024, 1, 1), 8192),
            Call::RepPenalty { n, .. } => ((product(n as u64, 1, 1) as u32, 1, 1), (256, 1, 1), 0),
            Call::Sample { n, .. } => ((product(n as u64, 1, 1) as u32, 1, 1), (256, 1, 1), 2560),
            Call::SampleProb { n, .. } => (
                (product(n as u64, 1, 1) as u32, 1, 1),
                (256, 1, 1),
                2560,
            ),
            Call::SpecVerify { n, .. } => (
                (product(n as u64, 1, 1) as u32, 1, 1),
                (256, 1, 1),
                2560,
            ),
            Call::Nll { n, .. } => ((product(n as u64, 1, 1) as u32, 1, 1), (1024, 1, 1), 4096),
            Call::MoeRouterTopk { ne, n, .. } => (
                (product(n as u64, 1, 1) as u32, 1, 1),
                (256, 1, 1),
                (4 * (ne as u64)) as u32,
            ),
            Call::MoeExperts { h, mi, n, .. } => (
                (product(n as u64, 1, 1) as u32, 1, 1),
                (256, 1, 1),
                (4 * (2 * (mi as u64) + (mi as u64) + (h as u64))) as u32,
            ),
            Call::MoeGemm { outn, pairs, .. } => (
                (product(((outn as u64) / 16), 1, 1) as u32, product(pairs as u64, 1, 1) as u32, 1),
                (256, 1, 1),
                0,
            ),
            Call::MoeSilu { mi, rows, .. } => (
                (cover(rows as u64, mi as u64, 1), 1, 1),
                (256, 1, 1),
                0,
            ),
            Call::MoeCombine { h, n, .. } => ((cover(n as u64, h as u64, 1), 1, 1), (256, 1, 1), 0),
            Call::MoeCount { pairs, .. } => ((cover(pairs as u64, 1, 1), 1, 1), (256, 1, 1), 0),
            Call::MoeOffsets { .. } => ((1, 1, 1), (32, 1, 1), 0),
            Call::MoeScatter { pairs, .. } => ((cover(pairs as u64, 1, 1), 1, 1), (256, 1, 1), 0),
            Call::MoeTilemap { ne, .. } => ((cover(ne as u64, 1, 1), 1, 1), (256, 1, 1), 0),
            Call::MoeGatherX { h, rows, .. } => (
                (cover(rows as u64, h as u64, 1), 1, 1),
                (256, 1, 1),
                0,
            ),
            Call::MoeGrouped { outn, groups, .. } => (
                (product(((outn as u64) / 16), 1, 1) as u32, product(groups as u64, 1, 1) as u32, 1),
                (256, 1, 1),
                0,
            ),
            Call::MoeCombineGrouped { h, n, .. } => (
                (cover(n as u64, h as u64, 1), 1, 1),
                (256, 1, 1),
                0,
            ),
            Call::MoeSharedCombine { h, n, .. } => (
                (cover(h as u64, n as u64, 1), 1, 1),
                (256, 1, 1),
                0,
            ),
            Call::Concat { h, n, .. } => ((cover(2, h as u64, n as u64), 1, 1), (256, 1, 1), 0),
            Call::TpSignal { .. } => ((1, 1, 1), (512, 1, 1), 0),
            Call::TpWaitAdd { .. } => ((1, 1, 1), (512, 1, 1), 0),
            Call::CompactKv { len, nkv, hd, .. } => (
                (cover(len as u64, nkv as u64, hd as u64), 1, 1),
                (256, 1, 1),
                0,
            ),
            Call::AttnTileInit { br, hd, nh, .. } => (
                (cover(nh as u64, br as u64, hd as u64), 1, 1),
                (256, 1, 1),
                0,
            ),
            Call::AttnSoftmaxTile { br, nkv, .. } => (
                (product(br as u64, 1, 1) as u32, product(nkv as u64, 1, 1) as u32, 1),
                (256, 1, 1),
                1024,
            ),
            Call::AttnFinalize { br, nh, .. } => (
                (product((((br as u64) + 31) / 32), 1, 1) as u32, product(nh as u64, 1, 1) as u32, 1),
                (32, 8, 1),
                0,
            ),
        }
    }

    /// The arguments, in order.
    pub fn args(&self) -> (v: Vec<Arg>)
        requires
            self.counts_ok(),
        ensures
            v@ == self.spec_args(),
    {
        let v: Vec<Arg> = match *self {
            Call::GatherRope { cos, sin, pos, rdim, n } => vec![
                Arg::Ptr(cos),
                Arg::Ptr(sin),
                Arg::Ptr(Ptr { region: Region::CosTable, offset: 0 }),
                Arg::Ptr(Ptr { region: Region::SinTable, offset: 0 }),
                Arg::Ptr(pos),
                Arg::I32(rdim),
                Arg::I32(n),
            ],
            Call::Rmsnorm { out, x, w, h, n, eps } => vec![
                Arg::Ptr(out),
                Arg::Ptr(x),
                Arg::Ptr(w),
                Arg::I32(h),
                Arg::I32(n),
                Arg::FBits(eps),
            ],
            Call::FusedResRmsnorm { out, residual, add, w, h, n, eps } => vec![
                Arg::Ptr(out),
                Arg::Ptr(residual),
                Arg::Ptr(add),
                Arg::Ptr(w),
                Arg::I32(h),
                Arg::I32(n),
                Arg::FBits(eps),
            ],
            Call::AddResidual { residual, add, tot } => vec![
                Arg::Ptr(residual),
                Arg::Ptr(residual),
                Arg::Ptr(add),
                Arg::I32(tot),
            ],
            Call::SiluMul { gate, up, tot } => vec![
                Arg::Ptr(gate),
                Arg::Ptr(gate),
                Arg::Ptr(up),
                Arg::I32(tot),
            ],
            Call::SplitQkv { qg, k, v, fused, qrows, kvrows, n } => vec![
                Arg::Ptr(qg),
                Arg::Ptr(k),
                Arg::Ptr(v),
                Arg::Ptr(fused),
                Arg::I32(qrows),
                Arg::I32(kvrows),
                Arg::I32(n),
            ],
            Call::SplitQgate { q, gate, qg, nh, hd, n } => vec![
                Arg::Ptr(q),
                Arg::Ptr(gate),
                Arg::Ptr(qg),
                Arg::I32(nh),
                Arg::I32(hd),
                Arg::I32(n),
            ],
            Call::RmsnormPerhead { x, w, nh, hd, n, eps } => vec![
                Arg::Ptr(x),
                Arg::Ptr(x),
                Arg::Ptr(w),
                Arg::I32(nh),
                Arg::I32(hd),
                Arg::I32(n),
                Arg::FBits(eps),
            ],
            Call::Rope { x, cos, sin, nh, hd, rdim, n } => vec![
                Arg::Ptr(x),
                Arg::Ptr(cos),
                Arg::Ptr(sin),
                Arg::I32(nh),
                Arg::I32(hd),
                Arg::I32(rdim),
                Arg::I32(n),
            ],
            Call::WriteKvPrefill { kc, vc, k, v, stride, nkv, hd, n, pos } => vec![
                Arg::Ptr(kc),
                Arg::Ptr(vc),
                Arg::Ptr(k),
                Arg::Ptr(v),
                Arg::I32(stride),
                Arg::I32(nkv),
                Arg::I32(hd),
                Arg::I32(n),
                Arg::I32(pos),
            ],
            Call::WriteKv { kc, vc, k, v, pos, stride, nkv, hd, n, slots } => vec![
                Arg::Ptr(kc),
                Arg::Ptr(vc),
                Arg::Ptr(k),
                Arg::Ptr(v),
                Arg::Ptr(pos),
                Arg::I32(stride),
                Arg::I32(nkv),
                Arg::I32(hd),
                Arg::I32(n),
                Arg::Ptr(slots),
            ],
            Call::AttnPrefill { attn, q, kc, vc, stride, nh, nkv, hd, n, pos } => vec![
                Arg::Ptr(attn),
                Arg::Ptr(q),
                Arg::Ptr(kc),
                Arg::Ptr(vc),
                Arg::I32(stride),
                Arg::I32(nh),
                Arg::I32(nkv),
                Arg::I32(hd),
                Arg::InvSqrt(hd),
                Arg::I32(n),
                Arg::I32(pos),
            ],
            Call::AttnSplitk {
                pm, pl, pa, q, kc, vc, logical, n, splits, stride, nh, nkv, slots, path, starts, ..
            } => vec![
                Arg::Ptr(pm),
                Arg::Ptr(pl),
                Arg::Ptr(pa),
                Arg::Ptr(q),
                Arg::Ptr(kc),
                Arg::Ptr(vc),
                Arg::Ptr(logical),
                Arg::I32(pack_splitk_word(n, splits, stride)),
                Arg::I32(pack_heads_word(nh, nkv)),
                Arg::Ptr(slots),
                Arg::Ptr(path),
                Arg::Ptr(starts),
            ],
            Call::AttnReduce { attn, pm, pl, pa, logical, splits, n, nh, nkv, .. } => vec![
                Arg::Ptr(attn),
                Arg::Ptr(pm),
                Arg::Ptr(pl),
                Arg::Ptr(pa),
                Arg::Ptr(logical),
                Arg::I32(splits),
                Arg::I32(n),
                Arg::I32(pack_heads_word(nh, nkv)),
            ],
            Call::SigmoidGate { attn, gate, tot } => vec![
                Arg::Ptr(attn),
                Arg::Ptr(gate),
                Arg::I32(tot),
            ],
            Call::SplitGdn {
                qkv, z, b, a, fused, conv_dim, value_dim, nh, n, full_nv, head0,
            } => vec![
                Arg::Ptr(qkv),
                Arg::Ptr(z),
                Arg::Ptr(b),
                Arg::Ptr(a),
                Arg::Ptr(fused),
                Arg::I32(conv_dim),
                Arg::I32(value_dim),
                Arg::I32(nh),
                Arg::I32(n),
                Arg::I32(full_nv),
                Arg::I32(head0),
            ],
            Call::Conv1d { qkv, state, w, conv_dim, ck, n, slots } => vec![
                Arg::Ptr(qkv),
                Arg::Ptr(state),
                Arg::Ptr(w),
                Arg::I32(conv_dim),
                Arg::I32(ck),
                Arg::I32(n),
                Arg::Ptr(slots),
            ],
            Call::DeltaStep {
                core, qkv, state, b, a, nh, nk, kd, vd, a_log, dt_bias, slots, visits, ..
            } => vec![
                Arg::Ptr(core),
                Arg::Ptr(qkv),
                Arg::Ptr(state),
                Arg::Ptr(b),
                Arg::Ptr(a),
                Arg::I32(pack_pair_word(nh, nk)),
                Arg::I32(kd),
                Arg::I32(vd),
                Arg::Ptr(a_log),
                Arg::Ptr(dt_bias),
                Arg::Ptr(slots),
                Arg::Ptr(visits),
            ],
            Call::RmsnormGated { out, x, z, w, vd, nh, n, eps } => vec![
                Arg::Ptr(out),
                Arg::Ptr(x),
                Arg::Ptr(z),
                Arg::Ptr(w),
                Arg::I32(vd),
                Arg::I32(nh),
                Arg::I32(n),
                Arg::FBits(eps),
            ],
            Call::Conv1dPrefill { out, x, state, w, conv_dim, ck, n, mid, winsrc, slots } => vec![
                Arg::Ptr(out),
                Arg::Ptr(x),
                Arg::Ptr(state),
                Arg::Ptr(w),
                Arg::I32(conv_dim),
                Arg::I32(ck),
                Arg::I32(n),
                Arg::Ptr(mid),
                Arg::Ptr(winsrc),
                Arg::Ptr(slots),
            ],
            Call::Conv1dState { state, x, conv_dim, ck, last, len, slots } => vec![
                Arg::Ptr(state),
                Arg::Ptr(x),
                Arg::I32(conv_dim),
                Arg::I32(ck),
                Arg::I32(last),
                Arg::I32(len),
                Arg::Ptr(slots),
            ],
            Call::DeltaPrefill {
                core, qkv, state, b, a, nh, kd, vd, a_log, dt_bias, n, nk, mid, parent,
            } => vec![
                Arg::Ptr(core),
                Arg::Ptr(qkv),
                Arg::Ptr(state),
                Arg::Ptr(b),
                Arg::Ptr(a),
                Arg::I32(nh),
                Arg::I32(pack_pair_word(kd, vd)),
                Arg::Ptr(a_log),
                Arg::Ptr(dt_bias),
                Arg::I32(pack_scan_word(n, nk)),
                Arg::Ptr(mid),
                Arg::Ptr(parent),
            ],
            Call::GemmFp4 { out, w, x, outn, inn, n, acc } => vec![
                Arg::Ptr(out),
                Arg::Ptr(Ptr { region: Region::Weight(w, Part::Packed), offset: 0 }),
                Arg::Ptr(Ptr { region: Region::Weight(w, Part::Scales), offset: 0 }),
                Arg::Ptr(Ptr { region: Region::Weight(w, Part::TileScale), offset: 0 }),
                Arg::Ptr(x),
                Arg::I32(outn),
                Arg::I32(inn),
                Arg::I32(n),
                Arg::Ptr(acc),
            ],
            Call::GemmFp8 { out, w, x, outn, inn, n, acc } => vec![
                Arg::Ptr(out),
                Arg::Ptr(Ptr { region: Region::Weight(w, Part::Packed), offset: 0 }),
                Arg::Ptr(Ptr { region: Region::Weight(w, Part::RowScale), offset: 0 }),
                Arg::Ptr(x),
                Arg::I32(outn),
                Arg::I32(inn),
                Arg::I32(n),
                Arg::Ptr(acc),
            ],
            Call::GemmBinv { out, w, x, outn, inn, n } => vec![
                Arg::Ptr(out),
                Arg::Ptr(Ptr { region: Region::Weight(w, Part::Packed), offset: 0 }),
                Arg::Ptr(x),
                Arg::I32(outn),
                Arg::I32(inn),
                Arg::I32(n),
            ],
            Call::DequantFp4 { out, w, outn, inn } => vec![
                Arg::Ptr(out),
                Arg::Ptr(Ptr { region: Region::Weight(w, Part::Packed), offset: 0 }),
                Arg::Ptr(Ptr { region: Region::Weight(w, Part::Scales), offset: 0 }),
                Arg::Ptr(Ptr { region: Region::Weight(w, Part::TileScale), offset: 0 }),
                Arg::I32(outn),
                Arg::I32(inn),
            ],
            Call::DequantFp8 { out, w, outn, inn } => vec![
                Arg::Ptr(out),
                Arg::Ptr(Ptr { region: Region::Weight(w, Part::Packed), offset: 0 }),
                Arg::Ptr(Ptr { region: Region::Weight(w, Part::RowScale), offset: 0 }),
                Arg::I32(outn),
                Arg::I32(inn),
            ],
            Call::EmbedBf16 { out, toks, h, n } => vec![
                Arg::Ptr(out),
                Arg::Ptr(Ptr { region: Region::Weight(WeightId::Embed, Part::Packed), offset: 0 }),
                Arg::Ptr(toks),
                Arg::I32(h),
                Arg::I32(n),
            ],
            Call::EmbedFp4 { out, toks, h, n } => vec![
                Arg::Ptr(out),
                Arg::Ptr(Ptr { region: Region::Weight(WeightId::Embed, Part::Packed), offset: 0 }),
                Arg::Ptr(Ptr { region: Region::Weight(WeightId::Embed, Part::Scales), offset: 0 }),
                Arg::Ptr(Ptr { region: Region::Weight(WeightId::Embed, Part::TileScale), offset: 0 }),
                Arg::Ptr(toks),
                Arg::I32(h),
                Arg::I32(n),
            ],
            Call::EmbedFp8 { out, toks, h, n } => vec![
                Arg::Ptr(out),
                Arg::Ptr(Ptr { region: Region::Weight(WeightId::Embed, Part::Packed), offset: 0 }),
                Arg::Ptr(Ptr { region: Region::Weight(WeightId::Embed, Part::RowScale), offset: 0 }),
                Arg::Ptr(toks),
                Arg::I32(h),
                Arg::I32(n),
            ],
            Call::Argmax { out, logits, vocab, n } => vec![
                Arg::Ptr(out),
                Arg::Ptr(logits),
                Arg::I32(vocab),
                Arg::I32(n),
            ],
            Call::RepPenalty { logits, tokens, counts, rep, presence, freq, vocab, n } => vec![
                Arg::Ptr(logits),
                Arg::Ptr(tokens),
                Arg::Ptr(counts),
                Arg::I32(64),
                Arg::Ptr(rep),
                Arg::Ptr(presence),
                Arg::Ptr(freq),
                Arg::I32(vocab),
                Arg::I32(n),
            ],
            Call::Sample { out, logits, temps, topk, topp, seeds, vocab, n } => vec![
                Arg::Ptr(out),
                Arg::Ptr(logits),
                Arg::Ptr(temps),
                Arg::Ptr(topk),
                Arg::Ptr(topp),
                Arg::Ptr(seeds),
                Arg::I32(vocab),
                Arg::I32(n),
            ],
            Call::SampleProb { out, prob, logits, temps, topk, topp, seeds, vocab, n } => vec![
                Arg::Ptr(out),
                Arg::Ptr(prob),
                Arg::Ptr(logits),
                Arg::Ptr(temps),
                Arg::Ptr(topk),
                Arg::Ptr(topp),
                Arg::Ptr(seeds),
                Arg::I32(vocab),
                Arg::I32(n),
            ],
            Call::SpecVerify {
                prob, resid, logits, drafts, qprob, temps, topk, topp, seeds, vocab, n,
            } => vec![
                Arg::Ptr(prob),
                Arg::Ptr(resid),
                Arg::Ptr(logits),
                Arg::Ptr(drafts),
                Arg::Ptr(qprob),
                Arg::Ptr(temps),
                Arg::Ptr(topk),
                Arg::Ptr(topp),
                Arg::Ptr(seeds),
                Arg::I32(vocab),
                Arg::I32(n),
            ],
            Call::Nll { out, logits, targets, vocab, n } => vec![
                Arg::Ptr(out),
                Arg::Ptr(logits),
                Arg::Ptr(targets),
                Arg::I32(vocab),
                Arg::I32(n),
            ],
            Call::MoeRouterTopk { ids, wts, logits, ne, k, n } => vec![
                Arg::Ptr(ids),
                Arg::Ptr(wts),
                Arg::Ptr(logits),
                Arg::I32(ne),
                Arg::I32(k),
                Arg::I32(n),
            ],
            Call::MoeExperts { out, x, ids, wts, gate_up, down, h, mi, k, n } => vec![
                Arg::Ptr(out),
                Arg::Ptr(x),
                Arg::Ptr(ids),
                Arg::Ptr(wts),
                Arg::Ptr(Ptr { region: Region::Weight(gate_up, Part::Packed), offset: 0 }),
                Arg::Ptr(Ptr { region: Region::Weight(down, Part::Packed), offset: 0 }),
                Arg::I32(h),
                Arg::I32(mi),
                Arg::I32(k),
                Arg::I32(n),
            ],
            Call::MoeGemm { out, w, x, ids, outn, inn, k, per_slot, e_base, e_span, .. } => vec![
                Arg::Ptr(out),
                Arg::Ptr(Ptr { region: Region::Weight(w, Part::Packed), offset: 0 }),
                Arg::Ptr(Ptr { region: Region::Weight(w, Part::Scales), offset: 0 }),
                Arg::Ptr(Ptr { region: Region::Weight(w, Part::TileScale), offset: 0 }),
                Arg::Ptr(x),
                Arg::Ptr(ids),
                Arg::I32(outn),
                Arg::I32(inn),
                Arg::I32(k),
                Arg::I32(per_slot),
                Arg::I32(e_base),
                Arg::I32(e_span),
            ],
            Call::MoeSilu { out, x, mi, rows } => vec![
                Arg::Ptr(out),
                Arg::Ptr(x),
                Arg::I32(mi),
                Arg::I32(rows),
            ],
            Call::MoeCombine { out, x, wts, h, k, n } => vec![
                Arg::Ptr(out),
                Arg::Ptr(x),
                Arg::Ptr(wts),
                Arg::I32(h),
                Arg::I32(k),
                Arg::I32(n),
            ],
            Call::MoeCount { count, ids, pairs, lo, hi } => vec![
                Arg::Ptr(count),
                Arg::Ptr(ids),
                Arg::I32(pairs),
                Arg::I32(lo),
                Arg::I32(hi),
            ],
            Call::MoeOffsets { poff, cursor, count, ne } => vec![
                Arg::Ptr(poff),
                Arg::Ptr(cursor),
                Arg::Ptr(count),
                Arg::I32(ne),
            ],
            Call::MoeScatter { perm, wt, inv, cursor, ids, wts, pairs, k, lo, hi } => vec![
                Arg::Ptr(perm),
                Arg::Ptr(wt),
                Arg::Ptr(inv),
                Arg::Ptr(cursor),
                Arg::Ptr(ids),
                Arg::Ptr(wts),
                Arg::I32(pairs),
                Arg::I32(k),
                Arg::I32(lo),
                Arg::I32(hi),
            ],
            Call::MoeTilemap { tile, poff, ne } => vec![
                Arg::Ptr(tile),
                Arg::Ptr(poff),
                Arg::I32(ne),
            ],
            Call::MoeGatherX { out, x, perm, h, rows } => vec![
                Arg::Ptr(out),
                Arg::Ptr(x),
                Arg::Ptr(perm),
                Arg::I32(h),
                Arg::I32(rows),
            ],
            Call::MoeGrouped { out, w, x, tile, outn, inn, e_base, .. } => vec![
                Arg::Ptr(out),
                Arg::Ptr(Ptr { region: Region::Weight(w, Part::Packed), offset: 0 }),
                Arg::Ptr(Ptr { region: Region::Weight(w, Part::Scales), offset: 0 }),
                Arg::Ptr(Ptr { region: Region::Weight(w, Part::TileScale), offset: 0 }),
                Arg::Ptr(x),
                Arg::Ptr(tile),
                Arg::I32(outn),
                Arg::I32(inn),
                Arg::I32(e_base),
            ],
            Call::MoeCombineGrouped { out, x, wt, inv, h, k, n } => vec![
                Arg::Ptr(out),
                Arg::Ptr(x),
                Arg::Ptr(wt),
                Arg::Ptr(inv),
                Arg::I32(h),
                Arg::I32(k),
                Arg::I32(n),
            ],
            Call::MoeSharedCombine { out, shared, gate, h, n } => vec![
                Arg::Ptr(out),
                Arg::Ptr(shared),
                Arg::Ptr(gate),
                Arg::I32(h),
                Arg::I32(n),
            ],
            Call::Concat { out, first, second, h, n } => vec![
                Arg::Ptr(out),
                Arg::Ptr(first),
                Arg::Ptr(second),
                Arg::I32(h),
                Arg::I32(n),
            ],
            Call::TpSignal { src, bytes } => vec![
                Arg::Ptr(Ptr { region: Region::TpContext, offset: 0 }),
                Arg::Ptr(src),
                Arg::I32(bytes),
            ],
            Call::TpWaitAdd { out, src, elems, fp32 } => vec![
                Arg::Ptr(Ptr { region: Region::TpContext, offset: 0 }),
                Arg::Ptr(out),
                Arg::Ptr(src),
                Arg::I32(elems),
                Arg::I32(fp32),
            ],
            Call::CompactKv { kc, vc, ks, vs, src, len, pos, slot, nkv, stride, hd, dir } => vec![
                Arg::Ptr(kc),
                Arg::Ptr(vc),
                Arg::Ptr(ks),
                Arg::Ptr(vs),
                Arg::Ptr(src),
                Arg::I32(len),
                Arg::I32(pos),
                Arg::I32(slot),
                Arg::I32(nkv),
                Arg::I32(stride),
                Arg::I32(hd),
                Arg::I32(dir),
            ],
            Call::AttnTileInit { o, m, l, br, hd, nh } => vec![
                Arg::Ptr(o),
                Arg::Ptr(m),
                Arg::Ptr(l),
                Arg::I32(br),
                Arg::I32(hd),
                Arg::I32(nh),
            ],
            Call::AttnSoftmaxTile {
                s, p, o, m, l, br, bc, hd, nh, gqa, r, rows, qpos, s0, pc, ..
            } => vec![
                Arg::Ptr(s),
                Arg::Ptr(p),
                Arg::Ptr(o),
                Arg::Ptr(m),
                Arg::Ptr(l),
                Arg::I32(br),
                Arg::I32(bc),
                Arg::I32(hd),
                Arg::I32(pack_tile_heads_word(nh, gqa, r)),
                Arg::I32(rows),
                Arg::I32(qpos),
                Arg::I64(pack_keys_word(s0, pc)),
            ],
            Call::AttnFinalize { attn, o, l, br, hd, nh, t0, n } => vec![
                Arg::Ptr(attn),
                Arg::Ptr(o),
                Arg::Ptr(l),
                Arg::I32(br),
                Arg::I32(hd),
                Arg::I32(nh),
                Arg::I32(t0),
                Arg::I32(n),
            ],
        };
        proof {
            assert(v@ =~= self.spec_args());
        }
        v
    }
}

// ---- operations ----

/// Element width of a pool buffer.
#[derive(Clone, Copy, Debug, PartialEq, Eq, Structural)]
pub enum Width {
    F32,
    Bf16,
}

/// A host table that a program uploads.
#[derive(Clone, Copy, Debug, PartialEq, Eq, Structural)]
pub enum Table {
    Pos,
    Rope,
    SlotIds,
    ColPosStart,
    WinSrc,
    Parent,
    Path,
    Tokens,
    /// The token after every column, for scoring.
    Targets,
    Temps,
    TopK,
    TopP,
    Seeds,
    /// Temperatures, top-p and draft probabilities of a sampling verify.
    SampleF32,
    /// Draft tokens and top-k of a sampling verify.
    SampleI32,
}

/// One step of a device program.
#[derive(Clone, Copy, PartialEq, Eq, Structural)]
pub enum Op {
    /// Borrow a pool buffer of `len` elements as buffer `id`.
    Get { id: usize, width: Width, len: usize },
    /// Give buffer `id` back.
    Release { id: usize, width: Width, len: usize },
    /// Allocate `len` zeroed 4-byte elements outside the pool; freed after the program.
    Alloc { id: usize, len: usize },
    /// Allocate `len` bf16 elements outside the pool.
    Alloc16 { id: usize, len: usize },
    /// Upload a host table.
    Upload { table: Table, dst: Ptr },
    /// Upload a host table into a new buffer `id`.
    UploadNew { table: Table, id: usize },
    /// Fill `len` 4-byte elements with one value.
    Fill { dst: Ptr, value: i32, len: usize },
    /// Launch a kernel.
    Launch(Call),
    /// Launch a kernel of the single-token path.
    Single(SingleCall),
    /// `out[m, n] = w[m, k] x[k, n]` by the vendor library, everything bf16.
    Blas { w: Ptr, x: Ptr, out: Ptr, m: i32, n: i32, k: i32 },
    /// Scores of one key tile, batched over KV heads.
    BlasScores {
        keys: Ptr,
        q: Ptr,
        s: Ptr,
        kcols: i32,
        rows: i32,
        hd: i32,
        key_stride: i64,
        q_ld: i32,
        q_stride: i64,
        bc: i32,
        s_stride: i64,
        nkv: i32,
    },
    /// Weighted values of one key tile, accumulated, batched over KV heads.
    BlasValues {
        p: Ptr,
        values: Ptr,
        o: Ptr,
        rows: i32,
        hd: i32,
        kcols: i32,
        bc: i32,
        p_stride: i64,
        v_stride: i64,
        br: i32,
        o_stride: i64,
        nkv: i32,
    },
    /// Copy `bytes` bytes on the device.
    Copy { dst: Ptr, src: Ptr, bytes: usize },
    /// Zero `bytes` bytes on the device.
    Zero { dst: Ptr, bytes: usize },
    /// Wait for the device.
    Sync,
    /// Wait for the device and hand `len` f32 elements to the host, however large the buffer is.
    Capture { src: Ptr, len: usize },
    /// Read the padded token count of a grouped expert pass and run its expansion.
    Grouped(Grouped),
}

/// A grouped expert pass whose size the device decides: the tokens of every expert, padded to sixteen.
#[derive(Clone, Copy, PartialEq, Eq, Structural)]
pub struct Grouped {
    pub block: Block,
    /// First buffer number of the pass.
    pub first: usize,
    pub x: Ptr,
    pub out: Ptr,
    pub ids: Ptr,
    pub wts: Ptr,
    pub batch: usize,
    pub k: usize,
    pub ne: usize,
    pub h: usize,
    pub mi: usize,
    pub e_base: i32,
    pub e_span: i32,
}

/// What one step does to the count of borrows of buffer `id`.
pub open spec fn delta(op: Op, id: int) -> int {
    match op {
        Op::Get { id: i, .. } => if i == id {
            1
        } else {
            0
        },
        Op::Release { id: i, .. } => if i == id {
            -1
        } else {
            0
        },
        _ => 0,
    }
}

/// How often the first `k` steps borrow buffer `id`, less how often they give it back.
pub open spec fn borrowed_upto(ops: Seq<Op>, k: int, id: int) -> int
    decreases k,
{
    if k <= 0 {
        0
    } else {
        borrowed_upto(ops, k - 1, id) + delta(ops[k - 1], id)
    }
}

/// How often buffer `id` is borrowed, less how often it is given back.
pub open spec fn outstanding(ops: Seq<Op>, id: int) -> int {
    borrowed_upto(ops, ops.len() as int, id)
}

/// What step `i` does to the count of borrows of buffer `id`, where there is such a step.
pub open spec fn delta_at(s: Seq<Op>, i: int, id: int) -> int {
    if i < s.len() {
        delta(s[i], id)
    } else {
        0
    }
}

/// The borrows of a short program, step by step.
pub broadcast proof fn lemma_short(s: Seq<Op>, id: int)
    requires
        s.len() <= 11,
    ensures
        #[trigger] outstanding(s, id) == delta_at(s, 0, id) + delta_at(s, 1, id) + delta_at(s, 2, id)
            + delta_at(s, 3, id) + delta_at(s, 4, id) + delta_at(s, 5, id) + delta_at(s, 6, id)
            + delta_at(s, 7, id) + delta_at(s, 8, id) + delta_at(s, 9, id) + delta_at(s, 10, id),
{
    reveal_with_fuel(borrowed_upto, 12);
}

proof fn lemma_borrowed_ext(a: Seq<Op>, b: Seq<Op>, k: int, id: int)
    requires
        forall|i: int| 0 <= i < k ==> #[trigger] a[i] == b[i],
    ensures
        borrowed_upto(a, k, id) == borrowed_upto(b, k, id),
    decreases k,
{
    if k > 0 {
        assert(a[k - 1] == b[k - 1]);
        lemma_borrowed_ext(a, b, k - 1, id);
    }
}

/// Borrowing over a program in two legs adds up.
pub broadcast proof fn lemma_outstanding_concat(a: Seq<Op>, b: Seq<Op>, id: int)
    ensures
        #[trigger] outstanding(a + b, id) == outstanding(a, id) + outstanding(b, id),
{
    lemma_borrowed_concat(a, b, b.len() as int, id);
}

proof fn lemma_borrowed_concat(a: Seq<Op>, b: Seq<Op>, k: int, id: int)
    requires
        0 <= k <= b.len(),
    ensures
        borrowed_upto(a + b, a.len() + k, id) == outstanding(a, id) + borrowed_upto(b, k, id),
    decreases k,
{
    if k == 0 {
        lemma_borrowed_ext(a + b, a, a.len() as int, id);
    } else {
        lemma_borrowed_concat(a, b, k - 1, id);
        assert((a + b)[a.len() + k - 1] == b[k - 1]);
    }
}

/// Barriers that one step waits at.
pub open spec fn waits(op: Op) -> int {
    match op {
        Op::Launch(Call::TpWaitAdd { .. }) => 1,
        _ => 0,
    }
}

/// Barriers that the first `k` steps wait at.
pub open spec fn barriers_upto(ops: Seq<Op>, k: int) -> int
    decreases k,
{
    if k <= 0 {
        0
    } else {
        barriers_upto(ops, k - 1) + waits(ops[k - 1])
    }
}

/// Barriers that a program waits at.
pub open spec fn barriers(ops: Seq<Op>) -> int {
    barriers_upto(ops, ops.len() as int)
}

/// Barriers that step `i` waits at, where there is such a step.
pub open spec fn waits_at(s: Seq<Op>, i: int) -> int {
    if i < s.len() {
        waits(s[i])
    } else {
        0
    }
}

/// The barriers of a short program, step by step.
pub broadcast proof fn lemma_short_barriers(s: Seq<Op>)
    requires
        s.len() <= 11,
    ensures
        #[trigger] barriers(s) == waits_at(s, 0) + waits_at(s, 1) + waits_at(s, 2) + waits_at(s, 3)
            + waits_at(s, 4) + waits_at(s, 5) + waits_at(s, 6) + waits_at(s, 7) + waits_at(s, 8)
            + waits_at(s, 9) + waits_at(s, 10),
{
    reveal_with_fuel(barriers_upto, 12);
}

proof fn lemma_barriers_ext(a: Seq<Op>, b: Seq<Op>, k: int)
    requires
        forall|i: int| 0 <= i < k ==> #[trigger] a[i] == b[i],
    ensures
        barriers_upto(a, k) == barriers_upto(b, k),
    decreases k,
{
    if k > 0 {
        assert(a[k - 1] == b[k - 1]);
        lemma_barriers_ext(a, b, k - 1);
    }
}

/// Barriers of a program in two legs add up.
pub broadcast proof fn lemma_barriers_concat(a: Seq<Op>, b: Seq<Op>)
    ensures
        #[trigger] barriers(a + b) == barriers(a) + barriers(b),
{
    lemma_barriers_legs(a, b, b.len() as int);
}

proof fn lemma_barriers_legs(a: Seq<Op>, b: Seq<Op>, k: int)
    requires
        0 <= k <= b.len(),
    ensures
        barriers_upto(a + b, a.len() + k) == barriers(a) + barriers_upto(b, k),
    decreases k,
{
    if k == 0 {
        lemma_barriers_ext(a + b, a, a.len() as int);
    } else {
        lemma_barriers_legs(a, b, k - 1);
        assert((a + b)[a.len() + k - 1] == b[k - 1]);
    }
}

/// Borrow `len` bf16 elements as buffer `id`.
pub open spec fn get16(id: int, len: int) -> Op {
    Op::Get { id: id as usize, width: Width::Bf16, len: len as usize }
}

/// Give `len` bf16 elements back.
pub open spec fn put16(id: int, len: int) -> Op {
    Op::Release { id: id as usize, width: Width::Bf16, len: len as usize }
}

/// Borrow `len` f32 elements as buffer `id`.
pub open spec fn get32(id: int, len: int) -> Op {
    Op::Get { id: id as usize, width: Width::F32, len: len as usize }
}

/// Give `len` f32 elements back.
pub open spec fn put32(id: int, len: int) -> Op {
    Op::Release { id: id as usize, width: Width::F32, len: len as usize }
}

/// Borrow bf16 elements.
pub fn borrow16(id: usize, len: usize) -> (op: Op)
    ensures
        op == get16(id as int, len as int),
{
    Op::Get { id, width: Width::Bf16, len }
}

/// Give bf16 elements back.
pub fn give16(id: usize, len: usize) -> (op: Op)
    ensures
        op == put16(id as int, len as int),
{
    Op::Release { id, width: Width::Bf16, len }
}

/// Borrow f32 elements.
pub fn borrow32(id: usize, len: usize) -> (op: Op)
    ensures
        op == get32(id as int, len as int),
{
    Op::Get { id, width: Width::F32, len }
}

/// Give f32 elements back.
pub fn give32(id: usize, len: usize) -> (op: Op)
    ensures
        op == put32(id as int, len as int),
{
    Op::Release { id, width: Width::F32, len }
}

/// A count as a kernel argument.
pub fn int32(x: usize) -> (r: i32)
    requires
        x <= i32::MAX,
    ensures
        r == x,
{
    x as i32
}

/// Appends a program to another.
pub fn chain(ops: &mut Vec<Op>, more: Vec<Op>)
    ensures
        final(ops)@ == old(ops)@ + more@,
{
    let mut more: Vec<Op> = more;
    ops.append(&mut more);
}

} // verus!
