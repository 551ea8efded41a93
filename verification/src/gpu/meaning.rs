//! What the model computes, as values: blocks, layers, the trunk, the output head and the draft head.
//!
//! Nothing here speaks of buffers, of launches or of their order. A layer is `x + mix(norm x)`, then `x +
//! feed(norm x)`; attention is projection, norm and rotation of the heads, the cache with the new entries,
//! attention over it, gate and output projection.
use vstd::prelude::*;

use crate::config::LayerType;
use crate::gpu::machine::{
    args1, args2, args3, args4, args5, args7, made, part, patched, Fun, Mem, Val,
};
use crate::gpu::model::{AttnIn, Ffn, GdnIn, GpuFullAttn, GpuLinearAttn, GpuModel, GpuMoe};
use crate::gpu::program::{Block, BlockVec, Proj, Region, WeightId};

verus! {

// ---- sizes ----

/// Both ranks hold a half of every attention block.
pub open spec fn halved(m: &GpuModel) -> bool {
    m.tp.world == 2 && m.tp.shard_mixers
}

/// A count of heads, halved where `sharded`.
pub open spec fn share(n: usize, sharded: bool) -> int {
    n as int / (if sharded {
        2int
    } else {
        1int
    })
}

/// Partials are summed unrounded at `n` columns.
pub open spec fn unrounded(m: &GpuModel, n: int) -> bool {
    m.tp.world == 2 && m.tp.fp32_partials && n <= 16
}

// ---- products ----

/// A weight times `n` columns.
pub open spec fn times(w: WeightId, x: Val, inn: int, outn: int, n: int) -> Val {
    made(
        Fun::Product { w, outn: outn as i32, inn: inn as i32, n: n as i32, rounded: true },
        args1(x),
    )
}

/// A weight times `n` columns, summed over the ranks where each holds a half of it.
pub open spec fn times_all(
    m: &GpuModel,
    sharded: bool,
    w: WeightId,
    x: Val,
    inn: int,
    outn: int,
    n: int,
) -> Val {
    if sharded {
        Val::Summing(
            Box::new(
                made(
                    Fun::Product {
                        w,
                        outn: outn as i32,
                        inn: inn as i32,
                        n: n as i32,
                        rounded: !unrounded(m, n),
                    },
                    args1(x),
                ),
            ),
            outn * n,
        )
    } else {
        times(w, x, inn, outn, n)
    }
}

/// Columns, normed with a weight vector.
pub open spec fn normed(m: &GpuModel, x: Val, w: Val, n: int) -> Val {
    made(
        Fun::Normed { h: m.cfg.hidden_size as i32, n: n as i32, eps: m.cfg.rms_eps_bits },
        args2(x, w),
    )
}

/// The sum of two sets of `n` columns.
pub open spec fn added(m: &GpuModel, x: Val, y: Val, n: int) -> Val {
    made(Fun::Added { tot: (m.cfg.hidden_size * n) as i32 }, args2(x, y))
}

/// A vector of a block.
pub open spec fn vector(s: Mem, b: Block, v: BlockVec) -> Val {
    s[Region::Vector(b, v)]
}

/// The embeddings of `n` tokens.
pub open spec fn embedded(m: &GpuModel, tokens: Val, n: int) -> Val {
    made(Fun::Embedded { h: m.cfg.hidden_size as i32, n: n as i32 }, args1(tokens))
}

/// Cosines of the angles of `n` positions.
pub open spec fn cosines(m: &GpuModel, s: Mem, pos: Val, n: int) -> Val {
    made(
        Fun::Cos { rdim: m.cfg.rotary_dim as i32, n: n as i32 },
        args2(s[Region::CosTable], pos),
    )
}

/// Sines of the angles of `n` positions.
pub open spec fn sines(m: &GpuModel, s: Mem, pos: Val, n: int) -> Val {
    made(
        Fun::Sin { rdim: m.cfg.rotary_dim as i32, n: n as i32 },
        args2(s[Region::SinTable], pos),
    )
}

// ---- attention ----

/// How columns meet the cache.
#[allow(inconsistent_fields)]
pub enum Meeting {
    /// Every column at its own position of its own lane; `logical` is where it stands in its text.
    Columns { pos: Val, logical: Val, lanes: Val, path: Val, starts: Val, max_pc: int },
    /// A run of one lane, from a position on.
    Run { pos: int },
}

/// What an attention block gives: its output, and both caches.
pub struct Attention {
    pub out: Val,
    pub keys: Val,
    pub values: Val,
}

/// The projection of the columns: queries and gates (`which` 0), keys (1) or values (2).
pub open spec fn projected(
    m: &GpuModel,
    b: Block,
    fa: GpuFullAttn,
    x: Val,
    sharded: bool,
    n: int,
    which: int,
) -> Val {
    let h = m.cfg.hidden_size as int;
    let q = share(m.cfg.num_heads, sharded) * m.cfg.head_dim * 2;
    let kv = share(m.cfg.num_kv_heads, sharded) * m.cfg.head_dim;
    match fa.qkv {
        AttnIn::Fused(_) => made(
            Fun::Rows { part: which, qrows: q as i32, kvrows: kv as i32, n: n as i32 },
            args1(times(WeightId::Of(b, Proj::Qkv), x, h, q + 2 * kv, n)),
        ),
        AttnIn::Split { .. } => if which == 0 {
            times(WeightId::Of(b, Proj::Q), x, h, q, n)
        } else if which == 1 {
            times(WeightId::Of(b, Proj::K), x, h, kv, n)
        } else {
            times(WeightId::Of(b, Proj::V), x, h, kv, n)
        },
    }
}

/// Heads, normed and rotated.
pub open spec fn turned(m: &GpuModel, x: Val, w: Val, cos: Val, sin: Val, nh: int, n: int) -> Val {
    let (nh, hd, n) = (nh as i32, m.cfg.head_dim as i32, n as i32);
    made(
        Fun::Rotated { nh, hd, rdim: m.cfg.rotary_dim as i32, n },
        args3(made(Fun::HeadNormed { nh, hd, n, eps: m.cfg.rms_eps_bits }, args2(x, w)), cos, sin),
    )
}

/// A cache with the entries of the columns.
pub open spec fn stored(
    m: &GpuModel,
    cache: Val,
    entries: Val,
    meet: Meeting,
    stride: int,
    nkv: int,
    n: int,
) -> Val {
    let (stride, nkv, hd, n) = (stride as i32, nkv as i32, m.cfg.head_dim as i32, n as i32);
    match meet {
        Meeting::Columns { pos, lanes, .. } => made(
            Fun::Stored { stride, nkv, hd, n },
            args4(cache, entries, pos, lanes),
        ),
        Meeting::Run { pos } => made(
            Fun::StoredRun { stride, nkv, hd, n, pos: pos as i32 },
            args2(cache, entries),
        ),
    }
}

/// Splits of the keys that a bound of `max_pc` visible keys asks for.
pub open spec fn splits(max_pc: int) -> int {
    if max_pc < 512 {
        1
    } else if max_pc >= 8192 {
        32
    } else {
        max_pc / 256
    }
}

/// Attention of the queries over the caches.
pub open spec fn looked_up(
    m: &GpuModel,
    q: Val,
    keys: Val,
    values: Val,
    meet: Meeting,
    stride: int,
    nh: int,
    nkv: int,
    n: int,
) -> Val {
    let hd = m.cfg.head_dim as i32;
    match meet {
        Meeting::Columns { logical, lanes, path, starts, max_pc, .. } => made(
            Fun::Attended {
                n: n as i32,
                splits: splits(max_pc) as i32,
                stride: stride as i32,
                nh: nh as i32,
                nkv: nkv as i32,
                hd,
            },
            args7(q, keys, values, logical, lanes, path, starts),
        ),
        Meeting::Run { pos } => if n >= 128 && !m.knobs.prefill_scalar {
            tiled(q, keys, values, stride, nh, nkv, m.cfg.head_dim as int, n, pos)
        } else {
            made(
                Fun::AttendedRun {
                    stride: stride as i32,
                    nh: nh as i32,
                    nkv: nkv as i32,
                    hd,
                    n: n as i32,
                    pos: pos as i32,
                },
                args3(q, keys, values),
            )
        },
    }
}

/// An attention block on normed columns `x`.
pub open spec fn attention(
    m: &GpuModel,
    s: Mem,
    b: Block,
    fa: GpuFullAttn,
    sharded: bool,
    x: Val,
    cos: Val,
    sin: Val,
    kc: Val,
    vc: Val,
    stride: int,
    n: int,
    meet: Meeting,
) -> Attention {
    let nh = share(m.cfg.num_heads, sharded);
    let nkv = share(m.cfg.num_kv_heads, sharded);
    let hd = m.cfg.head_dim;
    let qg = projected(m, b, fa, x, sharded, n, 0);
    let q = turned(
        m,
        made(Fun::Queries { nh: nh as i32, hd: hd as i32, n: n as i32 }, args1(qg)),
        vector(s, b, BlockVec::QNorm),
        cos,
        sin,
        nh,
        n,
    );
    let k = turned(
        m,
        projected(m, b, fa, x, sharded, n, 1),
        vector(s, b, BlockVec::KNorm),
        cos,
        sin,
        nkv,
        n,
    );
    let keys = stored(m, kc, k, meet, stride, nkv, n);
    let values = stored(m, vc, projected(m, b, fa, x, sharded, n, 2), meet, stride, nkv, n);
    let gated = made(
        Fun::SigmoidGated { tot: (nh * hd * n) as i32 },
        args2(
            looked_up(m, q, keys, values, meet, stride, nh, nkv, n),
            made(Fun::Gates { nh: nh as i32, hd: hd as i32, n: n as i32 }, args1(qg)),
        ),
    );
    Attention {
        out: times_all(
            m,
            sharded,
            WeightId::Of(b, Proj::O),
            gated,
            nh * hd,
            m.cfg.hidden_size as int,
            n,
        ),
        keys,
        values,
    }
}

// ---- tiled attention ----

/// A query tile on its way: output, maxima and sums.
pub struct Tile {
    pub o: Val,
    pub m: Val,
    pub l: Val,
}

/// Query rows of a tile.
pub open spec fn tile_rows(n: int) -> int {
    if n < 1024 {
        n
    } else {
        1024
    }
}

/// Live rows of the query tile that starts at row `t0`.
pub open spec fn live_rows(n: int, t0: int) -> int {
    if n - t0 < tile_rows(n) {
        n - t0
    } else {
        tile_rows(n)
    }
}

/// An empty query tile.
pub open spec fn empty_tile(nh: int, hd: int, n: int) -> Tile {
    let start = |part: int|
        made(
            Fun::TileStart { part, br: tile_rows(n) as i32, hd: hd as i32, nh: nh as i32 },
            Seq::empty(),
        );
    Tile { o: start(0), m: start(1), l: start(2) }
}

/// The query tile at row `t0` after head `r` of every group has seen the keys from `s0` on.
pub open spec fn after_head(
    t: Tile,
    q: Val,
    keys: Val,
    values: Val,
    stride: int,
    nh: int,
    nkv: int,
    hd: int,
    n: int,
    pos: int,
    t0: int,
    s0: int,
    r: int,
) -> Tile {
    let br = tile_rows(n);
    let rows = live_rows(n, t0);
    let gqa = nh / nkv;
    let kcols = if pos + n - s0 < 1024 {
        pos + n - s0
    } else {
        1024
    };
    let scores = made(
        Fun::TileScores {
            kcols: kcols as i32,
            rows: rows as i32,
            hd: hd as i32,
            key_stride: (stride * hd) as i64,
            q_ld: (nh * hd) as i32,
            q_stride: (gqa * hd) as i64,
            bc: 1024,
            s_stride: (br * 1024) as i64,
            nkv: nkv as i32,
        },
        args2(
            part(keys, (s0 * hd * 2) as u64),
            part(q, ((r * hd + t0 * (nh * hd)) * 2) as u64),
        ),
    );
    let step = |p: int|
        made(
            Fun::TileSoftmax {
                part: p,
                br: br as i32,
                bc: 1024,
                hd: hd as i32,
                nh: nh as i32,
                gqa: gqa as i32,
                r: r as i32,
                rows: rows as i32,
                qpos: (pos + t0) as i32,
                s0: s0 as i32,
                pc: (pos + n) as i32,
                nkv: nkv as i32,
            },
            args4(scores, t.o, t.m, t.l),
        );
    let at = (r * (br * hd) * 4) as u64;
    Tile {
        o: patched(
            step(1),
            at,
            made(
                Fun::TileValues {
                    rows: rows as i32,
                    hd: hd as i32,
                    kcols: kcols as i32,
                    bc: 1024,
                    p_stride: (br * 1024) as i64,
                    v_stride: (stride * hd) as i64,
                    br: br as i32,
                    o_stride: (gqa * (br * hd)) as i64,
                    nkv: nkv as i32,
                },
                args3(part(step(1), at), step(0), part(values, (s0 * hd * 2) as u64)),
            ),
        ),
        m: step(2),
        l: step(3),
    }
}

/// The query tile at row `t0` after the first `k` heads of every group have seen the keys from `s0` on.
pub open spec fn after_heads(
    t: Tile,
    q: Val,
    keys: Val,
    values: Val,
    stride: int,
    nh: int,
    nkv: int,
    hd: int,
    n: int,
    pos: int,
    t0: int,
    s0: int,
    k: nat,
) -> Tile
    decreases k,
{
    if k == 0 {
        t
    } else {
        let u = after_heads(
            t,
            q,
            keys,
            values,
            stride,
            nh,
            nkv,
            hd,
            n,
            pos,
            t0,
            s0,
            (k - 1) as nat,
        );
        after_head(u, q, keys, values, stride, nh, nkv, hd, n, pos, t0, s0, k - 1)
    }
}

/// The query tile at row `t0` after all heads have seen the first `k` tiles of 1024 keys.
pub open spec fn after_keys(
    q: Val,
    keys: Val,
    values: Val,
    stride: int,
    nh: int,
    nkv: int,
    hd: int,
    n: int,
    pos: int,
    t0: int,
    k: nat,
) -> Tile
    decreases k,
{
    if k == 0 {
        empty_tile(nh, hd, n)
    } else {
        let t = after_keys(q, keys, values, stride, nh, nkv, hd, n, pos, t0, (k - 1) as nat);
        after_heads(
            t,
            q,
            keys,
            values,
            stride,
            nh,
            nkv,
            hd,
            n,
            pos,
            t0,
            (k - 1) * 1024,
            (nh / nkv) as nat,
        )
    }
}

/// The first `k` query tiles, each over every key that its last row may see.
pub open spec fn tiles_upto(
    q: Val,
    keys: Val,
    values: Val,
    stride: int,
    nh: int,
    nkv: int,
    hd: int,
    n: int,
    pos: int,
    k: nat,
) -> Val
    decreases k,
{
    if k == 0 {
        Val::Fresh
    } else {
        let t0 = (k - 1) * tile_rows(n);
        let last = pos + t0 + live_rows(n, t0) - 1;
        let t = after_keys(
            q,
            keys,
            values,
            stride,
            nh,
            nkv,
            hd,
            n,
            pos,
            t0,
            (last / 1024 + 1) as nat,
        );
        made(
            Fun::TileDone {
                br: tile_rows(n) as i32,
                hd: hd as i32,
                nh: nh as i32,
                t0: t0 as i32,
                n: n as i32,
            },
            args3(
                tiles_upto(q, keys, values, stride, nh, nkv, hd, n, pos, (k - 1) as nat),
                t.o,
                t.l,
            ),
        )
    }
}

/// Attention of `n` queries after `pos` earlier positions, tile by tile.
pub open spec fn tiled(
    q: Val,
    keys: Val,
    values: Val,
    stride: int,
    nh: int,
    nkv: int,
    hd: int,
    n: int,
    pos: int,
) -> Val {
    let count = (n + tile_rows(n) - 1) / tile_rows(n);
    tiles_upto(q, keys, values, stride, nh, nkv, hd, n, pos, count as nat)
}

// ---- linear attention ----

/// What a linear-attention block gives: its output, its windows and its state.
pub struct Recurrence {
    pub out: Val,
    pub conv: Val,
    pub state: Val,
}

/// Sizes of a linear-attention block.
pub struct GdnSizes {
    pub nv: int,
    pub nk: int,
    pub kd: int,
    pub vd: int,
    /// Convolved channels, and width of the output.
    pub channels: int,
    pub width: int,
}

/// Sizes of a linear-attention block on this rank.
pub open spec fn gdn_sizes(m: &GpuModel) -> GdnSizes {
    let nv = share(m.cfg.lin_num_v_heads, halved(m));
    let nk = share(m.cfg.lin_num_k_heads, halved(m));
    let (kd, vd) = (m.cfg.lin_k_dim as int, m.cfg.lin_v_dim as int);
    GdnSizes { nv, nk, kd, vd, channels: kd * nk * 2 + vd * nv, width: vd * nv }
}

/// The first value head of this rank.
pub open spec fn first_head(m: &GpuModel) -> int {
    if halved(m) {
        (if m.tp.rank >= 0 {
            m.tp.rank as int
        } else {
            0
        }) * share(m.cfg.lin_num_v_heads, true)
    } else {
        0
    }
}

/// The projection of the columns: channels (`which` 0), output gate (1), or the per-head rows (2, 3).
pub open spec fn gdn_projected(
    m: &GpuModel,
    b: Block,
    la: GpuLinearAttn,
    x: Val,
    n: int,
    which: int,
) -> Val {
    let h = m.cfg.hidden_size as int;
    let z = gdn_sizes(m);
    match la.in_proj {
        GdnIn::Fused(_) => made(
            Fun::GdnPart {
                part: which,
                conv_dim: z.channels as i32,
                value_dim: z.width as i32,
                nh: z.nv as i32,
                n: n as i32,
                full_nv: m.cfg.lin_num_v_heads as i32,
                head0: first_head(m) as i32,
            },
            args1(
                times(
                    WeightId::Of(b, Proj::GdnIn),
                    x,
                    h,
                    z.channels + z.width + 2 * m.cfg.lin_num_v_heads,
                    n,
                ),
            ),
        ),
        GdnIn::Split { .. } => if which == 0 {
            times(WeightId::Of(b, Proj::GdnQkv), x, h, z.channels, n)
        } else if which == 1 {
            times(WeightId::Of(b, Proj::GdnZ), x, h, z.width, n)
        } else if which == 2 {
            times(WeightId::Of(b, Proj::GdnB), x, h, z.nv, n)
        } else {
            times(WeightId::Of(b, Proj::GdnA), x, h, z.nv, n)
        },
    }
}

/// The recurrence's output, normed, gated and projected.
pub open spec fn gdn_out(m: &GpuModel, s: Mem, b: Block, core: Val, gate: Val, n: int) -> Val {
    let z = gdn_sizes(m);
    times_all(
        m,
        halved(m),
        WeightId::Of(b, Proj::GdnOut),
        made(
            Fun::GatedNormed {
                vd: z.vd as i32,
                nh: z.nv as i32,
                n: n as i32,
                eps: m.cfg.rms_eps_bits,
            },
            args3(core, gate, vector(s, b, BlockVec::GdnNorm)),
        ),
        z.width,
        m.cfg.hidden_size as int,
        n,
    )
}

/// One step of every lane.
pub open spec fn gdn_step(
    m: &GpuModel,
    s: Mem,
    b: Block,
    la: GpuLinearAttn,
    x: Val,
    conv: Val,
    state: Val,
    lanes: Val,
    n: int,
) -> Recurrence {
    let z = gdn_sizes(m);
    let ck = m.cfg.conv_kernel as i32;
    let fault = halved(m) && m.tp.head_proof && m.tp.head_fault;
    let (nv, nk) = if fault {
        (m.cfg.lin_num_v_heads as int, m.cfg.lin_num_k_heads as int)
    } else {
        (z.nv, z.nk)
    };
    let window = args4(
        gdn_projected(m, b, la, x, n, 0),
        conv,
        vector(s, b, BlockVec::Conv1d),
        lanes,
    );
    let conv_dim = z.channels as i32;
    let (nh, nk, kd, vd) = (nv as i32, nk as i32, z.kd as i32, z.vd as i32);
    let args = args7(
        made(Fun::Convolved { conv_dim, ck, n: n as i32 }, window),
        state,
        gdn_projected(m, b, la, x, n, 2),
        gdn_projected(m, b, la, x, n, 3),
        vector(s, b, BlockVec::ALog),
        vector(s, b, BlockVec::DtBias),
        lanes,
    );
    let core = made(Fun::Recurred { nh, nk, kd, vd, n: n as i32 }, args);
    Recurrence {
        out: gdn_out(m, s, b, core, gdn_projected(m, b, la, x, n, 1), n),
        conv: made(Fun::WindowStep { conv_dim, ck, n: n as i32 }, window),
        state: made(Fun::StateStep { nh, nk, kd, vd, n: n as i32 }, args),
    }
}

/// The windows after the first `k` runs of columns have left theirs.
pub open spec fn carried(
    m: &GpuModel,
    conv: Val,
    at: u64,
    channels: Val,
    lanes: Val,
    segs: Seq<(usize, usize)>,
    k: nat,
) -> Val
    decreases k,
{
    if k == 0 {
        conv
    } else {
        let c = carried(m, conv, at, channels, lanes, segs, (k - 1) as nat);
        let (from, len) = segs[k - 1];
        patched(
            c,
            at,
            made(
                Fun::Carried {
                    conv_dim: gdn_sizes(m).channels as i32,
                    ck: m.cfg.conv_kernel as i32,
                    last: (from + len - 1) as i32,
                    len: len as i32,
                },
                args3(part(c, at), channels, lanes),
            ),
        )
    }
}

/// A run of columns, or several lanes' runs. `slot` is the lane whose state is used, `ckpt` the first of the
/// lanes that keep the state after every column.
pub open spec fn gdn_run(
    m: &GpuModel,
    s: Mem,
    b: Block,
    la: GpuLinearAttn,
    x: Val,
    conv: Val,
    state: Val,
    lanes: Val,
    winsrc: Val,
    parents: Val,
    slot: int,
    ckpt: Option<int>,
    segs: Seq<(usize, usize)>,
    n: int,
) -> Recurrence {
    let z = gdn_sizes(m);
    let ck = m.cfg.conv_kernel as i32;
    let conv_bytes = z.channels * m.cfg.conv_kernel * 4;
    let state_bytes = z.nv * z.kd * z.vd * 4;
    let (conv_at, state_at) = ((slot * conv_bytes) as u64, (slot * state_bytes) as u64);
    let channels = gdn_projected(m, b, la, x, n, 0);
    let window = args5(
        channels,
        part(conv, conv_at),
        vector(s, b, BlockVec::Conv1d),
        winsrc,
        lanes,
    );
    let conv_dim = z.channels as i32;
    let (nh, nk, kd, vd) = (z.nv as i32, z.nk as i32, z.kd as i32, z.vd as i32);
    let args = args7(
        made(Fun::ConvolvedRun { conv_dim, ck, n: n as i32 }, window),
        part(state, state_at),
        gdn_projected(m, b, la, x, n, 2),
        gdn_projected(m, b, la, x, n, 3),
        vector(s, b, BlockVec::ALog),
        vector(s, b, BlockVec::DtBias),
        parents,
    );
    let core = made(Fun::RecurredRun { nh, nk, kd, vd, n: n as i32 }, args);
    let kept = match ckpt {
        Some(c) => patched(
            conv,
            (c * conv_bytes) as u64,
            made(Fun::ColumnWindows { conv_dim, ck, n: n as i32 }, window),
        ),
        None => conv,
    };
    let ran = patched(state, state_at, made(Fun::StateRun { nh, nk, kd, vd, n: n as i32 }, args));
    Recurrence {
        out: gdn_out(m, s, b, core, gdn_projected(m, b, la, x, n, 1), n),
        conv: carried(m, kept, conv_at, channels, lanes, segs, segs.len()),
        state: match ckpt {
            Some(c) => patched(
                ran,
                (c * state_bytes) as u64,
                made(Fun::ColumnStates { nh, nk, kd, vd, n: n as i32 }, args),
            ),
            None => ran,
        },
    }
}

// ---- feed-forward ----

/// A dense block of width `width`.
pub open spec fn gated_mlp(
    gate: WeightId,
    up: WeightId,
    x: Val,
    h: int,
    width: int,
    n: int,
) -> Val {
    made(
        Fun::SiluTimes { tot: (width * n) as i32 },
        args2(times(gate, x, h, width, n), times(up, x, h, width, n)),
    )
}

/// The dense feed-forward block.
pub open spec fn dense_out(m: &GpuModel, b: Block, x: Val, n: int, sharded: bool) -> Val {
    let h = m.cfg.hidden_size as int;
    let width = share(m.cfg.intermediate_size, sharded);
    let w = |p: Proj| WeightId::Of(b, p);
    times_all(
        m,
        sharded,
        w(Proj::Down),
        gated_mlp(w(Proj::Gate), w(Proj::Up), x, h, width, n),
        width,
        h,
        n,
    )
}

/// The experts' weighted sum, where every rank holds them all or sums its half.
pub open spec fn experts_out(m: &GpuModel, b: Block, moe: GpuMoe, x: Val, n: int) -> Val {
    let c = m.cfg;
    let (h, ne, k, mi) = (
        c.hidden_size as i32,
        c.num_experts as i32,
        c.num_experts_per_tok as i32,
        c.moe_intermediate_size as i32,
    );
    let w = |p: Proj| WeightId::Of(b, p);
    let logits = args1(
        times(w(Proj::Router), x, c.hidden_size as int, c.num_experts as int, n),
    );
    let ids = made(Fun::ExpertIds { ne, k, n: n as i32 }, logits);
    let wts = made(Fun::ExpertWeights { ne, k, n: n as i32 }, logits);
    let span = share(c.num_experts, moe.experts_sharded);
    let base = if moe.experts_sharded {
        (if m.tp.rank >= 0 {
            m.tp.rank as int
        } else {
            0
        }) * span
    } else {
        0
    };
    let pairs = n * c.num_experts_per_tok;
    if moe.gate_up is Bf16 {
        made(
            Fun::Experts {
                gate_up: w(Proj::ExpertGateUp),
                down: w(Proj::ExpertDown),
                h,
                mi,
                k,
                n: n as i32,
            },
            args3(x, ids, wts),
        )
    } else if n < 128 {
        let up = made(
            Fun::ExpertProduct {
                w: w(Proj::ExpertGateUp),
                outn: (2 * c.moe_intermediate_size) as i32,
                inn: h,
                k,
                per_slot: 0,
                e_base: base as i32,
                e_span: span as i32,
                pairs: pairs as i32,
            },
            args2(x, ids),
        );
        let down = made(
            Fun::ExpertProduct {
                w: w(Proj::ExpertDown),
                outn: h,
                inn: mi,
                k,
                per_slot: 1,
                e_base: base as i32,
                e_span: span as i32,
                pairs: pairs as i32,
            },
            args2(made(Fun::ExpertSilu { mi, rows: pairs as i32 }, args1(up)), ids),
        );
        made(Fun::Combined { h, k, n: n as i32 }, args2(down, wts))
    } else {
        let counts = args1(
            made(
                Fun::ExpertCounts {
                    pairs: pairs as i32,
                    lo: base as i32,
                    hi: (base + span) as i32,
                },
                args1(ids),
            ),
        );
        made(
            Fun::GroupedExperts {
                block: b,
                batch: n as usize,
                k: c.num_experts_per_tok,
                ne: c.num_experts,
                h: c.hidden_size,
                mi: c.moe_intermediate_size,
                e_base: base as i32,
                e_span: span as i32,
            },
            args5(
                x,
                ids,
                wts,
                made(Fun::ExpertStarts { ne }, counts),
                made(Fun::ExpertCursors { ne }, counts),
            ),
        )
    }
}

/// The expert block: the experts, summed over the ranks where they are shared out, and the gated shared
/// expert.
pub open spec fn moe_out(m: &GpuModel, b: Block, moe: GpuMoe, x: Val, n: int) -> Val {
    let h = m.cfg.hidden_size as int;
    let si = m.cfg.shared_expert_intermediate_size as int;
    let w = |p: Proj| WeightId::Of(b, p);
    let e = experts_out(m, b, moe, x, n);
    made(
        Fun::SharedAdded { h: h as i32, n: n as i32 },
        args3(
            if moe.experts_sharded {
                Val::Summing(Box::new(e), h * n)
            } else {
                e
            },
            times(
                w(Proj::SharedDown),
                gated_mlp(w(Proj::SharedGateProj), w(Proj::SharedUp), x, h, si, n),
                si,
                h,
                n,
            ),
            times(w(Proj::SharedGate), x, h, 1, n),
        ),
    )
}

/// The feed-forward block on normed columns `x`.
pub open spec fn fed(m: &GpuModel, b: Block, ffn: Ffn, x: Val, n: int, sharded: bool) -> Val {
    match ffn {
        Ffn::Dense(_) => dense_out(m, b, x, n, sharded),
        Ffn::Moe(moe) => moe_out(m, b, moe, x, n),
    }
}

// ---- layers ----

/// How the columns of a pass meet what the layers remember.
#[allow(inconsistent_fields)]
pub enum Way {
    /// One column per lane, each at its lane's position.
    Step { pos: Val, lanes: Val, max_pc: int },
    /// A run of one lane, from a position on.
    Prompt { slot: int, pos: int },
    /// The columns of a verify. `pos` is where a column's entry is kept, `logical` where it stands in its
    /// text; `ckpt` is the first lane that keeps a column's state.
    Verify {
        pos: Val,
        logical: Val,
        lanes: Val,
        path: Val,
        starts: Val,
        winsrc: Val,
        parents: Val,
        max_pc: int,
        ckpt: Option<int>,
    },
}

/// The columns of a pass: how they meet the caches, their angles, and the runs they fall into.
pub struct Columns {
    pub way: Way,
    pub cos: Val,
    pub sin: Val,
    pub stride: int,
    pub n: int,
    pub segs: Seq<(usize, usize)>,
}

/// What a mixer gives: its output, and what the layer remembers (keys and values, or windows and state).
pub struct Mixed {
    pub out: Val,
    pub first: Val,
    pub second: Val,
}

/// The attention of layer `li` on normed columns `x`.
pub open spec fn layer_attention(m: &GpuModel, s: Mem, p: Columns, li: int, x: Val) -> Mixed {
    let b = Block::Layer(li as usize);
    let fa = m.layers@[li].fa->0;
    let (keys, values) = (s[Region::KCache(li as usize)], s[Region::VCache(li as usize)]);
    let on = |k: Val, v: Val, meet: Meeting|
        attention(m, s, b, fa, halved(m), x, p.cos, p.sin, k, v, p.stride, p.n, meet);
    match p.way {
        Way::Step { pos, lanes, max_pc } => {
            let meet = Meeting::Columns {
                pos,
                logical: pos,
                lanes,
                path: Val::Absent,
                starts: Val::Absent,
                max_pc,
            };
            let a = on(keys, values, meet);
            Mixed { out: a.out, first: a.keys, second: a.values }
        },
        Way::Prompt { slot, pos } => {
            let lane = share(m.cfg.num_kv_heads, halved(m)) * p.stride * m.cfg.head_dim * 2;
            let from = (slot * lane) as u64;
            let a = on(part(keys, from), part(values, from), Meeting::Run { pos });
            Mixed {
                out: a.out,
                first: patched(keys, from, a.keys),
                second: patched(values, from, a.values),
            }
        },
        Way::Verify { pos, logical, lanes, path, starts, max_pc, .. } => {
            let a = on(
                keys,
                values,
                Meeting::Columns { pos, logical, lanes, path, starts, max_pc },
            );
            Mixed { out: a.out, first: a.keys, second: a.values }
        },
    }
}

/// The linear attention of layer `li` on normed columns `x`.
pub open spec fn layer_recurrence(m: &GpuModel, s: Mem, p: Columns, li: int, x: Val) -> Mixed {
    let b = Block::Layer(li as usize);
    let la = m.layers@[li].la->0;
    let (conv, state) = (s[Region::ConvState(li as usize)], s[Region::SState(li as usize)]);
    let r = match p.way {
        Way::Step { lanes, .. } => gdn_step(m, s, b, la, x, conv, state, lanes, p.n),
        Way::Prompt { slot, .. } => gdn_run(
            m,
            s,
            b,
            la,
            x,
            conv,
            state,
            Val::Absent,
            Val::Absent,
            Val::Absent,
            slot,
            None,
            p.segs,
            p.n,
        ),
        Way::Verify { lanes, winsrc, parents, ckpt, .. } => gdn_run(
            m,
            s,
            b,
            la,
            x,
            conv,
            state,
            lanes,
            winsrc,
            parents,
            0,
            ckpt,
            p.segs,
            p.n,
        ),
    };
    Mixed { out: r.out, first: r.conv, second: r.state }
}

/// The mixer of layer `li` on normed columns `x`.
#[verifier::opaque]
pub open spec fn mixed(m: &GpuModel, s: Mem, p: Columns, li: int, x: Val) -> Mixed {
    match m.layers@[li].layer_type {
        LayerType::FullAttention => layer_attention(m, s, p, li, x),
        LayerType::LinearAttention => layer_recurrence(m, s, p, li, x),
    }
}

/// Layer `li` up to its feed-forward block: the columns plus their mixture.
pub open spec fn half_layer(m: &GpuModel, s: Mem, p: Columns, li: int, x: Val) -> Val {
    let b = Block::Layer(li as usize);
    let nx = normed(m, x, vector(s, b, BlockVec::InputNorm), p.n);
    added(m, x, mixed(m, s, p, li, nx).out, p.n)
}

/// Layer `li` on columns `x`.
#[verifier::opaque]
pub open spec fn layer(m: &GpuModel, s: Mem, p: Columns, li: int, x: Val) -> Val {
    let b = Block::Layer(li as usize);
    let y = half_layer(m, s, p, li, x);
    let ny = normed(m, y, vector(s, b, BlockVec::PostNorm), p.n);
    added(m, y, fed(m, b, m.layers@[li].mlp, ny, p.n, m.tp.world == 2), p.n)
}

/// Columns `x` after the first `k` layers.
pub open spec fn trunk(m: &GpuModel, s: Mem, p: Columns, x: Val, k: nat) -> Val
    decreases k,
{
    if k == 0 {
        x
    } else {
        layer(m, s, p, k - 1, trunk(m, s, p, x, (k - 1) as nat))
    }
}

/// What the mixer of layer `li` gives when columns `x` run through the model.
pub open spec fn remembered(m: &GpuModel, s: Mem, p: Columns, x: Val, li: int) -> Mixed {
    let y = trunk(m, s, p, x, li as nat);
    let b = Block::Layer(li as usize);
    mixed(m, s, p, li, normed(m, y, vector(s, b, BlockVec::InputNorm), p.n))
}

/// Columns `x` after all layers, normed for the output head.
pub open spec fn summit(m: &GpuModel, s: Mem, p: Columns, x: Val) -> Val {
    normed(m, trunk(m, s, p, x, m.layers@.len()), s[Region::FinalNorm], p.n)
}

/// Logits of `n` normed columns: the output head, or the embedding where the two are tied.
pub open spec fn logits_of(m: &GpuModel, x: Val, n: int) -> Val {
    let w = if m.lm_head is Some {
        WeightId::LmHead
    } else {
        WeightId::Embed
    };
    times(w, x, m.cfg.hidden_size as int, m.cfg.vocab_size as int, n)
}

// ---- the draft head ----

/// What the draft head gives: its hidden columns, and both its caches.
pub struct Drafted {
    pub hidden: Val,
    pub keys: Val,
    pub values: Val,
}

/// The draft head on the hidden columns of the trunk and the tokens that follow them.
///
/// A column of its input is the token's embedding, normed, then the hidden column, normed.
pub open spec fn drafted(
    m: &GpuModel,
    s: Mem,
    hidden: Val,
    tokens: Val,
    cos: Val,
    sin: Val,
    kc: Val,
    vc: Val,
    stride: int,
    n: int,
    meet: Meeting,
) -> Drafted {
    let b = Block::Mtp;
    let h = m.cfg.hidden_size as int;
    let norm = |x: Val, v: BlockVec| normed(m, x, vector(s, b, v), n);
    let pair = made(
        Fun::Joined { h: h as i32, n: n as i32 },
        args2(
            norm(embedded(m, tokens, n), BlockVec::PreFcEmbed),
            norm(hidden, BlockVec::PreFcHidden),
        ),
    );
    let x = times(WeightId::Of(b, Proj::Fc), pair, 2 * h, h, n);
    let a = attention(
        m,
        s,
        b,
        m.mtp->0.fa,
        false,
        norm(x, BlockVec::InputNorm),
        cos,
        sin,
        kc,
        vc,
        stride,
        n,
        meet,
    );
    let y = added(m, x, a.out, n);
    let z = added(m, y, fed(m, b, m.mtp->0.mlp, norm(y, BlockVec::PostNorm), n, false), n);
    Drafted { hidden: norm(z, BlockVec::FinalNorm), keys: a.keys, values: a.values }
}

} // verus!
