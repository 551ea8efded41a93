//! What a device program computes: a machine whose memory holds values, not bytes.
//!
//! A value is a term: which function was applied to which other values. Two programs that leave the same
//! term compute the same thing, whatever buffers they use on the way and whatever format a weight is
//! stored in.
use vstd::prelude::*;

use crate::gpu::machine_single::{single, SingleFun};
use crate::gpu::program::{Block, Call, Grouped, Op, Ptr, Region, Table, WeightId, Width};
use crate::gpu::single_calls::SingleCall;

verus! {

/// A function of the device, with the sizes it is told.
#[allow(inconsistent_fields)]
pub enum Fun {
    /// Cosines, or sines, of the angles of `n` positions. Reads the table and the positions.
    Cos { rdim: i32, n: i32 },
    Sin { rdim: i32, n: i32 },
    /// Embedding rows of `n` tokens.
    Embedded { h: i32, n: i32 },
    /// Root-mean-square norm of `n` columns of `h`. Reads the columns and the weight.
    Normed { h: i32, n: i32, eps: u32 },
    /// Element-wise sum of `tot` elements.
    Added { tot: i32 },
    /// A weight matrix, expanded.
    Expanded { w: WeightId, outn: i32, inn: i32 },
    /// A weight matrix times `n` columns; rounded to 16 bits, or left as it was accumulated.
    Product { w: WeightId, outn: i32, inn: i32, n: i32, rounded: bool },
    /// A product whose matrix is no whole weight.
    Blas { m: i32, n: i32, k: i32 },
    /// The rows of a fused projection that hold queries and gates (`part` 0), keys (1) or values (2).
    Rows { part: int, qrows: i32, kvrows: i32, n: i32 },
    /// The queries, or the gates, of a projection that holds both per head.
    Queries { nh: i32, hd: i32, n: i32 },
    Gates { nh: i32, hd: i32, n: i32 },
    /// Every head normed. Reads the heads and the weight.
    HeadNormed { nh: i32, hd: i32, n: i32, eps: u32 },
    /// Every head rotated. Reads the heads, the cosines and the sines.
    Rotated { nh: i32, hd: i32, rdim: i32, n: i32 },
    /// A lane's cache with a run of entries written at a position. Reads the cache and the entries.
    StoredRun { stride: i32, nkv: i32, hd: i32, n: i32, pos: i32 },
    /// A cache with one entry per column written. Reads the cache, the entries, the columns' positions and
    /// their lanes.
    Stored { stride: i32, nkv: i32, hd: i32, n: i32 },
    /// Causal attention of a run of columns. Reads queries, keys and values.
    AttendedRun { stride: i32, nh: i32, nkv: i32, hd: i32, n: i32, pos: i32 },
    /// Partial sums of the attention of every column: `part` 0 the maxima, 1 the weights' sums, 2 the
    /// weighted values. Reads queries, keys, values, logical positions, lanes, paths and prefix lengths.
    Partial { part: int, n: i32, splits: i32, stride: i32, nh: i32, nkv: i32, hd: i32 },
    /// Attention of every column. Reads what the partials read.
    Attended { n: i32, splits: i32, stride: i32, nh: i32, nkv: i32, hd: i32 },
    /// Gated by a sigmoid. Reads the attended columns and their gates.
    SigmoidGated { tot: i32 },
    /// Heads of a fused linear-attention projection: `part` 0 the convolved channels, 1 the output gate, 2
    /// and 3 the per-head rows.
    GdnPart {
        part: int,
        conv_dim: i32,
        value_dim: i32,
        nh: i32,
        n: i32,
        full_nv: i32,
        head0: i32,
    },
    /// One convolution step per lane, and the windows it leaves. Reads channels, windows, weight, lanes.
    Convolved { conv_dim: i32, ck: i32, n: i32 },
    WindowStep { conv_dim: i32, ck: i32, n: i32 },
    /// One recurrence step per lane, and the state it leaves. Reads channels, state, both per-head rows,
    /// decay, bias and lanes.
    Recurred { nh: i32, nk: i32, kd: i32, vd: i32, n: i32 },
    StateStep { nh: i32, nk: i32, kd: i32, vd: i32, n: i32 },
    /// Which heads a recurrence step visited.
    Visited { nh: i32, n: i32 },
    /// Norm of the recurrence output, gated. Reads output, gate and weight.
    GatedNormed { vd: i32, nh: i32, n: i32, eps: u32 },
    /// Convolution of a run of columns, and the windows after every column. Reads channels, windows,
    /// weight, window table and lanes.
    ConvolvedRun { conv_dim: i32, ck: i32, n: i32 },
    ColumnWindows { conv_dim: i32, ck: i32, n: i32 },
    /// A lane's window after a run of columns. Reads windows, channels and lanes.
    Carried { conv_dim: i32, ck: i32, last: i32, len: i32 },
    /// Recurrence over a run of columns, the state it leaves, and the states after every column. Reads
    /// channels, state, both per-head rows, decay, bias and parents.
    RecurredRun { nh: i32, nk: i32, kd: i32, vd: i32, n: i32 },
    StateRun { nh: i32, nk: i32, kd: i32, vd: i32, n: i32 },
    ColumnStates { nh: i32, nk: i32, kd: i32, vd: i32, n: i32 },
    /// `silu(gate) * up`. Reads both.
    SiluTimes { tot: i32 },
    /// The experts of every token, and their weights. Reads the router's logits.
    ExpertIds { ne: i32, k: i32, n: i32 },
    ExpertWeights { ne: i32, k: i32, n: i32 },
    /// The experts' weighted sum. Reads the columns, the ids and the weights.
    Experts { gate_up: WeightId, down: WeightId, h: i32, mi: i32, k: i32, n: i32 },
    /// A product with every token's experts; `per_slot` says that the columns are per token and expert.
    /// Reads the columns and the ids.
    ExpertProduct {
        w: WeightId,
        outn: i32,
        inn: i32,
        k: i32,
        per_slot: i32,
        e_base: i32,
        e_span: i32,
        pairs: i32,
    },
    /// `silu(gate) * up` of a fused expert projection.
    ExpertSilu { mi: i32, rows: i32 },
    /// Weighted sum over a token's experts. Reads the columns and the weights.
    Combined { h: i32, k: i32, n: i32 },
    /// Tokens per expert, padded starts, and cursors of a grouped pass.
    ExpertCounts { pairs: i32, lo: i32, hi: i32 },
    ExpertStarts { ne: i32 },
    ExpertCursors { ne: i32 },
    /// A grouped pass over the experts. Reads the columns, the ids, the weights, the starts and the cursors.
    GroupedExperts {
        block: Block,
        batch: usize,
        k: usize,
        ne: usize,
        h: usize,
        mi: usize,
        e_base: i32,
        e_span: i32,
    },
    /// Tokens in expert order, their weights, and where each went. Reads cursors, ids and weights.
    SortedTokens { pairs: i32, k: i32, lo: i32, hi: i32 },
    SortedWeights { pairs: i32, k: i32, lo: i32, hi: i32 },
    SortedPlaces { pairs: i32, k: i32, lo: i32, hi: i32 },
    /// Expert of every group of tokens.
    GroupExperts { ne: i32 },
    /// Columns in expert order. Reads the columns and the order.
    SortedColumns { h: i32, rows: i32 },
    /// A product with the experts of every group. Reads the columns and the groups' experts.
    GroupProduct { w: WeightId, outn: i32, inn: i32, e_base: i32, groups: i32 },
    /// Weighted sum over a token's experts, from expert order. Reads columns, weights and places.
    CombinedGroups { h: i32, k: i32, n: i32 },
    /// The gated shared expert, added. Reads the experts' sum, the shared expert and its gate.
    SharedAdded { h: i32, n: i32 },
    /// Two columns on top of each other.
    Joined { h: i32, n: i32 },
    /// Logits, penalized. Reads logits, tokens, counts and the three strengths.
    Penalized { vocab: i32, n: i32 },
    /// The likeliest token of every column.
    Likeliest { vocab: i32, n: i32 },
    /// A sampled token of every column, and its probability. Reads logits, temperatures, both bounds and
    /// seeds.
    Sampled { vocab: i32, n: i32 },
    SampledProb { vocab: i32, n: i32 },
    /// How likely every draft is accepted, and the token that replaces it. Reads logits, drafts, their
    /// probabilities, temperatures, both bounds and seeds.
    AcceptProb { vocab: i32, n: i32 },
    Replacement { vocab: i32, n: i32 },
    /// Negative log-likelihood. Reads logits and targets.
    Nll { vocab: i32, n: i32 },
    /// A run of bytes.
    Bytes { bytes: usize },
    Zeroed { bytes: usize },
    /// The cache entries of an accepted path, gathered. Reads the cache and the path's offsets.
    Gathered { len: i32, pos: i32, slot: i32, nkv: i32, stride: i32, hd: i32 },
    /// A cache with gathered entries put back side by side. Reads the cache and the entries.
    Compacted { len: i32, pos: i32, slot: i32, nkv: i32, stride: i32, hd: i32 },
    /// What a kernel of the single-token path makes.
    Single(SingleFun),
    /// An empty query tile: `part` 0 the output, 1 the maxima, 2 the sums.
    TileStart { part: int, br: i32, hd: i32, nh: i32 },
    /// Scores of one key tile. Reads keys and queries.
    TileScores {
        kcols: i32,
        rows: i32,
        hd: i32,
        key_stride: i64,
        q_ld: i32,
        q_stride: i64,
        bc: i32,
        s_stride: i64,
        nkv: i32,
    },
    /// One step of the online softmax: `part` 0 the weights, 1 the output, 2 the maxima, 3 the sums.
    TileSoftmax {
        part: int,
        br: i32,
        bc: i32,
        hd: i32,
        nh: i32,
        gqa: i32,
        r: i32,
        rows: i32,
        qpos: i32,
        s0: i32,
        pc: i32,
        nkv: i32,
    },
    /// Weighted values of one key tile, added. Reads the output, the weights and the values.
    TileValues {
        rows: i32,
        hd: i32,
        kcols: i32,
        bc: i32,
        p_stride: i64,
        v_stride: i64,
        br: i32,
        o_stride: i64,
        nkv: i32,
    },
    /// A finished query tile in its place. Reads what the output held, the tile and its sums.
    TileDone { br: i32, hd: i32, nh: i32, t0: i32, n: i32 },
}

/// What a piece of memory holds.
pub enum Val {
    /// The argument was left out.
    Absent,
    /// Nothing that anyone may rely on.
    Fresh,
    /// A host table.
    Uploaded(Table),
    /// One number, everywhere.
    Filled(i32),
    /// What stands from that byte on.
    Part(Box<Val>, u64),
    /// The first, but for what stands from that byte on.
    Patched(Box<Val>, u64, Box<Val>),
    /// The first elements summed over the ranks.
    Summing(Box<Val>, int),
    /// A partial that the peer may read.
    Published(Ptr, i32),
    /// A function's result.
    Made(Fun, Seq<Val>),
}

/// Device memory.
pub type Mem = Map<Region, Val>;

/// A function's result.
pub open spec fn made(f: Fun, args: Seq<Val>) -> Val {
    Val::Made(f, args)
}

/// A list of arguments.
pub open spec fn args1(a: Val) -> Seq<Val> {
    Seq::empty().push(a)
}

/// A list of arguments.
pub open spec fn args2(a: Val, b: Val) -> Seq<Val> {
    Seq::empty().push(a).push(b)
}

/// A list of arguments.
pub open spec fn args3(a: Val, b: Val, c: Val) -> Seq<Val> {
    Seq::empty().push(a).push(b).push(c)
}

/// A list of arguments.
pub open spec fn args4(a: Val, b: Val, c: Val, d: Val) -> Seq<Val> {
    Seq::empty().push(a).push(b).push(c).push(d)
}

/// A list of arguments.
pub open spec fn args5(a: Val, b: Val, c: Val, d: Val, e: Val) -> Seq<Val> {
    Seq::empty().push(a).push(b).push(c).push(d).push(e)
}

/// A list of arguments.
pub open spec fn args6(a: Val, b: Val, c: Val, d: Val, e: Val, f: Val) -> Seq<Val> {
    Seq::empty().push(a).push(b).push(c).push(d).push(e).push(f)
}

/// A list of arguments.
pub open spec fn args7(a: Val, b: Val, c: Val, d: Val, e: Val, f: Val, g: Val) -> Seq<Val> {
    Seq::empty().push(a).push(b).push(c).push(d).push(e).push(f).push(g)
}

/// What stands from byte `offset` on.
pub open spec fn part(v: Val, offset: u64) -> Val
    decreases v,
{
    if offset == 0 {
        v
    } else {
        match v {
            Val::Patched(_, o, w) => if o <= offset {
                part(*w, (offset - o) as u64)
            } else {
                Val::Part(Box::new(v), offset)
            },
            _ => Val::Part(Box::new(v), offset),
        }
    }
}

/// `v` with `w` written from byte `offset` on.
pub open spec fn patched(v: Val, offset: u64, w: Val) -> Val {
    if offset == 0 {
        w
    } else {
        match v {
            Val::Patched(u, o, _) => if o == offset {
                Val::Patched(u, offset, Box::new(w))
            } else {
                Val::Patched(Box::new(v), offset, Box::new(w))
            },
            _ => Val::Patched(Box::new(v), offset, Box::new(w)),
        }
    }
}

/// What the machine reads at `p`.
pub open spec fn read(s: Mem, p: Ptr) -> Val {
    if p.region is Null {
        Val::Absent
    } else {
        part(s[p.region], p.offset)
    }
}

/// The memory after `v` was written at `p`.
pub open spec fn put(s: Mem, p: Ptr, v: Val) -> Mem {
    if p.region is Null {
        s
    } else {
        s.insert(p.region, patched(s[p.region], p.offset, v))
    }
}

/// The value that a sum over the ranks starts from.
pub open spec fn summand(v: Val) -> Val {
    match v {
        Val::Summing(w, _) => *w,
        _ => v,
    }
}

/// A chunk of a sum over the ranks: it must have been published, and take up where the chunks before it
/// ended.
pub open spec fn sum_chunk(s: Mem, out: Ptr, src: Ptr, elems: i32, fp32: i32) -> Mem {
    let eb = if fp32 != 0 {
        4int
    } else {
        2int
    };
    let of = summand(s[src.region]);
    let done = out.offset as int / 2;
    if s[Region::TpContext] == Val::Published(src, (elems * eb) as i32) && out.offset == 2 * done
        && src.offset == eb * done && (done == 0 || s[out.region] == Val::Summing(Box::new(of), done)) {
        s.insert(out.region, Val::Summing(Box::new(of), done + elems))
    } else {
        s.insert(out.region, Val::Fresh)
    }
}

/// The attention that three partials add up to.
pub open spec fn attended(
    pm: Val,
    pl: Val,
    pa: Val,
    logical: Val,
    splits: i32,
    n: i32,
    nh: i32,
    nkv: i32,
    hd: i32,
) -> Val {
    match pm {
        Val::Made(Fun::Partial { part, n: n1, splits: s1, stride, nh: h1, nkv: k1, hd: d1 }, a) => {
            if part == 0 && n1 == n && s1 == splits && h1 == nh && k1 == nkv && d1 == hd && a.len() == 7
                && a[3] == logical && pl == made(
                Fun::Partial { part: 1, n, splits, stride, nh, nkv, hd },
                a,
            ) && pa == made(Fun::Partial { part: 2, n, splits, stride, nh, nkv, hd }, a) {
                made(Fun::Attended { n, splits, stride, nh, nkv, hd }, a)
            } else {
                Val::Fresh
            }
        },
        _ => Val::Fresh,
    }
}

/// A product by the vendor library.
pub open spec fn blas(s: Mem, w: Ptr, x: Val, m: i32, n: i32, k: i32) -> Val {
    match (w.region, read(s, w)) {
        (Region::Weight(id, crate::gpu::program::Part::Packed), _) => if w.offset == 0 {
            made(Fun::Product { w: id, outn: m, inn: k, n, rounded: true }, args1(x))
        } else {
            made(Fun::Blas { m, n, k }, args2(read(s, w), x))
        },
        (_, Val::Made(Fun::Expanded { w: id, outn, inn }, _)) => if outn == m && inn == k {
            made(Fun::Product { w: id, outn: m, inn: k, n, rounded: true }, args1(x))
        } else {
            made(Fun::Blas { m, n, k }, args2(read(s, w), x))
        },
        (_, v) => made(Fun::Blas { m, n, k }, args2(v, x)),
    }
}

/// A product into `out`, or unrounded into `acc`.
pub open spec fn product(
    s: Mem,
    out: Ptr,
    w: WeightId,
    x: Ptr,
    outn: i32,
    inn: i32,
    n: i32,
    acc: Ptr,
) -> Mem {
    let x = read(s, x);
    put(
        put(s, out, made(Fun::Product { w, outn, inn, n, rounded: true }, args1(x))),
        acc,
        made(Fun::Product { w, outn, inn, n, rounded: false }, args1(x)),
    )
}

/// Gathers the rotary angles of `n` positions.
pub open spec fn do_gather_rope(s: Mem, cos: Ptr, sin: Ptr, pos: Ptr, rdim: i32, n: i32) -> Mem {
    let p = read(s, pos);
    put(
        put(s, cos, made(Fun::Cos { rdim, n }, args2(s[Region::CosTable], p))),
        sin,
        made(Fun::Sin { rdim, n }, args2(s[Region::SinTable], p)),
    )
}

/// Root-mean-square norm of `n` columns.
pub open spec fn do_rmsnorm(s: Mem, out: Ptr, x: Ptr, w: Ptr, h: i32, n: i32, eps: u32) -> Mem {
    put(
        s,
        out,
        made(Fun::Normed { h, n, eps }, args2(read(s, x), read(s, w))),
    )
}

/// Adds into the residual, then norms it.
pub open spec fn do_fused_res_rmsnorm(
    s: Mem,
    out: Ptr,
    residual: Ptr,
    add: Ptr,
    w: Ptr,
    h: i32,
    n: i32,
    eps: u32,
) -> Mem {
    let sum = made(Fun::Added { tot: (h * n) as i32 }, args2(read(s, residual), read(s, add)));
    put(
        put(s, residual, sum),
        out,
        made(Fun::Normed { h, n, eps }, args2(sum, read(s, w))),
    )
}

/// Adds into the residual.
pub open spec fn do_add_residual(s: Mem, residual: Ptr, add: Ptr, tot: i32) -> Mem {
    put(
        s,
        residual,
        made(Fun::Added { tot }, args2(read(s, residual), read(s, add))),
    )
}

/// Gated activation of the dense MLP.
pub open spec fn do_silu_mul(s: Mem, gate: Ptr, up: Ptr, tot: i32) -> Mem {
    put(
        s,
        gate,
        made(Fun::SiluTimes { tot }, args2(read(s, gate), read(s, up))),
    )
}

/// Splits the fused attention projection.
pub open spec fn do_split_qkv(
    s: Mem,
    qg: Ptr,
    k: Ptr,
    v: Ptr,
    fused: Ptr,
    qrows: i32,
    kvrows: i32,
    n: i32,
) -> Mem {
    let f = args1(read(s, fused));
    put(
        put(
            put(s, qg, made(Fun::Rows { part: 0, qrows, kvrows, n }, f)),
            k,
            made(Fun::Rows { part: 1, qrows, kvrows, n }, f),
        ),
        v,
        made(Fun::Rows { part: 2, qrows, kvrows, n }, f),
    )
}

/// Splits queries from their gates.
pub open spec fn do_split_qgate(
    s: Mem,
    q: Ptr,
    gate: Ptr,
    qg: Ptr,
    nh: i32,
    hd: i32,
    n: i32,
) -> Mem {
    let x = args1(read(s, qg));
    put(
        put(s, q, made(Fun::Queries { nh, hd, n }, x)),
        gate,
        made(Fun::Gates { nh, hd, n }, x),
    )
}

/// Norms every head in place.
pub open spec fn do_rmsnorm_perhead(
    s: Mem,
    x: Ptr,
    w: Ptr,
    nh: i32,
    hd: i32,
    n: i32,
    eps: u32,
) -> Mem {
    put(
        s,
        x,
        made(Fun::HeadNormed { nh, hd, n, eps }, args2(read(s, x), read(s, w))),
    )
}

/// Rotates every head in place.
pub open spec fn do_rope(
    s: Mem,
    x: Ptr,
    cos: Ptr,
    sin: Ptr,
    nh: i32,
    hd: i32,
    rdim: i32,
    n: i32,
) -> Mem {
    put(
        s,
        x,
        made(Fun::Rotated { nh, hd, rdim, n }, args3(read(s, x), read(s, cos), read(s, sin))),
    )
}

/// Writes a run of KV entries of one lane.
pub open spec fn do_write_kv_prefill(
    s: Mem,
    kc: Ptr,
    vc: Ptr,
    k: Ptr,
    v: Ptr,
    stride: i32,
    nkv: i32,
    hd: i32,
    n: i32,
    pos: i32,
) -> Mem {
    let f = Fun::StoredRun { stride, nkv, hd, n, pos };
    put(
        put(s, kc, made(f, args2(read(s, kc), read(s, k)))),
        vc,
        made(f, args2(read(s, vc), read(s, v))),
    )
}

/// Writes one KV entry per column.
pub open spec fn do_write_kv(
    s: Mem,
    kc: Ptr,
    vc: Ptr,
    k: Ptr,
    v: Ptr,
    pos: Ptr,
    stride: i32,
    nkv: i32,
    hd: i32,
    n: i32,
    slots: Ptr,
) -> Mem {
    let f = Fun::Stored { stride, nkv, hd, n };
    let (p, l) = (read(s, pos), read(s, slots));
    put(
        put(s, kc, made(f, args4(read(s, kc), read(s, k), p, l))),
        vc,
        made(f, args4(read(s, vc), read(s, v), p, l)),
    )
}

/// Causal attention of a short run of columns.
pub open spec fn do_attn_prefill(
    s: Mem,
    attn: Ptr,
    q: Ptr,
    kc: Ptr,
    vc: Ptr,
    stride: i32,
    nh: i32,
    nkv: i32,
    hd: i32,
    n: i32,
    pos: i32,
) -> Mem {
    put(
        s,
        attn,
        made(
            Fun::AttendedRun { stride, nh, nkv, hd, n, pos },
            args3(read(s, q), read(s, kc), read(s, vc)),
        ),
    )
}

/// Attention partials, one block per column, head and split.
pub open spec fn do_attn_splitk(
    s: Mem,
    pm: Ptr,
    pl: Ptr,
    pa: Ptr,
    q: Ptr,
    kc: Ptr,
    vc: Ptr,
    logical: Ptr,
    n: i32,
    splits: i32,
    stride: i32,
    nh: i32,
    nkv: i32,
    hd: i32,
    slots: Ptr,
    path: Ptr,
    starts: Ptr,
) -> Mem {
    let a = args7(
        read(s, q),
        read(s, kc),
        read(s, vc),
        read(s, logical),
        read(s, slots),
        read(s, path),
        read(s, starts),
    );
    put(
        put(
            put(s, pm, made(Fun::Partial { part: 0, n, splits, stride, nh, nkv, hd }, a)),
            pl,
            made(Fun::Partial { part: 1, n, splits, stride, nh, nkv, hd }, a),
        ),
        pa,
        made(Fun::Partial { part: 2, n, splits, stride, nh, nkv, hd }, a),
    )
}

/// Merges the partials of every column and head.
pub open spec fn do_attn_reduce(
    s: Mem,
    attn: Ptr,
    pm: Ptr,
    pl: Ptr,
    pa: Ptr,
    logical: Ptr,
    splits: i32,
    n: i32,
    nh: i32,
    nkv: i32,
    hd: i32,
) -> Mem {
    put(
        s,
        attn,
        attended(
            read(s, pm),
            read(s, pl),
            read(s, pa),
            read(s, logical),
            splits,
            n,
            nh,
            nkv,
            hd,
        ),
    )
}

/// Gates the attention output.
pub open spec fn do_sigmoid_gate(s: Mem, attn: Ptr, gate: Ptr, tot: i32) -> Mem {
    put(
        s,
        attn,
        made(Fun::SigmoidGated { tot }, args2(read(s, attn), read(s, gate))),
    )
}

/// Splits the fused linear-attention projection.
pub open spec fn do_split_gdn(
    s: Mem,
    qkv: Ptr,
    z: Ptr,
    b: Ptr,
    a: Ptr,
    fused: Ptr,
    conv_dim: i32,
    value_dim: i32,
    nh: i32,
    n: i32,
    full_nv: i32,
    head0: i32,
) -> Mem {
    let f = |part: int| Fun::GdnPart { part, conv_dim, value_dim, nh, n, full_nv, head0 };
    let x = args1(read(s, fused));
    put(
        put(put(put(s, qkv, made(f(0), x)), z, made(f(1), x)), b, made(f(2), x)),
        a,
        made(f(3), x),
    )
}

/// One convolution step per lane.
pub open spec fn do_conv1d(
    s: Mem,
    qkv: Ptr,
    state: Ptr,
    w: Ptr,
    conv_dim: i32,
    ck: i32,
    n: i32,
    slots: Ptr,
) -> Mem {
    let a = args4(read(s, qkv), read(s, state), read(s, w), read(s, slots));
    put(
        put(s, qkv, made(Fun::Convolved { conv_dim, ck, n }, a)),
        state,
        made(Fun::WindowStep { conv_dim, ck, n }, a),
    )
}

/// One recurrence step per lane.
pub open spec fn do_delta_step(
    s: Mem,
    core: Ptr,
    qkv: Ptr,
    state: Ptr,
    b: Ptr,
    a: Ptr,
    nh: i32,
    nk: i32,
    kd: i32,
    vd: i32,
    a_log: Ptr,
    dt_bias: Ptr,
    slots: Ptr,
    visits: Ptr,
    n: i32,
) -> Mem {
    let x = args7(
        read(s, qkv),
        read(s, state),
        read(s, b),
        read(s, a),
        read(s, a_log),
        read(s, dt_bias),
        read(s, slots),
    );
    put(
        put(
            put(s, core, made(Fun::Recurred { nh, nk, kd, vd, n }, x)),
            state,
            made(Fun::StateStep { nh, nk, kd, vd, n }, x),
        ),
        visits,
        made(Fun::Visited { nh, n }, args1(read(s, visits))),
    )
}

/// Gated norm of the recurrence output.
pub open spec fn do_rmsnorm_gated(
    s: Mem,
    out: Ptr,
    x: Ptr,
    z: Ptr,
    w: Ptr,
    vd: i32,
    nh: i32,
    n: i32,
    eps: u32,
) -> Mem {
    put(
        s,
        out,
        made(Fun::GatedNormed { vd, nh, n, eps }, args3(read(s, x), read(s, z), read(s, w))),
    )
}

/// Convolution of a run of columns, out of place.
pub open spec fn do_conv1d_prefill(
    s: Mem,
    out: Ptr,
    x: Ptr,
    state: Ptr,
    w: Ptr,
    conv_dim: i32,
    ck: i32,
    n: i32,
    mid: Ptr,
    winsrc: Ptr,
    slots: Ptr,
) -> Mem {
    let a = args5(read(s, x), read(s, state), read(s, w), read(s, winsrc), read(s, slots));
    put(
        put(s, out, made(Fun::ConvolvedRun { conv_dim, ck, n }, a)),
        mid,
        made(Fun::ColumnWindows { conv_dim, ck, n }, a),
    )
}

/// Carries a run's final window into the state.
pub open spec fn do_conv1d_state(
    s: Mem,
    state: Ptr,
    x: Ptr,
    conv_dim: i32,
    ck: i32,
    last: i32,
    len: i32,
    slots: Ptr,
) -> Mem {
    put(
        s,
        state,
        made(
            Fun::Carried { conv_dim, ck, last, len },
            args3(read(s, state), read(s, x), read(s, slots)),
        ),
    )
}

/// Recurrence over a run of columns.
pub open spec fn do_delta_prefill(
    s: Mem,
    core: Ptr,
    qkv: Ptr,
    state: Ptr,
    b: Ptr,
    a: Ptr,
    nh: i32,
    kd: i32,
    vd: i32,
    a_log: Ptr,
    dt_bias: Ptr,
    n: i32,
    nk: i32,
    mid: Ptr,
    parent: Ptr,
) -> Mem {
    let x = args7(
        read(s, qkv),
        read(s, state),
        read(s, b),
        read(s, a),
        read(s, a_log),
        read(s, dt_bias),
        read(s, parent),
    );
    put(
        put(
            put(s, core, made(Fun::RecurredRun { nh, nk, kd, vd, n }, x)),
            state,
            made(Fun::StateRun { nh, nk, kd, vd, n }, x),
        ),
        mid,
        made(Fun::ColumnStates { nh, nk, kd, vd, n }, x),
    )
}

/// 4-bit matrix product at decode width.
pub open spec fn do_gemm_fp4(
    s: Mem,
    out: Ptr,
    w: WeightId,
    x: Ptr,
    outn: i32,
    inn: i32,
    n: i32,
    acc: Ptr,
) -> Mem {
    product(s, out, w, x, outn, inn, n, acc)
}

/// 8-bit matrix product at decode width.
pub open spec fn do_gemm_fp8(
    s: Mem,
    out: Ptr,
    w: WeightId,
    x: Ptr,
    outn: i32,
    inn: i32,
    n: i32,
    acc: Ptr,
) -> Mem {
    product(s, out, w, x, outn, inn, n, acc)
}

/// Batch-invariant bf16 matrix product.
pub open spec fn do_gemm_binv(
    s: Mem,
    out: Ptr,
    w: WeightId,
    x: Ptr,
    outn: i32,
    inn: i32,
    n: i32,
) -> Mem {
    put(
        s,
        out,
        made(Fun::Product { w, outn, inn, n, rounded: true }, args1(read(s, x))),
    )
}

/// Expands a 4-bit weight.
pub open spec fn do_dequant_fp4(s: Mem, out: Ptr, w: WeightId, outn: i32, inn: i32) -> Mem {
    put(
        s,
        out,
        made(Fun::Expanded { w, outn, inn }, Seq::empty()),
    )
}

/// Expands an 8-bit weight.
pub open spec fn do_dequant_fp8(s: Mem, out: Ptr, w: WeightId, outn: i32, inn: i32) -> Mem {
    put(
        s,
        out,
        made(Fun::Expanded { w, outn, inn }, Seq::empty()),
    )
}

/// Gathers embedding rows.
pub open spec fn do_embed_bf16(s: Mem, out: Ptr, toks: Ptr, h: i32, n: i32) -> Mem {
    put(
        s,
        out,
        made(Fun::Embedded { h, n }, args1(read(s, toks))),
    )
}

/// Gathers 4-bit embedding rows.
pub open spec fn do_embed_fp4(s: Mem, out: Ptr, toks: Ptr, h: i32, n: i32) -> Mem {
    put(
        s,
        out,
        made(Fun::Embedded { h, n }, args1(read(s, toks))),
    )
}

/// Gathers 8-bit embedding rows.
pub open spec fn do_embed_fp8(s: Mem, out: Ptr, toks: Ptr, h: i32, n: i32) -> Mem {
    put(
        s,
        out,
        made(Fun::Embedded { h, n }, args1(read(s, toks))),
    )
}

/// Greedy token of every column.
pub open spec fn do_argmax(s: Mem, out: Ptr, logits: Ptr, vocab: i32, n: i32) -> Mem {
    put(
        s,
        out,
        made(Fun::Likeliest { vocab, n }, args1(read(s, logits))),
    )
}

/// Penalizes recently emitted tokens.
pub open spec fn do_rep_penalty(
    s: Mem,
    logits: Ptr,
    tokens: Ptr,
    counts: Ptr,
    rep: Ptr,
    presence: Ptr,
    freq: Ptr,
    vocab: i32,
    n: i32,
) -> Mem {
    put(
        s,
        logits,
        made(
            Fun::Penalized { vocab, n },
            args6(
                read(s, logits),
                read(s, tokens),
                read(s, counts),
                read(s, rep),
                read(s, presence),
                read(s, freq),
            ),
        ),
    )
}

/// Samples every column.
pub open spec fn do_sample(
    s: Mem,
    out: Ptr,
    logits: Ptr,
    temps: Ptr,
    topk: Ptr,
    topp: Ptr,
    seeds: Ptr,
    vocab: i32,
    n: i32,
) -> Mem {
    put(
        s,
        out,
        made(
            Fun::Sampled { vocab, n },
            args5(read(s, logits), read(s, temps), read(s, topk), read(s, topp), read(s, seeds)),
        ),
    )
}

/// Samples every column and reports the probability.
pub open spec fn do_sample_prob(
    s: Mem,
    out: Ptr,
    prob: Ptr,
    logits: Ptr,
    temps: Ptr,
    topk: Ptr,
    topp: Ptr,
    seeds: Ptr,
    vocab: i32,
    n: i32,
) -> Mem {
    let a = args5(
        read(s, logits),
        read(s, temps),
        read(s, topk),
        read(s, topp),
        read(s, seeds),
    );
    put(
        put(s, out, made(Fun::Sampled { vocab, n }, a)),
        prob,
        made(Fun::SampledProb { vocab, n }, a),
    )
}

/// Judges drafts against the target distribution.
pub open spec fn do_spec_verify(
    s: Mem,
    prob: Ptr,
    resid: Ptr,
    logits: Ptr,
    drafts: Ptr,
    qprob: Ptr,
    temps: Ptr,
    topk: Ptr,
    topp: Ptr,
    seeds: Ptr,
    vocab: i32,
    n: i32,
) -> Mem {
    let a = args7(
        read(s, logits),
        read(s, drafts),
        read(s, qprob),
        read(s, temps),
        read(s, topk),
        read(s, topp),
        read(s, seeds),
    );
    put(
        put(s, prob, made(Fun::AcceptProb { vocab, n }, a)),
        resid,
        made(Fun::Replacement { vocab, n }, a),
    )
}

/// Negative log-likelihood of the targets.
pub open spec fn do_nll(s: Mem, out: Ptr, logits: Ptr, targets: Ptr, vocab: i32, n: i32) -> Mem {
    put(
        s,
        out,
        made(Fun::Nll { vocab, n }, args2(read(s, logits), read(s, targets))),
    )
}

/// Picks and weighs the experts of every token.
pub open spec fn do_moe_router_topk(
    s: Mem,
    ids: Ptr,
    wts: Ptr,
    logits: Ptr,
    ne: i32,
    k: i32,
    n: i32,
) -> Mem {
    let l = args1(read(s, logits));
    put(
        put(s, ids, made(Fun::ExpertIds { ne, k, n }, l)),
        wts,
        made(Fun::ExpertWeights { ne, k, n }, l),
    )
}

/// Runs bf16 experts token by token.
pub open spec fn do_moe_experts(
    s: Mem,
    out: Ptr,
    x: Ptr,
    ids: Ptr,
    wts: Ptr,
    gate_up: WeightId,
    down: WeightId,
    h: i32,
    mi: i32,
    k: i32,
    n: i32,
) -> Mem {
    put(
        s,
        out,
        made(
            Fun::Experts { gate_up, down, h, mi, k, n },
            args3(read(s, x), read(s, ids), read(s, wts)),
        ),
    )
}

/// Expert product, one block row per token and slot.
pub open spec fn do_moe_gemm(
    s: Mem,
    out: Ptr,
    w: WeightId,
    x: Ptr,
    ids: Ptr,
    outn: i32,
    inn: i32,
    k: i32,
    per_slot: i32,
    e_base: i32,
    e_span: i32,
    pairs: i32,
) -> Mem {
    put(
        s,
        out,
        made(
            Fun::ExpertProduct { w, outn, inn, k, per_slot, e_base, e_span, pairs },
            args2(read(s, x), read(s, ids)),
        ),
    )
}

/// Gated activation of the experts.
pub open spec fn do_moe_silu(s: Mem, out: Ptr, x: Ptr, mi: i32, rows: i32) -> Mem {
    put(
        s,
        out,
        made(Fun::ExpertSilu { mi, rows }, args1(read(s, x))),
    )
}

/// Weighted sum over a token's experts.
pub open spec fn do_moe_combine(s: Mem, out: Ptr, x: Ptr, wts: Ptr, h: i32, k: i32, n: i32) -> Mem {
    put(
        s,
        out,
        made(Fun::Combined { h, k, n }, args2(read(s, x), read(s, wts))),
    )
}

/// Counts tokens per expert.
pub open spec fn do_moe_count(s: Mem, count: Ptr, ids: Ptr, pairs: i32, lo: i32, hi: i32) -> Mem {
    put(
        s,
        count,
        made(Fun::ExpertCounts { pairs, lo, hi }, args1(read(s, ids))),
    )
}

/// Padded start of every expert's group.
pub open spec fn do_moe_offsets(s: Mem, poff: Ptr, cursor: Ptr, count: Ptr, ne: i32) -> Mem {
    let c = args1(read(s, count));
    put(
        put(s, poff, made(Fun::ExpertStarts { ne }, c)),
        cursor,
        made(Fun::ExpertCursors { ne }, c),
    )
}

/// Sorts tokens by expert.
pub open spec fn do_moe_scatter(
    s: Mem,
    perm: Ptr,
    wt: Ptr,
    inv: Ptr,
    cursor: Ptr,
    ids: Ptr,
    wts: Ptr,
    pairs: i32,
    k: i32,
    lo: i32,
    hi: i32,
) -> Mem {
    let a = args3(read(s, cursor), read(s, ids), read(s, wts));
    put(
        put(
            put(s, perm, made(Fun::SortedTokens { pairs, k, lo, hi }, a)),
            wt,
            made(Fun::SortedWeights { pairs, k, lo, hi }, a),
        ),
        inv,
        made(Fun::SortedPlaces { pairs, k, lo, hi }, a),
    )
}

/// Expert of every token group.
pub open spec fn do_moe_tilemap(s: Mem, tile: Ptr, poff: Ptr, ne: i32) -> Mem {
    put(
        s,
        tile,
        made(Fun::GroupExperts { ne }, args1(read(s, poff))),
    )
}

/// Gathers tokens in expert order.
pub open spec fn do_moe_gather_x(s: Mem, out: Ptr, x: Ptr, perm: Ptr, h: i32, rows: i32) -> Mem {
    put(
        s,
        out,
        made(Fun::SortedColumns { h, rows }, args2(read(s, x), read(s, perm))),
    )
}

/// Expert product over groups of sixteen tokens.
pub open spec fn do_moe_grouped(
    s: Mem,
    out: Ptr,
    w: WeightId,
    x: Ptr,
    tile: Ptr,
    outn: i32,
    inn: i32,
    e_base: i32,
    groups: i32,
) -> Mem {
    put(
        s,
        out,
        made(
            Fun::GroupProduct { w, outn, inn, e_base, groups },
            args2(read(s, x), read(s, tile)),
        ),
    )
}

/// Weighted sum over a token's experts, from expert order.
pub open spec fn do_moe_combine_grouped(
    s: Mem,
    out: Ptr,
    x: Ptr,
    wt: Ptr,
    inv: Ptr,
    h: i32,
    k: i32,
    n: i32,
) -> Mem {
    put(
        s,
        out,
        made(Fun::CombinedGroups { h, k, n }, args3(read(s, x), read(s, wt), read(s, inv))),
    )
}

/// Adds the gated shared expert.
pub open spec fn do_moe_shared_combine(
    s: Mem,
    out: Ptr,
    shared: Ptr,
    gate: Ptr,
    h: i32,
    n: i32,
) -> Mem {
    put(
        s,
        out,
        made(Fun::SharedAdded { h, n }, args3(read(s, out), read(s, shared), read(s, gate))),
    )
}

/// Stacks two columns.
pub open spec fn do_concat(s: Mem, out: Ptr, first: Ptr, second: Ptr, h: i32, n: i32) -> Mem {
    put(
        s,
        out,
        made(Fun::Joined { h, n }, args2(read(s, first), read(s, second))),
    )
}

/// Publishes this rank's partial.
pub open spec fn do_tp_signal(s: Mem, src: Ptr, bytes: i32) -> Mem {
    s.insert(Region::TpContext, Val::Published(src, bytes))
}

/// Adds the partials in rank order.
pub open spec fn do_tp_wait_add(s: Mem, out: Ptr, src: Ptr, elems: i32, fp32: i32) -> Mem {
    sum_chunk(s, out, src, elems, fp32)
}

/// Gathers or scatters the KV entries of an accepted path.
pub open spec fn do_compact_kv(
    s: Mem,
    kc: Ptr,
    vc: Ptr,
    ks: Ptr,
    vs: Ptr,
    src: Ptr,
    len: i32,
    pos: i32,
    slot: i32,
    nkv: i32,
    stride: i32,
    hd: i32,
    dir: i32,
) -> Mem {
    let gathered = |cache: Ptr|
        made(
            Fun::Gathered { len, pos, slot, nkv, stride, hd },
            args2(read(s, cache), read(s, src)),
        );
    let compacted = |cache: Ptr, entries: Ptr|
        made(
            Fun::Compacted { len, pos, slot, nkv, stride, hd },
            args2(read(s, cache), read(s, entries)),
        );
    if dir == 0 {
        put(put(s, ks, gathered(kc)), vs, gathered(vc))
    } else {
        put(put(s, kc, compacted(kc, ks)), vc, compacted(vc, vs))
    }
}

/// Clears a query tile.
pub open spec fn do_attn_tile_init(
    s: Mem,
    o: Ptr,
    m: Ptr,
    l: Ptr,
    br: i32,
    hd: i32,
    nh: i32,
) -> Mem {
    let f = |part: int| made(Fun::TileStart { part, br, hd, nh }, Seq::empty());
    put(put(put(s, o, f(0)), m, f(1)), l, f(2))
}

/// Online softmax of one key tile.
pub open spec fn do_attn_softmax_tile(
    s: Mem,
    sc: Ptr,
    p: Ptr,
    o: Ptr,
    m: Ptr,
    l: Ptr,
    br: i32,
    bc: i32,
    hd: i32,
    nh: i32,
    gqa: i32,
    r: i32,
    rows: i32,
    qpos: i32,
    s0: i32,
    pc: i32,
    nkv: i32,
) -> Mem {
    let a = args4(read(s, sc), read(s, o), read(s, m), read(s, l));
    let f = |part: int|
        made(
            Fun::TileSoftmax { part, br, bc, hd, nh, gqa, r, rows, qpos, s0, pc, nkv },
            a,
        );
    put(put(put(put(s, p, f(0)), o, f(1)), m, f(2)), l, f(3))
}

/// Normalizes a query tile into the output.
pub open spec fn do_attn_finalize(
    s: Mem,
    attn: Ptr,
    o: Ptr,
    l: Ptr,
    br: i32,
    hd: i32,
    nh: i32,
    t0: i32,
    n: i32,
) -> Mem {
    put(
        s,
        attn,
        made(
            Fun::TileDone { br, hd, nh, t0, n },
            args3(read(s, attn), read(s, o), read(s, l)),
        ),
    )
}

/// What a launch does.
#[verifier::opaque]
pub open spec fn launch(s: Mem, c: Call) -> Mem {
    match c {
        Call::GatherRope { cos, sin, pos, rdim, n } => do_gather_rope(s, cos, sin, pos, rdim, n),
        Call::Rmsnorm { out, x, w, h, n, eps } => do_rmsnorm(s, out, x, w, h, n, eps),
        Call::FusedResRmsnorm { out, residual, add, w, h, n, eps } => do_fused_res_rmsnorm(
            s,
            out,
            residual,
            add,
            w,
            h,
            n,
            eps,
        ),
        Call::AddResidual { residual, add, tot } => do_add_residual(s, residual, add, tot),
        Call::SiluMul { gate, up, tot } => do_silu_mul(s, gate, up, tot),
        Call::SplitQkv { qg, k, v, fused, qrows, kvrows, n } => do_split_qkv(
            s,
            qg,
            k,
            v,
            fused,
            qrows,
            kvrows,
            n,
        ),
        Call::SplitQgate { q, gate, qg, nh, hd, n } => do_split_qgate(s, q, gate, qg, nh, hd, n),
        Call::RmsnormPerhead { x, w, nh, hd, n, eps } => do_rmsnorm_perhead(
            s,
            x,
            w,
            nh,
            hd,
            n,
            eps,
        ),
        Call::Rope { x, cos, sin, nh, hd, rdim, n } => do_rope(s, x, cos, sin, nh, hd, rdim, n),
        Call::WriteKvPrefill { kc, vc, k, v, stride, nkv, hd, n, pos } => do_write_kv_prefill(
            s,
            kc,
            vc,
            k,
            v,
            stride,
            nkv,
            hd,
            n,
            pos,
        ),
        Call::WriteKv { kc, vc, k, v, pos, stride, nkv, hd, n, slots } => do_write_kv(
            s,
            kc,
            vc,
            k,
            v,
            pos,
            stride,
            nkv,
            hd,
            n,
            slots,
        ),
        Call::AttnPrefill { attn, q, kc, vc, stride, nh, nkv, hd, n, pos } => do_attn_prefill(
            s,
            attn,
            q,
            kc,
            vc,
            stride,
            nh,
            nkv,
            hd,
            n,
            pos,
        ),
        Call::AttnSplitk {
            pm,
            pl,
            pa,
            q,
            kc,
            vc,
            logical,
            n,
            splits,
            stride,
            nh,
            nkv,
            hd,
            slots,
            path,
            starts,
        } => do_attn_splitk(s, pm, pl, pa, q, kc, vc, logical, n, splits, stride, nh, nkv, hd, slots, path, starts),
        Call::AttnReduce { attn, pm, pl, pa, logical, splits, n, nh, nkv, hd } => do_attn_reduce(
            s,
            attn,
            pm,
            pl,
            pa,
            logical,
            splits,
            n,
            nh,
            nkv,
            hd,
        ),
        Call::SigmoidGate { attn, gate, tot } => do_sigmoid_gate(s, attn, gate, tot),
        Call::SplitGdn {
            qkv,
            z,
            b,
            a,
            fused,
            conv_dim,
            value_dim,
            nh,
            n,
            full_nv,
            head0,
        } => do_split_gdn(
            s,
            qkv,
            z,
            b,
            a,
            fused,
            conv_dim,
            value_dim,
            nh,
            n,
            full_nv,
            head0,
        ),
        Call::Conv1d { qkv, state, w, conv_dim, ck, n, slots } => do_conv1d(
            s,
            qkv,
            state,
            w,
            conv_dim,
            ck,
            n,
            slots,
        ),
        Call::DeltaStep {
            core,
            qkv,
            state,
            b,
            a,
            nh,
            nk,
            kd,
            vd,
            a_log,
            dt_bias,
            slots,
            visits,
            n,
        } => do_delta_step(
            s,
            core,
            qkv,
            state,
            b,
            a,
            nh,
            nk,
            kd,
            vd,
            a_log,
            dt_bias,
            slots,
            visits,
            n,
        ),
        Call::RmsnormGated { out, x, z, w, vd, nh, n, eps } => do_rmsnorm_gated(
            s,
            out,
            x,
            z,
            w,
            vd,
            nh,
            n,
            eps,
        ),
        Call::Conv1dPrefill {
            out,
            x,
            state,
            w,
            conv_dim,
            ck,
            n,
            mid,
            winsrc,
            slots,
        } => do_conv1d_prefill(
            s,
            out,
            x,
            state,
            w,
            conv_dim,
            ck,
            n,
            mid,
            winsrc,
            slots,
        ),
        Call::Conv1dState { state, x, conv_dim, ck, last, len, slots } => do_conv1d_state(
            s,
            state,
            x,
            conv_dim,
            ck,
            last,
            len,
            slots,
        ),
        Call::DeltaPrefill {
            core,
            qkv,
            state,
            b,
            a,
            nh,
            kd,
            vd,
            a_log,
            dt_bias,
            n,
            nk,
            mid,
            parent,
        } => do_delta_prefill(s, core, qkv, state, b, a, nh, kd, vd, a_log, dt_bias, n, nk, mid, parent),
        Call::GemmFp4 { out, w, x, outn, inn, n, acc } => do_gemm_fp4(
            s,
            out,
            w,
            x,
            outn,
            inn,
            n,
            acc,
        ),
        Call::GemmFp8 { out, w, x, outn, inn, n, acc } => do_gemm_fp8(
            s,
            out,
            w,
            x,
            outn,
            inn,
            n,
            acc,
        ),
        Call::GemmBinv { out, w, x, outn, inn, n } => do_gemm_binv(s, out, w, x, outn, inn, n),
        Call::DequantFp4 { out, w, outn, inn } => do_dequant_fp4(s, out, w, outn, inn),
        Call::DequantFp8 { out, w, outn, inn } => do_dequant_fp8(s, out, w, outn, inn),
        Call::EmbedBf16 { out, toks, h, n } => do_embed_bf16(s, out, toks, h, n),
        Call::EmbedFp4 { out, toks, h, n } => do_embed_fp4(s, out, toks, h, n),
        Call::EmbedFp8 { out, toks, h, n } => do_embed_fp8(s, out, toks, h, n),
        Call::Argmax { out, logits, vocab, n } => do_argmax(s, out, logits, vocab, n),
        Call::RepPenalty {
            logits,
            tokens,
            counts,
            rep,
            presence,
            freq,
            vocab,
            n,
        } => do_rep_penalty(
            s,
            logits,
            tokens,
            counts,
            rep,
            presence,
            freq,
            vocab,
            n,
        ),
        Call::Sample { out, logits, temps, topk, topp, seeds, vocab, n } => do_sample(
            s,
            out,
            logits,
            temps,
            topk,
            topp,
            seeds,
            vocab,
            n,
        ),
        Call::SampleProb {
            out,
            prob,
            logits,
            temps,
            topk,
            topp,
            seeds,
            vocab,
            n,
        } => do_sample_prob(
            s,
            out,
            prob,
            logits,
            temps,
            topk,
            topp,
            seeds,
            vocab,
            n,
        ),
        Call::SpecVerify {
            prob,
            resid,
            logits,
            drafts,
            qprob,
            temps,
            topk,
            topp,
            seeds,
            vocab,
            n,
        } => do_spec_verify(
            s,
            prob,
            resid,
            logits,
            drafts,
            qprob,
            temps,
            topk,
            topp,
            seeds,
            vocab,
            n,
        ),
        Call::Nll { out, logits, targets, vocab, n } => do_nll(s, out, logits, targets, vocab, n),
        Call::MoeRouterTopk { ids, wts, logits, ne, k, n } => do_moe_router_topk(
            s,
            ids,
            wts,
            logits,
            ne,
            k,
            n,
        ),
        Call::MoeExperts { out, x, ids, wts, gate_up, down, h, mi, k, n } => do_moe_experts(
            s,
            out,
            x,
            ids,
            wts,
            gate_up,
            down,
            h,
            mi,
            k,
            n,
        ),
        Call::MoeGemm {
            out,
            w,
            x,
            ids,
            outn,
            inn,
            k,
            per_slot,
            e_base,
            e_span,
            pairs,
        } => do_moe_gemm(
            s,
            out,
            w,
            x,
            ids,
            outn,
            inn,
            k,
            per_slot,
            e_base,
            e_span,
            pairs,
        ),
        Call::MoeSilu { out, x, mi, rows } => do_moe_silu(s, out, x, mi, rows),
        Call::MoeCombine { out, x, wts, h, k, n } => do_moe_combine(s, out, x, wts, h, k, n),
        Call::MoeCount { count, ids, pairs, lo, hi } => do_moe_count(s, count, ids, pairs, lo, hi),
        Call::MoeOffsets { poff, cursor, count, ne } => do_moe_offsets(s, poff, cursor, count, ne),
        Call::MoeScatter { perm, wt, inv, cursor, ids, wts, pairs, k, lo, hi } => do_moe_scatter(
            s,
            perm,
            wt,
            inv,
            cursor,
            ids,
            wts,
            pairs,
            k,
            lo,
            hi,
        ),
        Call::MoeTilemap { tile, poff, ne } => do_moe_tilemap(s, tile, poff, ne),
        Call::MoeGatherX { out, x, perm, h, rows } => do_moe_gather_x(s, out, x, perm, h, rows),
        Call::MoeGrouped { out, w, x, tile, outn, inn, e_base, groups } => do_moe_grouped(
            s,
            out,
            w,
            x,
            tile,
            outn,
            inn,
            e_base,
            groups,
        ),
        Call::MoeCombineGrouped { out, x, wt, inv, h, k, n } => do_moe_combine_grouped(
            s,
            out,
            x,
            wt,
            inv,
            h,
            k,
            n,
        ),
        Call::MoeSharedCombine { out, shared, gate, h, n } => do_moe_shared_combine(
            s,
            out,
            shared,
            gate,
            h,
            n,
        ),
        Call::Concat { out, first, second, h, n } => do_concat(s, out, first, second, h, n),
        Call::TpSignal { src, bytes } => do_tp_signal(s, src, bytes),
        Call::TpWaitAdd { out, src, elems, fp32 } => do_tp_wait_add(s, out, src, elems, fp32),
        Call::CompactKv {
            kc,
            vc,
            ks,
            vs,
            src,
            len,
            pos,
            slot,
            nkv,
            stride,
            hd,
            dir,
        } => do_compact_kv(
            s,
            kc,
            vc,
            ks,
            vs,
            src,
            len,
            pos,
            slot,
            nkv,
            stride,
            hd,
            dir,
        ),
        Call::AttnTileInit { o, m, l, br, hd, nh } => do_attn_tile_init(s, o, m, l, br, hd, nh),
        Call::AttnSoftmaxTile {
            s: sc,
            p,
            o,
            m,
            l,
            br,
            bc,
            hd,
            nh,
            gqa,
            r,
            rows,
            qpos,
            s0,
            pc,
            nkv,
        } => do_attn_softmax_tile(
            s,
            sc,
            p,
            o,
            m,
            l,
            br,
            bc,
            hd,
            nh,
            gqa,
            r,
            rows,
            qpos,
            s0,
            pc,
            nkv,
        ),
        Call::AttnFinalize { attn, o, l, br, hd, nh, t0, n } => do_attn_finalize(
            s,
            attn,
            o,
            l,
            br,
            hd,
            nh,
            t0,
            n,
        ),
    }
}

/// What a launch of that kernel does.
pub broadcast proof fn lemma_do_gather_rope(s: Mem, cos: Ptr, sin: Ptr, pos: Ptr, rdim: i32, n: i32)
    ensures
        #[trigger] launch(s, Call::GatherRope { cos, sin, pos, rdim, n }) == do_gather_rope(
            s,
            cos,
            sin,
            pos,
            rdim,
            n,
        ),
{
    reveal(launch);
}

/// What a launch of that kernel does.
pub broadcast proof fn lemma_do_rmsnorm(s: Mem, out: Ptr, x: Ptr, w: Ptr, h: i32, n: i32, eps: u32)
    ensures
        #[trigger] launch(s, Call::Rmsnorm { out, x, w, h, n, eps }) == do_rmsnorm(
            s,
            out,
            x,
            w,
            h,
            n,
            eps,
        ),
{
    reveal(launch);
}

/// What a launch of that kernel does.
pub broadcast proof fn lemma_do_fused_res_rmsnorm(
    s: Mem,
    out: Ptr,
    residual: Ptr,
    add: Ptr,
    w: Ptr,
    h: i32,
    n: i32,
    eps: u32,
)
    ensures
        #[trigger] launch(
            s,
            Call::FusedResRmsnorm { out, residual, add, w, h, n, eps },
        ) == do_fused_res_rmsnorm(
            s,
            out,
            residual,
            add,
            w,
            h,
            n,
            eps,
        ),
{
    reveal(launch);
}

/// What a launch of that kernel does.
pub broadcast proof fn lemma_do_add_residual(s: Mem, residual: Ptr, add: Ptr, tot: i32)
    ensures
        #[trigger] launch(s, Call::AddResidual { residual, add, tot }) == do_add_residual(
            s,
            residual,
            add,
            tot,
        ),
{
    reveal(launch);
}

/// What a launch of that kernel does.
pub broadcast proof fn lemma_do_silu_mul(s: Mem, gate: Ptr, up: Ptr, tot: i32)
    ensures
        #[trigger] launch(s, Call::SiluMul { gate, up, tot }) == do_silu_mul(s, gate, up, tot),
{
    reveal(launch);
}

/// What a launch of that kernel does.
pub broadcast proof fn lemma_do_split_qkv(
    s: Mem,
    qg: Ptr,
    k: Ptr,
    v: Ptr,
    fused: Ptr,
    qrows: i32,
    kvrows: i32,
    n: i32,
)
    ensures
        #[trigger] launch(s, Call::SplitQkv { qg, k, v, fused, qrows, kvrows, n }) == do_split_qkv(
            s,
            qg,
            k,
            v,
            fused,
            qrows,
            kvrows,
            n,
        ),
{
    reveal(launch);
}

/// What a launch of that kernel does.
pub broadcast proof fn lemma_do_split_qgate(
    s: Mem,
    q: Ptr,
    gate: Ptr,
    qg: Ptr,
    nh: i32,
    hd: i32,
    n: i32,
)
    ensures
        #[trigger] launch(s, Call::SplitQgate { q, gate, qg, nh, hd, n }) == do_split_qgate(
            s,
            q,
            gate,
            qg,
            nh,
            hd,
            n,
        ),
{
    reveal(launch);
}

/// What a launch of that kernel does.
pub broadcast proof fn lemma_do_rmsnorm_perhead(
    s: Mem,
    x: Ptr,
    w: Ptr,
    nh: i32,
    hd: i32,
    n: i32,
    eps: u32,
)
    ensures
        #[trigger] launch(s, Call::RmsnormPerhead { x, w, nh, hd, n, eps }) == do_rmsnorm_perhead(
            s,
            x,
            w,
            nh,
            hd,
            n,
            eps,
        ),
{
    reveal(launch);
}

/// What a launch of that kernel does.
pub broadcast proof fn lemma_do_rope(
    s: Mem,
    x: Ptr,
    cos: Ptr,
    sin: Ptr,
    nh: i32,
    hd: i32,
    rdim: i32,
    n: i32,
)
    ensures
        #[trigger] launch(s, Call::Rope { x, cos, sin, nh, hd, rdim, n }) == do_rope(
            s,
            x,
            cos,
            sin,
            nh,
            hd,
            rdim,
            n,
        ),
{
    reveal(launch);
}

/// What a launch of that kernel does.
pub broadcast proof fn lemma_do_write_kv_prefill(
    s: Mem,
    kc: Ptr,
    vc: Ptr,
    k: Ptr,
    v: Ptr,
    stride: i32,
    nkv: i32,
    hd: i32,
    n: i32,
    pos: i32,
)
    ensures
        #[trigger] launch(
            s,
            Call::WriteKvPrefill { kc, vc, k, v, stride, nkv, hd, n, pos },
        ) == do_write_kv_prefill(
            s,
            kc,
            vc,
            k,
            v,
            stride,
            nkv,
            hd,
            n,
            pos,
        ),
{
    reveal(launch);
}

/// What a launch of that kernel does.
pub broadcast proof fn lemma_do_write_kv(
    s: Mem,
    kc: Ptr,
    vc: Ptr,
    k: Ptr,
    v: Ptr,
    pos: Ptr,
    stride: i32,
    nkv: i32,
    hd: i32,
    n: i32,
    slots: Ptr,
)
    ensures
        #[trigger] launch(
            s,
            Call::WriteKv { kc, vc, k, v, pos, stride, nkv, hd, n, slots },
        ) == do_write_kv(
            s,
            kc,
            vc,
            k,
            v,
            pos,
            stride,
            nkv,
            hd,
            n,
            slots,
        ),
{
    reveal(launch);
}

/// What a launch of that kernel does.
pub broadcast proof fn lemma_do_attn_prefill(
    s: Mem,
    attn: Ptr,
    q: Ptr,
    kc: Ptr,
    vc: Ptr,
    stride: i32,
    nh: i32,
    nkv: i32,
    hd: i32,
    n: i32,
    pos: i32,
)
    ensures
        #[trigger] launch(
            s,
            Call::AttnPrefill { attn, q, kc, vc, stride, nh, nkv, hd, n, pos },
        ) == do_attn_prefill(
            s,
            attn,
            q,
            kc,
            vc,
            stride,
            nh,
            nkv,
            hd,
            n,
            pos,
        ),
{
    reveal(launch);
}

/// What a launch of that kernel does.
pub broadcast proof fn lemma_do_attn_splitk(
    s: Mem,
    pm: Ptr,
    pl: Ptr,
    pa: Ptr,
    q: Ptr,
    kc: Ptr,
    vc: Ptr,
    logical: Ptr,
    n: i32,
    splits: i32,
    stride: i32,
    nh: i32,
    nkv: i32,
    hd: i32,
    slots: Ptr,
    path: Ptr,
    starts: Ptr,
)
    ensures
        #[trigger] launch(s, Call::AttnSplitk {
                pm,
                pl,
                pa,
                q,
                kc,
                vc,
                logical,
                n,
                splits,
                stride,
                nh,
                nkv,
                hd,
                slots,
                path,
                starts,
            }) == do_attn_splitk(s, pm, pl, pa, q, kc, vc, logical, n, splits, stride, nh, nkv, hd, slots, path, starts),
{
    reveal(launch);
}

/// What a launch of that kernel does.
pub broadcast proof fn lemma_do_attn_reduce(
    s: Mem,
    attn: Ptr,
    pm: Ptr,
    pl: Ptr,
    pa: Ptr,
    logical: Ptr,
    splits: i32,
    n: i32,
    nh: i32,
    nkv: i32,
    hd: i32,
)
    ensures
        #[trigger] launch(
            s,
            Call::AttnReduce { attn, pm, pl, pa, logical, splits, n, nh, nkv, hd },
        ) == do_attn_reduce(
            s,
            attn,
            pm,
            pl,
            pa,
            logical,
            splits,
            n,
            nh,
            nkv,
            hd,
        ),
{
    reveal(launch);
}

/// What a launch of that kernel does.
pub broadcast proof fn lemma_do_sigmoid_gate(s: Mem, attn: Ptr, gate: Ptr, tot: i32)
    ensures
        #[trigger] launch(s, Call::SigmoidGate { attn, gate, tot }) == do_sigmoid_gate(
            s,
            attn,
            gate,
            tot,
        ),
{
    reveal(launch);
}

/// What a launch of that kernel does.
pub broadcast proof fn lemma_do_split_gdn(
    s: Mem,
    qkv: Ptr,
    z: Ptr,
    b: Ptr,
    a: Ptr,
    fused: Ptr,
    conv_dim: i32,
    value_dim: i32,
    nh: i32,
    n: i32,
    full_nv: i32,
    head0: i32,
)
    ensures
        #[trigger] launch(
            s,
            Call::SplitGdn { qkv, z, b, a, fused, conv_dim, value_dim, nh, n, full_nv, head0 },
        ) == do_split_gdn(
            s,
            qkv,
            z,
            b,
            a,
            fused,
            conv_dim,
            value_dim,
            nh,
            n,
            full_nv,
            head0,
        ),
{
    reveal(launch);
}

/// What a launch of that kernel does.
pub broadcast proof fn lemma_do_conv1d(
    s: Mem,
    qkv: Ptr,
    state: Ptr,
    w: Ptr,
    conv_dim: i32,
    ck: i32,
    n: i32,
    slots: Ptr,
)
    ensures
        #[trigger] launch(s, Call::Conv1d { qkv, state, w, conv_dim, ck, n, slots }) == do_conv1d(
            s,
            qkv,
            state,
            w,
            conv_dim,
            ck,
            n,
            slots,
        ),
{
    reveal(launch);
}

/// What a launch of that kernel does.
pub broadcast proof fn lemma_do_delta_step(
    s: Mem,
    core: Ptr,
    qkv: Ptr,
    state: Ptr,
    b: Ptr,
    a: Ptr,
    nh: i32,
    nk: i32,
    kd: i32,
    vd: i32,
    a_log: Ptr,
    dt_bias: Ptr,
    slots: Ptr,
    visits: Ptr,
    n: i32,
)
    ensures
        #[trigger] launch(
            s,
            Call::DeltaStep {
                core,
                qkv,
                state,
                b,
                a,
                nh,
                nk,
                kd,
                vd,
                a_log,
                dt_bias,
                slots,
                visits,
                n,
            },
        ) == do_delta_step(
            s,
            core,
            qkv,
            state,
            b,
            a,
            nh,
            nk,
            kd,
            vd,
            a_log,
            dt_bias,
            slots,
            visits,
            n,
        ),
{
    reveal(launch);
}

/// What a launch of that kernel does.
pub broadcast proof fn lemma_do_rmsnorm_gated(
    s: Mem,
    out: Ptr,
    x: Ptr,
    z: Ptr,
    w: Ptr,
    vd: i32,
    nh: i32,
    n: i32,
    eps: u32,
)
    ensures
        #[trigger] launch(
            s,
            Call::RmsnormGated { out, x, z, w, vd, nh, n, eps },
        ) == do_rmsnorm_gated(
            s,
            out,
            x,
            z,
            w,
            vd,
            nh,
            n,
            eps,
        ),
{
    reveal(launch);
}

/// What a launch of that kernel does.
pub broadcast proof fn lemma_do_conv1d_prefill(
    s: Mem,
    out: Ptr,
    x: Ptr,
    state: Ptr,
    w: Ptr,
    conv_dim: i32,
    ck: i32,
    n: i32,
    mid: Ptr,
    winsrc: Ptr,
    slots: Ptr,
)
    ensures
        #[trigger] launch(
            s,
            Call::Conv1dPrefill { out, x, state, w, conv_dim, ck, n, mid, winsrc, slots },
        ) == do_conv1d_prefill(
            s,
            out,
            x,
            state,
            w,
            conv_dim,
            ck,
            n,
            mid,
            winsrc,
            slots,
        ),
{
    reveal(launch);
}

/// What a launch of that kernel does.
pub broadcast proof fn lemma_do_conv1d_state(
    s: Mem,
    state: Ptr,
    x: Ptr,
    conv_dim: i32,
    ck: i32,
    last: i32,
    len: i32,
    slots: Ptr,
)
    ensures
        #[trigger] launch(
            s,
            Call::Conv1dState { state, x, conv_dim, ck, last, len, slots },
        ) == do_conv1d_state(
            s,
            state,
            x,
            conv_dim,
            ck,
            last,
            len,
            slots,
        ),
{
    reveal(launch);
}

/// What a launch of that kernel does.
pub broadcast proof fn lemma_do_delta_prefill(
    s: Mem,
    core: Ptr,
    qkv: Ptr,
    state: Ptr,
    b: Ptr,
    a: Ptr,
    nh: i32,
    kd: i32,
    vd: i32,
    a_log: Ptr,
    dt_bias: Ptr,
    n: i32,
    nk: i32,
    mid: Ptr,
    parent: Ptr,
)
    ensures
        #[trigger] launch(s, Call::DeltaPrefill {
                core,
                qkv,
                state,
                b,
                a,
                nh,
                kd,
                vd,
                a_log,
                dt_bias,
                n,
                nk,
                mid,
                parent,
            }) == do_delta_prefill(s, core, qkv, state, b, a, nh, kd, vd, a_log, dt_bias, n, nk, mid, parent),
{
    reveal(launch);
}

/// What a launch of that kernel does.
pub broadcast proof fn lemma_do_gemm_fp4(
    s: Mem,
    out: Ptr,
    w: WeightId,
    x: Ptr,
    outn: i32,
    inn: i32,
    n: i32,
    acc: Ptr,
)
    ensures
        #[trigger] launch(s, Call::GemmFp4 { out, w, x, outn, inn, n, acc }) == do_gemm_fp4(
            s,
            out,
            w,
            x,
            outn,
            inn,
            n,
            acc,
        ),
{
    reveal(launch);
}

/// What a launch of that kernel does.
pub broadcast proof fn lemma_do_gemm_fp8(
    s: Mem,
    out: Ptr,
    w: WeightId,
    x: Ptr,
    outn: i32,
    inn: i32,
    n: i32,
    acc: Ptr,
)
    ensures
        #[trigger] launch(s, Call::GemmFp8 { out, w, x, outn, inn, n, acc }) == do_gemm_fp8(
            s,
            out,
            w,
            x,
            outn,
            inn,
            n,
            acc,
        ),
{
    reveal(launch);
}

/// What a launch of that kernel does.
pub broadcast proof fn lemma_do_gemm_binv(
    s: Mem,
    out: Ptr,
    w: WeightId,
    x: Ptr,
    outn: i32,
    inn: i32,
    n: i32,
)
    ensures
        #[trigger] launch(s, Call::GemmBinv { out, w, x, outn, inn, n }) == do_gemm_binv(
            s,
            out,
            w,
            x,
            outn,
            inn,
            n,
        ),
{
    reveal(launch);
}

/// What a launch of that kernel does.
pub broadcast proof fn lemma_do_dequant_fp4(s: Mem, out: Ptr, w: WeightId, outn: i32, inn: i32)
    ensures
        #[trigger] launch(s, Call::DequantFp4 { out, w, outn, inn }) == do_dequant_fp4(
            s,
            out,
            w,
            outn,
            inn,
        ),
{
    reveal(launch);
}

/// What a launch of that kernel does.
pub broadcast proof fn lemma_do_dequant_fp8(s: Mem, out: Ptr, w: WeightId, outn: i32, inn: i32)
    ensures
        #[trigger] launch(s, Call::DequantFp8 { out, w, outn, inn }) == do_dequant_fp8(
            s,
            out,
            w,
            outn,
            inn,
        ),
{
    reveal(launch);
}

/// What a launch of that kernel does.
pub broadcast proof fn lemma_do_embed_bf16(s: Mem, out: Ptr, toks: Ptr, h: i32, n: i32)
    ensures
        #[trigger] launch(s, Call::EmbedBf16 { out, toks, h, n }) == do_embed_bf16(
            s,
            out,
            toks,
            h,
            n,
        ),
{
    reveal(launch);
}

/// What a launch of that kernel does.
pub broadcast proof fn lemma_do_embed_fp4(s: Mem, out: Ptr, toks: Ptr, h: i32, n: i32)
    ensures
        #[trigger] launch(s, Call::EmbedFp4 { out, toks, h, n }) == do_embed_fp4(
            s,
            out,
            toks,
            h,
            n,
        ),
{
    reveal(launch);
}

/// What a launch of that kernel does.
pub broadcast proof fn lemma_do_embed_fp8(s: Mem, out: Ptr, toks: Ptr, h: i32, n: i32)
    ensures
        #[trigger] launch(s, Call::EmbedFp8 { out, toks, h, n }) == do_embed_fp8(
            s,
            out,
            toks,
            h,
            n,
        ),
{
    reveal(launch);
}

/// What a launch of that kernel does.
pub broadcast proof fn lemma_do_argmax(s: Mem, out: Ptr, logits: Ptr, vocab: i32, n: i32)
    ensures
        #[trigger] launch(s, Call::Argmax { out, logits, vocab, n }) == do_argmax(
            s,
            out,
            logits,
            vocab,
            n,
        ),
{
    reveal(launch);
}

/// What a launch of that kernel does.
pub broadcast proof fn lemma_do_rep_penalty(
    s: Mem,
    logits: Ptr,
    tokens: Ptr,
    counts: Ptr,
    rep: Ptr,
    presence: Ptr,
    freq: Ptr,
    vocab: i32,
    n: i32,
)
    ensures
        #[trigger] launch(
            s,
            Call::RepPenalty { logits, tokens, counts, rep, presence, freq, vocab, n },
        ) == do_rep_penalty(
            s,
            logits,
            tokens,
            counts,
            rep,
            presence,
            freq,
            vocab,
            n,
        ),
{
    reveal(launch);
}

/// What a launch of that kernel does.
pub broadcast proof fn lemma_do_sample(
    s: Mem,
    out: Ptr,
    logits: Ptr,
    temps: Ptr,
    topk: Ptr,
    topp: Ptr,
    seeds: Ptr,
    vocab: i32,
    n: i32,
)
    ensures
        #[trigger] launch(
            s,
            Call::Sample { out, logits, temps, topk, topp, seeds, vocab, n },
        ) == do_sample(
            s,
            out,
            logits,
            temps,
            topk,
            topp,
            seeds,
            vocab,
            n,
        ),
{
    reveal(launch);
}

/// What a launch of that kernel does.
pub broadcast proof fn lemma_do_sample_prob(
    s: Mem,
    out: Ptr,
    prob: Ptr,
    logits: Ptr,
    temps: Ptr,
    topk: Ptr,
    topp: Ptr,
    seeds: Ptr,
    vocab: i32,
    n: i32,
)
    ensures
        #[trigger] launch(
            s,
            Call::SampleProb { out, prob, logits, temps, topk, topp, seeds, vocab, n },
        ) == do_sample_prob(
            s,
            out,
            prob,
            logits,
            temps,
            topk,
            topp,
            seeds,
            vocab,
            n,
        ),
{
    reveal(launch);
}

/// What a launch of that kernel does.
pub broadcast proof fn lemma_do_spec_verify(
    s: Mem,
    prob: Ptr,
    resid: Ptr,
    logits: Ptr,
    drafts: Ptr,
    qprob: Ptr,
    temps: Ptr,
    topk: Ptr,
    topp: Ptr,
    seeds: Ptr,
    vocab: i32,
    n: i32,
)
    ensures
        #[trigger] launch(
            s,
            Call::SpecVerify {
                prob,
                resid,
                logits,
                drafts,
                qprob,
                temps,
                topk,
                topp,
                seeds,
                vocab,
                n,
            },
        ) == do_spec_verify(
            s,
            prob,
            resid,
            logits,
            drafts,
            qprob,
            temps,
            topk,
            topp,
            seeds,
            vocab,
            n,
        ),
{
    reveal(launch);
}

/// What a launch of that kernel does.
pub broadcast proof fn lemma_do_nll(s: Mem, out: Ptr, logits: Ptr, targets: Ptr, vocab: i32, n: i32)
    ensures
        #[trigger] launch(s, Call::Nll { out, logits, targets, vocab, n }) == do_nll(
            s,
            out,
            logits,
            targets,
            vocab,
            n,
        ),
{
    reveal(launch);
}

/// What a launch of that kernel does.
pub broadcast proof fn lemma_do_moe_router_topk(
    s: Mem,
    ids: Ptr,
    wts: Ptr,
    logits: Ptr,
    ne: i32,
    k: i32,
    n: i32,
)
    ensures
        #[trigger] launch(
            s,
            Call::MoeRouterTopk { ids, wts, logits, ne, k, n },
        ) == do_moe_router_topk(
            s,
            ids,
            wts,
            logits,
            ne,
            k,
            n,
        ),
{
    reveal(launch);
}

/// What a launch of that kernel does.
pub broadcast proof fn lemma_do_moe_experts(
    s: Mem,
    out: Ptr,
    x: Ptr,
    ids: Ptr,
    wts: Ptr,
    gate_up: WeightId,
    down: WeightId,
    h: i32,
    mi: i32,
    k: i32,
    n: i32,
)
    ensures
        #[trigger] launch(
            s,
            Call::MoeExperts { out, x, ids, wts, gate_up, down, h, mi, k, n },
        ) == do_moe_experts(
            s,
            out,
            x,
            ids,
            wts,
            gate_up,
            down,
            h,
            mi,
            k,
            n,
        ),
{
    reveal(launch);
}

/// What a launch of that kernel does.
pub broadcast proof fn lemma_do_moe_gemm(
    s: Mem,
    out: Ptr,
    w: WeightId,
    x: Ptr,
    ids: Ptr,
    outn: i32,
    inn: i32,
    k: i32,
    per_slot: i32,
    e_base: i32,
    e_span: i32,
    pairs: i32,
)
    ensures
        #[trigger] launch(
            s,
            Call::MoeGemm { out, w, x, ids, outn, inn, k, per_slot, e_base, e_span, pairs },
        ) == do_moe_gemm(
            s,
            out,
            w,
            x,
            ids,
            outn,
            inn,
            k,
            per_slot,
            e_base,
            e_span,
            pairs,
        ),
{
    reveal(launch);
}

/// What a launch of that kernel does.
pub broadcast proof fn lemma_do_moe_silu(s: Mem, out: Ptr, x: Ptr, mi: i32, rows: i32)
    ensures
        #[trigger] launch(s, Call::MoeSilu { out, x, mi, rows }) == do_moe_silu(
            s,
            out,
            x,
            mi,
            rows,
        ),
{
    reveal(launch);
}

/// What a launch of that kernel does.
pub broadcast proof fn lemma_do_moe_combine(
    s: Mem,
    out: Ptr,
    x: Ptr,
    wts: Ptr,
    h: i32,
    k: i32,
    n: i32,
)
    ensures
        #[trigger] launch(s, Call::MoeCombine { out, x, wts, h, k, n }) == do_moe_combine(
            s,
            out,
            x,
            wts,
            h,
            k,
            n,
        ),
{
    reveal(launch);
}

/// What a launch of that kernel does.
pub broadcast proof fn lemma_do_moe_count(
    s: Mem,
    count: Ptr,
    ids: Ptr,
    pairs: i32,
    lo: i32,
    hi: i32,
)
    ensures
        #[trigger] launch(s, Call::MoeCount { count, ids, pairs, lo, hi }) == do_moe_count(
            s,
            count,
            ids,
            pairs,
            lo,
            hi,
        ),
{
    reveal(launch);
}

/// What a launch of that kernel does.
pub broadcast proof fn lemma_do_moe_offsets(s: Mem, poff: Ptr, cursor: Ptr, count: Ptr, ne: i32)
    ensures
        #[trigger] launch(s, Call::MoeOffsets { poff, cursor, count, ne }) == do_moe_offsets(
            s,
            poff,
            cursor,
            count,
            ne,
        ),
{
    reveal(launch);
}

/// What a launch of that kernel does.
pub broadcast proof fn lemma_do_moe_scatter(
    s: Mem,
    perm: Ptr,
    wt: Ptr,
    inv: Ptr,
    cursor: Ptr,
    ids: Ptr,
    wts: Ptr,
    pairs: i32,
    k: i32,
    lo: i32,
    hi: i32,
)
    ensures
        #[trigger] launch(
            s,
            Call::MoeScatter { perm, wt, inv, cursor, ids, wts, pairs, k, lo, hi },
        ) == do_moe_scatter(
            s,
            perm,
            wt,
            inv,
            cursor,
            ids,
            wts,
            pairs,
            k,
            lo,
            hi,
        ),
{
    reveal(launch);
}

/// What a launch of that kernel does.
pub broadcast proof fn lemma_do_moe_tilemap(s: Mem, tile: Ptr, poff: Ptr, ne: i32)
    ensures
        #[trigger] launch(s, Call::MoeTilemap { tile, poff, ne }) == do_moe_tilemap(
            s,
            tile,
            poff,
            ne,
        ),
{
    reveal(launch);
}

/// What a launch of that kernel does.
pub broadcast proof fn lemma_do_moe_gather_x(s: Mem, out: Ptr, x: Ptr, perm: Ptr, h: i32, rows: i32)
    ensures
        #[trigger] launch(s, Call::MoeGatherX { out, x, perm, h, rows }) == do_moe_gather_x(
            s,
            out,
            x,
            perm,
            h,
            rows,
        ),
{
    reveal(launch);
}

/// What a launch of that kernel does.
pub broadcast proof fn lemma_do_moe_grouped(
    s: Mem,
    out: Ptr,
    w: WeightId,
    x: Ptr,
    tile: Ptr,
    outn: i32,
    inn: i32,
    e_base: i32,
    groups: i32,
)
    ensures
        #[trigger] launch(
            s,
            Call::MoeGrouped { out, w, x, tile, outn, inn, e_base, groups },
        ) == do_moe_grouped(
            s,
            out,
            w,
            x,
            tile,
            outn,
            inn,
            e_base,
            groups,
        ),
{
    reveal(launch);
}

/// What a launch of that kernel does.
pub broadcast proof fn lemma_do_moe_combine_grouped(
    s: Mem,
    out: Ptr,
    x: Ptr,
    wt: Ptr,
    inv: Ptr,
    h: i32,
    k: i32,
    n: i32,
)
    ensures
        #[trigger] launch(
            s,
            Call::MoeCombineGrouped { out, x, wt, inv, h, k, n },
        ) == do_moe_combine_grouped(
            s,
            out,
            x,
            wt,
            inv,
            h,
            k,
            n,
        ),
{
    reveal(launch);
}

/// What a launch of that kernel does.
pub broadcast proof fn lemma_do_moe_shared_combine(
    s: Mem,
    out: Ptr,
    shared: Ptr,
    gate: Ptr,
    h: i32,
    n: i32,
)
    ensures
        #[trigger] launch(
            s,
            Call::MoeSharedCombine { out, shared, gate, h, n },
        ) == do_moe_shared_combine(
            s,
            out,
            shared,
            gate,
            h,
            n,
        ),
{
    reveal(launch);
}

/// What a launch of that kernel does.
pub broadcast proof fn lemma_do_concat(s: Mem, out: Ptr, first: Ptr, second: Ptr, h: i32, n: i32)
    ensures
        #[trigger] launch(s, Call::Concat { out, first, second, h, n }) == do_concat(
            s,
            out,
            first,
            second,
            h,
            n,
        ),
{
    reveal(launch);
}

/// What a launch of that kernel does.
pub broadcast proof fn lemma_do_tp_signal(s: Mem, src: Ptr, bytes: i32)
    ensures
        #[trigger] launch(s, Call::TpSignal { src, bytes }) == do_tp_signal(s, src, bytes),
{
    reveal(launch);
}

/// What a launch of that kernel does.
pub broadcast proof fn lemma_do_tp_wait_add(s: Mem, out: Ptr, src: Ptr, elems: i32, fp32: i32)
    ensures
        #[trigger] launch(s, Call::TpWaitAdd { out, src, elems, fp32 }) == do_tp_wait_add(
            s,
            out,
            src,
            elems,
            fp32,
        ),
{
    reveal(launch);
}

/// What a launch of that kernel does.
pub broadcast proof fn lemma_do_compact_kv(
    s: Mem,
    kc: Ptr,
    vc: Ptr,
    ks: Ptr,
    vs: Ptr,
    src: Ptr,
    len: i32,
    pos: i32,
    slot: i32,
    nkv: i32,
    stride: i32,
    hd: i32,
    dir: i32,
)
    ensures
        #[trigger] launch(
            s,
            Call::CompactKv { kc, vc, ks, vs, src, len, pos, slot, nkv, stride, hd, dir },
        ) == do_compact_kv(
            s,
            kc,
            vc,
            ks,
            vs,
            src,
            len,
            pos,
            slot,
            nkv,
            stride,
            hd,
            dir,
        ),
{
    reveal(launch);
}

/// What a launch of that kernel does.
pub broadcast proof fn lemma_do_attn_tile_init(
    s: Mem,
    o: Ptr,
    m: Ptr,
    l: Ptr,
    br: i32,
    hd: i32,
    nh: i32,
)
    ensures
        #[trigger] launch(s, Call::AttnTileInit { o, m, l, br, hd, nh }) == do_attn_tile_init(
            s,
            o,
            m,
            l,
            br,
            hd,
            nh,
        ),
{
    reveal(launch);
}

/// What a launch of that kernel does.
pub broadcast proof fn lemma_do_attn_softmax_tile(
    s: Mem,
    sc: Ptr,
    p: Ptr,
    o: Ptr,
    m: Ptr,
    l: Ptr,
    br: i32,
    bc: i32,
    hd: i32,
    nh: i32,
    gqa: i32,
    r: i32,
    rows: i32,
    qpos: i32,
    s0: i32,
    pc: i32,
    nkv: i32,
)
    ensures
        #[trigger] launch(
            s,
            Call::AttnSoftmaxTile {
                s: sc,
                p,
                o,
                m,
                l,
                br,
                bc,
                hd,
                nh,
                gqa,
                r,
                rows,
                qpos,
                s0,
                pc,
                nkv,
            },
        ) == do_attn_softmax_tile(
            s,
            sc,
            p,
            o,
            m,
            l,
            br,
            bc,
            hd,
            nh,
            gqa,
            r,
            rows,
            qpos,
            s0,
            pc,
            nkv,
        ),
{
    reveal(launch);
}

/// What a launch of that kernel does.
pub broadcast proof fn lemma_do_attn_finalize(
    s: Mem,
    attn: Ptr,
    o: Ptr,
    l: Ptr,
    br: i32,
    hd: i32,
    nh: i32,
    t0: i32,
    n: i32,
)
    ensures
        #[trigger] launch(
            s,
            Call::AttnFinalize { attn, o, l, br, hd, nh, t0, n },
        ) == do_attn_finalize(
            s,
            attn,
            o,
            l,
            br,
            hd,
            nh,
            t0,
            n,
        ),
{
    reveal(launch);
}

/// What one step does.
#[verifier::opaque]
pub open spec fn exec(s: Mem, op: Op) -> Mem {
    match op {
        Op::Get { id, .. } => s.insert(Region::Temp(id), Val::Fresh),
        Op::Release { id, .. } => s.insert(Region::Temp(id), Val::Fresh),
        Op::Alloc { id, .. } => s.insert(Region::Temp(id), Val::Filled(0)),
        Op::Alloc16 { id, .. } => s.insert(Region::Temp(id), Val::Fresh),
        Op::Upload { table, dst } => put(s, dst, Val::Uploaded(table)),
        Op::UploadNew { table, id } => s.insert(Region::Temp(id), Val::Uploaded(table)),
        Op::Fill { dst, value, .. } => put(s, dst, Val::Filled(value)),
        Op::Launch(c) => launch(s, c),
        Op::Blas { w, x, out, m, n, k } => put(s, out, blas(s, w, read(s, x), m, n, k)),
        Op::BlasScores {
            keys,
            q,
            s: sc,
            kcols,
            rows,
            hd,
            key_stride,
            q_ld,
            q_stride,
            bc,
            s_stride,
            nkv,
        } => put(
            s,
            sc,
            made(
                Fun::TileScores { kcols, rows, hd, key_stride, q_ld, q_stride, bc, s_stride, nkv },
                args2(read(s, keys), read(s, q)),
            ),
        ),
        Op::BlasValues {
            p,
            values,
            o,
            rows,
            hd,
            kcols,
            bc,
            p_stride,
            v_stride,
            br,
            o_stride,
            nkv,
        } => put(
            s,
            o,
            made(
                Fun::TileValues { rows, hd, kcols, bc, p_stride, v_stride, br, o_stride, nkv },
                args3(read(s, o), read(s, p), read(s, values)),
            ),
        ),
        Op::Copy { dst, src, bytes } => put(
            s,
            dst,
            made(Fun::Bytes { bytes }, args1(read(s, src))),
        ),
        Op::Zero { dst, bytes } => put(s, dst, made(Fun::Zeroed { bytes }, Seq::empty())),
        Op::Grouped(g) => put(s, g.out, grouped(s, g)),
        Op::Single(c) => single(s, c),
        Op::Sync | Op::Capture { .. } => s,
    }
}

/// What that step does.
pub broadcast proof fn lemma_get(s: Mem, id: usize, width: Width, len: usize)
    ensures
        #[trigger] exec(s, Op::Get { id, width, len }) == s.insert(Region::Temp(id), Val::Fresh),
{
    reveal(exec);
}

/// What that step does.
pub broadcast proof fn lemma_release(s: Mem, id: usize, width: Width, len: usize)
    ensures
        #[trigger] exec(s, Op::Release { id, width, len }) == s.insert(
            Region::Temp(id),
            Val::Fresh,
        ),
{
    reveal(exec);
}

/// What that step does.
pub broadcast proof fn lemma_alloc(s: Mem, id: usize, len: usize)
    ensures
        #[trigger] exec(s, Op::Alloc { id, len }) == s.insert(Region::Temp(id), Val::Filled(0)),
{
    reveal(exec);
}

/// What that step does.
pub broadcast proof fn lemma_alloc16(s: Mem, id: usize, len: usize)
    ensures
        #[trigger] exec(s, Op::Alloc16 { id, len }) == s.insert(Region::Temp(id), Val::Fresh),
{
    reveal(exec);
}

/// What that step does.
pub broadcast proof fn lemma_upload(s: Mem, table: Table, dst: Ptr)
    ensures
        #[trigger] exec(s, Op::Upload { table, dst }) == put(s, dst, Val::Uploaded(table)),
{
    reveal(exec);
}

/// What that step does.
pub broadcast proof fn lemma_upload_new(s: Mem, table: Table, id: usize)
    ensures
        #[trigger] exec(s, Op::UploadNew { table, id }) == s.insert(
            Region::Temp(id),
            Val::Uploaded(table),
        ),
{
    reveal(exec);
}

/// What that step does.
pub broadcast proof fn lemma_fill(s: Mem, dst: Ptr, value: i32, len: usize)
    ensures
        #[trigger] exec(s, Op::Fill { dst, value, len }) == put(s, dst, Val::Filled(value)),
{
    reveal(exec);
}

/// What that step does.
pub broadcast proof fn lemma_launch(s: Mem, c: Call)
    ensures
        #[trigger] exec(s, Op::Launch(c)) == launch(s, c),
{
    reveal(exec);
}

/// What that step does.
pub broadcast proof fn lemma_blas(s: Mem, w: Ptr, x: Ptr, out: Ptr, m: i32, n: i32, k: i32)
    ensures
        #[trigger] exec(s, Op::Blas { w, x, out, m, n, k }) == put(
            s,
            out,
            blas(s, w, read(s, x), m, n, k),
        ),
{
    reveal(exec);
}

/// What that step does.
pub broadcast proof fn lemma_copy(s: Mem, dst: Ptr, src: Ptr, bytes: usize)
    ensures
        #[trigger] exec(s, Op::Copy { dst, src, bytes }) == put(
            s,
            dst,
            made(Fun::Bytes { bytes }, args1(read(s, src))),
        ),
{
    reveal(exec);
}

/// What that step does.
pub broadcast proof fn lemma_zero(s: Mem, dst: Ptr, bytes: usize)
    ensures
        #[trigger] exec(s, Op::Zero { dst, bytes }) == put(
            s,
            dst,
            made(Fun::Zeroed { bytes }, Seq::empty()),
        ),
{
    reveal(exec);
}

/// What that step does.
pub broadcast proof fn lemma_grouped(s: Mem, g: Grouped)
    ensures
        #[trigger] exec(s, Op::Grouped(g)) == put(s, g.out, grouped(s, g)),
{
    reveal(exec);
}

/// What that step does.
pub broadcast proof fn lemma_sync(s: Mem)
    ensures
        #[trigger] exec(s, Op::Sync) == s,
{
    reveal(exec);
}

/// What that step does.
pub broadcast proof fn lemma_single(s: Mem, c: SingleCall)
    ensures
        #[trigger] exec(s, Op::Single(c)) == single(s, c),
{
    reveal(exec);
}

/// What that step does.
pub broadcast proof fn lemma_capture(s: Mem, src: Ptr, len: usize)
    ensures
        #[trigger] exec(s, Op::Capture { src, len }) == s,
{
    reveal(exec);
}

/// The result of a grouped pass over the experts.
pub open spec fn grouped(s: Mem, g: Grouped) -> Val {
    made(
        Fun::GroupedExperts {
            block: g.block,
            batch: g.batch,
            k: g.k,
            ne: g.ne,
            h: g.h,
            mi: g.mi,
            e_base: g.e_base,
            e_span: g.e_span,
        },
        args5(
            read(s, g.x),
            read(s, g.ids),
            read(s, g.wts),
            s[Region::Temp((g.first + 5) as usize)],
            s[Region::Temp((g.first + 6) as usize)],
        ),
    )
}

/// The memory after the first `k` steps of a program.
pub open spec fn run_upto(s: Mem, ops: Seq<Op>, k: int) -> Mem
    decreases k,
{
    if k <= 0 {
        s
    } else {
        exec(run_upto(s, ops, k - 1), ops[k - 1])
    }
}

/// The memory after a program.
pub open spec fn run(s: Mem, ops: Seq<Op>) -> Mem {
    run_upto(s, ops, ops.len() as int)
}

/// The memory after step `i`, where the program has one.
pub open spec fn step(s: Mem, ops: Seq<Op>, i: int) -> Mem {
    if i < ops.len() {
        exec(s, ops[i])
    } else {
        s
    }
}

/// A short program, step by step.
pub broadcast proof fn lemma_run_short(s: Mem, ops: Seq<Op>)
    requires
        ops.len() <= 16,
    ensures
        #[trigger] run(s, ops) == ({
            let s = step(step(step(step(s, ops, 0), ops, 1), ops, 2), ops, 3);
            let s = step(step(step(step(s, ops, 4), ops, 5), ops, 6), ops, 7);
            let s = step(step(step(step(s, ops, 8), ops, 9), ops, 10), ops, 11);
            step(step(step(step(s, ops, 12), ops, 13), ops, 14), ops, 15)
        }),
{
    reveal_with_fuel(run_upto, 17);
}

proof fn lemma_run_ext(s: Mem, a: Seq<Op>, b: Seq<Op>, k: int)
    requires
        forall|i: int| 0 <= i < k ==> #[trigger] a[i] == b[i],
    ensures
        run_upto(s, a, k) == run_upto(s, b, k),
    decreases k,
{
    if k > 0 {
        assert(a[k - 1] == b[k - 1]);
        lemma_run_ext(s, a, b, k - 1);
    }
}

/// A program in two legs.
pub broadcast proof fn lemma_run_concat(s: Mem, a: Seq<Op>, b: Seq<Op>)
    ensures
        #[trigger] run(s, a + b) == run(run(s, a), b),
{
    lemma_run_legs(s, a, b, b.len() as int);
}

proof fn lemma_run_legs(s: Mem, a: Seq<Op>, b: Seq<Op>, k: int)
    requires
        0 <= k <= b.len(),
    ensures
        run_upto(s, a + b, a.len() + k) == run_upto(run(s, a), b, k),
    decreases k,
{
    if k == 0 {
        lemma_run_ext(s, a + b, a, a.len() as int);
    } else {
        lemma_run_legs(s, a, b, k - 1);
        assert((a + b)[a.len() + k - 1] == b[k - 1]);
    }
}

pub broadcast group group_run {
    lemma_run_concat,
    lemma_do_gather_rope,
    lemma_do_rmsnorm,
    lemma_do_fused_res_rmsnorm,
    lemma_do_add_residual,
    lemma_do_silu_mul,
    lemma_do_split_qkv,
    lemma_do_split_qgate,
    lemma_do_rmsnorm_perhead,
    lemma_do_rope,
    lemma_do_write_kv_prefill,
    lemma_do_write_kv,
    lemma_do_attn_prefill,
    lemma_do_attn_splitk,
    lemma_do_attn_reduce,
    lemma_do_sigmoid_gate,
    lemma_do_split_gdn,
    lemma_do_conv1d,
    lemma_do_delta_step,
    lemma_do_rmsnorm_gated,
    lemma_do_conv1d_prefill,
    lemma_do_conv1d_state,
    lemma_do_delta_prefill,
    lemma_do_gemm_fp4,
    lemma_do_gemm_fp8,
    lemma_do_gemm_binv,
    lemma_do_dequant_fp4,
    lemma_do_dequant_fp8,
    lemma_do_embed_bf16,
    lemma_do_embed_fp4,
    lemma_do_embed_fp8,
    lemma_do_argmax,
    lemma_do_rep_penalty,
    lemma_do_sample,
    lemma_do_sample_prob,
    lemma_do_spec_verify,
    lemma_do_nll,
    lemma_do_moe_router_topk,
    lemma_do_moe_experts,
    lemma_do_moe_gemm,
    lemma_do_moe_silu,
    lemma_do_moe_combine,
    lemma_do_moe_count,
    lemma_do_moe_offsets,
    lemma_do_moe_scatter,
    lemma_do_moe_tilemap,
    lemma_do_moe_gather_x,
    lemma_do_moe_grouped,
    lemma_do_moe_combine_grouped,
    lemma_do_moe_shared_combine,
    lemma_do_concat,
    lemma_do_tp_signal,
    lemma_do_tp_wait_add,
    lemma_do_compact_kv,
    lemma_do_attn_tile_init,
    lemma_do_attn_softmax_tile,
    lemma_do_attn_finalize,
    lemma_get,
    lemma_release,
    lemma_alloc,
    lemma_alloc16,
    lemma_upload,
    lemma_upload_new,
    lemma_fill,
    lemma_launch,
    lemma_blas,
    lemma_copy,
    lemma_zero,
    lemma_grouped,
    lemma_sync,
    lemma_single,
    lemma_capture,
}

} // verus!
