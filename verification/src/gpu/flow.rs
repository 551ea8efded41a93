//! The programs compute the model: what every buffer holds when a block has run.
use vstd::prelude::*;

use crate::gpu::attn::{split_bound, AttnCall, AttnMode, ATTN_IDS};
use crate::gpu::flow_tiles::{lemma_part_patched, lemma_tiled};
use crate::gpu::gemm::{
    gemm_binv_ops, gemm_f32_ops, gemm_ops, law_chunks_cover, reduce_chunk, reduce_ops, shifted,
};
use crate::gpu::machine::{
    args1, exec, group_run, lemma_run_short, made, part, patched, read, run, sum_chunk, summand,
    Fun, Mem, Val,
};
use crate::gpu::meaning::{
    attention, halved, looked_up, projected, share, splits, stored, times, times_all, turned,
    vector, Meeting,
};
use crate::gpu::model::{AttnIn, GpuModel, W};
use crate::gpu::program::{
    at, get16, get32, put16, temp, BlockVec, Call, Op, Proj, Ptr, Region, Scratch, WeightId,
};
use crate::gpu::topo::MAX_VERIFY;
use crate::mma::div_up;
use crate::seqs::{flat, min_int};

verus! {

broadcast use {group_run, lemma_run_short};

/// Memory that a block may leave changed: the buffers it borrows, and scratch of the moment.
pub open spec fn loose(r: Region, lo: int, hi: int) -> bool {
    match r {
        Region::Temp(i) => lo <= i < hi,
        Region::Scratch(Scratch::Dequant) => true,
        Region::Scratch(Scratch::MoeIds) => true,
        Region::Scratch(Scratch::MoeWts) => true,
        Region::Scratch(Scratch::HeadVisits) => true,
        Region::TpContext => true,
        _ => false,
    }
}

/// Nothing but loose memory has changed.
pub open spec fn kept(a: Mem, b: Mem, lo: int, hi: int) -> bool {
    forall|r: Region| !loose(r, lo, hi) ==> #[trigger] b[r] == a[r]
}

/// Nothing but loose memory and two more regions has changed.
pub open spec fn kept_but(a: Mem, b: Mem, lo: int, hi: int, x: Region, y: Region) -> bool {
    forall|r: Region| !loose(r, lo, hi) && r != x && r != y ==> #[trigger] b[r] == a[r]
}

/// Memory that holds neither a product's scratch nor nothing.
pub open spec fn solid(r: Region) -> bool {
    !(r is Null) && r != Region::Scratch(Scratch::Dequant) && r != Region::TpContext
}

// ---- products ----

pub(crate) proof fn lemma_gemm(
    s: Mem,
    w: W,
    id: WeightId,
    x: Ptr,
    out: Ptr,
    inn: int,
    outn: int,
    n: int,
)
    requires
        solid(out.region),
        x.region != Region::Scratch(Scratch::Dequant),
        out.offset == 0,
    ensures
        ({
            let e = run(s, gemm_ops(w, id, x, out, inn, outn, n));
            &&& e[out.region] == times(id, read(s, x), inn, outn, n)
            &&& forall|r: Region|
                r != out.region && r != Region::Scratch(
                    Scratch::Dequant,
                ) ==> #[trigger] e[r] == s[r]
        }),
{
    let deq = at(Region::Scratch(Scratch::Dequant));
    let (i, o, b) = (inn as i32, outn as i32, n as i32);
    let e = run(s, gemm_ops(w, id, x, out, inn, outn, n));
    let op2 = Op::Blas { w: deq, x, out, m: o, n: b, k: i };
    match w {
        W::Nvfp4 { .. } => if n > MAX_VERIFY {
            let s1 = exec(s, Op::Launch(Call::DequantFp4 { out: deq, w: id, outn: o, inn: i }));
            assert(e == exec(s1, op2));
            assert(read(s1, x) == read(s, x));
        },
        W::Fp8 { .. } => if n > MAX_VERIFY {
            let s1 = exec(s, Op::Launch(Call::DequantFp8 { out: deq, w: id, outn: o, inn: i }));
            assert(e == exec(s1, op2));
            assert(read(s1, x) == read(s, x));
        },
        _ => {},
    }
}

pub(crate) proof fn lemma_gemm_binv(
    s: Mem,
    w: W,
    id: WeightId,
    x: Ptr,
    out: Ptr,
    inn: int,
    outn: int,
    n: int,
)
    requires
        solid(out.region),
        x.region != Region::Scratch(Scratch::Dequant),
        out.offset == 0,
    ensures
        ({
            let e = run(s, gemm_binv_ops(w, id, x, out, inn, outn, n));
            &&& e[out.region] == times(id, read(s, x), inn, outn, n)
            &&& forall|r: Region|
                r != out.region && r != Region::Scratch(
                    Scratch::Dequant,
                ) ==> #[trigger] e[r] == s[r]
        }),
{
    lemma_gemm(s, w, id, x, out, inn, outn, n);
}

proof fn lemma_gemm_f32(s: Mem, w: W, id: WeightId, x: Ptr, acc: Ptr, inn: int, outn: int, n: int)
    requires
        solid(acc.region),
        acc.offset == 0,
    ensures
        ({
            let e = run(s, gemm_f32_ops(w, id, x, acc, inn, outn, n));
            &&& e[acc.region] == made(
                Fun::Product {
                    w: id,
                    outn: outn as i32,
                    inn: inn as i32,
                    n: n as i32,
                    rounded: false,
                },
                args1(read(s, x)),
            )
            &&& forall|r: Region| r != acc.region ==> #[trigger] e[r] == s[r]
        }),
{
}

/// The first `k` chunks of a reduction.
proof fn lemma_chunks(s: Mem, out: Ptr, src: Ptr, n: int, chunk: int, eb: int, fp32: int, k: nat)
    requires
        chunk >= 1,
        n >= 0,
        k <= div_up(n, chunk),
        eb == 2 && fp32 == 0 && src == out || eb == 4 && fp32 == 1 && src.region != out.region,
        out.offset == 0,
        src.offset == 0,
        n * 4 <= i32::MAX,
        solid(out.region),
        solid(src.region),
        !(s[src.region] is Summing),
    ensures
        ({
            let e = run(s, flat(k, |i: int| reduce_chunk(out, src, n, chunk, eb, fp32, i)));
            let done = min_int(k * chunk, n);
            &&& k == 0 ==> e[out.region] == s[out.region]
            &&& k > 0 ==> e[out.region] == Val::Summing(Box::new(s[src.region]), done)
            &&& forall|r: Region|
                r != out.region && r != Region::TpContext ==> #[trigger] e[r] == s[r]
        }),
    decreases k,
{
    let row = |i: int| reduce_chunk(out, src, n, chunk, eb, fp32, i);
    assert(0 * chunk == 0);
    if k > 0 {
        let j = (k - 1) as nat;
        lemma_chunks(s, out, src, n, chunk, eb, fp32, j);
        law_chunks_cover(n, chunk, j as int);
        assert(k * chunk == j * chunk + chunk) by (nonlinear_arith)
            requires
                k == j + 1,
        ;
        assert(j * chunk >= 0) by (nonlinear_arith)
            requires
                chunk >= 1,
        ;
        if j > 0 {
            assert(j * chunk >= 1) by (nonlinear_arith)
                requires
                    chunk >= 1,
                    j >= 1,
            ;
        }
        let before = run(s, flat(j, row));
        let off = j * chunk;
        let c = min_int(n - off, chunk);
        let (cs, co) = (shifted(src, off * eb), shifted(out, off * 2));
        let signal = Op::Launch(Call::TpSignal { src: cs, bytes: (c * eb) as i32 });
        let add = Op::Launch(
            Call::TpWaitAdd { out: co, src: cs, elems: c as i32, fp32: fp32 as i32 },
        );
        let mid = exec(before, signal);
        assert(row(j as int) == seq![signal, add]);
        assert(run(s, flat(k, row)) == exec(mid, add));
        assert(mid == before.insert(Region::TpContext, Val::Published(cs, (c * eb) as i32)));
        assert(summand(mid[src.region]) == s[src.region]);
        assert(0 <= off && off + c <= n);
        assert(co.offset == off * 2 && cs.offset == off * eb);
        assert(exec(mid, add) == sum_chunk(mid, co, cs, c as i32, fp32 as i32));
        assert(exec(mid, add) == mid.insert(
            out.region,
            Val::Summing(Box::new(s[src.region]), off + c),
        ));
    }
}

pub(crate) proof fn lemma_reduce(s: Mem, out: Ptr, src: Ptr, n: int, chunk: int, eb: int, fp32: int)
    requires
        chunk >= 1,
        n >= 1,
        eb == 2 && fp32 == 0 && src == out || eb == 4 && fp32 == 1 && src.region != out.region,
        out.offset == 0,
        src.offset == 0,
        n * 4 <= i32::MAX,
        solid(out.region),
        solid(src.region),
        !(s[src.region] is Summing),
    ensures
        ({
            let e = run(s, reduce_ops(out, src, n, chunk, eb, fp32));
            &&& e[out.region] == Val::Summing(Box::new(s[src.region]), n)
            &&& forall|r: Region|
                r != out.region && r != Region::TpContext ==> #[trigger] e[r] == s[r]
        }),
{
    let q = div_up(n, chunk);
    assert(q >= 1 && n <= q * chunk) by (nonlinear_arith)
        requires
            q == (n + chunk - 1) / chunk,
            chunk >= 1,
            n >= 1,
    ;
    lemma_chunks(s, out, src, n, chunk, eb, fp32, q as nat);
}

/// A row-parallel product and its sum over the ranks.
pub(crate) proof fn lemma_site(
    m: &GpuModel,
    s: Mem,
    w: W,
    id: WeightId,
    x: Ptr,
    out: int,
    inn: int,
    outn: int,
    n: int,
    t: int,
)
    requires
        0 <= out <= usize::MAX,
        0 <= t <= usize::MAX,
        out != t,
        x.region != Region::Temp(t as usize),
        x.region != Region::Scratch(Scratch::Dequant),
        outn * n >= 1,
        m.reduce_fits(outn * n),
    ensures
        ({
            let e = run(s, m.reduce_site_ops(w, id, x, temp(out), inn, outn, n, t));
            &&& e[Region::Temp(out as usize)] == times_all(m, true, id, read(s, x), inn, outn, n)
            &&& forall|r: Region|
                r != Region::Temp(out as usize) && r != Region::Temp(t as usize) && r
                    != Region::Scratch(Scratch::Dequant) && r != Region::TpContext
                    ==> #[trigger] e[r] == s[r]
        }),
{
    if m.fp32_on() && n <= MAX_VERIFY {
        let s1 = run(s, seq![get32(t, outn * n)]);
        lemma_gemm_f32(s1, w, id, x, temp(t), inn, outn, n);
        let s2 = run(s1, gemm_f32_ops(w, id, x, temp(t), inn, outn, n));
        lemma_reduce(s2, temp(out), temp(t), outn * n, m.chunk_elems(4), 4, 1);
    } else {
        lemma_gemm(s, w, id, x, temp(out), inn, outn, n);
        let s1 = run(s, gemm_ops(w, id, x, temp(out), inn, outn, n));
        lemma_reduce(s1, temp(out), temp(out), outn * n, m.chunk_elems(2), 2, 0);
    }
}

// ---- attention ----

/// Where an attention call meets the cache, as values.
pub open spec fn meeting(s: Mem, mode: AttnMode) -> Meeting {
    match mode {
        AttnMode::Run { pos } => Meeting::Run { pos: pos as int },
        AttnMode::Columns { pos, slots, max_pc, path, rope, starts } => Meeting::Columns {
            pos: read(s, pos),
            logical: if rope.region is Null {
                read(s, pos)
            } else {
                read(s, rope)
            },
            lanes: read(s, slots),
            path: read(s, path),
            starts: read(s, starts),
            max_pc: max_pc as int,
        },
    }
}

/// What an attention call reads lies outside what it changes.
pub open spec fn apart(c: AttnCall) -> bool {
    let (lo, hi) = (c.first as int, c.first + ATTN_IDS);
    let free = |p: Ptr| !loose(
        p.region,
        lo,
        hi,
    ) && p.region != c.kc.region && p.region != c.vc.region;
    &&& free(c.x)
    &&& free(c.cos)
    &&& free(c.sin)
    &&& !loose(c.kc.region, lo, hi)
    &&& !loose(c.vc.region, lo, hi)
    &&& !(c.kc.region is Null)
    &&& !(c.vc.region is Null)
    &&& !(c.kc.region is Vector)
    &&& !(c.vc.region is Vector)
    &&& c.kc.region != c.vc.region
    &&& match c.mode {
        AttnMode::Run { .. } => true,
        AttnMode::Columns { pos, slots, path, rope, starts, .. } => {
            &&& free(pos)
            &&& free(slots)
            &&& free(path)
            &&& free(rope)
            &&& free(starts)
            &&& rope.region is Null ==> rope.offset == 0
        },
    }
}

/// Queries, gates, keys and values of the columns.
proof fn lemma_project(m: &GpuModel, s: Mem, c: AttnCall)
    requires
        c.first + ATTN_IDS <= usize::MAX,
        apart(c),
        c.sharded ==> halved(m),
    ensures
        ({
            let e = run(s, m.project_ops(c));
            let (t, n) = (c.first as int, c.n as int);
            let (nh, nkv) = (
                share(m.cfg.num_heads, c.sharded),
                share(m.cfg.num_kv_heads, c.sharded),
            );
            let x = read(s, c.x);
            let (cos, sin) = (read(s, c.cos), read(s, c.sin));
            let qg = projected(m, c.block, c.fa, x, c.sharded, n, 0);
            let hd = m.cfg.head_dim as i32;
            &&& kept(s, e, t, t + 14)
            &&& e[temp(t + 3).region] == turned(
                m,
                made(Fun::Queries { nh: nh as i32, hd, n: n as i32 }, args1(qg)),
                vector(s, c.block, BlockVec::QNorm),
                cos,
                sin,
                nh,
                n,
            )
            &&& e[temp(t + 4).region] == made(
                Fun::Gates { nh: nh as i32, hd, n: n as i32 },
                args1(qg),
            )
            &&& e[temp(t + 1).region] == turned(
                m,
                projected(m, c.block, c.fa, x, c.sharded, n, 1),
                vector(s, c.block, BlockVec::KNorm),
                cos,
                sin,
                nkv,
                n,
            )
            &&& e[temp(t + 2).region] == projected(m, c.block, c.fa, x, c.sharded, n, 2)
        }),
{
    let (nh, nkv) = m.attn_heads(c.sharded);
    assert(nh == share(m.cfg.num_heads, c.sharded) && nkv == share(m.cfg.num_kv_heads, c.sharded));
    let (h, hd, n) = (m.cfg.hidden_size as int, m.cfg.head_dim as int, c.n as int);
    let rdim = m.cfg.rotary_dim as int;
    let eps = m.cfg.rms_eps_bits;
    let t = c.first as int;
    let mtot = nh * hd * 2 + 2 * (nkv * hd);
    let w = |p: Proj| WeightId::Of(c.block, p);
    let s1 = run(
        s,
        seq![
            get16(t, nh * hd * 2 * n),
            get16(t + 1, nkv * hd * n),
            get16(t + 2, nkv * hd * n),
            get16(t + 3, nh * hd * n),
            get16(t + 4, nh * hd * n),
        ],
    );
    assert(kept(s, s1, t, t + 14));
    assert(read(s1, c.x) == read(s, c.x));
    match c.fa.qkv {
        AttnIn::Fused(f) => {
            let s2 = run(s1, seq![get16(t + 5, mtot * n)]);
            assert(kept(s, s2, t, t + 14));
            assert(read(s2, c.x) == read(s, c.x));
            lemma_gemm(s2, f, w(Proj::Qkv), c.x, temp(t + 5), h, mtot, n);
            let s3 = run(s2, gemm_ops(f, w(Proj::Qkv), c.x, temp(t + 5), h, mtot, n));
            assert(kept(s, s3, t, t + 14));
        },
        AttnIn::Split { q, k, v } => {
            lemma_gemm(s1, q, w(Proj::Q), c.x, temp(t), h, nh * hd * 2, n);
            let s2 = run(s1, gemm_ops(q, w(Proj::Q), c.x, temp(t), h, nh * hd * 2, n));
            assert(kept(s, s2, t, t + 14));
            assert(read(s2, c.x) == read(s, c.x));
            lemma_gemm(s2, k, w(Proj::K), c.x, temp(t + 1), h, nkv * hd, n);
            let s3 = run(s2, gemm_ops(k, w(Proj::K), c.x, temp(t + 1), h, nkv * hd, n));
            assert(kept(s, s3, t, t + 14));
            assert(read(s3, c.x) == read(s, c.x));
            lemma_gemm(s3, v, w(Proj::V), c.x, temp(t + 2), h, nkv * hd, n);
            let s4 = run(s3, gemm_ops(v, w(Proj::V), c.x, temp(t + 2), h, nkv * hd, n));
            assert(kept(s, s4, t, t + 14));
        },
    }
}

/// The cache with the new entries, and the attention over it.
proof fn lemma_dispatch(m: &GpuModel, s: Mem, c: AttnCall)
    requires
        c.first + ATTN_IDS <= usize::MAX,
        apart(c),
        c.sharded ==> halved(m),
        c.mode matches AttnMode::Run { pos } ==> m.takes_tiles(
            c.n as int,
        ) ==> m.tiled_of(c, pos).fits(),
    ensures
        ({
            let e = run(s, m.dispatch_ops(c));
            let (t, n) = (c.first as int, c.n as int);
            let (nh, nkv) = (
                share(m.cfg.num_heads, c.sharded),
                share(m.cfg.num_kv_heads, c.sharded),
            );
            let meet = meeting(s, c.mode);
            let stride = c.kv_stride as int;
            let keys = stored(m, read(s, c.kc), s[temp(t + 1).region], meet, stride, nkv, n);
            let values = stored(m, read(s, c.vc), s[temp(t + 2).region], meet, stride, nkv, n);
            &&& kept_but(s, e, t, t + 14, c.kc.region, c.vc.region)
            &&& e[c.kc.region] == patched(s[c.kc.region], c.kc.offset, keys)
            &&& e[c.vc.region] == patched(s[c.vc.region], c.vc.offset, values)
            &&& e[temp(t + 4).region] == s[temp(t + 4).region]
            &&& e[temp(t + 6).region] == looked_up(
                m,
                s[temp(t + 3).region],
                keys,
                values,
                meet,
                stride,
                nh,
                nkv,
                n,
            )
        }),
{
    let (nh, nkv) = m.attn_heads(c.sharded);
    assert(nh == share(m.cfg.num_heads, c.sharded) && nkv == share(m.cfg.num_kv_heads, c.sharded));
    let (hd, n) = (m.cfg.head_dim as int, c.n as int);
    let t = c.first as int;
    let meet = meeting(s, c.mode);
    let stride = c.kv_stride as int;
    let keys = stored(m, read(s, c.kc), s[temp(t + 1).region], meet, stride, nkv, n);
    let values = stored(m, read(s, c.vc), s[temp(t + 2).region], meet, stride, nkv, n);
    lemma_part_patched(s[c.kc.region], c.kc.offset, keys, 0);
    lemma_part_patched(s[c.vc.region], c.vc.offset, values, 0);
    match c.mode {
        AttnMode::Run { pos } => {
            let ops = seq![
                Op::Launch(
                    Call::WriteKvPrefill {
                        kc: c.kc,
                        vc: c.vc,
                        k: temp(t + 1),
                        v: temp(t + 2),
                        stride: c.kv_stride as i32,
                        nkv: nkv as i32,
                        hd: hd as i32,
                        n: n as i32,
                        pos: pos as i32,
                    },
                ),
                get16(t + 6, nh * hd * n),
            ];
            let s1 = run(s, ops);
            assert(kept_but(s, s1, t, t + 14, c.kc.region, c.vc.region));
            assert(s1[c.kc.region] == patched(s[c.kc.region], c.kc.offset, keys));
            assert(s1[c.vc.region] == patched(s[c.vc.region], c.vc.offset, values));
            if m.takes_tiles(n) {
                let tl = m.tiled_of(c, pos);
                assert forall|d: u64| c.kc.offset + d <= u64::MAX implies #[trigger] part(keys, d)
                    == part(s1[c.kc.region], (c.kc.offset + d) as u64) by {
                    lemma_part_patched(s[c.kc.region], c.kc.offset, keys, d);
                }
                assert forall|d: u64| c.vc.offset + d <= u64::MAX implies #[trigger] part(values, d)
                    == part(s1[c.vc.region], (c.vc.offset + d) as u64) by {
                    lemma_part_patched(s[c.vc.region], c.vc.offset, values, d);
                }
                lemma_tiled(s1, tl, keys, values);
            }
        },
        AttnMode::Columns { pos, slots, max_pc, path, rope, starts } => {
            assert(splits(max_pc as int) == split_bound(max_pc as int));
            let ops = m.dispatch_ops(c);
            let s1 = exec(s, ops[0]);
            assert(kept_but(s, s1, t, t + 14, c.kc.region, c.vc.region));
            assert(s1[c.kc.region] == patched(s[c.kc.region], c.kc.offset, keys));
            assert(s1[c.vc.region] == patched(s[c.vc.region], c.vc.offset, values));
            let s5 = exec(exec(exec(exec(s1, ops[1]), ops[2]), ops[3]), ops[4]);
            assert(kept(s1, s5, t, t + 14));
            assert(s5[temp(t + 3).region] == s[temp(t + 3).region]);
            assert(read(s5, c.kc) == keys);
            assert(read(s5, c.vc) == values);
            let s6 = exec(s5, ops[5]);
            let s7 = exec(s6, ops[6]);
            assert(kept(s5, s6, t, t + 14));
            assert(kept(s6, s7, t, t + 14));
            let e = run(s, ops);
            assert(e == exec(exec(exec(s7, ops[7]), ops[8]), ops[9]));
            assert(kept(s7, e, t, t + 14));
            assert(e[temp(t + 6).region] == s7[temp(t + 6).region]);
        },
    }
}

/// An attention block leaves what the model says: its output, and both caches with the columns' entries.
pub proof fn law_attention_computes(m: &GpuModel, s: Mem, c: AttnCall)
    requires
        m.attn_ok(c),
        apart(c),
        c.sharded ==> halved(m),
        c.n >= 1,
        m.cfg.hidden_size >= 1,
    ensures
        ({
            let e = run(s, m.full_attn_ops(c));
            let a = attention(
                m,
                s,
                c.block,
                c.fa,
                c.sharded,
                read(s, c.x),
                read(s, c.cos),
                read(s, c.sin),
                read(s, c.kc),
                read(s, c.vc),
                c.kv_stride as int,
                c.n as int,
                meeting(s, c.mode),
            );
            &&& kept_but(s, e, c.first as int, c.first + 14, c.kc.region, c.vc.region)
            &&& e[temp(c.first + 12).region] == a.out
            &&& e[c.kc.region] == patched(s[c.kc.region], c.kc.offset, a.keys)
            &&& e[c.vc.region] == patched(s[c.vc.region], c.vc.offset, a.values)
        }),
{
    let (nh, nkv) = m.attn_heads(c.sharded);
    assert(nh == share(m.cfg.num_heads, c.sharded) && nkv == share(m.cfg.num_kv_heads, c.sharded));
    let (h, hd, n) = (m.cfg.hidden_size as int, m.cfg.head_dim as int, c.n as int);
    let t = c.first as int;
    let o = WeightId::Of(c.block, Proj::O);
    assert(h * n >= 1) by (nonlinear_arith)
        requires
            h >= 1,
            n >= 1,
    ;
    lemma_project(m, s, c);
    let s1 = run(s, m.project_ops(c));
    assert(meeting(s1, c.mode) == meeting(s, c.mode));
    assert(read(s1, c.kc) == read(s, c.kc));
    assert(read(s1, c.vc) == read(s, c.vc));
    lemma_dispatch(m, s1, c);
    let s2 = run(s1, m.dispatch_ops(c));
    let s3 = run(
        s2,
        seq![
            Op::Launch(
                Call::SigmoidGate {
                    attn: temp(t + 6),
                    gate: temp(t + 4),
                    tot: (nh * hd * n) as i32,
                },
            ),
            get16(t + 12, h * n),
        ],
    );
    assert(kept(s2, s3, t, t + 14));
    let s4 = if c.sharded {
        lemma_site(m, s3, c.fa.o_proj, o, temp(t + 6), t + 12, nh * hd, h, n, t + 13);
        run(
            s3,
            m.reduce_site_ops(c.fa.o_proj, o, temp(t + 6), temp(t + 12), nh * hd, h, n, t + 13),
        )
    } else {
        lemma_gemm(s3, c.fa.o_proj, o, temp(t + 6), temp(t + 12), nh * hd, h, n);
        run(s3, gemm_ops(c.fa.o_proj, o, temp(t + 6), temp(t + 12), nh * hd, h, n))
    };
    assert(kept(s3, s4, t, t + 14));
    let back = seq![
        put16(t, nh * hd * 2 * n),
        put16(t + 1, nkv * hd * n),
        put16(t + 2, nkv * hd * n),
        put16(t + 3, nh * hd * n),
        put16(t + 4, nh * hd * n),
        put16(t + 6, nh * hd * n),
    ];
    let e = run(s4, back);
    assert(run(s, m.full_attn_ops(c)) == e);
    assert(kept(s4, e, t, t + 14));
    assert(e[temp(t + 12).region] == s4[temp(t + 12).region]);
}

} // verus!
