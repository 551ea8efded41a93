//! The tiled attention computes attention tile by tile: what its buffers hold.
use vstd::prelude::*;

use crate::gpu::gemm::shifted;
use crate::gpu::machine::{exec, group_run, lemma_run_short, part, patched, read, run, Mem, Val};
use crate::gpu::meaning::{
    after_head, after_heads, after_keys, empty_tile, live_rows, tile_rows, tiled, tiles_upto, Tile,
};
use crate::gpu::model::PF_BC;
use crate::gpu::program::{get16, get32, put16, put32, temp, Call, Op, Region};
use crate::gpu::tiled::Tiled;
use crate::seqs::flat;

verus! {

broadcast use {group_run, lemma_run_short};

/// What was written at a place is what stands there, and further on.
pub proof fn lemma_part_patched(v: Val, o: u64, w: Val, d: u64)
    requires
        o + d <= u64::MAX,
    ensures
        part(patched(v, o, w), (o + d) as u64) == part(w, d),
{
    reveal_with_fuel(part, 2);
}

/// The buffers of a tiled attention are its own.
pub open spec fn tiles_apart(t: Tiled) -> bool {
    let own = |r: Region| r matches Region::Temp(i) && t.first <= i < t.first + 5;
    &&& !own(t.q.region)
    &&& !own(t.kc.region)
    &&& !own(t.vc.region)
    &&& !own(t.attn.region)
    &&& !(t.q.region is Null)
    &&& !(t.kc.region is Null)
    &&& !(t.vc.region is Null)
    &&& !(t.attn.region is Null)
    &&& t.attn.region != t.q.region
    &&& t.attn.region != t.kc.region
    &&& t.attn.region != t.vc.region
    &&& t.attn.offset == 0
    &&& t.q.offset == 0
}

/// The tile in work.
pub open spec fn tile_at(s: Mem, t: Tiled) -> Tile {
    Tile {
        o: s[Region::Temp((t.first + 2) as usize)],
        m: s[Region::Temp((t.first + 3) as usize)],
        l: s[Region::Temp((t.first + 4) as usize)],
    }
}

/// Nothing but the tile buffers, and `out`, has changed.
pub open spec fn tiles_kept(a: Mem, b: Mem, t: Tiled, out: bool) -> bool {
    forall|r: Region|
        !(r matches Region::Temp(i) && t.first <= i < t.first + 5) && !(out && r == t.attn.region)
            ==> #[trigger] b[r] == a[r]
}

/// The cache holds `keys` where the attention looks.
pub open spec fn holds(v: Val, at: u64, keys: Val) -> bool {
    forall|d: u64| at + d <= u64::MAX ==> #[trigger] part(keys, d) == part(v, (at + d) as u64)
}

proof fn lemma_sizes(t: Tiled, i: int)
    requires
        t.fits(),
        0 <= i < t.query_tiles(),
    ensures
        t.br() == tile_rows(t.n as int),
        1 <= t.br() <= 1024,
        0 <= i * t.br() < t.n,
        t.rows(i) == live_rows(t.n as int, i * t.br()),
        t.key_tiles(i) == (t.pos + i * t.br() + t.rows(i) - 1) / 1024 + 1,
        1 <= t.rows(i) <= t.br(),
        i * t.br() + t.rows(i) <= t.n,
{
    let br = t.br();
    let q = t.query_tiles();
    assert(i * br < t.n && 0 <= i * br) by (nonlinear_arith)
        requires
            q == (t.n + br - 1) / br,
            0 <= i < q,
            br >= 1,
            t.n >= 1,
    ;
}

proof fn lemma_head(s: Mem, t: Tiled, keys: Val, values: Val, i: int, j: int, r: int)
    requires
        t.fits(),
        tiles_apart(t),
        0 <= i < t.query_tiles(),
        0 <= j < t.key_tiles(i),
        0 <= r < t.gqa(),
        holds(s[t.kc.region], t.kc.offset, keys),
        holds(s[t.vc.region], t.vc.offset, values),
    ensures
        ({
            let e = run(s, t.head_ops(i, j, r));
            &&& tiles_kept(s, e, t, false)
            &&& tile_at(e, t) == after_head(
                tile_at(s, t),
                s[t.q.region],
                keys,
                values,
                t.stride as int,
                t.nh as int,
                t.nkv as int,
                t.hd as int,
                t.n as int,
                t.pos as int,
                i * tile_rows(t.n as int),
                j * 1024,
                r,
            )
        }),
{
    lemma_sizes(t, i);
    let (br, hd, nh) = (t.br(), t.hd as int, t.nh as int);
    let t0 = i * br;
    let s0 = j * 1024;
    let f = t.first as int;
    assert(s0 <= t.pos + t.n);
    assert(0 <= s0 * hd <= i32::MAX * 256) by (nonlinear_arith)
        requires
            0 <= s0 <= i32::MAX,
            0 <= hd <= 256,
    ;
    let kd = (s0 * hd * 2) as u64;
    assert(t.kc.offset + kd <= u64::MAX && t.vc.offset + kd <= u64::MAX);
    assert(part(keys, kd) == part(s[t.kc.region], (t.kc.offset + kd) as u64));
    assert(part(values, kd) == part(s[t.vc.region], (t.vc.offset + kd) as u64));
    let ops = t.head_ops(i, j, r);
    let s1 = exec(s, ops[0]);
    let s2 = exec(s1, ops[1]);
    let s3 = exec(s2, ops[2]);
    assert(run(s, ops) == s3);
    assert(t.gqa() == nh / (t.nkv as int));
    reveal(exec);
    let scores = s1[temp(f).region];
    assert(read(s, shifted(t.kc, s0 * hd * 2)) == part(keys, kd));
    assert(read(s, shifted(t.q, (r * hd + t0 * (nh * hd)) * 2)) == part(
        s[t.q.region],
        ((r * hd + t0 * (nh * hd)) * 2) as u64,
    ));
    assert(tiles_kept(s, s1, t, false));
    assert(tile_at(s1, t) == tile_at(s, t));
    assert(tiles_kept(s1, s2, t, false));
    assert(s2[t.vc.region] == s[t.vc.region]);
    assert(read(s2, shifted(t.vc, s0 * hd * 2)) == part(values, kd));
}

proof fn lemma_pair(s: Mem, t: Tiled, keys: Val, values: Val, i: int, j: int, k: nat)
    requires
        t.fits(),
        tiles_apart(t),
        0 <= i < t.query_tiles(),
        0 <= j < t.key_tiles(i),
        k <= t.gqa(),
        holds(s[t.kc.region], t.kc.offset, keys),
        holds(s[t.vc.region], t.vc.offset, values),
    ensures
        ({
            let e = run(s, flat(k, |r: int| t.head_ops(i, j, r)));
            &&& tiles_kept(s, e, t, false)
            &&& tile_at(e, t) == after_heads(
                tile_at(s, t),
                s[t.q.region],
                keys,
                values,
                t.stride as int,
                t.nh as int,
                t.nkv as int,
                t.hd as int,
                t.n as int,
                t.pos as int,
                i * tile_rows(t.n as int),
                j * 1024,
                k,
            )
        }),
    decreases k,
{
    let row = |r: int| t.head_ops(i, j, r);
    if k > 0 {
        let q = (k - 1) as nat;
        lemma_pair(s, t, keys, values, i, j, q);
        let mid = run(s, flat(q, row));
        lemma_head(mid, t, keys, values, i, j, q as int);
        assert(row(q as int) == t.head_ops(i, j, q as int));
    }
}

proof fn lemma_keys(s: Mem, t: Tiled, keys: Val, values: Val, i: int, k: nat)
    requires
        t.fits(),
        tiles_apart(t),
        0 <= i < t.query_tiles(),
        k <= t.key_tiles(i),
        holds(s[t.kc.region], t.kc.offset, keys),
        holds(s[t.vc.region], t.vc.offset, values),
        tile_at(s, t) == empty_tile(t.nh as int, t.hd as int, t.n as int),
    ensures
        ({
            let e = run(s, flat(k, |j: int| t.pair_ops(i, j)));
            &&& tiles_kept(s, e, t, false)
            &&& tile_at(e, t) == after_keys(
                s[t.q.region],
                keys,
                values,
                t.stride as int,
                t.nh as int,
                t.nkv as int,
                t.hd as int,
                t.n as int,
                t.pos as int,
                i * tile_rows(t.n as int),
                k,
            )
        }),
    decreases k,
{
    let row = |j: int| t.pair_ops(i, j);
    if k > 0 {
        let q = (k - 1) as nat;
        lemma_keys(s, t, keys, values, i, q);
        let mid = run(s, flat(q, row));
        lemma_pair(mid, t, keys, values, i, q as int, t.gqa() as nat);
        assert(row(q as int) == t.pair_ops(i, q as int));
    }
}

proof fn lemma_tile(s: Mem, t: Tiled, keys: Val, values: Val, i: int)
    requires
        t.fits(),
        tiles_apart(t),
        0 <= i < t.query_tiles(),
        holds(s[t.kc.region], t.kc.offset, keys),
        holds(s[t.vc.region], t.vc.offset, values),
        s[t.attn.region] == tiles_upto(
            s[t.q.region],
            keys,
            values,
            t.stride as int,
            t.nh as int,
            t.nkv as int,
            t.hd as int,
            t.n as int,
            t.pos as int,
            i as nat,
        ),
    ensures
        ({
            let e = run(s, t.tile_ops(i));
            &&& tiles_kept(s, e, t, true)
            &&& e[t.attn.region] == tiles_upto(
                s[t.q.region],
                keys,
                values,
                t.stride as int,
                t.nh as int,
                t.nkv as int,
                t.hd as int,
                t.n as int,
                t.pos as int,
                (i + 1) as nat,
            )
        }),
{
    lemma_sizes(t, i);
    let f = t.first as int;
    let init = Op::Launch(
        Call::AttnTileInit {
            o: temp(f + 2),
            m: temp(f + 3),
            l: temp(f + 4),
            br: t.br() as i32,
            hd: t.hd as i32,
            nh: t.nh as i32,
        },
    );
    let s1 = run(s, seq![init]);
    assert(s1 == exec(s, init));
    assert(tiles_kept(s, s1, t, false));
    assert(tile_at(s1, t) == empty_tile(t.nh as int, t.hd as int, t.n as int));
    lemma_keys(s1, t, keys, values, i, t.key_tiles(i) as nat);
    let s2 = run(s1, flat(t.key_tiles(i) as nat, |j: int| t.pair_ops(i, j)));
    assert(s2[t.attn.region] == s[t.attn.region]);
    let last = Op::Launch(
        Call::AttnFinalize {
            attn: t.attn,
            o: temp(f + 2),
            l: temp(f + 4),
            br: t.br() as i32,
            hd: t.hd as i32,
            nh: t.nh as i32,
            t0: (i * t.br()) as i32,
            n: t.n as i32,
        },
    );
    let e = run(s2, seq![last]);
    assert(run(s, t.tile_ops(i)) == e);
    assert(e == exec(s2, last));
}

proof fn lemma_tiles(s: Mem, t: Tiled, keys: Val, values: Val, k: nat)
    requires
        t.fits(),
        tiles_apart(t),
        k <= t.query_tiles(),
        holds(s[t.kc.region], t.kc.offset, keys),
        holds(s[t.vc.region], t.vc.offset, values),
        s[t.attn.region] is Fresh,
    ensures
        ({
            let e = run(s, flat(k, |i: int| t.tile_ops(i)));
            &&& tiles_kept(s, e, t, true)
            &&& e[t.attn.region] == tiles_upto(
                s[t.q.region],
                keys,
                values,
                t.stride as int,
                t.nh as int,
                t.nkv as int,
                t.hd as int,
                t.n as int,
                t.pos as int,
                k,
            )
        }),
    decreases k,
{
    let row = |i: int| t.tile_ops(i);
    if k > 0 {
        let q = (k - 1) as nat;
        lemma_tiles(s, t, keys, values, q);
        let mid = run(s, flat(q, row));
        lemma_tile(mid, t, keys, values, q as int);
        assert(row(q as int) == t.tile_ops(q as int));
    }
}

/// A tiled attention leaves the attention of its queries over the cache.
pub proof fn lemma_tiled(s: Mem, t: Tiled, keys: Val, values: Val)
    requires
        t.fits(),
        tiles_apart(t),
        holds(s[t.kc.region], t.kc.offset, keys),
        holds(s[t.vc.region], t.vc.offset, values),
        s[t.attn.region] is Fresh,
    ensures
        ({
            let e = run(s, t.ops());
            &&& tiles_kept(s, e, t, true)
            &&& e[t.attn.region] == tiled(
                s[t.q.region],
                keys,
                values,
                t.stride as int,
                t.nh as int,
                t.nkv as int,
                t.hd as int,
                t.n as int,
                t.pos as int,
            )
        }),
{
    let (br, bc) = (t.br(), PF_BC as int);
    let f = t.first as int;
    let (nkv, nh, hd) = (t.nkv as int, t.nh as int, t.hd as int);
    let s1 = run(
        s,
        seq![
            get32(f, br * bc * nkv),
            get16(f + 1, br * bc * nkv),
            get32(f + 2, br * hd * nh),
            get32(f + 3, br * nh),
            get32(f + 4, br * nh),
        ],
    );
    assert(tiles_kept(s, s1, t, false));
    assert(t.br() == tile_rows(t.n as int));
    let q = t.query_tiles();
    assert(q >= 0) by (nonlinear_arith)
        requires
            q == (t.n + br - 1) / br,
            br >= 1,
            t.n >= 1,
    ;
    lemma_tiles(s1, t, keys, values, q as nat);
    let s2 = run(s1, flat(q as nat, |i: int| t.tile_ops(i)));
    let s3 = run(
        s2,
        seq![
            put32(f, br * bc * nkv),
            put16(f + 1, br * bc * nkv),
            put32(f + 2, br * hd * nh),
            put32(f + 3, br * nh),
            put32(f + 4, br * nh),
        ],
    );
    assert(run(s, t.ops()) == s3);
    assert(tiles_kept(s2, s3, t, false));
    assert(s3[t.attn.region] == s2[t.attn.region]);
}

} // verus!
