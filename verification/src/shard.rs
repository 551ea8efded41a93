//! Splitting packed weights between two ranks, and checking that no kernel left its rank's heads.
use vstd::prelude::*;

use crate::config::Config;
use crate::seqs::{extend_range, fill, flat, lemma_flat_index, lemma_flat_len};

verus! {

/// A run of output rows: `(first row, rows, split)`. A split run is halved between the ranks; the
/// others go whole to both.
pub type Segment = (usize, usize, bool);

/// Rows of a run that one rank keeps.
pub open spec fn seg_take(seg: Segment) -> int {
    if seg.2 {
        (seg.1 / 2) as int
    } else {
        seg.1 as int
    }
}

/// First row of a run that `rank` keeps.
pub open spec fn seg_lo(seg: Segment, rank: int) -> int {
    seg.0 + (if seg.2 {
        rank * seg_take(seg)
    } else {
        0
    })
}

/// The run lies in a tensor of `m` rows and its parts fall on tile boundaries.
pub open spec fn seg_ok(seg: Segment, m: int) -> bool {
    &&& seg.0 % 16 == 0
    &&& if seg.2 {
        seg.1 % 32 == 0
    } else {
        seg.1 % 16 == 0
    }
    &&& seg.0 + seg.1 <= m
}

/// All runs are well placed.
pub open spec fn segs_ok(segs: Seq<Segment>, m: int) -> bool {
    forall|i: int| 0 <= i < segs.len() ==> seg_ok(#[trigger] segs[i], m)
}

/// What `rank` keeps of one run, for data that has `unit` entries per `granule` rows.
pub open spec fn band<T>(src: Seq<T>, unit: int, granule: int, seg: Segment, rank: int) -> Seq<T> {
    src.subrange(
        seg_lo(seg, rank) / granule * unit,
        (seg_lo(seg, rank) / granule + seg_take(seg) / granule) * unit,
    )
}

/// What `rank` keeps of several runs, end to end.
pub open spec fn bands<T>(
    src: Seq<T>,
    unit: int,
    granule: int,
    segs: Seq<Segment>,
    rank: int,
) -> Seq<T> {
    flat(segs.len(), |i: int| band(src, unit, granule, segs[i], rank))
}

/// Rows that one rank keeps in all.
pub open spec fn rows_kept(segs: Seq<Segment>) -> int
    decreases segs.len(),
{
    if segs.len() == 0 {
        0
    } else {
        rows_kept(segs.drop_last()) + seg_take(segs.last())
    }
}

proof fn lemma_band_range(m: int, unit: int, granule: int, seg: Segment, rank: int, len: int)
    requires
        seg_ok(seg, m),
        0 <= rank < 2,
        granule == 1 || granule == 16,
        0 <= unit,
        m / granule * unit <= len,
    ensures
        0 <= seg_lo(seg, rank),
        seg_lo(seg, rank) + seg_take(seg) <= m,
        0 <= seg_lo(seg, rank) / granule * unit,
        seg_lo(seg, rank) / granule * unit <= (seg_lo(seg, rank) / granule + seg_take(seg)
            / granule) * unit,
        (seg_lo(seg, rank) / granule + seg_take(seg) / granule) * unit <= len,
        seg_lo(seg, rank) / granule + seg_take(seg) / granule <= m / granule,
{
    let take = seg_take(seg);
    assert(0 <= rank * take <= take) by (nonlinear_arith)
        requires
            0 <= rank < 2,
            0 <= take,
    ;
    let a = seg_lo(seg, rank) / granule;
    let b = a + take / granule;
    let c = m / granule;
    assert(a >= 0 && b <= c) by {
        if granule == 16 {
            if seg.2 {
                assert(take % 16 == 0);
                assert(rank * take == 0 || rank * take == take) by (nonlinear_arith)
                    requires
                        rank == 0 || rank == 1,
                ;
            }
        }
    }
    assert(0 <= a * unit && a * unit <= b * unit && b * unit <= c * unit) by (nonlinear_arith)
        requires
            0 <= a,
            a <= b <= c,
            0 <= unit,
    ;
}

/// Gathers what `rank` keeps of every run.
fn gather<T: Copy>(
    src: &[T],
    unit: usize,
    granule: usize,
    segs: &[Segment],
    rank: usize,
    m: usize,
) -> (out: Vec<T>)
    requires
        segs_ok(segs@, m as int),
        rank < 2,
        granule == 1 || granule == 16,
        m / granule * unit <= src.len(),
    ensures
        out@ == bands(src@, unit as int, granule as int, segs@, rank as int),
{
    let ghost row = |i: int| band(src@, unit as int, granule as int, segs@[i], rank as int);
    let have: usize = src.len();
    let mut out: Vec<T> = Vec::new();
    let mut i: usize = 0;
    while i < segs.len()
        invariant
            i <= segs.len(),
            have == src.len(),
            segs_ok(segs@, m as int),
            rank < 2,
            granule == 1 || granule == 16,
            m / granule * unit <= src.len(),
            row == (|i: int| band(src@, unit as int, granule as int, segs@[i], rank as int)),
            out@ == flat(i as nat, row),
        decreases segs.len() - i,
    {
        let (off, cnt, split) = segs[i];
        proof {
            assert(seg_ok(segs@[i as int], m as int));
            lemma_band_range(
                m as int,
                unit as int,
                granule as int,
                segs@[i as int],
                rank as int,
                src.len() as int,
            );
        }
        let take: usize = if split {
            cnt / 2
        } else {
            cnt
        };
        proof {
            assert(rank * take <= take) by (nonlinear_arith)
                requires
                    rank < 2,
            ;
        }
        let lo: usize = off + if split {
            rank * take
        } else {
            0
        };
        let a: usize = lo / granule;
        let b: usize = a + take / granule;
        extend_range(&mut out, src, a * unit, b * unit);
        i = i + 1;
        proof {
            assert(row(i - 1) == src@.subrange(a * unit, b * unit));
        }
    }
    out
}

/// A quantized weight in tile order. `S` is the scale type.
pub enum TiledWeight<S> {
    /// 4-bit weights: 128 bytes and 16 block scales per tile, one tensor scale per tile row.
    Nvfp4 { qweight: Vec<u8>, scales: Vec<u8>, gs: Vec<S>, m: usize, k: usize },
    /// 8-bit weights: 256 bytes per tile, one scale per output row.
    Fp8 { data: Vec<u8>, row_scale: Vec<S>, m: usize, k: usize },
}

impl<S> TiledWeight<S> {
    /// The buffers have the sizes that the shape asks for.
    pub open spec fn wf(&self) -> bool {
        match self {
            TiledWeight::Nvfp4 { qweight, scales, gs, m, k } => {
                &&& m % 16 == 0
                &&& k % 16 == 0
                &&& qweight@.len() == m / 16 * (k / 16 * 128)
                &&& scales@.len() == m / 16 * (k / 16 * 16)
                &&& gs@.len() == m / 16
            },
            TiledWeight::Fp8 { data, row_scale, m, k } => {
                &&& m % 16 == 0
                &&& k % 16 == 0
                &&& data@.len() == m / 16 * (k / 16 * 256)
                &&& row_scale@.len() == m
            },
        }
    }

    /// Output rows.
    pub open spec fn rows(&self) -> int {
        match self {
            TiledWeight::Nvfp4 { m, .. } => *m as int,
            TiledWeight::Fp8 { m, .. } => *m as int,
        }
    }

    /// Reduction width.
    pub open spec fn cols(&self) -> int {
        match self {
            TiledWeight::Nvfp4 { k, .. } => *k as int,
            TiledWeight::Fp8 { k, .. } => *k as int,
        }
    }

    /// The weight bytes, tile after tile.
    pub open spec fn tiles(&self) -> Seq<u8> {
        match self {
            TiledWeight::Nvfp4 { qweight, .. } => qweight@,
            TiledWeight::Fp8 { data, .. } => data@,
        }
    }
}

/// `r` is the column-parallel part of `w` that `rank` keeps: the same columns, the rank's rows of
/// every run.
pub open spec fn is_col_shard<S>(
    w: TiledWeight<S>,
    segs: Seq<Segment>,
    rank: int,
    r: TiledWeight<S>,
) -> bool {
    match (w, r) {
        (
            TiledWeight::Nvfp4 { qweight, scales, gs, k, .. },
            TiledWeight::Nvfp4 { qweight: q, scales: s, gs: g, m: m1, k: k1 },
        ) => {
            &&& m1 == rows_kept(segs)
            &&& k1 == k
            &&& q@ == bands(qweight@, (k / 16) * 128, 16, segs, rank)
            &&& s@ == bands(scales@, (k / 16) * 16, 16, segs, rank)
            &&& g@ == bands(gs@, 1, 16, segs, rank)
        },
        (
            TiledWeight::Fp8 { data, row_scale, k, .. },
            TiledWeight::Fp8 { data: q, row_scale: s, m: m1, k: k1 },
        ) => {
            &&& m1 == rows_kept(segs)
            &&& k1 == k
            &&& q@ == bands(data@, (k / 16) * 256, 16, segs, rank)
            &&& s@ == bands(row_scale@, 1, 1, segs, rank)
        },
        _ => false,
    }
}

/// Rows that one rank keeps in all.
pub fn count_rows(segs: &[Segment]) -> (n: usize)
    requires
        rows_kept(segs@) <= usize::MAX,
    ensures
        n == rows_kept(segs@),
{
    let mut n: usize = 0;
    let mut i: usize = 0;
    while i < segs.len()
        invariant
            i <= segs.len(),
            n == rows_kept(segs@.take(i as int)),
            rows_kept(segs@) <= usize::MAX,
        decreases segs.len() - i,
    {
        proof {
            assert(segs@.take(i + 1).drop_last() =~= segs@.take(i as int));
            assert(segs@.take(i + 1).last() == segs@[i as int]);
            lemma_rows_monotone(segs@, i + 1);
        }
        let (_, cnt, split) = segs[i];
        n = n + if split {
            cnt / 2
        } else {
            cnt
        };
        i = i + 1;
    }
    proof {
        assert(segs@.take(segs@.len() as int) =~= segs@);
    }
    n
}

proof fn lemma_rows_monotone(segs: Seq<Segment>, k: int)
    requires
        0 <= k <= segs.len(),
    ensures
        0 <= rows_kept(segs.take(k)) <= rows_kept(segs),
    decreases segs.len(),
{
    if k == segs.len() {
        assert(segs.take(k) =~= segs);
        if segs.len() > 0 {
            lemma_rows_monotone(segs.drop_last(), segs.len() - 1);
            assert(segs.drop_last().take(segs.len() - 1) =~= segs.drop_last());
        }
    } else {
        lemma_rows_monotone(segs.drop_last(), k);
        assert(segs.drop_last().take(k) =~= segs.take(k));
    }
}

/// Column-parallel split: `rank` keeps its half of every split run and the whole of the others.
///
/// Every kept run is a contiguous band of whole tiles, so this is a gather of bytes.
pub fn shard_col_segs<S: Copy>(w: &TiledWeight<S>, segs: &[Segment], rank: usize) -> (r: TiledWeight<
    S,
>)
    requires
        w.wf(),
        segs_ok(segs@, w.rows()),
        rows_kept(segs@) <= usize::MAX,
        rank < 2,
    ensures
        is_col_shard(*w, segs@, rank as int, r),
{
    let m_local: usize = count_rows(segs);
    match w {
        TiledWeight::Nvfp4 { qweight, scales, gs, m, k } => {
            let nblk: usize = *k / 16;
            let nq: usize = qweight.len();
            proof {
                assert(m / 16 * (nblk * 128) >= nblk * 128 || m / 16 == 0) by (nonlinear_arith);
                assert(m / 16 * (nblk * 16) >= 0) by (nonlinear_arith);
                lemma_unit_fits(*m / 16, nblk as int);
            }
            if *m / 16 == 0 {
                proof {
                    lemma_no_rows(segs@, *m as int, rank as int, qweight@, (nblk * 128) as int);
                    lemma_no_rows(segs@, *m as int, rank as int, scales@, (nblk * 16) as int);
                }
                let gn: Vec<S> = gather(gs.as_slice(), 1, 16, segs, rank, *m);
                return TiledWeight::Nvfp4 {
                    qweight: Vec::new(),
                    scales: Vec::new(),
                    gs: gn,
                    m: m_local,
                    k: *k,
                };
            }
            let q_new: Vec<u8> = gather(qweight.as_slice(), nblk * 128, 16, segs, rank, *m);
            let s_new: Vec<u8> = gather(scales.as_slice(), nblk * 16, 16, segs, rank, *m);
            let g_new: Vec<S> = gather(gs.as_slice(), 1, 16, segs, rank, *m);
            TiledWeight::Nvfp4 { qweight: q_new, scales: s_new, gs: g_new, m: m_local, k: *k }
        },
        TiledWeight::Fp8 { data, row_scale, m, k } => {
            let nblk: usize = *k / 16;
            let nq: usize = data.len();
            proof {
                assert(m / 16 * (nblk * 256) >= nblk * 256 || m / 16 == 0) by (nonlinear_arith);
            }
            let r_new: Vec<S> = gather(row_scale.as_slice(), 1, 1, segs, rank, *m);
            if *m / 16 == 0 {
                proof {
                    lemma_no_rows(segs@, *m as int, rank as int, data@, (nblk * 256) as int);
                }
                return TiledWeight::Fp8 {
                    data: Vec::new(),
                    row_scale: r_new,
                    m: m_local,
                    k: *k,
                };
            }
            let q_new: Vec<u8> = gather(data.as_slice(), nblk * 256, 16, segs, rank, *m);
            TiledWeight::Fp8 { data: q_new, row_scale: r_new, m: m_local, k: *k }
        },
    }
}

proof fn lemma_unit_fits(tiles: usize, nblk: int)
    requires
        nblk >= 0,
    ensures
        tiles >= 1 ==> nblk * 16 <= tiles * (nblk * 16),
{
    if tiles >= 1 {
        assert(nblk * 16 <= tiles * (nblk * 16)) by (nonlinear_arith)
            requires
                tiles >= 1,
                nblk >= 0,
        ;
    }
}

proof fn lemma_no_rows(segs: Seq<Segment>, m: int, rank: int, src: Seq<u8>, unit: int)
    requires
        segs_ok(segs, m),
        0 <= m < 16,
        0 <= rank < 2,
        unit >= 0,
    ensures
        bands(src, unit, 16, segs, rank) == Seq::<u8>::empty(),
    decreases segs.len(),
{
    let row = |i: int| band(src, unit, 16, segs[i], rank);
    assert forall|i: int| 0 <= i < segs.len() implies (#[trigger] row(i)).len() == 0 by {
        assert(seg_ok(segs[i], m));
        let take = seg_take(segs[i]);
        assert(take == 0);
        assert(rank * take == 0) by (nonlinear_arith)
            requires
                take == 0,
        ;
        assert(seg_lo(segs[i], rank) / 16 == 0);
        assert(0 * unit == 0);
    }
    lemma_flat_len(segs.len(), row, 0);
    assert(segs.len() * 0 == 0) by (nonlinear_arith);
}

/// A split run is shared out exactly: what rank 0 keeps, followed by what rank 1 keeps, is the run.
pub proof fn law_halves_make_the_whole<T>(
    src: Seq<T>,
    unit: int,
    granule: int,
    seg: Segment,
    m: int,
)
    requires
        seg_ok(seg, m),
        seg.2,
        granule == 1 || granule == 16,
        0 <= unit,
        m / granule * unit <= src.len(),
    ensures
        band(src, unit, granule, seg, 0) + band(src, unit, granule, seg, 1) == src.subrange(
            seg.0 / (granule as usize) * unit,
            (seg.0 + seg.1) / granule * unit,
        ),
{
    lemma_band_range(m, unit, granule, seg, 0, src.len() as int);
    lemma_band_range(m, unit, granule, seg, 1, src.len() as int);
    let take = seg_take(seg);
    assert(0 * take == 0);
    assert(1 * take == take);
    let a = seg_lo(seg, 0) / granule;
    let b = seg_lo(seg, 1) / granule;
    let t = take / granule;
    assert(b == a + t && (seg.0 + seg.1) / granule == b + t) by {
        if granule == 16 {
            assert(take % 16 == 0);
        }
    }
    assert(src.subrange(a * unit, (a + t) * unit) + src.subrange(b * unit, (b + t) * unit)
        =~= src.subrange(a * unit, (b + t) * unit));
}

// ---- row-parallel ----

/// Column blocks that `rank` keeps of every tile row, for `unit` bytes per tile.
pub open spec fn half_blocks(src: Seq<u8>, unit: int, m: int, k: int, rank: int) -> Seq<u8> {
    flat(
        (m / 16) as nat,
        |mt: int|
            src.subrange(
                (mt * (k / 16) + rank * (k / 2 / 16)) * unit,
                (mt * (k / 16) + rank * (k / 2 / 16) + k / 2 / 16) * unit,
            ),
    )
}

/// `r` is the row-parallel part of `w` that `rank` keeps: the same rows, the rank's half of the
/// columns, and all the scales that do not depend on the column.
pub open spec fn is_row_shard<S>(w: TiledWeight<S>, rank: int, r: TiledWeight<S>) -> bool {
    match (w, r) {
        (
            TiledWeight::Nvfp4 { qweight, scales, gs, m, k },
            TiledWeight::Nvfp4 { qweight: q, scales: s, gs: g, m: m1, k: k1 },
        ) => {
            &&& m1 == m
            &&& k1 == k / 2
            &&& q@ == half_blocks(qweight@, 128, m as int, k as int, rank)
            &&& s@ == half_blocks(scales@, 16, m as int, k as int, rank)
            &&& g@ == gs@
        },
        (
            TiledWeight::Fp8 { data, row_scale, m, k },
            TiledWeight::Fp8 { data: q, row_scale: s, m: m1, k: k1 },
        ) => {
            &&& m1 == m
            &&& k1 == k / 2
            &&& q@ == half_blocks(data@, 256, m as int, k as int, rank)
            &&& s@ == row_scale@
        },
        _ => false,
    }
}

/// The weight's columns split into halves that the kernel of its format can read: whole pairs of
/// blocks for 4-bit weights, whole blocks for 8-bit ones.
pub open spec fn row_splits<S>(w: TiledWeight<S>) -> bool {
    match w {
        TiledWeight::Nvfp4 { k, .. } => (k / 16) % 2 == 0 && (k / 2) % 32 == 0,
        TiledWeight::Fp8 { k, .. } => (k / 16) % 2 == 0,
    }
}

proof fn lemma_blocks_in_range(m: int, k: int, unit: int, mt: int, rank: int, len: int)
    requires
        0 <= mt < m / 16,
        0 <= rank < 2,
        0 <= k,
        (k / 16) % 2 == 0,
        0 <= unit,
        len == m / 16 * (k / 16 * unit),
    ensures
        0 <= mt * (k / 16),
        0 <= rank * (k / 2 / 16) <= k / 2 / 16,
        0 <= (mt * (k / 16) + rank * (k / 2 / 16)) * unit,
        (mt * (k / 16) + rank * (k / 2 / 16)) * unit <= (mt * (k / 16) + rank * (k / 2 / 16) + k / 2
            / 16) * unit,
        (mt * (k / 16) + rank * (k / 2 / 16) + k / 2 / 16) * unit <= len,
        mt * (k / 16) + k / 16 <= m / 16 * (k / 16),
{
    let nblk = k / 16;
    let half = k / 2 / 16;
    let tiles = m / 16;
    assert(2 * half == nblk);
    assert(0 <= rank * half <= half) by (nonlinear_arith)
        requires
            0 <= rank < 2,
            0 <= half,
    ;
    assert(0 <= mt * nblk && mt * nblk + nblk <= tiles * nblk) by (nonlinear_arith)
        requires
            0 <= mt < tiles,
            0 <= nblk,
    ;
    let a = mt * nblk + rank * half;
    let b = a + half;
    assert(0 <= a * unit && a * unit <= b * unit && b * unit <= (tiles * nblk) * unit)
        by (nonlinear_arith)
        requires
            0 <= a <= b,
            b <= tiles * nblk,
            0 <= unit,
    ;
    assert((tiles * nblk) * unit == tiles * (nblk * unit)) by (nonlinear_arith);
}

fn gather_blocks(src: &[u8], unit: usize, m: usize, k: usize, rank: usize) -> (out: Vec<u8>)
    requires
        rank < 2,
        (k / 16) % 2 == 0,
        src.len() == m / 16 * (k / 16 * unit),
        unit >= 1,
    ensures
        out@ == half_blocks(src@, unit as int, m as int, k as int, rank as int),
{
    let ghost row = |mt: int|
        src@.subrange(
            (mt * (k / 16) + rank * (k / 2 / 16)) * unit,
            (mt * (k / 16) + rank * (k / 2 / 16) + k / 2 / 16) * unit,
        );
    let have: usize = src.len();
    let nblk: usize = k / 16;
    let half: usize = k / 2 / 16;
    let mut out: Vec<u8> = Vec::new();
    let mut mt: usize = 0;
    while mt < m / 16
        invariant
            mt <= m / 16,
            have == src.len(),
            nblk == k / 16,
            half == k / 2 / 16,
            rank < 2,
            unit >= 1,
            (k / 16) % 2 == 0,
            src.len() == m / 16 * (k / 16 * unit),
            row == (|mt: int|
                src@.subrange(
                    (mt * (k / 16) + rank * (k / 2 / 16)) * unit,
                    (mt * (k / 16) + rank * (k / 2 / 16) + k / 2 / 16) * unit,
                )),
            out@ == flat(mt as nat, row),
        decreases m / 16 - mt,
    {
        proof {
            lemma_blocks_in_range(
                m as int,
                k as int,
                unit as int,
                mt as int,
                rank as int,
                src.len() as int,
            );
            let b = mt * nblk + rank * half + half;
            assert(b <= b * unit) by (nonlinear_arith)
                requires
                    unit >= 1,
                    b >= 0,
            ;
        }
        let lo: usize = mt * nblk + rank * half;
        extend_range(&mut out, src, lo * unit, (lo + half) * unit);
        mt = mt + 1;
        proof {
            assert(row(mt - 1) == src@.subrange(lo * unit, (lo + half) * unit));
        }
    }
    out
}

/// Row-parallel split: `rank` keeps its half of the column blocks of every tile row. The partial
/// results of the two ranks sum to the whole.
pub fn shard_row<S: Copy>(w: &TiledWeight<S>, rank: usize) -> (r: TiledWeight<S>)
    requires
        w.wf(),
        row_splits(*w),
        rank < 2,
    ensures
        is_row_shard(*w, rank as int, r),
{
    match w {
        TiledWeight::Nvfp4 { qweight, scales, gs, m, k } => {
            let q_new: Vec<u8> = gather_blocks(qweight.as_slice(), 128, *m, *k, rank);
            let s_new: Vec<u8> = gather_blocks(scales.as_slice(), 16, *m, *k, rank);
            let g_new: Vec<S> = crate::seqs::prefix(gs.as_slice(), gs.len());
            proof {
                assert(gs@.take(gs@.len() as int) =~= gs@);
            }
            TiledWeight::Nvfp4 { qweight: q_new, scales: s_new, gs: g_new, m: *m, k: *k / 2 }
        },
        TiledWeight::Fp8 { data, row_scale, m, k } => {
            let q_new: Vec<u8> = gather_blocks(data.as_slice(), 256, *m, *k, rank);
            let r_new: Vec<S> = crate::seqs::prefix(row_scale.as_slice(), row_scale.len());
            proof {
                assert(row_scale@.take(row_scale@.len() as int) =~= row_scale@);
            }
            TiledWeight::Fp8 { data: q_new, row_scale: r_new, m: *m, k: *k / 2 }
        },
    }
}

/// The row-parallel halves share out every tile row exactly: in each, rank 0's blocks followed by
/// rank 1's are the tile row.
pub proof fn law_row_halves_make_the_whole(
    src: Seq<u8>,
    unit: int,
    m: int,
    k: int,
    mt: int,
)
    requires
        0 <= mt < m / 16,
        0 <= k,
        (k / 16) % 2 == 0,
        0 <= unit,
        src.len() == m / 16 * (k / 16 * unit),
    ensures
        ({
            let nblk = k / 16;
            let half = k / 2 / 16;
            let part = |rank: int|
                half_blocks(src, unit, m, k, rank).subrange(
                    mt * (half * unit),
                    (mt + 1) * (half * unit),
                );
            part(0) + part(1) == src.subrange(mt * nblk * unit, (mt + 1) * nblk * unit)
        }),
{
    let nblk = k / 16;
    let half = k / 2 / 16;
    assert(2 * half == nblk);
    lemma_half_row(src, unit, m, k, mt, 0);
    lemma_half_row(src, unit, m, k, mt, 1);
    lemma_blocks_in_range(m, k, unit, mt, 0, src.len() as int);
    lemma_blocks_in_range(m, k, unit, mt, 1, src.len() as int);
    assert(0 * half == 0);
    assert(1 * half == half);
    assert((mt + 1) * nblk == mt * nblk + nblk) by (nonlinear_arith);
    let a = mt * nblk;
    assert(src.subrange(a * unit, (a + half) * unit) + src.subrange(
        (a + half) * unit,
        (a + half + half) * unit,
    ) =~= src.subrange(a * unit, (a + nblk) * unit));
}

proof fn lemma_half_row(src: Seq<u8>, unit: int, m: int, k: int, mt: int, rank: int)
    requires
        0 <= mt < m / 16,
        0 <= rank < 2,
        0 <= k,
        (k / 16) % 2 == 0,
        0 <= unit,
        src.len() == m / 16 * (k / 16 * unit),
    ensures
        ({
            let nblk = k / 16;
            let half = k / 2 / 16;
            half_blocks(src, unit, m, k, rank).subrange(
                mt * (half * unit),
                (mt + 1) * (half * unit),
            ) == src.subrange(
                (mt * nblk + rank * half) * unit,
                (mt * nblk + rank * half + half) * unit,
            )
        }),
{
    let nblk = k / 16;
    let half = k / 2 / 16;
    let tiles = m / 16;
    let w = half * unit;
    let row = |mt: int|
        src.subrange(
            (mt * (k / 16) + rank * (k / 2 / 16)) * unit,
            (mt * (k / 16) + rank * (k / 2 / 16) + k / 2 / 16) * unit,
        );
    assert(0 <= w) by (nonlinear_arith)
        requires
            0 <= half,
            0 <= unit,
            w == half * unit,
    ;
    assert forall|i: int| 0 <= i < tiles implies (#[trigger] row(i)).len() == w by {
        lemma_blocks_in_range(m, k, unit, i, rank, src.len() as int);
        let a = i * nblk + rank * half;
        assert((a + half) * unit - a * unit == half * unit) by (nonlinear_arith);
    }
    lemma_flat_len(tiles as nat, row, w as nat);
    assert((mt + 1) * w == mt * w + w) by (nonlinear_arith);
    assert(0 <= mt * w && mt * w + w <= tiles * w) by (nonlinear_arith)
        requires
            0 <= mt < tiles,
            0 <= w,
    ;
    let all = half_blocks(src, unit, m, k, rank);
    assert(all == flat(tiles as nat, row));
    assert forall|j: int| 0 <= j < w implies #[trigger] all.subrange(mt * w, mt * w + w)[j] == row(
        mt,
    )[j] by {
        lemma_flat_index(tiles as nat, row, w as nat, mt, j);
    }
    assert(row(mt).len() == w);
    assert(all.subrange(mt * w, mt * w + w) =~= row(mt));
}

// ---- unquantized tensors ----

/// What `rank` keeps of rows laid out with `stride` entries each.
pub open spec fn strided_half<T>(src: Seq<T>, seg: (usize, usize), stride: int, rank: int) -> Seq<T> {
    let half = (seg.1 / 2) as int;
    src.subrange((seg.0 + rank * half) * stride, (seg.0 + rank * half) * stride + half * stride)
}

/// Halves every run of rows of an unquantized tensor.
pub fn shard_f32_segs<T: Copy>(
    src: &[T],
    segs: &[(usize, usize)],
    stride: usize,
    rank: usize,
) -> (out: Vec<T>)
    requires
        rank < 2,
        stride >= 1,
        forall|i: int|
            #![trigger segs@[i]]
            0 <= i < segs.len() ==> segs@[i].1 % 2 == 0 && (segs@[i].0 + segs@[i].1) * stride
                <= src.len(),
    ensures
        out@ == flat(
            segs.len() as nat,
            |i: int| strided_half(src@, segs@[i], stride as int, rank as int),
        ),
{
    let ghost row = |i: int| strided_half(src@, segs@[i], stride as int, rank as int);
    let have: usize = src.len();
    let mut out: Vec<T> = Vec::new();
    let mut i: usize = 0;
    while i < segs.len()
        invariant
            i <= segs.len(),
            have == src.len(),
            rank < 2,
            stride >= 1,
            forall|i: int|
                #![trigger segs@[i]]
                0 <= i < segs.len() ==> segs@[i].1 % 2 == 0 && (segs@[i].0 + segs@[i].1) * stride
                    <= src.len(),
            row == (|i: int| strided_half(src@, segs@[i], stride as int, rank as int)),
            out@ == flat(i as nat, row),
        decreases segs.len() - i,
    {
        let (off, rows) = segs[i];
        let half: usize = rows / 2;
        proof {
            assert(segs@[i as int].1 % 2 == 0);
            assert(0 <= rank * half <= half) by (nonlinear_arith)
                requires
                    rank < 2,
            ;
            let a = off + rank * half;
            assert(0 <= a * stride && a * stride + half * stride == (a + half) * stride && (a
                + half) * stride <= (off + rows) * stride && off + rows <= (off + rows) * stride)
                by (nonlinear_arith)
                requires
                    0 <= a,
                    a + half <= off + rows,
                    stride >= 1,
            ;
            assert(0 <= half * stride) by (nonlinear_arith);
        }
        let base: usize = (off + rank * half) * stride;
        extend_range(&mut out, src, base, base + half * stride);
        i = i + 1;
        proof {
            assert(row(i - 1) == src@.subrange(base as int, base + half * stride));
        }
    }
    out
}

/// Runs of the fused attention projection: queries and gates, keys, values.
pub fn qkv_segments(cfg: &Config) -> (r: Vec<Segment>)
    requires
        cfg.num_heads * cfg.head_dim * 2 + 2 * cfg.num_kv_heads * cfg.head_dim <= usize::MAX,
    ensures
        r@ == seq![
            (0usize, (cfg.num_heads * cfg.head_dim * 2) as usize, true),
            (
                (cfg.num_heads * cfg.head_dim * 2) as usize,
                (cfg.num_kv_heads * cfg.head_dim) as usize,
                true,
            ),
            (
                (cfg.num_heads * cfg.head_dim * 2 + cfg.num_kv_heads * cfg.head_dim) as usize,
                (cfg.num_kv_heads * cfg.head_dim) as usize,
                true,
            ),
        ],
{
    let (nh, nkv, hd) = (cfg.num_heads, cfg.num_kv_heads, cfg.head_dim);
    proof {
        let (a, b, c) = (nh as int, nkv as int, hd as int);
        assert(2 * b * c == 2 * (b * c) && 0 <= b * c && 0 <= a * c) by (nonlinear_arith)
            requires
                0 <= a,
                0 <= b,
                0 <= c,
        ;
    }
    let q: usize = nh * hd * 2;
    let kv: usize = nkv * hd;
    let r: Vec<Segment> = vec![(0, q, true), (q, kv, true), (q + kv, kv, true)];
    proof {
        assert(r@ =~= seq![(0usize, q, true), (q, kv, true), ((q + kv) as usize, kv, true)]);
    }
    r
}

/// Runs of the fused linear-attention projection: q, k, v, z, and the per-head b and a rows, which
/// are too few to halve on tile boundaries and stay whole.
pub open spec fn gdn_runs(kdim: int, vdim: int, nv: int) -> Seq<Segment> {
    let cdim = kdim * 2 + vdim;
    seq![
        (0usize, kdim as usize, true),
        (kdim as usize, kdim as usize, true),
        ((2 * kdim) as usize, vdim as usize, true),
        (cdim as usize, vdim as usize, true),
        ((cdim + vdim) as usize, nv as usize, false),
        ((cdim + vdim + nv) as usize, nv as usize, false),
    ]
}

/// Runs of the fused linear-attention projection.
pub fn gdn_segments(cfg: &Config) -> (r: Vec<Segment>)
    requires
        cfg.spec_key_dim() * 2 + 2 * cfg.spec_value_dim() + 2 * cfg.lin_num_v_heads <= usize::MAX,
        0 <= cfg.spec_key_dim(),
        0 <= cfg.spec_value_dim(),
    ensures
        r@ == gdn_runs(cfg.spec_key_dim(), cfg.spec_value_dim(), cfg.lin_num_v_heads as int),
{
    let (kdim, vdim, nv) = (cfg.key_dim(), cfg.value_dim(), cfg.lin_num_v_heads);
    let cdim: usize = kdim * 2 + vdim;
    let r: Vec<Segment> = vec![
        (0, kdim, true),
        (kdim, kdim, true),
        (2 * kdim, vdim, true),
        (cdim, vdim, true),
        (cdim + vdim, nv, false),
        (cdim + vdim + nv, nv, false),
    ];
    proof {
        assert(r@ =~= gdn_runs(kdim as int, vdim as int, nv as int));
    }
    r
}

// ---- head-execution proof ----

/// Bit pattern of a red zone: a quiet NaN with a recognisable payload.
pub const TP_REDZONE_SENTINEL: u32 = 0x7FBA_DBAD;

/// Entries of a red zone that something wrote.
pub open spec fn written(zone: Seq<u32>) -> nat
    decreases zone.len(),
{
    if zone.len() == 0 {
        0
    } else {
        written(zone.drop_last()) + (if zone.last() == TP_REDZONE_SENTINEL {
            0nat
        } else {
            1nat
        })
    }
}

/// Counts the entries above the rank's own that something wrote; `None` for a buffer without a red
/// zone (less than twice the local size).
pub fn redzone_violations(bits: &[u32], local_n: usize) -> (r: Option<usize>)
    requires
        local_n * 2 <= usize::MAX,
    ensures
        bits.len() < local_n * 2 ==> r is None,
        bits.len() >= local_n * 2 ==> r == Some(
            written(bits@.skip(local_n as int)) as usize,
        ) && written(bits@.skip(local_n as int)) <= bits.len(),
{
    if bits.len() < local_n * 2 {
        return None;
    }
    let ghost zone = bits@.skip(local_n as int);
    let mut bad: usize = 0;
    let mut i: usize = local_n;
    proof {
        assert(zone.take(0) =~= Seq::<u32>::empty());
    }
    while i < bits.len()
        invariant
            local_n <= i <= bits.len(),
            zone == bits@.skip(local_n as int),
            bad == written(zone.take(i - local_n)),
            bad <= i - local_n,
        decreases bits.len() - i,
    {
        proof {
            let k = i - local_n;
            assert(zone.take(k + 1).drop_last() =~= zone.take(k));
            assert(zone.take(k + 1).last() == bits@[i as int]);
        }
        if bits[i] != TP_REDZONE_SENTINEL {
            bad = bad + 1;
        }
        i = i + 1;
    }
    proof {
        assert(zone.take(zone.len() as int) =~= zone);
    }
    Some(bad)
}

/// Every local head ran, all equally often, and no head beyond them ran at all.
pub fn visits_uniform(visits: &[u64], nloc: usize) -> (ok: bool)
    requires
        1 <= nloc <= visits.len(),
    ensures
        ok == (visits@[0] > 0 && (forall|i: int| 0 <= i < nloc ==> #[trigger] visits@[i] == visits@[0])
            && (forall|i: int| nloc <= i < visits.len() ==> #[trigger] visits@[i] == 0)),
{
    if visits[0] == 0 {
        return false;
    }
    let mut i: usize = 0;
    while i < visits.len()
        invariant
            i <= visits.len(),
            1 <= nloc <= visits.len(),
            visits@[0] > 0,
            forall|k: int| 0 <= k < i && k < nloc ==> #[trigger] visits@[k] == visits@[0],
            forall|k: int| nloc <= k < i ==> #[trigger] visits@[k] == 0,
        decreases visits.len() - i,
    {
        if i < nloc {
            if visits[i] != visits[0] {
                proof {
                    assert(visits@[i as int] != visits@[0]);
                }
                return false;
            }
        } else if visits[i] != 0 {
            proof {
                assert(visits@[i as int] != 0);
            }
            return false;
        }
        i = i + 1;
    }
    true
}

/// Grows a vector to `full` entries, the new ones all `filler`.
pub fn pad_redzone<T: Copy>(v: &[T], full: usize, filler: T) -> (r: Vec<T>)
    requires
        v.len() <= full,
    ensures
        r@ == v@ + fill((full - v.len()) as nat, filler),
{
    let mut r: Vec<T> = Vec::new();
    extend_range(&mut r, v, 0, v.len());
    proof {
        assert(v@.subrange(0, v@.len() as int) =~= v@);
        assert(r@ =~= v@ + fill(0, filler));
    }
    let mut i: usize = v.len();
    while i < full
        invariant
            v.len() <= i <= full,
            r@ == v@ + fill((i - v.len()) as nat, filler),
        decreases full - i,
    {
        r.push(filler);
        i = i + 1;
        proof {
            assert(r@ =~= v@ + fill((i - v.len()) as nat, filler));
        }
    }
    r
}

} // verus!
