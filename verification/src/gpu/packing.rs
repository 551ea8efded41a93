//! Host bytes of a weight, joined and permuted into the order that the kernels read.
use vstd::prelude::*;

use crate::mma::{fp4_tile_at, fp8_tile_at, repack_fp8_mma, repack_nvfp4_mma, scale_tile_at};
use crate::seqs::{fill, filled, flat, lemma_flat_len};
use crate::tensors::{
    fuse_fp8, fuse_nvfp4, lemma_tiles_before, nvfp4_parts_ok, subset_rows_fp8, subset_rows_nvfp4,
    table_row, tiles_before,
};

verus! {

/// A 4-bit weight in tile order.
pub struct PackedFp4<S> {
    pub weights: Vec<u8>,
    pub scales: Vec<u8>,
    /// Reciprocal tensor scale of every 16-row tile.
    pub tile_scales: Vec<S>,
    pub m: usize,
    pub k: usize,
}

/// An 8-bit weight in tile order.
pub struct PackedFp8<S> {
    pub weights: Vec<u8>,
    pub row_scales: Vec<S>,
    pub m: usize,
    pub k: usize,
}

/// `p` is the 4-bit tensor `qw`, `sc` in tile order.
pub open spec fn is_tiled_fp4<S>(p: PackedFp4<S>, qw: Seq<u8>, sc: Seq<u8>) -> bool {
    let tiles = ((p.m / 16) * (p.k / 16)) as nat;
    &&& p.weights@ == flat(tiles, |t: int| fp4_tile_at(qw, p.k as int, t))
    &&& p.scales@ == flat(tiles, |t: int| scale_tile_at(sc, p.k as int, t))
}

/// `p` holds the 8-bit tensor `qw` in tile order.
pub open spec fn is_tiled_fp8<S>(p: PackedFp8<S>, qw: Seq<u8>) -> bool {
    p.weights@ == flat(
        ((p.m / 16) * (p.k / 16)) as nat,
        |t: int| fp8_tile_at(qw, p.k as int, t),
    )
}

/// Rows of 8-bit parts together.
pub open spec fn rows_before<S>(parts: Seq<(&[u8], &[S], usize)>, i: nat) -> nat
    decreases i,
{
    if i == 0 {
        0
    } else {
        rows_before(parts, (i - 1) as nat) + parts[i - 1].2 as nat
    }
}

proof fn lemma_fp4_rows<S>(parts: Seq<(&[u8], &[u8], S, usize)>, k: int, i: nat)
    requires
        nvfp4_parts_ok(parts, k),
        k % 16 == 0,
        k >= 0,
        i <= parts.len(),
    ensures
        flat(i, |i: int| parts[i].1@).len() == tiles_before(parts, i) * k,
    decreases i,
{
    if i > 0 {
        lemma_fp4_rows(parts, k, (i - 1) as nat);
        let m = parts[i - 1].3 as int;
        let t = tiles_before(parts, (i - 1) as nat) as int;
        assert(parts[i - 1].3 % 16 == 0);
        assert(m * k / 16 == m / 16 * k) by (nonlinear_arith)
            requires
                m % 16 == 0,
                k % 16 == 0,
        ;
        assert((t + m / 16) * k == t * k + m / 16 * k) by (nonlinear_arith);
    } else {
        assert(0 * k == 0);
    }
}

/// Joins 4-bit tensors along their rows and puts them into tile order. Joining comes first: the order
/// of a tile depends on the rows around it.
pub fn pack_nvfp4<S: Copy>(parts: &[(&[u8], &[u8], S, usize)], k: usize) -> (p: PackedFp4<S>)
    requires
        k % 32 == 0,
        nvfp4_parts_ok(parts@, k as int),
        tiles_before(parts@, parts@.len()) * 16 <= usize::MAX,
    ensures
        p.m == tiles_before(parts@, parts@.len()) * 16,
        p.k == k,
        is_tiled_fp4(
            p,
            flat(parts@.len(), |i: int| parts@[i].0@),
            flat(parts@.len(), |i: int| parts@[i].1@),
        ),
        p.tile_scales@ == flat(parts@.len(), |i: int| fill((parts@[i].3 / 16) as nat, parts@[i].2)),
{
    let (qw, sc, gs) = fuse_nvfp4(parts, k);
    proof {
        lemma_tiles_before(parts@, k as int, parts@.len());
        lemma_fp4_rows(parts@, k as int, parts@.len());
    }
    let m: usize = gs.len() * 16;
    proof {
        let t = gs@.len() as int;
        assert(t * 16 * (k as int / 2) == t * (k * 8)) by (nonlinear_arith)
            requires
                k % 2 == 0,
        ;
        assert(t * 16 * (k as int / 16) == t * k) by (nonlinear_arith)
            requires
                k % 16 == 0,
        ;
    }
    let (weights, scales) = repack_nvfp4_mma(qw.as_slice(), sc.as_slice(), m, k);
    PackedFp4 { weights, scales, tile_scales: gs, m, k }
}

/// Joins 8-bit tensors along their rows and puts them into tile order.
pub fn pack_fp8<S: Copy>(parts: &[(&[u8], &[S], usize)], k: usize) -> (p: PackedFp8<S>)
    requires
        k % 16 == 0,
        forall|i: int|
            #![trigger parts@[i]]
            0 <= i < parts@.len() ==> parts@[i].2 % 16 == 0 && parts@[i].0@.len() == parts@[i].2 * k
                && parts@[i].1@.len() == parts@[i].2,
    ensures
        p.m == rows_before(parts@, parts@.len()),
        p.k == k,
        is_tiled_fp8(p, flat(parts@.len(), |i: int| parts@[i].0@)),
        p.row_scales@ == flat(parts@.len(), |i: int| parts@[i].1@),
{
    let (qw, rs) = fuse_fp8(parts, k);
    proof {
        lemma_fp8_rows(parts@, k as int, parts@.len());
    }
    let m: usize = rs.len();
    let weights: Vec<u8> = repack_fp8_mma(qw.as_slice(), m, k);
    PackedFp8 { weights, row_scales: rs, m, k }
}

proof fn lemma_fp8_rows<S>(parts: Seq<(&[u8], &[S], usize)>, k: int, i: nat)
    requires
        i <= parts.len(),
        forall|i: int|
            #![trigger parts[i]]
            0 <= i < parts.len() ==> parts[i].2 % 16 == 0 && parts[i].0@.len() == parts[i].2 * k
                && parts[i].1@.len() == parts[i].2,
    ensures
        flat(i, |i: int| parts[i].1@).len() == rows_before(parts, i),
        flat(i, |i: int| parts[i].0@).len() == rows_before(parts, i) * k,
        rows_before(parts, i) % 16 == 0,
    decreases i,
{
    if i > 0 {
        lemma_fp8_rows(parts, k, (i - 1) as nat);
        let t = rows_before(parts, (i - 1) as nat) as int;
        let m = parts[i - 1].2 as int;
        assert(parts[i - 1].2 % 16 == 0);
        assert((t + m) * k == t * k + m * k) by (nonlinear_arith);
    } else {
        assert(0 * k == 0);
    }
}

/// The draft head of a 4-bit output head: some of its rows, in tile order.
pub fn pack_draft_nvfp4<S: Copy>(qw: &[u8], sc: &[u8], scale: S, k: usize, rows: &[u32]) -> (p:
    PackedFp4<S>)
    requires
        k % 32 == 0,
        rows@.len() % 16 == 0,
        forall|i: int|
            #![trigger rows@[i]]
            0 <= i < rows@.len() ==> (rows@[i] + 1) * (k / 2) <= qw@.len() && (rows@[i] + 1) * (k
                / 16) <= sc@.len(),
    ensures
        p.m == rows@.len(),
        p.k == k,
        is_tiled_fp4(
            p,
            flat(rows@.len(), |i: int| table_row(qw@, k as int / 2, rows@[i] as int)),
            flat(rows@.len(), |i: int| table_row(sc@, k as int / 16, rows@[i] as int)),
        ),
        p.tile_scales@ == fill((rows@.len() / 16) as nat, scale),
{
    let (sq, ss) = subset_rows_nvfp4(qw, sc, k, rows);
    let m: usize = rows.len();
    proof {
        let qrow = |i: int| table_row(qw@, k as int / 2, rows@[i] as int);
        let srow = |i: int| table_row(sc@, k as int / 16, rows@[i] as int);
        let (a, b) = (k as int / 2, k as int / 16);
        assert forall|i: int| 0 <= i < rows@.len() implies (#[trigger] qrow(i)).len() == a by {
            let r = rows@[i] as int;
            assert(0 <= r * a && (r + 1) * a == r * a + a) by (nonlinear_arith)
                requires
                    r >= 0,
                    a >= 0,
            ;
        }
        assert forall|i: int| 0 <= i < rows@.len() implies (#[trigger] srow(i)).len() == b by {
            let r = rows@[i] as int;
            assert(0 <= r * b && (r + 1) * b == r * b + b) by (nonlinear_arith)
                requires
                    r >= 0,
                    b >= 0,
            ;
        }
        lemma_flat_len(rows@.len(), qrow, a as nat);
        lemma_flat_len(rows@.len(), srow, b as nat);
    }
    let (weights, scales) = repack_nvfp4_mma(sq.as_slice(), ss.as_slice(), m, k);
    PackedFp4 { weights, scales, tile_scales: filled(m / 16, scale), m, k }
}

/// The draft head of an 8-bit output head: some of its rows, in tile order.
pub fn pack_draft_fp8<S: Copy>(qw: &[u8], rs: &[S], k: usize, rows: &[u32]) -> (p: PackedFp8<S>)
    requires
        k % 16 == 0,
        rows@.len() % 16 == 0,
        forall|i: int|
            #![trigger rows@[i]]
            0 <= i < rows@.len() ==> (rows@[i] + 1) * k <= qw@.len() && rows@[i] < rs@.len(),
    ensures
        p.m == rows@.len(),
        p.k == k,
        is_tiled_fp8(p, flat(rows@.len(), |i: int| table_row(qw@, k as int, rows@[i] as int))),
        p.row_scales@ == Seq::new(rows@.len(), |i: int| rs@[rows@[i] as int]),
{
    let (sq, srs) = subset_rows_fp8(qw, rs, k, rows);
    let m: usize = rows.len();
    proof {
        let qrow = |i: int| table_row(qw@, k as int, rows@[i] as int);
        let a = k as int;
        assert forall|i: int| 0 <= i < rows@.len() implies (#[trigger] qrow(i)).len() == a by {
            let r = rows@[i] as int;
            assert(0 <= r * a && (r + 1) * a == r * a + a) by (nonlinear_arith)
                requires
                    r >= 0,
                    a >= 0,
            ;
        }
        lemma_flat_len(rows@.len(), qrow, a as nat);
    }
    let weights: Vec<u8> = repack_fp8_mma(sq.as_slice(), m, k);
    PackedFp8 { weights, row_scales: srs, m, k }
}

} // verus!
