//! Weight order of the tensor-core kernels: the permutation of 16x16 tiles that turns a fragment load
//! into one contiguous read.
use vstd::prelude::*;

use crate::seqs::{flat, lemma_flat_index, max_int, min_int, min_usize};

verus! {

/// Rows of a tile.
pub const MMA_M: usize = 16;

/// Columns of a tile.
pub const MMA_K: usize = 16;

/// Bytes of a repacked 4-bit tile.
pub const MMA_TILE_FP4: usize = 128;

/// Bytes of a repacked 8-bit tile.
pub const MMA_TILE_FP8: usize = 256;

/// Tiles below which another thread costs more than it saves.
pub const REPACK_MIN_TILES_PER_THREAD: usize = 4096;

// ---- slots ----

/// Byte of a 4-bit tile that holds column pair `c, c + 1` (for even `c`) of row `r`: lane
/// `(r % 8) * 4 + (c % 8) / 2`, register `r / 8 + 2 * (c / 8)`.
pub open spec fn fp4_slot(r: int, c: int) -> int {
    ((r % 8) * 4 + (c % 8) / 2) * 4 + r / 8 + 2 * (c / 8)
}

/// Row whose nibbles stand in byte `off` of a 4-bit tile.
pub open spec fn fp4_row(off: int) -> int {
    off / 16 + 8 * (off % 2)
}

/// Even column whose nibble stands in the low half of byte `off` of a 4-bit tile.
pub open spec fn fp4_col(off: int) -> int {
    2 * ((off / 4) % 4) + 8 * ((off / 2) % 2)
}

/// Byte of an 8-bit tile that holds element `(r, c)`.
pub open spec fn fp8_slot(r: int, c: int) -> int {
    ((r % 8) * 4 + (c % 8) / 2) * 8 + c % 2 + 2 * (r / 8) + 4 * (c / 8)
}

/// Row of the element in byte `off` of an 8-bit tile.
pub open spec fn fp8_row(off: int) -> int {
    off / 32 + 8 * ((off / 2) % 2)
}

/// Column of the element in byte `off` of an 8-bit tile.
pub open spec fn fp8_col(off: int) -> int {
    2 * ((off / 8) % 4) + off % 2 + 8 * ((off / 4) % 2)
}

/// The 4-bit slots are a bijection: each (byte, half) of a tile holds exactly one element.
pub proof fn law_fp4_slots_are_bijective()
    ensures
        forall|r: int, c: int|
            0 <= r < 16 && 0 <= c < 16 ==> {
                &&& 0 <= #[trigger] fp4_slot(r, c) < 128
                &&& fp4_row(fp4_slot(r, c)) == r
                &&& fp4_col(fp4_slot(r, c)) == c - c % 2
            },
        forall|off: int|
            0 <= off < 128 ==> {
                &&& 0 <= #[trigger] fp4_row(off) < 16
                &&& 0 <= fp4_col(off) < 16
                &&& fp4_col(off) % 2 == 0
                &&& fp4_slot(fp4_row(off), fp4_col(off)) == off
                &&& fp4_slot(fp4_row(off), fp4_col(off) + 1) == off
            },
{
}

/// The 8-bit slots are a bijection: each byte of a tile holds exactly one element.
pub proof fn law_fp8_slots_are_bijective()
    ensures
        forall|r: int, c: int|
            0 <= r < 16 && 0 <= c < 16 ==> {
                &&& 0 <= #[trigger] fp8_slot(r, c) < 256
                &&& fp8_row(fp8_slot(r, c)) == r
                &&& fp8_col(fp8_slot(r, c)) == c
            },
        forall|off: int|
            0 <= off < 256 ==> {
                &&& 0 <= #[trigger] fp8_row(off) < 16
                &&& 0 <= fp8_col(off) < 16
                &&& fp8_slot(fp8_row(off), fp8_col(off)) == off
            },
{
    assert forall|r: int, c: int| 0 <= r < 16 && 0 <= c < 16 implies {
        &&& 0 <= #[trigger] fp8_slot(r, c) < 256
        &&& fp8_row(fp8_slot(r, c)) == r
        &&& fp8_col(fp8_slot(r, c)) == c
    } by {
        lemma_fp8_forth(r, c);
    }
    assert forall|off: int| 0 <= off < 256 implies {
        &&& 0 <= #[trigger] fp8_row(off) < 16
        &&& 0 <= fp8_col(off) < 16
        &&& fp8_slot(fp8_row(off), fp8_col(off)) == off
    } by {
        lemma_fp8_back(off);
    }
}

proof fn lemma_fp8_forth(r: int, c: int)
    requires
        0 <= r < 16,
        0 <= c < 16,
    ensures
        0 <= fp8_slot(r, c) < 256,
        fp8_row(fp8_slot(r, c)) == r,
        fp8_col(fp8_slot(r, c)) == c,
{
    let s = fp8_slot(r, c);
    let (g, u) = (r % 8, r / 8);
    let (t, l, v) = ((c % 8) / 2, c % 2, c / 8);
    assert(c == 8 * v + 2 * t + l);
    assert(s == 32 * g + 8 * t + 4 * v + 2 * u + l);
    assert(s / 32 == g);
    assert(s / 8 == 4 * g + t);
    assert(s / 4 == 8 * g + 2 * t + v);
    assert(s / 2 == 16 * g + 4 * t + 2 * v + u);
}

proof fn lemma_fp8_back(off: int)
    requires
        0 <= off < 256,
    ensures
        0 <= fp8_row(off) < 16,
        0 <= fp8_col(off) < 16,
        fp8_slot(fp8_row(off), fp8_col(off)) == off,
{
    let o = off as u16;
    let r = (o / 32 + 8 * ((o / 2) % 2)) as u16;
    let c = (2 * ((o / 8) % 4) + o % 2 + 8 * ((o / 4) % 2)) as u16;
    assert(r < 16 && c < 16 && ((r % 8) * 4 + (c % 8) / 2) * 8 + c % 2 + 2 * (r / 8) + 4 * (c / 8)
        == o && r == o / 32 + 8 * ((o / 2) % 2) && c == 2 * ((o / 8) % 4) + o % 2 + 8 * ((o / 4)
        % 2)) by (bit_vector)
        requires
            o < 256,
            r == (o / 32 + 8 * ((o / 2) % 2)) as u16,
            c == (2 * ((o / 8) % 4) + o % 2 + 8 * ((o / 4) % 2)) as u16,
    ;
}

/// Where element `(r, c)` of a tile lives inside a repacked 4-bit tile: byte, and whether it is the
/// high half.
pub fn fp4_tile_slot(r: usize, c: usize) -> (s: (usize, bool))
    requires
        r < MMA_M,
        c < MMA_K,
    ensures
        s.0 == fp4_slot(r as int, c as int),
        s.0 < MMA_TILE_FP4,
        s.1 == (c % 2 == 1),
{
    proof {
        assert(r & 7 == r % 8 && r >> 3 == r / 8) by (bit_vector);
        assert(c & 7 == c % 8 && c >> 3 == c / 8 && c & 1 == c % 2) by (bit_vector);
    }
    let g: usize = r & 7;
    let hi_row: usize = r >> 3;
    proof {
        let x = c & 7;
        assert(x >> 1 == x / 2) by (bit_vector);
    }
    let t: usize = (c & 7) >> 1;
    let hi_col: usize = c >> 3;
    let lane: usize = g * 4 + t;
    proof {
        assert(hi_row | (hi_col << 1) == hi_row + 2 * hi_col) by (bit_vector)
            requires
                hi_row <= 1,
                hi_col <= 1,
        ;
    }
    let j: usize = hi_row | (hi_col << 1);
    (lane * 4 + j, (c & 1) == 1)
}

/// Where element `(r, c)` of a tile lives inside a repacked 8-bit tile.
pub fn fp8_tile_slot(r: usize, c: usize) -> (s: usize)
    requires
        r < MMA_M,
        c < MMA_K,
    ensures
        s == fp8_slot(r as int, c as int),
        s < MMA_TILE_FP8,
{
    proof {
        assert(r & 7 == r % 8 && r >> 3 == r / 8) by (bit_vector);
        assert(c & 7 == c % 8 && c >> 3 == c / 8 && c & 1 == c % 2) by (bit_vector);
    }
    let g: usize = r & 7;
    let hi_row: usize = r >> 3;
    proof {
        let x = c & 7;
        assert(x >> 1 == x / 2) by (bit_vector);
    }
    let t: usize = (c & 7) >> 1;
    let hi_col: usize = c >> 3;
    let lane: usize = g * 4 + t;
    let low: usize = c & 1;
    proof {
        assert(low | (hi_row << 1) | (hi_col << 2) == low + 2 * hi_row + 4 * hi_col) by (bit_vector)
            requires
                low <= 1,
                hi_row <= 1,
                hi_col <= 1,
        ;
    }
    let j: usize = low | (hi_row << 1) | (hi_col << 2);
    lane * 8 + j
}

// ---- one tile ----

/// Byte of a row-major packed 4-bit tensor of `k` columns that holds columns `c, c + 1` of `row`.
pub open spec fn packed_at(qw: Seq<u8>, k: int, row: int, c: int) -> u8 {
    qw[row * (k / 2) + c / 2]
}

/// Tile `(mt, kb)` of a packed 4-bit tensor, in fragment order.
pub open spec fn fp4_tile(qw: Seq<u8>, k: int, mt: int, kb: int) -> Seq<u8> {
    Seq::new(
        MMA_TILE_FP4 as nat,
        |off: int| packed_at(qw, k, mt * 16 + fp4_row(off), kb * 16 + fp4_col(off)),
    )
}

/// Block scales of tile `(mt, kb)`, one per row.
pub open spec fn scale_tile(sc: Seq<u8>, nblk: int, mt: int, kb: int) -> Seq<u8> {
    Seq::new(MMA_M as nat, |r: int| sc[(mt * 16 + r) * nblk + kb])
}

/// Tile `(mt, kb)` of an 8-bit tensor, in fragment order.
pub open spec fn fp8_tile(qw: Seq<u8>, k: int, mt: int, kb: int) -> Seq<u8> {
    Seq::new(
        MMA_TILE_FP8 as nat,
        |off: int| qw[(mt * 16 + fp8_row(off)) * k + (kb * 16 + fp8_col(off))],
    )
}

/// An entry of a row-major table lies inside it.
proof fn lemma_cell(rows: int, width: int, r: int, c: int)
    requires
        0 <= r < rows,
        0 <= c < width,
    ensures
        0 <= r * width,
        0 <= r * width + c < rows * width,
{
    assert(r * width + width <= rows * width) by (nonlinear_arith)
        requires
            0 <= r < rows,
            0 < width,
    ;
    assert(0 <= r * width) by (nonlinear_arith)
        requires
            0 <= r,
            0 < width,
    ;
}

/// Fills one 4-bit tile and its scales.
pub fn repack_fp4_tile(
    qw: &[u8],
    sc: &[u8],
    k: usize,
    nblk: usize,
    mt: usize,
    kb: usize,
    wt_tile: &mut Vec<u8>,
    st_tile: &mut Vec<u8>,
)
    requires
        nblk * 16 == k,
        kb < nblk,
        (mt * 16 + 16) * (k / 2) <= qw.len(),
        (mt * 16 + 16) * nblk <= sc.len(),
        mt * 16 + 16 <= usize::MAX,
        old(wt_tile).len() == MMA_TILE_FP4,
        old(st_tile).len() == MMA_M,
    ensures
        final(wt_tile)@ == fp4_tile(qw@, k as int, mt as int, kb as int),
        final(st_tile)@ == scale_tile(sc@, nblk as int, mt as int, kb as int),
{
    proof {
        law_fp4_slots_are_bijective();
    }
    let nq: usize = qw.len();
    let ns: usize = sc.len();
    let half: usize = k / 2;
    let mut r: usize = 0;
    while r < MMA_M
        invariant
            r <= MMA_M,
            nq == qw.len(),
            ns == sc.len(),
            half == k / 2,
            nblk * 16 == k,
            kb < nblk,
            (mt * 16 + 16) * half <= qw.len(),
            (mt * 16 + 16) * nblk <= sc.len(),
            mt * 16 + 16 <= usize::MAX,
            wt_tile.len() == MMA_TILE_FP4,
            st_tile.len() == MMA_M,
            forall|i: int| 0 <= i < r ==> #[trigger] st_tile@[i] == sc@[(mt * 16 + i) * nblk + kb],
            forall|off: int|
                0 <= off < 128 && #[trigger] fp4_row(off) < r ==> wt_tile@[off] == packed_at(
                    qw@,
                    k as int,
                    mt * 16 + fp4_row(off),
                    kb * 16 + fp4_col(off),
                ),
        decreases MMA_M - r,
    {
        let row: usize = mt * MMA_M + r;
        proof {
            lemma_cell(mt * 16 + 16, nblk as int, row as int, kb as int);
        }
        st_tile.set(r, sc[row * nblk + kb]);
        let mut cp: usize = 0;
        while cp < 8
            invariant
                cp <= 8,
                r < MMA_M,
                row == mt * 16 + r,
                nq == qw.len(),
                half == k / 2,
                nblk * 16 == k,
                kb < nblk,
                (mt * 16 + 16) * half <= qw.len(),
                mt * 16 + 16 <= usize::MAX,
                wt_tile.len() == MMA_TILE_FP4,
                forall|off: int|
                    0 <= off < 128 && (#[trigger] fp4_row(off) < r || (fp4_row(off) == r
                        && fp4_col(off) < 2 * cp)) ==> wt_tile@[off] == packed_at(
                        qw@,
                        k as int,
                        mt * 16 + fp4_row(off),
                        kb * 16 + fp4_col(off),
                    ),
            decreases 8 - cp,
        {
            let c: usize = cp * 2;
            let (off, _) = fp4_tile_slot(r, c);
            proof {
                lemma_cell(mt * 16 + 16, half as int, row as int, (kb * 16 + c) / 2);
            }
            let ghost before = wt_tile@;
            wt_tile.set(off, qw[row * half + (kb * MMA_K + c) / 2]);
            proof {
                law_fp4_slots_are_bijective();
                assert(fp4_row(off as int) == r && fp4_col(off as int) == c);
                assert forall|o: int|
                    0 <= o < 128 && (#[trigger] fp4_row(o) < r || (fp4_row(o) == r && fp4_col(o) < 2
                        * (cp + 1))) implies wt_tile@[o] == packed_at(
                    qw@,
                    k as int,
                    mt * 16 + fp4_row(o),
                    kb * 16 + fp4_col(o),
                ) by {
                    if o != off {
                        if fp4_row(o) == r && fp4_col(o) == c {
                            assert(fp4_slot(fp4_row(o), fp4_col(o)) == o);
                        }
                        assert(fp4_col(o) % 2 == 0);
                        assert(wt_tile@[o] == before[o]);
                    }
                }
            }
            cp = cp + 1;
        }
        r = r + 1;
    }
    proof {
        law_fp4_slots_are_bijective();
        assert forall|off: int| 0 <= off < 128 implies wt_tile@[off] == fp4_tile(
            qw@,
            k as int,
            mt as int,
            kb as int,
        )[off] by {
            assert(fp4_row(off) < 16);
        }
        assert(wt_tile@ =~= fp4_tile(qw@, k as int, mt as int, kb as int));
        assert(st_tile@ =~= scale_tile(sc@, nblk as int, mt as int, kb as int));
    }
}

/// Fills one 8-bit tile.
pub fn repack_fp8_tile(qw: &[u8], k: usize, mt: usize, kb: usize, wt_tile: &mut Vec<u8>)
    requires
        kb * 16 + 16 <= k,
        (mt * 16 + 16) * k <= qw.len(),
        mt * 16 + 16 <= usize::MAX,
        old(wt_tile).len() == MMA_TILE_FP8,
    ensures
        final(wt_tile)@ == fp8_tile(qw@, k as int, mt as int, kb as int),
{
    proof {
        law_fp8_slots_are_bijective();
    }
    let nq: usize = qw.len();
    let mut r: usize = 0;
    while r < MMA_M
        invariant
            r <= MMA_M,
            nq == qw.len(),
            kb * 16 + 16 <= k,
            (mt * 16 + 16) * k <= qw.len(),
            mt * 16 + 16 <= usize::MAX,
            wt_tile.len() == MMA_TILE_FP8,
            forall|off: int|
                0 <= off < 256 && #[trigger] fp8_row(off) < r ==> wt_tile@[off] == qw@[(mt * 16
                    + fp8_row(off)) * k + (kb * 16 + fp8_col(off))],
        decreases MMA_M - r,
    {
        let row: usize = mt * MMA_M + r;
        let mut c: usize = 0;
        while c < MMA_K
            invariant
                c <= MMA_K,
                r < MMA_M,
                row == mt * 16 + r,
                nq == qw.len(),
                kb * 16 + 16 <= k,
                (mt * 16 + 16) * k <= qw.len(),
                mt * 16 + 16 <= usize::MAX,
                wt_tile.len() == MMA_TILE_FP8,
                forall|off: int|
                    0 <= off < 256 && (#[trigger] fp8_row(off) < r || (fp8_row(off) == r
                        && fp8_col(off) < c)) ==> wt_tile@[off] == qw@[(mt * 16 + fp8_row(off)) * k
                        + (kb * 16 + fp8_col(off))],
            decreases MMA_K - c,
        {
            let off: usize = fp8_tile_slot(r, c);
            proof {
                lemma_cell(mt * 16 + 16, k as int, row as int, kb * 16 + c);
            }
            let ghost before = wt_tile@;
            wt_tile.set(off, qw[row * k + kb * MMA_K + c]);
            proof {
                law_fp8_slots_are_bijective();
                assert(fp8_row(off as int) == r && fp8_col(off as int) == c);
                assert forall|o: int|
                    0 <= o < 256 && (#[trigger] fp8_row(o) < r || (fp8_row(o) == r && fp8_col(o) < c
                        + 1)) implies wt_tile@[o] == qw@[(mt * 16 + fp8_row(o)) * k + (kb * 16
                    + fp8_col(o))] by {
                    if o != off {
                        if fp8_row(o) == r && fp8_col(o) == c {
                            assert(fp8_slot(fp8_row(o), fp8_col(o)) == o);
                        }
                        assert(wt_tile@[o] == before[o]);
                    }
                }
            }
            c = c + 1;
        }
        r = r + 1;
    }
    proof {
        law_fp8_slots_are_bijective();
        assert forall|off: int| 0 <= off < 256 implies wt_tile@[off] == fp8_tile(
            qw@,
            k as int,
            mt as int,
            kb as int,
        )[off] by {
            assert(fp8_row(off) < 16);
        }
        assert(wt_tile@ =~= fp8_tile(qw@, k as int, mt as int, kb as int));
    }
}

// ---- whole tensors ----

/// Tile `t` of a 4-bit tensor whose tile rows hold `nblk` tiles.
pub open spec fn fp4_tile_at(qw: Seq<u8>, k: int, t: int) -> Seq<u8> {
    fp4_tile(qw, k, t / (k / 16), t % (k / 16))
}

/// Scales of tile `t` of a 4-bit tensor.
pub open spec fn scale_tile_at(sc: Seq<u8>, k: int, t: int) -> Seq<u8> {
    scale_tile(sc, k / 16, t / (k / 16), t % (k / 16))
}

/// Tile `t` of an 8-bit tensor.
pub open spec fn fp8_tile_at(qw: Seq<u8>, k: int, t: int) -> Seq<u8> {
    fp8_tile(qw, k, t / (k / 16), t % (k / 16))
}

/// A row-major packed 4-bit tensor of `m` by `k` with its block scales.
pub open spec fn is_packed_fp4(qw: Seq<u8>, sc: Seq<u8>, m: int, k: int) -> bool {
    &&& m % 16 == 0
    &&& k % 32 == 0
    &&& m * (k / 2) <= qw.len()
    &&& m * (k / 16) <= sc.len()
}

proof fn lemma_tile_index(m: int, k: int, t: int)
    requires
        0 <= m,
        0 <= k,
        m % 16 == 0,
        k % 16 == 0,
        0 <= t < (m / 16) * (k / 16),
    ensures
        k / 16 > 0,
        0 <= t / (k / 16) < m / 16,
        0 <= t % (k / 16) < k / 16,
        t / (k / 16) * 16 + 16 <= m,
{
    let nblk = k / 16;
    let ntm = m / 16;
    assert(nblk > 0 && ntm > 0) by (nonlinear_arith)
        requires
            0 <= t < ntm * nblk,
            0 <= nblk,
            0 <= ntm,
    ;
    assert(0 <= t / nblk < ntm) by (nonlinear_arith)
        requires
            0 <= t < ntm * nblk,
            nblk > 0,
    ;
    assert(0 <= t % nblk < nblk) by (nonlinear_arith)
        requires
            nblk > 0,
            0 <= t,
    ;
}

/// Tiles `begin..begin + n` of a 4-bit tensor: weights and scales.
pub fn repack_nvfp4_tiles(
    qw: &[u8],
    sc: &[u8],
    m: usize,
    k: usize,
    begin: usize,
    n: usize,
) -> (r: (Vec<u8>, Vec<u8>))
    requires
        is_packed_fp4(qw@, sc@, m as int, k as int),
        begin + n <= (m / 16) * (k / 16),
    ensures
        r.0@ == flat(n as nat, |i: int| fp4_tile_at(qw@, k as int, begin + i)),
        r.1@ == flat(n as nat, |i: int| scale_tile_at(sc@, k as int, begin + i)),
{
    let ghost wrow = |i: int| fp4_tile_at(qw@, k as int, begin + i);
    let ghost srow = |i: int| scale_tile_at(sc@, k as int, begin + i);
    let nblk: usize = k / MMA_K;
    let nq: usize = qw.len();
    let ns: usize = sc.len();
    proof {
        assert((m / 16) * (k / 16) <= m * (k / 16)) by (nonlinear_arith);
    }
    let mut wt: Vec<u8> = Vec::new();
    let mut st: Vec<u8> = Vec::new();
    let mut i: usize = 0;
    while i < n
        invariant
            i <= n,
            is_packed_fp4(qw@, sc@, m as int, k as int),
            nq == qw.len(),
            ns == sc.len(),
            begin + n <= (m / 16) * (k / 16),
            (m / 16) * (k / 16) <= ns,
            nblk == k / 16,
            wrow == (|i: int| fp4_tile_at(qw@, k as int, begin + i)),
            srow == (|i: int| scale_tile_at(sc@, k as int, begin + i)),
            wt@ == flat(i as nat, wrow),
            st@ == flat(i as nat, srow),
        decreases n - i,
    {
        let t: usize = begin + i;
        proof {
            lemma_tile_index(m as int, k as int, t as int);
        }
        let mt: usize = t / nblk;
        let kb: usize = t % nblk;
        proof {
            assert((mt * 16 + 16) * (k / 2) <= m * (k / 2)) by (nonlinear_arith)
                requires
                    mt * 16 + 16 <= m,
            ;
            assert((mt * 16 + 16) * nblk <= m * nblk) by (nonlinear_arith)
                requires
                    mt * 16 + 16 <= m,
            ;
        }
        let mut wtile: Vec<u8> = crate::seqs::filled(MMA_TILE_FP4, 0u8);
        let mut stile: Vec<u8> = crate::seqs::filled(MMA_M, 0u8);
        repack_fp4_tile(qw, sc, k, nblk, mt, kb, &mut wtile, &mut stile);
        crate::seqs::extend_range(&mut wt, wtile.as_slice(), 0, wtile.len());
        crate::seqs::extend_range(&mut st, stile.as_slice(), 0, stile.len());
        i = i + 1;
        proof {
            assert(wtile@.subrange(0, wtile@.len() as int) =~= wtile@);
            assert(stile@.subrange(0, stile@.len() as int) =~= stile@);
            assert(wrow(i - 1) == wtile@);
            assert(srow(i - 1) == stile@);
        }
    }
    (wt, st)
}

/// Tiles `begin..begin + n` of an 8-bit tensor.
pub fn repack_fp8_tiles(qw: &[u8], m: usize, k: usize, begin: usize, n: usize) -> (wt: Vec<u8>)
    requires
        m % 16 == 0,
        k % 16 == 0,
        m * k <= qw.len(),
        begin + n <= (m / 16) * (k / 16),
    ensures
        wt@ == flat(n as nat, |i: int| fp8_tile_at(qw@, k as int, begin + i)),
{
    let ghost wrow = |i: int| fp8_tile_at(qw@, k as int, begin + i);
    let nblk: usize = k / MMA_K;
    let nq: usize = qw.len();
    proof {
        assert((m / 16) * (k / 16) <= m * k) by (nonlinear_arith);
    }
    let mut wt: Vec<u8> = Vec::new();
    let mut i: usize = 0;
    while i < n
        invariant
            i <= n,
            m % 16 == 0,
            k % 16 == 0,
            nq == qw.len(),
            m * k <= qw.len(),
            (m / 16) * (k / 16) <= nq,
            begin + n <= (m / 16) * (k / 16),
            nblk == k / 16,
            wrow == (|i: int| fp8_tile_at(qw@, k as int, begin + i)),
            wt@ == flat(i as nat, wrow),
        decreases n - i,
    {
        let t: usize = begin + i;
        proof {
            lemma_tile_index(m as int, k as int, t as int);
        }
        let mt: usize = t / nblk;
        let kb: usize = t % nblk;
        proof {
            assert((mt * 16 + 16) * k <= m * k) by (nonlinear_arith)
                requires
                    mt * 16 + 16 <= m,
            ;
        }
        let mut wtile: Vec<u8> = crate::seqs::filled(MMA_TILE_FP8, 0u8);
        repack_fp8_tile(qw, k, mt, kb, &mut wtile);
        crate::seqs::extend_range(&mut wt, wtile.as_slice(), 0, wtile.len());
        i = i + 1;
        proof {
            assert(wtile@.subrange(0, wtile@.len() as int) =~= wtile@);
            assert(wrow(i - 1) == wtile@);
        }
    }
    wt
}

/// Permutes a row-major packed 4-bit tensor into tile order: weights, then one scale per tile row.
///
/// The paired-block kernel walks two column blocks at a time, hence the multiple of 32.
pub fn repack_nvfp4_mma(qw: &[u8], sc: &[u8], m: usize, k: usize) -> (r: (Vec<u8>, Vec<u8>))
    requires
        is_packed_fp4(qw@, sc@, m as int, k as int),
    ensures
        r.0@ == flat(((m / 16) * (k / 16)) as nat, |t: int| fp4_tile_at(qw@, k as int, t)),
        r.1@ == flat(((m / 16) * (k / 16)) as nat, |t: int| scale_tile_at(sc@, k as int, t)),
{
    let ns: usize = sc.len();
    proof {
        assert((m / 16) * (k / 16) <= m * (k / 16)) by (nonlinear_arith);
    }
    let total: usize = (m / MMA_M) * (k / MMA_K);
    let r: (Vec<u8>, Vec<u8>) = repack_nvfp4_tiles(qw, sc, m, k, 0, total);
    proof {
        crate::seqs::lemma_flat_ext(
            total as nat,
            |i: int| fp4_tile_at(qw@, k as int, 0 + i),
            |t: int| fp4_tile_at(qw@, k as int, t),
        );
        crate::seqs::lemma_flat_ext(
            total as nat,
            |i: int| scale_tile_at(sc@, k as int, 0 + i),
            |t: int| scale_tile_at(sc@, k as int, t),
        );
    }
    r
}

/// Permutes a row-major 8-bit tensor into tile order.
pub fn repack_fp8_mma(qw: &[u8], m: usize, k: usize) -> (wt: Vec<u8>)
    requires
        m % 16 == 0,
        k % 16 == 0,
        m * k <= qw.len(),
    ensures
        wt@ == flat(((m / 16) * (k / 16)) as nat, |t: int| fp8_tile_at(qw@, k as int, t)),
{
    let nq: usize = qw.len();
    proof {
        assert((m / 16) * (k / 16) <= m * k) by (nonlinear_arith);
    }
    let total: usize = (m / MMA_M) * (k / MMA_K);
    let r: Vec<u8> = repack_fp8_tiles(qw, m, k, 0, total);
    proof {
        crate::seqs::lemma_flat_ext(
            total as nat,
            |i: int| fp8_tile_at(qw@, k as int, 0 + i),
            |t: int| fp8_tile_at(qw@, k as int, t),
        );
    }
    r
}

/// The 4-bit repack loses nothing: the byte that the kernel reads for element `(row, c)` is the byte
/// the row-major tensor holds it in (and, the halves being kept, the same half of it), and the scale
/// that the kernel reads for it is its block's.
pub proof fn law_nvfp4_repack_round_trips(
    qw: Seq<u8>,
    sc: Seq<u8>,
    m: int,
    k: int,
    wt: Seq<u8>,
    st: Seq<u8>,
    row: int,
    c: int,
)
    requires
        is_packed_fp4(qw, sc, m, k),
        0 <= row < m,
        0 <= c < k,
        wt == flat(((m / 16) * (k / 16)) as nat, |t: int| fp4_tile_at(qw, k, t)),
        st == flat(((m / 16) * (k / 16)) as nat, |t: int| scale_tile_at(sc, k, t)),
    ensures
        wt[(row / 16 * (k / 16) + c / 16) * MMA_TILE_FP4 + fp4_slot(row % 16, c % 16)] == packed_at(
            qw,
            k,
            row,
            c,
        ),
        st[(row / 16 * (k / 16) + c / 16) * MMA_M + row % 16] == sc[row * (k / 16) + c / 16],
{
    let (nblk, ntm) = (k / 16, m / 16);
    let (mt, kb) = (row / 16, c / 16);
    let t = mt * nblk + kb;
    lemma_cell(ntm, nblk, mt, kb);
    assert(t / nblk == mt && t % nblk == kb) by (nonlinear_arith)
        requires
            t == mt * nblk + kb,
            0 <= kb < nblk,
            0 <= mt,
    ;
    law_fp4_slots_are_bijective();
    let (r, q) = (row % 16, c % 16);
    let off = fp4_slot(r, q);
    let wrow = |t: int| fp4_tile_at(qw, k, t);
    let srow = |t: int| scale_tile_at(sc, k, t);
    lemma_flat_index((ntm * nblk) as nat, wrow, MMA_TILE_FP4 as nat, t, off);
    lemma_flat_index((ntm * nblk) as nat, srow, MMA_M as nat, t, r);
    assert(wrow(t)[off] == packed_at(qw, k, mt * 16 + fp4_row(off), kb * 16 + fp4_col(off)));
    assert(fp4_row(off) == r && fp4_col(off) == q - q % 2);
    assert((kb * 16 + (q - q % 2)) / 2 == c / 2);
    assert(mt * 16 + r == row);
}

/// The 8-bit repack loses nothing: the byte that the kernel reads for element `(row, c)` is that
/// element.
pub proof fn law_fp8_repack_round_trips(
    qw: Seq<u8>,
    m: int,
    k: int,
    wt: Seq<u8>,
    row: int,
    c: int,
)
    requires
        m % 16 == 0,
        k % 16 == 0,
        m * k <= qw.len(),
        0 <= row < m,
        0 <= c < k,
        wt == flat(((m / 16) * (k / 16)) as nat, |t: int| fp8_tile_at(qw, k, t)),
    ensures
        wt[(row / 16 * (k / 16) + c / 16) * MMA_TILE_FP8 + fp8_slot(row % 16, c % 16)] == qw[row * k
            + c],
{
    let (nblk, ntm) = (k / 16, m / 16);
    let (mt, kb) = (row / 16, c / 16);
    let t = mt * nblk + kb;
    lemma_cell(ntm, nblk, mt, kb);
    assert(t / nblk == mt && t % nblk == kb) by (nonlinear_arith)
        requires
            t == mt * nblk + kb,
            0 <= kb < nblk,
            0 <= mt,
    ;
    law_fp8_slots_are_bijective();
    let off = fp8_slot(row % 16, c % 16);
    let wrow = |t: int| fp8_tile_at(qw, k, t);
    lemma_flat_index((ntm * nblk) as nat, wrow, MMA_TILE_FP8 as nat, t, off);
    assert(wrow(t)[off] == qw[(mt * 16 + fp8_row(off)) * k + (kb * 16 + fp8_col(off))]);
    assert(mt * 16 + row % 16 == row);
    assert(kb * 16 + c % 16 == c);
}

// ---- sharing the work ----

/// Whether a caller lets a repack spread over threads.
pub struct RepackThreading {
    pub on: bool,
}

/// Turns spreading over threads on or off. Workers of a loading pool turn it off: the pool is already
/// the parallelism.
pub fn set_repack_threading(t: &mut RepackThreading, on: bool)
    ensures
        final(t).on == on,
{
    t.on = on;
}

/// Quotient rounded up.
pub open spec fn div_up(a: int, b: int) -> int {
    (a + b - 1) / b
}

/// Threads that a repack of `total` tiles uses: one per 4096 tiles, sixteen at most, and no more than
/// the machine offers.
pub open spec fn repack_threads(on: bool, available: Option<usize>, total: int) -> int {
    let most = if on {
        min_int(
            match available {
                Some(n) => n as int,
                None => 1,
            },
            16,
        )
    } else {
        1
    };
    max_int(min_int(most, div_up(total, REPACK_MIN_TILES_PER_THREAD as int)), 1)
}

/// Contiguous ranges `(begin, count)` that cover `0..total` in order, all of `per` tiles but the last.
pub open spec fn is_partition(ranges: Seq<(usize, usize)>, total: int, per: int) -> bool {
    &&& forall|i: int|
        #![trigger ranges[i]]
        0 <= i < ranges.len() ==> ranges[i].0 == i * per && ranges[i].1 == min_int(
            per,
            total - i * per,
        ) && ranges[i].1 > 0
    &&& (ranges.len() - 1) * per < total || total == 0
    &&& ranges.len() * per >= total
    &&& total == 0 ==> ranges.len() == 0
}

/// The ranges of tiles that each thread repacks.
pub fn repack_ranges(t: &RepackThreading, available: Option<usize>, total: usize) -> (r: Vec<
    (usize, usize),
>)
    requires
        total + REPACK_MIN_TILES_PER_THREAD <= usize::MAX,
    ensures
        is_partition(
            r@,
            total as int,
            div_up(total as int, repack_threads(t.on, available, total as int)),
        ),
{
    let most: usize = if t.on {
        let n: usize = match available {
            Some(n) => n,
            None => 1,
        };
        min_usize(n, 16)
    } else {
        1
    };
    let by_work: usize = (total + REPACK_MIN_TILES_PER_THREAD - 1) / REPACK_MIN_TILES_PER_THREAD;
    let want: usize = min_usize(most, by_work);
    let nthreads: usize = if want >= 1 {
        want
    } else {
        1
    };
    proof {
        assert(nthreads == repack_threads(t.on, available, total as int));
        assert(nthreads <= 16);
    }
    let per: usize = (total + nthreads - 1) / nthreads;
    proof {
        assert(per == div_up(total as int, nthreads as int));
        assert(total > 0 ==> per > 0) by (nonlinear_arith)
            requires
                per == (total + nthreads - 1) / (nthreads as int),
                nthreads >= 1,
        ;
        assert(per <= total) by (nonlinear_arith)
            requires
                per == (total + nthreads - 1) / (nthreads as int),
                nthreads >= 1,
        ;
    }
    let mut r: Vec<(usize, usize)> = Vec::new();
    let mut begin: usize = 0;
    proof {
        assert(0 * per == 0);
        assert((0 - 1) * per < total || total == 0) by (nonlinear_arith)
            requires
                per >= 0,
                total >= 0,
                total > 0 ==> per > 0,
        ;
    }
    while begin < total
        invariant
            begin <= total,
            total > 0 ==> per > 0,
            per <= total,
            total == 0 ==> r@.len() == 0,
            begin == min_int(r@.len() * per, total as int),
            (r@.len() - 1) * per < total || total == 0,
            forall|i: int|
                #![trigger r@[i]]
                0 <= i < r@.len() ==> r@[i].0 == i * per && r@[i].1 == min_int(
                    per as int,
                    total - i * per,
                ) && r@[i].1 > 0,
        decreases total - begin,
    {
        let n: usize = min_usize(per, total - begin);
        r.push((begin, n));
        proof {
            let k = r@.len();
            assert(k * per == (k - 1) * per + per) by (nonlinear_arith);
        }
        begin = begin + n;
    }
    r
}

/// Splitting the rows of `flat` at `a`.
pub proof fn lemma_flat_split<T>(a: nat, b: nat, row: spec_fn(int) -> Seq<T>)
    ensures
        flat(a + b, row) == flat(a, row) + flat(b, |i: int| row(a + i)),
    decreases b,
{
    let shifted = |i: int| row(a + i);
    if b == 0 {
        assert(flat(a, row) + Seq::<T>::empty() =~= flat(a, row));
    } else {
        lemma_flat_split(a, (b - 1) as nat, row);
        assert(flat(b, shifted) == flat((b - 1) as nat, shifted) + shifted(b - 1));
        assert((flat(a, row) + flat((b - 1) as nat, shifted)) + row(a + b - 1) =~= flat(a, row) + (
        flat((b - 1) as nat, shifted) + shifted(b - 1)));
    }
}

/// What the threads produce, range after range.
pub open spec fn ranges_output(
    ranges: Seq<(usize, usize)>,
    tile: spec_fn(int) -> Seq<u8>,
) -> Seq<u8>
    decreases ranges.len(),
{
    if ranges.len() == 0 {
        Seq::empty()
    } else {
        ranges_output(ranges.drop_last(), tile) + flat(
            ranges.last().1 as nat,
            |i: int| tile(ranges.last().0 + i),
        )
    }
}

/// Spreading a repack over threads changes no byte: the ranges' outputs, end to end, are the
/// sequential output.
pub proof fn law_threaded_repack_is_sequential(
    ranges: Seq<(usize, usize)>,
    total: int,
    per: int,
    tile: spec_fn(int) -> Seq<u8>,
)
    requires
        is_partition(ranges, total, per),
        total >= 0,
        per >= 0,
    ensures
        ranges_output(ranges, tile) == flat(total as nat, tile),
{
    lemma_ranges(ranges, total, per, tile, ranges.len() as int);
    assert(ranges.take(ranges.len() as int) =~= ranges);
    assert(min_int(ranges.len() * per, total) == total);
}

proof fn lemma_ranges(
    ranges: Seq<(usize, usize)>,
    total: int,
    per: int,
    tile: spec_fn(int) -> Seq<u8>,
    n: int,
)
    requires
        is_partition(ranges, total, per),
        total >= 0,
        per >= 0,
        0 <= n <= ranges.len(),
    ensures
        min_int(n * per, total) >= 0,
        ranges_output(ranges.take(n), tile) == flat(min_int(n * per, total) as nat, tile),
    decreases n,
{
    assert(0 <= n * per) by (nonlinear_arith)
        requires
            0 <= n,
            0 <= per,
    ;
    if n > 0 {
        lemma_ranges(ranges, total, per, tile, n - 1);
        let p = ranges.take(n);
        assert(p.drop_last() =~= ranges.take(n - 1));
        let (b, c) = (ranges[n - 1].0, ranges[n - 1].1);
        assert(p.last() == ranges[n - 1]);
        assert(b == (n - 1) * per);
        assert(n * per == (n - 1) * per + per) by (nonlinear_arith);
        assert(c == min_int(per, total - (n - 1) * per));
        assert(min_int((n - 1) * per, total) == b);
        assert(min_int(n * per, total) == b + c);
        lemma_flat_split(b as nat, c as nat, tile);
        crate::seqs::lemma_flat_ext(c as nat, |i: int| tile(p.last().0 + i), |i: int| tile(b + i));
    } else {
        assert(ranges.take(0) =~= Seq::<(usize, usize)>::empty());
        assert(0 * per == 0);
    }
}

} // verus!
