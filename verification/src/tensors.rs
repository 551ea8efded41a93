//! Quantized tensors in row-major order: nibbles, fusing projections, taking rows, and table records.
use vstd::prelude::*;

use crate::mma::MMA_M;
use crate::seqs::{extend_range, fill, filled, flat, lemma_flat_index, lemma_flat_len, lemma_flat_row};

verus! {

/// Columns that share one block scale.
pub const BLOCK: usize = 16;

/// A 4-bit tensor; `S` is the type of the tensor scale.
pub struct Nvfp4Tensor<S> {
    /// Two codes per byte, the even column in the low half.
    pub qweight: Vec<u8>,
    /// One block scale per 16 columns of a row.
    pub scales: Vec<u8>,
    /// Reciprocal tensor scale: the value is code times block scale divided by this.
    pub global_scale: S,
    pub m: usize,
    pub k: usize,
}

/// An 8-bit tensor with one scale per row.
pub struct Fp8Tensor<S> {
    pub qweight: Vec<u8>,
    pub row_scale: Vec<S>,
    pub m: usize,
    pub k: usize,
}

/// Ternary and 3-bit block formats.
#[derive(Clone, Copy, Debug, PartialEq, Eq, Structural)]
pub enum StqKind {
    Stq1_0,
    Ternary2,
    Ls3Bit,
}

impl StqKind {
    /// The format's name.
    pub fn name(self) -> (s: &'static str)
        ensures
            s@ == (match self {
                StqKind::Stq1_0 => "stq1_0"@,
                StqKind::Ternary2 => "ternary2"@,
                StqKind::Ls3Bit => "ls3bit"@,
            }),
    {
        match self {
            StqKind::Stq1_0 => "stq1_0",
            StqKind::Ternary2 => "ternary2",
            StqKind::Ls3Bit => "ls3bit",
        }
    }
}

/// Weights of a block in the three-of-four format.
pub const STQ_BLOCK: usize = 256;

/// Weight number `p` of group `g`: the four weights of a group stand sixteen apart.
pub open spec fn stq_lane_of(g: int, p: int) -> int {
    g / 16 * 64 + g % 16 + p * 16
}

/// Weight number `p` of group `g` in a block.
pub fn stq_lane(g: usize, p: usize) -> (j: usize)
    requires
        g < 64,
        p < 4,
    ensures
        j == stq_lane_of(g as int, p as int),
        j < STQ_BLOCK,
{
    g / 16 * 64 + g % 16 + p * 16
}

/// Every weight of a block belongs to exactly one group, at one place.
pub proof fn law_stq_groups_partition_a_block(j: int)
    requires
        0 <= j < STQ_BLOCK,
    ensures
        stq_lane_of(j / 64 * 16 + j % 16, j % 64 / 16) == j,
        forall|g: int, p: int|
            0 <= g < 64 && 0 <= p < 4 && #[trigger] stq_lane_of(g, p) == j ==> g == j / 64 * 16 + j
                % 16 && p == j % 64 / 16,
{
    let (g0, p0) = (j / 64 * 16 + j % 16, j % 64 / 16);
    assert(g0 / 16 == j / 64 && g0 % 16 == j % 16);
    assert(j == j / 64 * 64 + j % 64 / 16 * 16 + j % 16);
    assert forall|g: int, p: int|
        0 <= g < 64 && 0 <= p < 4 && #[trigger] stq_lane_of(g, p) == j implies g == g0 && p == p0 by {
        let (a, b) = (g / 16, g % 16);
        assert(j == a * 64 + b + p * 16 && 0 <= b < 16 && 0 <= p < 4);
        assert(j / 64 == a && j % 64 == b + p * 16 && (b + p * 16) / 16 == p && j % 16 == b);
    }
}

// ---- nibbles ----

/// The 4-bit code at index `idx`: the low half of a byte holds the even index.
pub open spec fn nibble(bytes: Seq<u8>, idx: int) -> u8 {
    if idx % 2 == 0 {
        bytes[idx / 2] & 0x0F
    } else {
        bytes[idx / 2] >> 4
    }
}

/// The 4-bit code at index `idx`.
pub fn nibble_at(bytes: &[u8], idx: usize) -> (q: u8)
    requires
        idx / 2 < bytes.len(),
    ensures
        q == nibble(bytes@, idx as int),
{
    let b: u8 = bytes[idx / 2];
    if idx % 2 == 0 {
        b & 0x0F
    } else {
        b >> 4
    }
}

/// Packs 4-bit codes, two to a byte.
pub fn pack_nibbles(codes: &[u8]) -> (r: Vec<u8>)
    requires
        codes.len() % 2 == 0,
        forall|i: int| 0 <= i < codes.len() ==> #[trigger] codes@[i] < 16,
    ensures
        r@.len() == codes.len() / 2,
        forall|i: int| 0 <= i < codes.len() ==> #[trigger] nibble(r@, i) == codes@[i],
{
    let mut r: Vec<u8> = Vec::new();
    let mut i: usize = 0;
    while i < codes.len() / 2
        invariant
            i <= codes.len() / 2,
            codes.len() % 2 == 0,
            forall|i: int| 0 <= i < codes.len() ==> #[trigger] codes@[i] < 16,
            r@.len() == i,
            forall|j: int| 0 <= j < 2 * i ==> #[trigger] nibble(r@, j) == codes@[j],
        decreases codes.len() / 2 - i,
    {
        let lo: u8 = codes[2 * i];
        let hi: u8 = codes[2 * i + 1];
        let b: u8 = lo | (hi << 4);
        proof {
            assert(lo < 16 && hi < 16);
            assert(b & 0x0F == lo && b >> 4 == hi) by (bit_vector)
                requires
                    lo < 16,
                    hi < 16,
                    b == lo | (hi << 4),
            ;
        }
        let ghost r0 = r@;
        r.push(b);
        i = i + 1;
        proof {
            assert forall|j: int| 0 <= j < 2 * i implies #[trigger] nibble(r@, j) == codes@[j] by {
                if j < 2 * (i - 1) {
                    assert(nibble(r0, j) == codes@[j]);
                }
            }
        }
    }
    r
}

// ---- fusing ----

/// The parts have the sizes that their rows ask for.
pub open spec fn nvfp4_parts_ok<S>(parts: Seq<(&[u8], &[u8], S, usize)>, k: int) -> bool {
    forall|i: int|
        #![trigger parts[i]]
        0 <= i < parts.len() ==> {
            &&& parts[i].3 % 16 == 0
            &&& parts[i].0@.len() == parts[i].3 * k / 2
            &&& parts[i].1@.len() == parts[i].3 * k / 16
        }
}

/// Concatenates 4-bit tensors along their rows, with the reciprocal tensor scale of every 16-row tile.
pub fn fuse_nvfp4<S: Copy>(parts: &[(&[u8], &[u8], S, usize)], k: usize) -> (r: (
    Vec<u8>,
    Vec<u8>,
    Vec<S>,
))
    requires
        k % BLOCK == 0,
        nvfp4_parts_ok(parts@, k as int),
    ensures
        r.0@ == flat(parts.len() as nat, |i: int| parts@[i].0@),
        r.1@ == flat(parts.len() as nat, |i: int| parts@[i].1@),
        r.2@ == flat(parts.len() as nat, |i: int| fill((parts@[i].3 / 16) as nat, parts@[i].2)),
{
    let ghost qrow = |i: int| parts@[i].0@;
    let ghost srow = |i: int| parts@[i].1@;
    let ghost grow = |i: int| fill((parts@[i].3 / 16) as nat, parts@[i].2);
    let mut qw: Vec<u8> = Vec::new();
    let mut sc: Vec<u8> = Vec::new();
    let mut gs: Vec<S> = Vec::new();
    let mut i: usize = 0;
    while i < parts.len()
        invariant
            i <= parts.len(),
            qrow == (|i: int| parts@[i].0@),
            srow == (|i: int| parts@[i].1@),
            grow == (|i: int| fill((parts@[i].3 / 16) as nat, parts@[i].2)),
            qw@ == flat(i as nat, qrow),
            sc@ == flat(i as nat, srow),
            gs@ == flat(i as nat, grow),
        decreases parts.len() - i,
    {
        let (pq, ps, g, m) = parts[i];
        extend_range(&mut qw, pq, 0, pq.len());
        extend_range(&mut sc, ps, 0, ps.len());
        let run: Vec<S> = filled(m / MMA_M, g);
        extend_range(&mut gs, run.as_slice(), 0, run.len());
        i = i + 1;
        proof {
            assert(pq@.subrange(0, pq@.len() as int) =~= pq@);
            assert(ps@.subrange(0, ps@.len() as int) =~= ps@);
            assert(run@.subrange(0, run@.len() as int) =~= run@);
            assert(qrow(i - 1) == pq@);
            assert(srow(i - 1) == ps@);
            assert(grow(i - 1) == run@);
        }
    }
    (qw, sc, gs)
}

/// Concatenates 8-bit tensors along their rows; the scales are per row and just follow.
pub fn fuse_fp8<S: Copy>(parts: &[(&[u8], &[S], usize)], k: usize) -> (r: (Vec<u8>, Vec<S>))
    requires
        forall|i: int|
            #![trigger parts@[i]]
            0 <= i < parts.len() ==> parts@[i].2 % 16 == 0 && parts@[i].0@.len() == parts@[i].2 * k
                && parts@[i].1@.len() == parts@[i].2,
    ensures
        r.0@ == flat(parts.len() as nat, |i: int| parts@[i].0@),
        r.1@ == flat(parts.len() as nat, |i: int| parts@[i].1@),
{
    let ghost qrow = |i: int| parts@[i].0@;
    let ghost srow = |i: int| parts@[i].1@;
    let mut qw: Vec<u8> = Vec::new();
    let mut rs: Vec<S> = Vec::new();
    let mut i: usize = 0;
    while i < parts.len()
        invariant
            i <= parts.len(),
            qrow == (|i: int| parts@[i].0@),
            srow == (|i: int| parts@[i].1@),
            qw@ == flat(i as nat, qrow),
            rs@ == flat(i as nat, srow),
        decreases parts.len() - i,
    {
        let (pq, ps, _) = parts[i];
        extend_range(&mut qw, pq, 0, pq.len());
        extend_range(&mut rs, ps, 0, ps.len());
        i = i + 1;
        proof {
            assert(pq@.subrange(0, pq@.len() as int) =~= pq@);
            assert(ps@.subrange(0, ps@.len() as int) =~= ps@);
            assert(qrow(i - 1) == pq@);
            assert(srow(i - 1) == ps@);
        }
    }
    (qw, rs)
}

/// Tiles that stand before part `i` of a fused tensor.
pub open spec fn tiles_before<S>(parts: Seq<(&[u8], &[u8], S, usize)>, i: nat) -> nat
    decreases i,
{
    if i == 0 {
        0
    } else {
        tiles_before(parts, (i - 1) as nat) + (parts[i - 1].3 / 16) as nat
    }
}

/// A fused tensor keeps its sources apart: the tiles of part `i` follow those of the parts before it
/// and all carry the scale of part `i`, and its bytes stand there unchanged.
pub proof fn law_fused_tiles_keep_their_scale<S>(
    parts: Seq<(&[u8], &[u8], S, usize)>,
    k: int,
    i: nat,
    j: int,
)
    requires
        nvfp4_parts_ok(parts, k),
        k % 16 == 0,
        k >= 0,
        i < parts.len(),
        0 <= j < parts[i as int].3 / 16,
    ensures
        flat(parts.len(), |i: int| fill((parts[i].3 / 16) as nat, parts[i].2))[tiles_before(
            parts,
            i,
        ) + j] == parts[i as int].2,
        flat(parts.len(), |i: int| parts[i].0@).subrange(
            tiles_before(parts, i) * (k * 8),
            tiles_before(parts, i) * (k * 8) + parts[i as int].0@.len(),
        ) == parts[i as int].0@,
{
    let grow = |i: int| fill((parts[i].3 / 16) as nat, parts[i].2);
    let qrow = |i: int| parts[i].0@;
    lemma_tiles_before(parts, k, i);
    lemma_flat_row(parts.len(), grow, i);
    lemma_flat_row(parts.len(), qrow, i);
    let all = flat(parts.len(), grow);
    let a = tiles_before(parts, i) as int;
    assert(all.subrange(a, a + grow(i as int).len())[j] == all[a + j]);
}

/// Sizes of the first `i` parts together.
pub proof fn lemma_tiles_before<S>(parts: Seq<(&[u8], &[u8], S, usize)>, k: int, i: nat)
    requires
        nvfp4_parts_ok(parts, k),
        k % 16 == 0,
        k >= 0,
        i <= parts.len(),
    ensures
        flat(i, |i: int| fill((parts[i].3 / 16) as nat, parts[i].2)).len() == tiles_before(
            parts,
            i,
        ),
        flat(i, |i: int| parts[i].0@).len() == tiles_before(parts, i) * (k * 8),
    decreases i,
{
    if i > 0 {
        lemma_tiles_before(parts, k, (i - 1) as nat);
        let m = parts[i - 1].3 as int;
        let t = tiles_before(parts, (i - 1) as nat) as int;
        assert(parts[i - 1].3 % 16 == 0);
        assert(m * k / 2 == m / 16 * (k * 8)) by (nonlinear_arith)
            requires
                m % 16 == 0,
                k % 16 == 0,
        ;
        assert((t + m / 16) * (k * 8) == t * (k * 8) + m / 16 * (k * 8)) by (nonlinear_arith);
    } else {
        assert(0 * (k * 8) == 0);
    }
}

// ---- rows ----

/// Row `r` of a table with rows of `w` entries.
pub open spec fn table_row<T>(t: Seq<T>, w: int, r: int) -> Seq<T> {
    t.subrange(r * w, (r + 1) * w)
}

/// The chosen rows of a table, in order.
fn take_rows<T: Copy>(t: &[T], w: usize, rows: &[u32]) -> (out: Vec<T>)
    requires
        forall|i: int| 0 <= i < rows.len() ==> (#[trigger] rows@[i] + 1) * w <= t.len(),
    ensures
        out@ == flat(rows.len() as nat, |i: int| table_row(t@, w as int, rows@[i] as int)),
{
    let ghost row = |i: int| table_row(t@, w as int, rows@[i] as int);
    let have: usize = t.len();
    let mut out: Vec<T> = Vec::new();
    let mut i: usize = 0;
    while i < rows.len()
        invariant
            i <= rows.len(),
            have == t.len(),
            forall|i: int| 0 <= i < rows.len() ==> (#[trigger] rows@[i] + 1) * w <= t.len(),
            row == (|i: int| table_row(t@, w as int, rows@[i] as int)),
            out@ == flat(i as nat, row),
        decreases rows.len() - i,
    {
        let r: usize = rows[i] as usize;
        proof {
            assert((rows@[i as int] + 1) * w <= t.len());
            assert(0 <= r * w && r * w + w == (r + 1) * w) by (nonlinear_arith);
        }
        extend_range(&mut out, t, r * w, r * w + w);
        i = i + 1;
        proof {
            assert(row(i - 1) == t@.subrange(r * w, r * w + w));
        }
    }
    out
}

/// The chosen rows of a 4-bit tensor: packed codes and block scales. Rows do not interact, so nothing
/// is requantized.
pub fn subset_rows_nvfp4(qw: &[u8], sc: &[u8], k: usize, rows: &[u32]) -> (r: (Vec<u8>, Vec<u8>))
    requires
        forall|i: int|
            #![trigger rows@[i]]
            0 <= i < rows.len() ==> (rows@[i] + 1) * (k / 2) <= qw.len() && (rows@[i] + 1) * (k
                / 16) <= sc.len(),
    ensures
        r.0@ == flat(rows.len() as nat, |i: int| table_row(qw@, k as int / 2, rows@[i] as int)),
        r.1@ == flat(rows.len() as nat, |i: int| table_row(sc@, k as int / 16, rows@[i] as int)),
{
    (take_rows(qw, k / 2, rows), take_rows(sc, k / BLOCK, rows))
}

/// The chosen rows of an 8-bit tensor, with their scales.
pub fn subset_rows_fp8<S: Copy>(qw: &[u8], rs: &[S], k: usize, rows: &[u32]) -> (r: (
    Vec<u8>,
    Vec<S>,
))
    requires
        forall|i: int|
            #![trigger rows@[i]]
            0 <= i < rows.len() ==> (rows@[i] + 1) * k <= qw.len() && rows@[i] < rs.len(),
    ensures
        r.0@ == flat(rows.len() as nat, |i: int| table_row(qw@, k as int, rows@[i] as int)),
        r.1@ == Seq::new(rows.len() as nat, |i: int| rs@[rows@[i] as int]),
{
    let q: Vec<u8> = take_rows(qw, k, rows);
    let mut s: Vec<S> = Vec::new();
    let mut i: usize = 0;
    while i < rows.len()
        invariant
            i <= rows.len(),
            forall|i: int|
                #![trigger rows@[i]]
                0 <= i < rows.len() ==> (rows@[i] + 1) * k <= qw.len() && rows@[i] < rs.len(),
            s@ == Seq::new(i as nat, |i: int| rs@[rows@[i] as int]),
        decreases rows.len() - i,
    {
        proof {
            assert(rows@[i as int] < rs.len());
        }
        s.push(rs[rows[i] as usize]);
        i = i + 1;
    }
    (q, s)
}

/// A row subset is exact: row `i` of the subset is row `rows[i]` of the table.
pub proof fn law_subset_rows_are_exact<T>(t: Seq<T>, w: int, rows: Seq<u32>, i: int)
    requires
        w >= 0,
        0 <= i < rows.len(),
        forall|i: int| 0 <= i < rows.len() ==> (#[trigger] rows[i] + 1) * w <= t.len(),
    ensures
        table_row(flat(rows.len(), |i: int| table_row(t, w, rows[i] as int)), w, i) == table_row(
            t,
            w,
            rows[i] as int,
        ),
{
    let row = |i: int| table_row(t, w, rows[i] as int);
    assert forall|j: int| 0 <= j < rows.len() implies (#[trigger] row(j)).len() == w by {
        let r = rows[j] as int;
        assert((r + 1) * w - r * w == w && 0 <= r * w) by (nonlinear_arith)
            requires
                r >= 0,
                w >= 0,
        ;
    }
    lemma_flat_len(rows.len(), row, w as nat);
    let all = flat(rows.len(), row);
    assert((i + 1) * w == i * w + w && 0 <= i * w && i * w + w <= rows.len() * w)
        by (nonlinear_arith)
        requires
            0 <= i < rows.len(),
            w >= 0,
    ;
    assert forall|j: int| 0 <= j < w implies #[trigger] table_row(all, w, i)[j] == row(i)[j] by {
        lemma_flat_index(rows.len(), row, w as nat, i, j);
    }
    assert(row(i).len() == w);
    assert(table_row(all, w, i) =~= row(i));
}

// ---- table records ----

/// Bytes of one table record.
pub const PLE_REC_BYTES: usize = 96;

/// Values of one table row.
pub const PLE_DIM: usize = 160;

/// Bytes of codes in a record.
pub const PLE_QW_BYTES: usize = 80;

/// Bytes of block scales in a record.
pub const PLE_SC_BYTES: usize = 10;

/// The record of one row: codes, block scales, six zero bytes.
pub open spec fn ple_record(qw: Seq<u8>, sc: Seq<u8>, row: int) -> Seq<u8> {
    table_row(qw, 80, row) + table_row(sc, 10, row) + fill(6, 0u8)
}

/// Lays out rows of codes and scales as fixed-size records.
pub fn ple_records(qw: &[u8], sc: &[u8], rows: usize) -> (rec: Vec<u8>)
    requires
        rows * 80 <= qw.len(),
        rows * 10 <= sc.len(),
    ensures
        rec@ == flat(rows as nat, |r: int| ple_record(qw@, sc@, r)),
        rec@.len() == rows * PLE_REC_BYTES,
{
    let ghost row = |r: int| ple_record(qw@, sc@, r);
    let nq: usize = qw.len();
    let pad: Vec<u8> = filled(6, 0u8);
    let mut rec: Vec<u8> = Vec::new();
    let mut r: usize = 0;
    while r < rows
        invariant
            r <= rows,
            nq == qw.len(),
            rows * 80 <= qw.len(),
            rows * 10 <= sc.len(),
            pad@ == fill(6, 0u8),
            row == (|r: int| ple_record(qw@, sc@, r)),
            rec@ == flat(r as nat, row),
        decreases rows - r,
    {
        let ghost before = rec@;
        extend_range(&mut rec, qw, r * PLE_QW_BYTES, (r + 1) * PLE_QW_BYTES);
        extend_range(&mut rec, sc, r * PLE_SC_BYTES, (r + 1) * PLE_SC_BYTES);
        extend_range(&mut rec, pad.as_slice(), 0, 6);
        proof {
            assert(pad@.subrange(0, 6) =~= pad@);
            assert(rec@ =~= before + ple_record(qw@, sc@, r as int));
            assert(row(r as int) == ple_record(qw@, sc@, r as int));
        }
        r = r + 1;
    }
    proof {
        lemma_flat_len(rows as nat, row, 96);
    }
    rec
}

/// Code `idx` and the block scale that applies to it, in one record.
pub fn ple_code(rec: &[u8], idx: usize) -> (r: (u8, u8))
    requires
        rec.len() >= 90,
        idx < PLE_DIM,
    ensures
        r.0 == nibble(rec@, idx as int),
        r.1 == rec@[80 + idx / 16],
{
    (nibble_at(rec, idx), rec[PLE_QW_BYTES + idx / BLOCK])
}

/// A record gives back what was put in: code `idx` of row `r`, and its block scale.
pub proof fn law_ple_record_round_trips(qw: Seq<u8>, sc: Seq<u8>, r: int, idx: int)
    requires
        0 <= r,
        (r + 1) * 80 <= qw.len(),
        (r + 1) * 10 <= sc.len(),
        0 <= idx < 160,
    ensures
        nibble(ple_record(qw, sc, r), idx) == nibble(qw, r * 160 + idx),
        ple_record(qw, sc, r)[80 + idx / 16] == sc[r * 10 + idx / 16],
{
    let rec = ple_record(qw, sc, r);
    assert(rec[idx / 2] == qw[r * 80 + idx / 2]);
    assert((r * 160 + idx) / 2 == r * 80 + idx / 2);
    assert((r * 160 + idx) % 2 == idx % 2);
}

} // verus!
