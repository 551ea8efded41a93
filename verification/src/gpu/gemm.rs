//! Matrix products and cross-rank reductions: which kernel runs at which width.
use vstd::prelude::*;

use crate::gpu::model::{GpuModel, W};
use crate::gpu::program::{
    at, barriers, borrow32, chain, get32, give32, int32, lemma_barriers_concat, lemma_short_barriers, ptr, put32, temp, tmp, Call, Op, Part, Ptr, Region, Scratch, WeightId,
};
use crate::gpu::topo::MAX_VERIFY;
use crate::mma::div_up;
use crate::seqs::{flat, min_int};

verus! {

/// Widest bf16 batch that the batch-invariant kernel serves on the general path.
pub const BINV_BATCH: usize = 2;

/// `out[outn, n] = w[outn, inn] x[inn, n]`.
///
/// A quantized weight runs one fixed kernel at every serving width; wider batches expand it once and
/// use the vendor library. A bf16 weight runs the batch-invariant kernel up to two columns.
pub open spec fn gemm_ops(
    w: W,
    id: WeightId,
    x: Ptr,
    out: Ptr,
    inn: int,
    outn: int,
    n: int,
) -> Seq<Op> {
    let deq = at(Region::Scratch(Scratch::Dequant));
    let (i, o, b) = (inn as i32, outn as i32, n as i32);
    match w {
        W::Nvfp4 { .. } => if n <= MAX_VERIFY {
            seq![
                Op::Launch(
                    Call::GemmFp4 { out, w: id, x, outn: o, inn: i, n: b, acc: at(Region::Null) },
                ),
            ]
        } else {
            seq![
                Op::Launch(Call::DequantFp4 { out: deq, w: id, outn: o, inn: i }),
                Op::Blas { w: deq, x, out, m: o, n: b, k: i },
            ]
        },
        W::Fp8 { .. } => if n <= MAX_VERIFY {
            seq![
                Op::Launch(
                    Call::GemmFp8 { out, w: id, x, outn: o, inn: i, n: b, acc: at(Region::Null) },
                ),
            ]
        } else {
            seq![
                Op::Launch(Call::DequantFp8 { out: deq, w: id, outn: o, inn: i }),
                Op::Blas { w: deq, x, out, m: o, n: b, k: i },
            ]
        },
        _ => if n <= BINV_BATCH {
            seq![Op::Launch(Call::GemmBinv { out, w: id, x, outn: o, inn: i, n: b })]
        } else {
            seq![
                Op::Blas {
                    w: at(Region::Weight(id, Part::Packed)),
                    x,
                    out,
                    m: o,
                    n: b,
                    k: i,
                },
            ]
        },
    }
}

/// The same, with the batch-invariant kernel at every serving width also for bf16.
pub open spec fn gemm_binv_ops(
    w: W,
    id: WeightId,
    x: Ptr,
    out: Ptr,
    inn: int,
    outn: int,
    n: int,
) -> Seq<Op> {
    if w is Bf16 && n <= MAX_VERIFY {
        seq![
            Op::Launch(
                Call::GemmBinv { out, w: id, x, outn: outn as i32, inn: inn as i32, n: n as i32 },
            ),
        ]
    } else {
        gemm_ops(w, id, x, out, inn, outn, n)
    }
}

/// A product whose unrounded f32 accumulator is kept.
pub open spec fn gemm_f32_ops(
    w: W,
    id: WeightId,
    x: Ptr,
    acc: Ptr,
    inn: int,
    outn: int,
    n: int,
) -> Seq<Op> {
    let (i, o, b) = (inn as i32, outn as i32, n as i32);
    let none = at(Region::Null);
    if w is Nvfp4 {
        seq![Op::Launch(Call::GemmFp4 { out: none, w: id, x, outn: o, inn: i, n: b, acc })]
    } else {
        seq![Op::Launch(Call::GemmFp8 { out: none, w: id, x, outn: o, inn: i, n: b, acc })]
    }
}

/// The dispatcher that every big product goes through.
pub fn gemm_act(
    w: W,
    id: WeightId,
    x: Ptr,
    out: Ptr,
    inn: usize,
    outn: usize,
    n: usize,
) -> (r: Vec<Op>)
    requires
        !(w is Nvfp4Raw),
        inn <= i32::MAX,
        outn <= i32::MAX,
        n <= i32::MAX,
    ensures
        r@ == gemm_ops(w, id, x, out, inn as int, outn as int, n as int),
{
    let deq: Ptr = ptr(Region::Scratch(Scratch::Dequant));
    let (i, o, b) = (int32(inn), int32(outn), int32(n));
    let r: Vec<Op> = match w {
        W::Nvfp4 { .. } => if n <= MAX_VERIFY {
            vec![
                Op::Launch(
                    Call::GemmFp4 { out, w: id, x, outn: o, inn: i, n: b, acc: ptr(Region::Null) },
                ),
            ]
        } else {
            vec![
                Op::Launch(Call::DequantFp4 { out: deq, w: id, outn: o, inn: i }),
                Op::Blas { w: deq, x, out, m: o, n: b, k: i },
            ]
        },
        W::Fp8 { .. } => if n <= MAX_VERIFY {
            vec![
                Op::Launch(
                    Call::GemmFp8 { out, w: id, x, outn: o, inn: i, n: b, acc: ptr(Region::Null) },
                ),
            ]
        } else {
            vec![
                Op::Launch(Call::DequantFp8 { out: deq, w: id, outn: o, inn: i }),
                Op::Blas { w: deq, x, out, m: o, n: b, k: i },
            ]
        },
        _ => if n <= BINV_BATCH {
            vec![Op::Launch(Call::GemmBinv { out, w: id, x, outn: o, inn: i, n: b })]
        } else {
            vec![
                Op::Blas {
                    w: ptr(Region::Weight(id, Part::Packed)),
                    x,
                    out,
                    m: o,
                    n: b,
                    k: i,
                },
            ]
        },
    };
    proof {
        assert(r@ =~= gemm_ops(w, id, x, out, inn as int, outn as int, n as int));
    }
    r
}

/// The batch-invariant product: what routing and gating use, so that a wide verify picks the experts
/// that a single-token decode would.
pub fn gemm_act_binv(
    w: W,
    id: WeightId,
    x: Ptr,
    out: Ptr,
    inn: usize,
    outn: usize,
    n: usize,
) -> (r: Vec<Op>)
    requires
        !(w is Nvfp4Raw),
        inn <= i32::MAX,
        outn <= i32::MAX,
        n <= i32::MAX,
    ensures
        r@ == gemm_binv_ops(w, id, x, out, inn as int, outn as int, n as int),
{
    match w {
        W::Bf16 => if n <= MAX_VERIFY {
            let r: Vec<Op> = vec![
                Op::Launch(
                    Call::GemmBinv {
                        out,
                        w: id,
                        x,
                        outn: int32(outn),
                        inn: int32(inn),
                        n: int32(n),
                    },
                ),
            ];
            proof {
                assert(r@ =~= gemm_binv_ops(w, id, x, out, inn as int, outn as int, n as int));
            }
            r
        } else {
            gemm_act(w, id, x, out, inn, outn, n)
        },
        _ => gemm_act(w, id, x, out, inn, outn, n),
    }
}

/// A row-parallel product that leaves its unrounded accumulator.
pub fn gemm_act_f32(
    w: W,
    id: WeightId,
    x: Ptr,
    acc: Ptr,
    inn: usize,
    outn: usize,
    n: usize,
) -> (r: Vec<Op>)
    requires
        w is Nvfp4 || w is Fp8,
        n <= MAX_VERIFY,
        inn <= i32::MAX,
        outn <= i32::MAX,
    ensures
        r@ == gemm_f32_ops(w, id, x, acc, inn as int, outn as int, n as int),
{
    let none: Ptr = ptr(Region::Null);
    let (i, o, b) = (int32(inn), int32(outn), int32(n));
    let r: Vec<Op> = match w {
        W::Nvfp4 { .. } => vec![
            Op::Launch(Call::GemmFp4 { out: none, w: id, x, outn: o, inn: i, n: b, acc }),
        ],
        _ => vec![Op::Launch(Call::GemmFp8 { out: none, w: id, x, outn: o, inn: i, n: b, acc })],
    };
    proof {
        assert(r@ =~= gemm_f32_ops(w, id, x, acc, inn as int, outn as int, n as int));
    }
    r
}

/// Two launches that are the same but for the number of columns they are told.
pub open spec fn same_but_width(a: Call, b: Call) -> bool {
    match (a, b) {
        (
            Call::GemmFp4 { out, w, x, outn, inn, acc, .. },
            Call::GemmFp4 { out: out2, w: w2, x: x2, outn: outn2, inn: inn2, acc: acc2, .. },
        ) => out == out2 && w == w2 && x == x2 && outn == outn2 && inn == inn2 && acc == acc2,
        (
            Call::GemmFp8 { out, w, x, outn, inn, acc, .. },
            Call::GemmFp8 { out: out2, w: w2, x: x2, outn: outn2, inn: inn2, acc: acc2, .. },
        ) => out == out2 && w == w2 && x == x2 && outn == outn2 && inn == inn2 && acc == acc2,
        (
            Call::GemmBinv { out, w, x, outn, inn, .. },
            Call::GemmBinv { out: out2, w: w2, x: x2, outn: outn2, inn: inn2, .. },
        ) => out == out2 && w == w2 && x == x2 && outn == outn2 && inn == inn2,
        _ => false,
    }
}

/// Speculation's premise: at every serving width a quantized product is one and the same launch, on
/// the same grid, told only how many columns there are. Routing products keep this for bf16 too.
pub proof fn law_serving_products_are_batch_invariant(
    w: W,
    id: WeightId,
    x: Ptr,
    out: Ptr,
    inn: int,
    outn: int,
    n1: int,
    n2: int,
)
    requires
        1 <= n1 <= MAX_VERIFY,
        1 <= n2 <= MAX_VERIFY,
        !(w is Nvfp4Raw),
    ensures
        !(w is Bf16) ==> {
            let a = gemm_ops(w, id, x, out, inn, outn, n1);
            let b = gemm_ops(w, id, x, out, inn, outn, n2);
            &&& a.len() == 1
            &&& b.len() == 1
            &&& a[0] matches Op::Launch(ca) && b[0] matches Op::Launch(cb) && same_but_width(ca, cb)
                && ca.spec_grid() == cb.spec_grid() && ca.spec_block() == cb.spec_block()
        },
        ({
            let a = gemm_binv_ops(w, id, x, out, inn, outn, n1);
            let b = gemm_binv_ops(w, id, x, out, inn, outn, n2);
            &&& a.len() == 1
            &&& b.len() == 1
            &&& a[0] matches Op::Launch(ca) && b[0] matches Op::Launch(cb) && same_but_width(ca, cb)
                && ca.spec_grid() == cb.spec_grid() && ca.spec_block() == cb.spec_block()
        }),
{
}

// ---- reductions ----

/// A position further into the same region.
pub open spec fn shifted(p: Ptr, bytes: int) -> Ptr {
    Ptr { region: p.region, offset: (p.offset + bytes) as u64 }
}

/// A position further into the same region.
pub fn shift(p: Ptr, bytes: u64) -> (r: Ptr)
    requires
        p.offset + bytes <= u64::MAX,
    ensures
        r == shifted(p, bytes as int),
{
    Ptr { region: p.region, offset: p.offset + bytes }
}

/// Chunk `i` of a reduction of `n` elements: publish the partial, wait, add in rank order. `eb` is
/// the partial's element width.
pub open spec fn reduce_chunk(
    out: Ptr,
    src: Ptr,
    n: int,
    chunk: int,
    eb: int,
    fp32: int,
    i: int,
) -> Seq<Op> {
    let off = i * chunk;
    let c = min_int(n - off, chunk);
    seq![
        Op::Launch(Call::TpSignal { src: shifted(src, off * eb), bytes: (c * eb) as i32 }),
        Op::Launch(
            Call::TpWaitAdd {
                out: shifted(out, off * 2),
                src: shifted(src, off * eb),
                elems: c as i32,
                fp32: fp32 as i32,
            },
        ),
    ]
}

/// A reduction of `n` elements in chunks that fit a link slot.
pub open spec fn reduce_ops(
    out: Ptr,
    src: Ptr,
    n: int,
    chunk: int,
    eb: int,
    fp32: int,
) -> Seq<Op> {
    flat(div_up(n, chunk) as nat, |i: int| reduce_chunk(out, src, n, chunk, eb, fp32, i))
}

/// The chunks cover the elements: chunk `i` takes up where the ones before it end, and the last ends
/// at `n`.
pub proof fn law_chunks_cover(n: int, chunk: int, i: int)
    requires
        chunk >= 1,
        0 <= n,
        0 <= i < div_up(n, chunk),
    ensures
        i * chunk < n,
        min_int(n - i * chunk, chunk) >= 1,
        i + 1 < div_up(n, chunk) ==> i * chunk + min_int(n - i * chunk, chunk) == (i + 1) * chunk,
        i + 1 == div_up(n, chunk) ==> i * chunk + min_int(n - i * chunk, chunk) == n,
{
    let q = div_up(n, chunk);
    assert(q * chunk <= n + chunk - 1 && n <= q * chunk) by (nonlinear_arith)
        requires
            q == (n + chunk - 1) / chunk,
            chunk >= 1,
            n >= 0,
    ;
    assert((i + 1) * chunk <= q * chunk) by (nonlinear_arith)
        requires
            i + 1 <= q,
            chunk >= 1,
    ;
    assert((i + 1) * chunk == i * chunk + chunk) by (nonlinear_arith);
    if i + 1 < q {
        assert((i + 2) * chunk <= q * chunk) by (nonlinear_arith)
            requires
                i + 2 <= q,
                chunk >= 1,
        ;
        assert((i + 2) * chunk == i * chunk + 2 * chunk) by (nonlinear_arith);
    }
}

/// A reduction meets as many barriers as it has chunks, which both ranks compute from the same
/// numbers.
pub proof fn law_reduction_barriers(
    out: Ptr,
    src: Ptr,
    n: int,
    chunk: int,
    eb: int,
    fp32: int,
)
    requires
        chunk >= 1,
        n >= 0,
    ensures
        barriers(reduce_ops(out, src, n, chunk, eb, fp32)) == div_up(n, chunk),
{
    let row = |i: int| reduce_chunk(out, src, n, chunk, eb, fp32, i);
    assert(div_up(n, chunk) >= 0) by (nonlinear_arith)
        requires
            n >= 0,
            chunk >= 1,
    ;
    lemma_rows_barriers(div_up(n, chunk) as nat, out, src, n, chunk, eb, fp32);
}

proof fn lemma_rows_barriers(
    k: nat,
    out: Ptr,
    src: Ptr,
    n: int,
    chunk: int,
    eb: int,
    fp32: int,
)
    ensures
        barriers(flat(k, |i: int| reduce_chunk(out, src, n, chunk, eb, fp32, i))) == k,
    decreases k,
{
    let row = |i: int| reduce_chunk(out, src, n, chunk, eb, fp32, i);
    if k > 0 {
        lemma_rows_barriers((k - 1) as nat, out, src, n, chunk, eb, fp32);
        lemma_barriers_concat(flat((k - 1) as nat, row), row(k - 1));
        let r = row(k - 1);
        lemma_short_barriers(r);
        assert(barriers(r) == 1);
    }
}

fn reduce(
    out: Ptr,
    src: Ptr,
    n: usize,
    chunk: usize,
    eb: usize,
    fp32: i32,
) -> (r: Vec<Op>)
    requires
        chunk >= 1,
        eb == 2 || eb == 4,
        n * eb <= i32::MAX,
        n + chunk <= usize::MAX,
        out.offset + n * 2 <= u64::MAX,
        src.offset + n * eb <= u64::MAX,
    ensures
        r@ == reduce_ops(out, src, n as int, chunk as int, eb as int, fp32 as int),
{
    let ghost row = |i: int|
        reduce_chunk(out, src, n as int, chunk as int, eb as int, fp32 as int, i);
    let ghost q = div_up(n as int, chunk as int);
    let mut r: Vec<Op> = Vec::new();
    let mut off: usize = 0;
    let ghost mut i: int = 0;
    proof {
        assert(q >= 0 && (n == 0 ==> q == 0) && (n > 0 ==> q > 0)) by (nonlinear_arith)
            requires
                q == (n + chunk - 1) / (chunk as int),
                chunk >= 1,
                n >= 0,
        ;
        assert(0 * chunk == 0);
    }
    while off < n
        invariant
            chunk >= 1,
            eb == 2 || eb == 4,
            n * eb <= i32::MAX,
            n + chunk <= usize::MAX,
            out.offset + n * 2 <= u64::MAX,
            src.offset + n * eb <= u64::MAX,
            q == div_up(n as int, chunk as int),
            0 <= i <= q,
            i < q ==> off == i * chunk,
            i == q ==> off == n,
            off <= n,
            row == (|i: int|
                reduce_chunk(out, src, n as int, chunk as int, eb as int, fp32 as int, i)),
            r@ == flat(i as nat, row),
        decreases n - off,
    {
        proof {
            law_chunks_cover(n as int, chunk as int, i);
        }
        let c: usize = if n - off <= chunk {
            n - off
        } else {
            chunk
        };
        let s: Ptr = shift(src, (off * eb) as u64);
        let o: Ptr = shift(out, (off * 2) as u64);
        let ghost before = r@;
        r.push(Op::Launch(Call::TpSignal { src: s, bytes: (c * eb) as i32 }));
        r.push(Op::Launch(Call::TpWaitAdd { out: o, src: s, elems: c as i32, fp32 }));
        off = off + c;
        proof {
            assert(r@ =~= before + row(i));
            i = i + 1;
        }
    }
    proof {
        if i < q {
            law_chunks_cover(n as int, chunk as int, i);
        }
    }
    r
}

impl GpuModel {
    /// Elements of one reduction chunk, for partials of `eb` bytes.
    pub open spec fn chunk_elems(&self, eb: int) -> int {
        let c = (self.cfg.hidden_size * self.tp.probe_batch * (if self.fp32_on() {
            4int
        } else {
            2int
        })) / eb;
        if c >= 1 {
            c
        } else {
            1
        }
    }

    fn tp_chunk_elems(&self, eb: usize) -> (c: usize)
        requires
            eb == 2 || eb == 4,
            self.cfg.hidden_size * self.tp.probe_batch * 4 <= usize::MAX,
        ensures
            c == self.chunk_elems(eb as int),
            c >= 1,
            c <= self.cfg.hidden_size * self.tp.probe_batch * 4 || c == 1,
    {
        proof {
            assert(0 <= self.cfg.hidden_size * self.tp.probe_batch) by (nonlinear_arith);
        }
        let e: usize = self.cfg.hidden_size * self.tp.probe_batch;
        let bytes: usize = if self.tp_fp32_partials() {
            e * 4
        } else {
            e * 2
        };
        let c: usize = bytes / eb;
        if c >= 1 {
            c
        } else {
            1
        }
    }

    /// A reduction of `n` elements of rounded partials in `buf`, in place.
    pub open spec fn reduce16_ops(&self, buf: Ptr, n: int) -> Seq<Op> {
        reduce_ops(buf, buf, n, self.chunk_elems(2), 2, 0)
    }

    /// A reduction of `n` unrounded partials into bf16.
    pub open spec fn reduce32_ops(&self, out: Ptr, partial: Ptr, n: int) -> Seq<Op> {
        reduce_ops(out, partial, n, self.chunk_elems(4), 4, 1)
    }

    /// A reduction's buffers and chunks fit the machine.
    pub open spec fn reduce_fits(&self, n: int) -> bool {
        &&& n * 4 <= i32::MAX
        &&& n + self.cfg.hidden_size * self.tp.probe_batch * 4 + 1 <= usize::MAX
    }

    /// Sums rounded partials across the ranks.
    pub fn tp_all_reduce_bf16(&self, buf: Ptr, n: usize) -> (r: Vec<Op>)
        requires
            self.reduce_fits(n as int),
            buf.offset == 0,
        ensures
            r@ == self.reduce16_ops(buf, n as int),
    {
        let chunk: usize = self.tp_chunk_elems(2);
        reduce(buf, buf, n, chunk, 2, 0)
    }

    /// Sums unrounded partials across the ranks and rounds once.
    pub fn tp_all_reduce_fp32(&self, out: Ptr, partial: Ptr, n: usize) -> (r: Vec<Op>)
        requires
            self.reduce_fits(n as int),
            out.offset == 0,
            partial.offset == 0,
        ensures
            r@ == self.reduce32_ops(out, partial, n as int),
    {
        let chunk: usize = self.tp_chunk_elems(4);
        reduce(out, partial, n, chunk, 4, 1)
    }

    /// One row-parallel product and its reduction; buffer `t` holds the partial where it is kept
    /// unrounded.
    pub open spec fn reduce_site_ops(
        &self,
        w: W,
        id: WeightId,
        x: Ptr,
        out: Ptr,
        inn: int,
        outn: int,
        n: int,
        t: int,
    ) -> Seq<Op> {
        if self.fp32_on() && n <= MAX_VERIFY {
            seq![get32(t, outn * n)] + gemm_f32_ops(w, id, x, temp(t), inn, outn, n)
                + self.reduce32_ops(out, temp(t), outn * n) + seq![put32(t, outn * n)]
        } else {
            gemm_ops(w, id, x, out, inn, outn, n) + self.reduce16_ops(out, outn * n)
        }
    }

    /// One row-parallel product and its reduction: unrounded partials where the width allows, rounded
    /// ones otherwise.
    pub fn tp_reduce_site(
        &self,
        w: W,
        id: WeightId,
        x: Ptr,
        out: Ptr,
        inn: usize,
        outn: usize,
        n: usize,
        t: usize,
    ) -> (r: Vec<Op>)
        requires
            self.fp32_on() && n <= MAX_VERIFY ==> w is Nvfp4 || w is Fp8,
            !(w is Nvfp4Raw),
            inn <= i32::MAX,
            outn <= i32::MAX,
            n <= i32::MAX,
            self.reduce_fits(outn * n),
            out.offset == 0,
        ensures
            r@ == self.reduce_site_ops(
                w,
                id,
                x,
                out,
                inn as int,
                outn as int,
                n as int,
                t as int,
            ),
    {
        proof {
            assert(0 <= outn * n) by (nonlinear_arith);
        }
        if self.tp_fp32_partials() && n <= MAX_VERIFY {
            let mut r: Vec<Op> = vec![borrow32(t, outn * n)];
            proof {
                assert(r@ =~= seq![get32(t as int, outn * n)]);
            }
            chain(&mut r, gemm_act_f32(w, id, x, tmp(t), inn, outn, n));
            chain(&mut r, self.tp_all_reduce_fp32(out, tmp(t), outn * n));
            let last: Vec<Op> = vec![give32(t, outn * n)];
            proof {
                assert(last@ =~= seq![put32(t as int, outn * n)]);
            }
            chain(&mut r, last);
            r
        } else {
            let mut r: Vec<Op> = gemm_act(w, id, x, out, inn, outn, n);
            chain(&mut r, self.tp_all_reduce_bf16(out, outn * n));
            r
        }
    }
}

} // verus!
