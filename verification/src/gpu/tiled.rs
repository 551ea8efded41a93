//! Tiled prefill attention: score and value products by the vendor library, an online softmax between
//! them, over query tiles and key tiles.
use vstd::prelude::*;

use crate::gpu::gemm::{shift, shifted};
use crate::gpu::model::{PF_BC, PF_BR};
use crate::gpu::program::{
    borrow16, borrow32, chain, get16, get32, give16, give32, int32, put16, put32, temp, tmp, Call,
    Op, Ptr,
};
use crate::mma::div_up;
use crate::seqs::{flat, min_int, min_usize};

verus! {

/// Buffer numbers that a tiled attention uses.
pub const TILED_IDS: usize = 5;

/// One tiled attention: `n` queries after `pos` earlier positions of one lane. Head counts are those
/// of the tensors handed in.
#[derive(Clone, Copy, PartialEq, Eq, Structural)]
pub struct Tiled {
    pub q: Ptr,
    pub kc: Ptr,
    pub vc: Ptr,
    pub attn: Ptr,
    pub stride: usize,
    pub nh: usize,
    pub nkv: usize,
    pub hd: usize,
    pub n: usize,
    pub pos: usize,
    /// First buffer number.
    pub first: usize,
}

impl Tiled {
    /// Rows of a query tile.
    pub open spec fn br(&self) -> int {
        min_int(PF_BR as int, self.n as int)
    }

    /// Query heads that share a KV head.
    pub open spec fn gqa(&self) -> int {
        self.nh as int / self.nkv as int
    }

    /// Keys that any query may see.
    pub open spec fn keys(&self) -> int {
        self.pos + self.n
    }

    /// Query tiles.
    pub open spec fn query_tiles(&self) -> int {
        div_up(self.n as int, self.br())
    }

    /// Live rows of query tile `i`.
    pub open spec fn rows(&self, i: int) -> int {
        min_int(self.n - i * self.br(), self.br())
    }

    /// Key tiles that query tile `i` can see.
    pub open spec fn key_tiles(&self, i: int) -> int {
        (self.pos + i * self.br() + self.rows(i) - 1) / (PF_BC as int) + 1
    }

    /// The sizes fit the device and the machine.
    pub open spec fn fits(&self) -> bool {
        &&& self.n >= 1
        &&& self.nkv >= 1
        &&& self.hd <= 256
        &&& self.nh <= 65535
        &&& self.nkv <= 65535
        &&& self.stride <= i32::MAX
        &&& self.pos + self.n + PF_BC <= i32::MAX
        &&& self.nh * self.hd <= i32::MAX
        &&& self.br() * PF_BC * self.nkv <= usize::MAX
        &&& self.br() * self.hd * self.nh <= usize::MAX
        &&& self.br() * self.nh <= usize::MAX
        &&& self.kc.offset <= 0xFFFF_FFFF_FFFF
        &&& self.vc.offset <= 0xFFFF_FFFF_FFFF
        &&& self.q.offset <= 0xFFFF_FFFF_FFFF
        &&& self.first + TILED_IDS <= usize::MAX
    }

    /// Head `r` of every group, on one pair of query and key tiles.
    pub open spec fn head_ops(&self, i: int, j: int, r: int) -> Seq<Op> {
        let (br, bc, hd, nh) = (self.br(), PF_BC as int, self.hd as int, self.nh as int);
        let t0 = i * br;
        let s0 = j * bc;
        let kcols = min_int(bc, self.keys() - s0);
        let f = self.first as int;
        seq![
            Op::BlasScores {
                keys: shifted(self.kc, s0 * hd * 2),
                q: shifted(self.q, (r * hd + t0 * (nh * hd)) * 2),
                s: temp(f),
                kcols: kcols as i32,
                rows: self.rows(i) as i32,
                hd: hd as i32,
                key_stride: (self.stride * hd) as i64,
                q_ld: (nh * hd) as i32,
                q_stride: (self.gqa() * hd) as i64,
                bc: bc as i32,
                s_stride: (br * bc) as i64,
                nkv: self.nkv as i32,
            },
            Op::Launch(
                Call::AttnSoftmaxTile {
                    s: temp(f),
                    p: temp(f + 1),
                    o: temp(f + 2),
                    m: temp(f + 3),
                    l: temp(f + 4),
                    br: br as i32,
                    bc: bc as i32,
                    hd: hd as i32,
                    nh: nh as i32,
                    gqa: self.gqa() as i32,
                    r: r as i32,
                    rows: self.rows(i) as i32,
                    qpos: (self.pos + t0) as i32,
                    s0: s0 as i32,
                    pc: self.keys() as i32,
                    nkv: self.nkv as i32,
                },
            ),
            Op::BlasValues {
                p: temp(f + 1),
                values: shifted(self.vc, s0 * hd * 2),
                o: shifted(temp(f + 2), r * (br * hd) * 4),
                rows: self.rows(i) as i32,
                hd: hd as i32,
                kcols: kcols as i32,
                bc: bc as i32,
                p_stride: (br * bc) as i64,
                v_stride: (self.stride * hd) as i64,
                br: br as i32,
                o_stride: (self.gqa() * (br * hd)) as i64,
                nkv: self.nkv as i32,
            },
        ]
    }

    /// One pair of query and key tiles.
    pub open spec fn pair_ops(&self, i: int, j: int) -> Seq<Op> {
        flat(self.gqa() as nat, |r: int| self.head_ops(i, j, r))
    }

    /// One query tile over all its keys.
    pub open spec fn tile_ops(&self, i: int) -> Seq<Op> {
        let br = self.br();
        let f = self.first as int;
        seq![
            Op::Launch(
                Call::AttnTileInit {
                    o: temp(f + 2),
                    m: temp(f + 3),
                    l: temp(f + 4),
                    br: br as i32,
                    hd: self.hd as i32,
                    nh: self.nh as i32,
                },
            ),
        ] + flat(self.key_tiles(i) as nat, |j: int| self.pair_ops(i, j)) + seq![
            Op::Launch(
                Call::AttnFinalize {
                    attn: self.attn,
                    o: temp(f + 2),
                    l: temp(f + 4),
                    br: br as i32,
                    hd: self.hd as i32,
                    nh: self.nh as i32,
                    t0: (i * br) as i32,
                    n: self.n as i32,
                },
            ),
        ]
    }

    /// The whole attention.
    pub open spec fn ops(&self) -> Seq<Op> {
        let (br, bc) = (self.br(), PF_BC as int);
        let f = self.first as int;
        let (nkv, nh, hd) = (self.nkv as int, self.nh as int, self.hd as int);
        seq![
            get32(f, br * bc * nkv),
            get16(f + 1, br * bc * nkv),
            get32(f + 2, br * hd * nh),
            get32(f + 3, br * nh),
            get32(f + 4, br * nh),
        ] + flat(self.query_tiles() as nat, |i: int| self.tile_ops(i)) + seq![
            put32(f, br * bc * nkv),
            put16(f + 1, br * bc * nkv),
            put32(f + 2, br * hd * nh),
            put32(f + 3, br * nh),
            put32(f + 4, br * nh),
        ]
    }

    /// Bounds of the positions in tile pair `(i, j)`.
    proof fn lemma_tile(&self, i: int)
        requires
            self.fits(),
            0 <= i < self.query_tiles(),
        ensures
            1 <= self.br() <= 1024,
            0 <= i * self.br() < self.n,
            1 <= self.rows(i) <= self.br(),
            i * self.br() + self.rows(i) <= self.n,
            1 <= self.key_tiles(i),
            (self.key_tiles(i) - 1) * PF_BC <= self.pos + i * self.br() + self.rows(i) - 1,
            self.key_tiles(i) * PF_BC > self.pos + i * self.br() + self.rows(i) - 1,
    {
        let br = self.br();
        let q = self.query_tiles();
        assert(i * br < self.n && 0 <= i * br) by (nonlinear_arith)
            requires
                q == (self.n + br - 1) / br,
                0 <= i < q,
                br >= 1,
                self.n >= 1,
        ;
    }

    /// The key tiles of a query tile reach exactly as far as its last query may look: every key at or
    /// before it lies in one of them, and the last tile starts at or before it.
    pub proof fn law_key_tiles_cover(&self, i: int, key: int)
        requires
            self.fits(),
            0 <= i < self.query_tiles(),
            0 <= key < self.pos + i * self.br() + self.rows(i),
        ensures
            0 <= key / (PF_BC as int) < self.key_tiles(i),
            (self.key_tiles(i) - 1) * PF_BC < self.pos + i * self.br() + self.rows(i),
    {
        self.lemma_tile(i);
    }

    fn head(&self, i: usize, j: usize, r: usize, t0: usize, rows: usize) -> (v: Vec<Op>)
        requires
            self.fits(),
            0 <= i < self.query_tiles(),
            0 <= j < self.key_tiles(i as int),
            0 <= r < self.gqa(),
            t0 == i * self.br(),
            rows == self.rows(i as int),
        ensures
            v@ == self.head_ops(i as int, j as int, r as int),
    {
        let br: usize = min_usize(PF_BR, self.n);
        let (hd, nh) = (self.hd, self.nh);
        let gqa: usize = nh / self.nkv;
        proof {
            self.lemma_tile(i as int);
            assert(gqa == self.gqa());
            assert(0 <= self.stride * hd <= i32::MAX * 256) by (nonlinear_arith)
                requires
                    self.stride <= i32::MAX,
                    hd <= 256,
            ;
            assert(0 <= gqa * hd <= 65535 * 256) by (nonlinear_arith)
                requires
                    gqa <= 65535,
                    hd <= 256,
            ;
            assert(0 <= r * hd <= 65535 * 256) by (nonlinear_arith)
                requires
                    r <= 65535,
                    hd <= 256,
            ;
            assert(0 <= t0 * (nh * hd) <= i32::MAX * i32::MAX) by (nonlinear_arith)
                requires
                    t0 <= i32::MAX,
                    nh * hd <= i32::MAX,
            ;
            assert(0 <= j * 1024 * hd <= i32::MAX * 256) by (nonlinear_arith)
                requires
                    j * 1024 <= i32::MAX,
                    0 <= j,
                    hd <= 256,
            ;
            assert(0 <= br * hd <= 1024 * 256) by (nonlinear_arith)
                requires
                    br <= 1024,
                    hd <= 256,
            ;
            assert(0 <= r * (br * hd) <= 65535 * (1024 * 256)) by (nonlinear_arith)
                requires
                    r <= 65535,
                    0 <= br * hd <= 1024 * 256,
            ;
            assert(0 <= gqa * (br * hd) <= 65535 * (1024 * 256)) by (nonlinear_arith)
                requires
                    gqa <= 65535,
                    0 <= br * hd <= 1024 * 256,
            ;
            assert(0 <= br * 1024 <= 1024 * 1024);
            assert(nh as u64 as int * (hd as u64 as int) == nh * hd);
        }
        let s0: usize = j * PF_BC;
        let pc: usize = self.pos + self.n;
        let kcols: usize = min_usize(PF_BC, pc - s0);
        let (hd6, nh6, br6, r6) = (hd as u64, nh as u64, br as u64, r as u64);
        let koff: u64 = s0 as u64 * hd6 * 2;
        let f: usize = self.first;
        let v: Vec<Op> = vec![
            Op::BlasScores {
                keys: shift(self.kc, koff),
                q: shift(self.q, (r6 * hd6 + t0 as u64 * (nh6 * hd6)) * 2),
                s: tmp(f),
                kcols: int32(kcols),
                rows: int32(rows),
                hd: int32(hd),
                key_stride: (self.stride as u64 * hd6) as i64,
                q_ld: (nh6 * hd6) as i32,
                q_stride: (gqa as u64 * hd6) as i64,
                bc: 1024,
                s_stride: (br6 * 1024) as i64,
                nkv: int32(self.nkv),
            },
            Op::Launch(
                Call::AttnSoftmaxTile {
                    s: tmp(f),
                    p: tmp(f + 1),
                    o: tmp(f + 2),
                    m: tmp(f + 3),
                    l: tmp(f + 4),
                    br: int32(br),
                    bc: 1024,
                    hd: int32(hd),
                    nh: int32(nh),
                    gqa: int32(gqa),
                    r: int32(r),
                    rows: int32(rows),
                    qpos: int32(self.pos + t0),
                    s0: int32(s0),
                    pc: int32(pc),
                    nkv: int32(self.nkv),
                },
            ),
            Op::BlasValues {
                p: tmp(f + 1),
                values: shift(self.vc, koff),
                o: shift(tmp(f + 2), r6 * (br6 * hd6) * 4),
                rows: int32(rows),
                hd: int32(hd),
                kcols: int32(kcols),
                bc: 1024,
                p_stride: (br6 * 1024) as i64,
                v_stride: (self.stride as u64 * hd6) as i64,
                br: int32(br),
                o_stride: (gqa as u64 * (br6 * hd6)) as i64,
                nkv: int32(self.nkv),
            },
        ];
        proof {
            assert(v@ =~= self.head_ops(i as int, j as int, r as int));
        }
        v
    }

    fn pair(&self, i: usize, j: usize, t0: usize, rows: usize) -> (v: Vec<Op>)
        requires
            self.fits(),
            0 <= i < self.query_tiles(),
            0 <= j < self.key_tiles(i as int),
            t0 == i * self.br(),
            rows == self.rows(i as int),
        ensures
            v@ == self.pair_ops(i as int, j as int),
    {
        let ghost row = |r: int| self.head_ops(i as int, j as int, r);
        let gqa: usize = self.nh / self.nkv;
        let mut v: Vec<Op> = Vec::new();
        let mut r: usize = 0;
        while r < gqa
            invariant
                self.fits(),
                0 <= i < self.query_tiles(),
                0 <= j < self.key_tiles(i as int),
                t0 == i * self.br(),
                rows == self.rows(i as int),
                gqa == self.gqa(),
                r <= gqa,
                row == (|r: int| self.head_ops(i as int, j as int, r)),
                v@ == flat(r as nat, row),
            decreases gqa - r,
        {
            chain(&mut v, self.head(i, j, r, t0, rows));
            r = r + 1;
            proof {
                assert(row(r - 1) == self.head_ops(i as int, j as int, r - 1));
            }
        }
        v
    }

    fn tile(&self, i: usize, t0: usize, rows: usize) -> (v: Vec<Op>)
        requires
            self.fits(),
            0 <= i < self.query_tiles(),
            t0 == i * self.br(),
            rows == self.rows(i as int),
        ensures
            v@ == self.tile_ops(i as int),
    {
        let br: usize = min_usize(PF_BR, self.n);
        let f: usize = self.first;
        proof {
            self.lemma_tile(i as int);
        }
        let ghost row = |j: int| self.pair_ops(i as int, j);
        let init: Vec<Op> = vec![
            Op::Launch(
                Call::AttnTileInit {
                    o: tmp(f + 2),
                    m: tmp(f + 3),
                    l: tmp(f + 4),
                    br: int32(br),
                    hd: int32(self.hd),
                    nh: int32(self.nh),
                },
            ),
        ];
        let ghost init0 = init@;
        let mut v: Vec<Op> = init;
        let kmax: usize = self.pos + t0 + rows - 1;
        let mut j: usize = 0;
        let mut s0: usize = 0;
        proof {
            assert(v@ =~= init0 + flat(0, row));
        }
        while s0 <= kmax
            invariant
                self.fits(),
                0 <= i < self.query_tiles(),
                t0 == i * self.br(),
                rows == self.rows(i as int),
                kmax == self.pos + t0 + rows - 1,
                s0 == j * 1024,
                j <= self.key_tiles(i as int),
                kmax + 1024 <= i32::MAX,
                (self.key_tiles(i as int) - 1) * 1024 <= kmax < self.key_tiles(i as int) * 1024,
                row == (|j: int| self.pair_ops(i as int, j)),
                v@ == init0 + flat(j as nat, row),
            decreases kmax + 1024 - s0,
        {
            let ghost before = v@;
            chain(&mut v, self.pair(i, j, t0, rows));
            j = j + 1;
            s0 = s0 + PF_BC;
            proof {
                assert(row(j - 1) == self.pair_ops(i as int, j - 1));
                assert(v@ =~= init0 + flat(j as nat, row));
            }
        }
        let last: Vec<Op> = vec![
            Op::Launch(
                Call::AttnFinalize {
                    attn: self.attn,
                    o: tmp(f + 2),
                    l: tmp(f + 4),
                    br: int32(br),
                    hd: int32(self.hd),
                    nh: int32(self.nh),
                    t0: int32(t0),
                    n: int32(self.n),
                },
            ),
        ];
        let ghost last0 = last@;
        chain(&mut v, last);
        proof {
            assert(j == self.key_tiles(i as int));
            assert(init0 =~= seq![
                Op::Launch(
                    Call::AttnTileInit {
                        o: temp(f + 2),
                        m: temp(f + 3),
                        l: temp(f + 4),
                        br: br as i32,
                        hd: self.hd as i32,
                        nh: self.nh as i32,
                    },
                ),
            ]);
            assert(last0 =~= seq![
                Op::Launch(
                    Call::AttnFinalize {
                        attn: self.attn,
                        o: temp(f + 2),
                        l: temp(f + 4),
                        br: br as i32,
                        hd: self.hd as i32,
                        nh: self.nh as i32,
                        t0: t0 as i32,
                        n: self.n as i32,
                    },
                ),
            ]);
        }
        v
    }

    /// Builds the attention: query tiles in order, and for each its key tiles in order.
    pub fn attn_prefill_tiled(&self) -> (v: Vec<Op>)
        requires
            self.fits(),
        ensures
            v@ == self.ops(),
    {
        let br: usize = min_usize(PF_BR, self.n);
        let f: usize = self.first;
        let (nkv, nh, hd) = (self.nkv, self.nh, self.hd);
        let ghost row = |i: int| self.tile_ops(i);
        proof {
            assert(0 <= br * 1024 * nkv && 0 <= br * hd && 0 <= br * hd * nh && 0 <= br * nh && br
                * 1024 <= br * 1024 * nkv) by (nonlinear_arith)
                requires
                    nkv >= 1,
            ;
            assert(br * hd <= 1024 * 256) by (nonlinear_arith)
                requires
                    br <= 1024,
                    hd <= 256,
            ;
        }
        let slab: usize = br * PF_BC * nkv;
        let head: Vec<Op> = vec![
            borrow32(f, slab),
            borrow16(f + 1, slab),
            borrow32(f + 2, br * hd * nh),
            borrow32(f + 3, br * nh),
            borrow32(f + 4, br * nh),
        ];
        let ghost head0 = head@;
        let mut v: Vec<Op> = head;
        let ghost q = self.query_tiles();
        let mut i: usize = 0;
        let mut t0: usize = 0;
        proof {
            assert(v@ =~= head0 + flat(0, row));
            assert(q >= 1) by (nonlinear_arith)
                requires
                    q == (self.n + br - 1) / (br as int),
                    br >= 1,
                    self.n >= 1,
            ;
            assert(0 * br == 0);
        }
        while t0 < self.n
            invariant
                self.fits(),
                br == self.br(),
                br >= 1,
                q == self.query_tiles(),
                t0 == i * br,
                i <= q,
                t0 <= self.n + br,
                row == (|i: int| self.tile_ops(i)),
                v@ == head0 + flat(i as nat, row),
            decreases self.n + br - t0,
        {
            proof {
                assert(i < q) by (nonlinear_arith)
                    requires
                        q == (self.n + br - 1) / (br as int),
                        i * br < self.n,
                        br >= 1,
                        i >= 0,
                ;
                self.lemma_tile(i as int);
                assert((i + 1) * br == i * br + br) by (nonlinear_arith);
            }
            let rows: usize = min_usize(self.n - t0, br);
            chain(&mut v, self.tile(i, t0, rows));
            i = i + 1;
            t0 = t0 + br;
            proof {
                assert(row(i - 1) == self.tile_ops(i - 1));
                assert(v@ =~= head0 + flat(i as nat, row));
            }
        }
        let last: Vec<Op> = vec![
            give32(f, slab),
            give16(f + 1, slab),
            give32(f + 2, br * hd * nh),
            give32(f + 3, br * nh),
            give32(f + 4, br * nh),
        ];
        let ghost last0 = last@;
        chain(&mut v, last);
        proof {
            assert(i == q) by (nonlinear_arith)
                requires
                    q == (self.n + br - 1) / (br as int),
                    i * br >= self.n,
                    i <= q,
                    br >= 1,
                    self.n >= 1,
            ;
            assert(head0 =~= seq![
                get32(f as int, br * 1024 * nkv),
                get16(f + 1, br * 1024 * nkv),
                get32(f + 2, br * hd * nh),
                get32(f + 3, br * nh),
                get32(f + 4, br * nh),
            ]);
            assert(last0 =~= seq![
                put32(f as int, br * 1024 * nkv),
                put16(f + 1, br * 1024 * nkv),
                put32(f + 2, br * hd * nh),
                put32(f + 3, br * nh),
                put32(f + 4, br * nh),
            ]);
        }
        v
    }
}

} // verus!
