//! Bitwise batch-invariance: which products are probed, and how a column is judged.
use vstd::prelude::*;

use crate::gpu::model::{AttnIn, Ffn, GdnIn, GpuModel, W};
use crate::gpu::program::{Block, Proj, WeightId};
use crate::seqs::max_int;
use crate::text::{append, decimal, string_of, to_decimal};

verus! {

/// One probed product.
#[derive(Clone, Copy, PartialEq, Eq, Structural)]
pub struct BinvCase {
    pub id: WeightId,
    pub w: W,
    pub inn: usize,
    pub outn: usize,
}

impl GpuModel {
    fn of(p: Proj) -> (id: WeightId)
        ensures
            id == WeightId::Of(Block::Layer(0), p),
    {
        WeightId::Of(Block::Layer(0), p)
    }

    /// The feed-forward products of layer 0 that are probed; of an expert block the shared expert.
    pub open spec fn binv_ffn(&self) -> Seq<BinvCase> {
        let h = self.cfg.hidden_size;
        match self.layers@[0].mlp {
            Ffn::Dense(m) => {
                let im = self.cfg.intermediate_size;
                seq![
                    BinvCase {
                        id: WeightId::Of(Block::Layer(0), Proj::Gate),
                        w: m.gate,
                        inn: h,
                        outn: im,
                    },
                    BinvCase {
                        id: WeightId::Of(Block::Layer(0), Proj::Down),
                        w: m.down,
                        inn: im,
                        outn: h,
                    },
                ]
            },
            Ffn::Moe(e) => {
                let im = self.cfg.shared_expert_intermediate_size;
                seq![
                    BinvCase {
                        id: WeightId::Of(Block::Layer(0), Proj::SharedGateProj),
                        w: e.shared.gate,
                        inn: h,
                        outn: im,
                    },
                    BinvCase {
                        id: WeightId::Of(Block::Layer(0), Proj::SharedDown),
                        w: e.shared.down,
                        inn: im,
                        outn: h,
                    },
                ]
            },
        }
    }

    /// The linear-attention products of layer 0 that are probed. The fused one needs it most: it joins
    /// four tensors, each with its own scale.
    pub open spec fn binv_gdn(&self) -> Seq<BinvCase> {
        let h = self.cfg.hidden_size;
        match self.layers@[0].la {
            Some(la) => seq![
                match la.in_proj {
                    GdnIn::Fused(w) => BinvCase {
                        id: WeightId::Of(Block::Layer(0), Proj::GdnIn),
                        w,
                        inn: h,
                        outn: GdnIn::spec_fused_m(&self.cfg) as usize,
                    },
                    GdnIn::Split { qkv, .. } => BinvCase {
                        id: WeightId::Of(Block::Layer(0), Proj::GdnQkv),
                        w: qkv,
                        inn: h,
                        outn: (self.cfg.spec_key_dim() * 2 + self.cfg.spec_value_dim()) as usize,
                    },
                },
                BinvCase {
                    id: WeightId::Of(Block::Layer(0), Proj::GdnOut),
                    w: la.out_proj,
                    inn: self.cfg.spec_value_dim() as usize,
                    outn: h,
                },
            ],
            None => Seq::<BinvCase>::empty(),
        }
    }

    /// The attention product of layer 0 and the output head, where they are probed.
    pub open spec fn binv_rest(&self) -> Seq<BinvCase> {
        let h = self.cfg.hidden_size;
        (match self.layers@[0].fa {
            Some(fa) => match fa.qkv {
                AttnIn::Fused(w) => seq![
                    BinvCase {
                        id: WeightId::Of(Block::Layer(0), Proj::Qkv),
                        w,
                        inn: h,
                        outn: AttnIn::spec_fused_m(&self.cfg) as usize,
                    },
                ],
                AttnIn::Split { .. } => Seq::<BinvCase>::empty(),
            },
            None => Seq::<BinvCase>::empty(),
        }) + (match self.lm_head {
            Some(w) => seq![
                BinvCase { id: WeightId::LmHead, w, inn: h, outn: self.cfg.vocab_size },
            ],
            None => Seq::<BinvCase>::empty(),
        })
    }

    /// The probed products.
    pub fn binv_cases(&self) -> (r: Vec<BinvCase>)
        requires
            self.layers@.len() >= 1,
            GdnIn::spec_fused_m(&self.cfg) <= usize::MAX,
            AttnIn::spec_fused_m(&self.cfg) <= usize::MAX,
            0 <= self.cfg.spec_key_dim(),
            0 <= self.cfg.spec_value_dim(),
        ensures
            r@ == self.binv_ffn() + self.binv_gdn() + self.binv_rest(),
    {
        let h: usize = self.cfg.hidden_size;
        let mut r: Vec<BinvCase> = Vec::new();
        match self.layers[0].mlp {
            Ffn::Dense(m) => {
                let im: usize = self.cfg.intermediate_size;
                r.push(BinvCase { id: Self::of(Proj::Gate), w: m.gate, inn: h, outn: im });
                r.push(BinvCase { id: Self::of(Proj::Down), w: m.down, inn: im, outn: h });
            },
            Ffn::Moe(e) => {
                let im: usize = self.cfg.shared_expert_intermediate_size;
                r.push(
                    BinvCase {
                        id: Self::of(Proj::SharedGateProj),
                        w: e.shared.gate,
                        inn: h,
                        outn: im,
                    },
                );
                r.push(
                    BinvCase { id: Self::of(Proj::SharedDown), w: e.shared.down, inn: im, outn: h },
                );
            },
        }
        if let Some(la) = self.layers[0].la {
            match la.in_proj {
                GdnIn::Fused(w) => {
                    let outn: usize = GdnIn::fused_m(&self.cfg);
                    r.push(BinvCase { id: Self::of(Proj::GdnIn), w, inn: h, outn });
                },
                GdnIn::Split { qkv, .. } => {
                    let outn: usize = self.cfg.key_dim() * 2 + self.cfg.value_dim();
                    r.push(BinvCase { id: Self::of(Proj::GdnQkv), w: qkv, inn: h, outn });
                },
            }
            let inn: usize = self.cfg.value_dim();
            r.push(BinvCase { id: Self::of(Proj::GdnOut), w: la.out_proj, inn, outn: h });
        }
        if let Some(fa) = self.layers[0].fa {
            if let AttnIn::Fused(w) = fa.qkv {
                let outn: usize = AttnIn::fused_m(&self.cfg);
                r.push(BinvCase { id: Self::of(Proj::Qkv), w, inn: h, outn });
            }
        }
        if let Some(w) = self.lm_head {
            r.push(BinvCase { id: WeightId::LmHead, w, inn: h, outn: self.cfg.vocab_size });
        }
        proof {
            assert(r@ =~= self.binv_ffn() + self.binv_gdn() + self.binv_rest());
        }
        r
    }
}

/// Largest difference of two bit patterns among the first `n` rows.
pub open spec fn worst_upto(a: Seq<u16>, b: Seq<u16>, n: int) -> int
    decreases n,
{
    if n <= 0 {
        0
    } else {
        max_int(worst_upto(a, b, n - 1), (a[n - 1] ^ b[n - 1]) as int)
    }
}

/// Largest bitwise difference between the first column of a narrow and of a wide product. Closeness
/// would not do: a last-bit drift changes a token somewhere in a long generation.
pub fn worst_xor(a: &[u16], b: &[u16], rows: usize) -> (w: u16)
    requires
        rows <= a@.len(),
        rows <= b@.len(),
    ensures
        w == worst_upto(a@, b@, rows as int),
{
    let mut w: u16 = 0;
    let mut i: usize = 0;
    while i < rows
        invariant
            i <= rows,
            rows <= a@.len(),
            rows <= b@.len(),
            w == worst_upto(a@, b@, i as int),
        decreases rows - i,
    {
        let d: u16 = a[i] ^ b[i];
        if d > w {
            w = d;
        }
        i = i + 1;
    }
    w
}

/// No difference means the same bits in every row.
pub proof fn law_zero_means_identical(a: Seq<u16>, b: Seq<u16>, n: int)
    requires
        n <= a.len(),
        n <= b.len(),
    ensures
        worst_upto(a, b, n) == 0 <==> forall|i: int| 0 <= i < n ==> #[trigger] a[i] == b[i],
        worst_upto(a, b, n) >= 0,
    decreases n,
{
    if n > 0 {
        law_zero_means_identical(a, b, n - 1);
        let (x, y) = (a[n - 1], b[n - 1]);
        assert((x ^ y) == 0 <==> x == y) by (bit_vector);
        if worst_upto(a, b, n) == 0 {
            assert forall|i: int| 0 <= i < n implies #[trigger] a[i] == b[i] by {
                if i == n - 1 {
                    assert((x ^ y) == 0);
                }
            }
        }
    }
}

/// The vendor library's algorithms that a sweep tries: the default, then the plain ones, then those on
/// tensor cores.
pub fn sweep_algorithms() -> (r: Vec<i32>)
    ensures
        r@ == seq![-1i32] + Seq::new(24, |i: int| i as i32) + Seq::new(24, |i: int| (100 + i) as i32),
{
    let mut r: Vec<i32> = vec![-1];
    let mut i: i32 = 0;
    while i < 24
        invariant
            0 <= i <= 24,
            r@ == seq![-1i32] + Seq::new(i as nat, |i: int| i as i32),
        decreases 24 - i,
    {
        r.push(i);
        i = i + 1;
        proof {
            assert(r@ =~= seq![-1i32] + Seq::new(i as nat, |i: int| i as i32));
        }
    }
    let ghost first = r@;
    let mut j: i32 = 0;
    while j < 24
        invariant
            0 <= j <= 24,
            r@ == first + Seq::new(j as nat, |i: int| (100 + i) as i32),
        decreases 24 - j,
    {
        r.push(100 + j);
        j = j + 1;
        proof {
            assert(r@ =~= first + Seq::new(j as nat, |i: int| (100 + i) as i32));
        }
    }
    r
}

/// How an algorithm is called in a report.
pub fn algorithm_name(algo: i32) -> (s: String)
    ensures
        s@ == (if algo < 0 {
            "DEFAULT"@
        } else if algo >= 100 {
            "ALGO"@ + decimal((algo - 100) as nat) + "_TENSOR_OP"@
        } else {
            "ALGO"@ + decimal(algo as nat)
        }),
{
    if algo < 0 {
        return "DEFAULT".to_owned();
    }
    let mut s: String = "ALGO".to_owned();
    if algo >= 100 {
        let d: Vec<char> = to_decimal((algo - 100) as u64);
        append(&mut s, string_of(d.as_slice()).as_str());
        append(&mut s, "_TENSOR_OP");
    } else {
        let d: Vec<char> = to_decimal(algo as u64);
        append(&mut s, string_of(d.as_slice()).as_str());
    }
    s
}

} // verus!
