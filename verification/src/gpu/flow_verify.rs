//! A verify with what follows it: the model's token after every column, or the judgement of every draft.
use vstd::prelude::*;

use crate::gpu::flow_layers::settled;
use crate::gpu::flow_passes::{
    all_settled, law_greedy_tail_computes, law_sample_tail_computes, law_verify_computes, penalized,
    verify_columns,
};
use crate::gpu::forward::Pass;
use crate::gpu::machine::{args1, args7, lemma_run_concat, made, part, run, Fun, Mem, Val};
use crate::gpu::meaning::{embedded, logits_of, summit, trunk};
use crate::gpu::model::GpuModel;
use crate::gpu::passes::VerifyPenalty;
use crate::gpu::program::{temp, Region, Scratch, Table};

verus! {

/// The logits of a verify, penalized where a penalty is asked for.
pub open spec fn judged_logits(
    m: &GpuModel,
    s: Mem,
    segs: Seq<(usize, usize)>,
    kv_stride: usize,
    pos: usize,
    ckpt: Option<usize>,
    forest: bool,
    n: usize,
    penalty: Option<VerifyPenalty>,
) -> Val {
    let p = verify_columns(m, s, segs, kv_stride, pos, ckpt, forest, n);
    let x = embedded(m, Val::Uploaded(Table::Tokens), n as int);
    penalized(m, s, logits_of(m, summit(m, s, p, x), n as int), penalty, n as int)
}

/// A greedy verify puts the likeliest token after every column into scratch. The columns after all layers
/// stay in buffer 2 for the draft head, and every layer remembers its part.
pub proof fn law_greedy_verify_computes(
    m: &GpuModel,
    s: Mem,
    segs: Seq<(usize, usize)>,
    kv_stride: usize,
    pos: usize,
    ckpt: Option<usize>,
    forest: bool,
    n: usize,
    penalty: Option<VerifyPenalty>,
)
    requires
        m.run_ok(Pass::Verify { pos, ckpt, forest }, kv_stride, n),
        m.layers@.len() <= usize::MAX,
        m.cfg.hidden_size >= 1,
    ensures
        ({
            let e = run(
                s,
                m.verify_ops(segs, kv_stride, pos, ckpt, forest, n) + m.greedy_tail_ops(
                    penalty,
                    n as int,
                ),
            );
            let p = verify_columns(m, s, segs, kv_stride, pos, ckpt, forest, n);
            let x = embedded(m, Val::Uploaded(Table::Tokens), n as int);
            &&& e[Region::Scratch(Scratch::Tok)] == made(
                Fun::Likeliest { vocab: m.cfg.vocab_size as i32, n: n as i32 },
                args1(judged_logits(m, s, segs, kv_stride, pos, ckpt, forest, n, penalty)),
            )
            &&& e[temp(2).region] == trunk(m, s, p, x, m.layers@.len())
            &&& all_settled(m, s, e, p, x)
        }),
{
    let a = m.verify_ops(segs, kv_stride, pos, ckpt, forest, n);
    let b = m.greedy_tail_ops(penalty, n as int);
    let p = verify_columns(m, s, segs, kv_stride, pos, ckpt, forest, n);
    let x = embedded(m, Val::Uploaded(Table::Tokens), n as int);
    law_verify_computes(m, s, segs, kv_stride, pos, ckpt, forest, n);
    let s1 = run(s, a);
    law_greedy_tail_computes(m, s1, penalty, n as int);
    lemma_run_concat(s, a, b);
    let e = run(s1, b);
    assert(forall|q: u64| #[trigger] s1[Region::Raw(q)] == s[Region::Raw(q)]);
    assert forall|li: int| 0 <= li < m.layers@.len() implies #[trigger] settled(
        m,
        s,
        e,
        p,
        x,
        li,
    ) by {
        assert(settled(m, s, s1, p, x, li));
    }
}

/// A sampling verify puts into scratch the probability with which every draft is taken, and the token that
/// replaces it. The columns after all layers stay in buffer 2.
pub proof fn law_sampled_verify_computes(
    m: &GpuModel,
    s: Mem,
    segs: Seq<(usize, usize)>,
    kv_stride: usize,
    pos: usize,
    ckpt: Option<usize>,
    n: usize,
    penalty: Option<VerifyPenalty>,
)
    requires
        m.run_ok(Pass::Verify { pos, ckpt, forest: false }, kv_stride, n),
        m.layers@.len() <= usize::MAX,
        m.cfg.hidden_size >= 1,
    ensures
        ({
            let e = run(
                s,
                m.verify_ops(segs, kv_stride, pos, ckpt, false, n) + m.sample_tail_ops(
                    penalty,
                    n as int,
                ),
            );
            let p = verify_columns(m, s, segs, kv_stride, pos, ckpt, false, n);
            let x = embedded(m, Val::Uploaded(Table::Tokens), n as int);
            let ints = Val::Uploaded(Table::SampleI32);
            let nums = Val::Uploaded(Table::SampleF32);
            let a = args7(
                judged_logits(m, s, segs, kv_stride, pos, ckpt, false, n, penalty),
                ints,
                part(nums, 128),
                nums,
                part(ints, 64),
                part(nums, 64),
                Val::Uploaded(Table::Seeds),
            );
            let (vocab, w) = (m.cfg.vocab_size as i32, n as i32);
            &&& e[Region::Scratch(Scratch::SampleProb)] == made(
                Fun::AcceptProb { vocab, n: w },
                a,
            )
            &&& e[Region::Scratch(Scratch::SampleResid)] == made(
                Fun::Replacement { vocab, n: w },
                a,
            )
            &&& all_settled(m, s, e, p, x)
        }),
{
    let a = m.verify_ops(segs, kv_stride, pos, ckpt, false, n);
    let b = m.sample_tail_ops(penalty, n as int);
    let p = verify_columns(m, s, segs, kv_stride, pos, ckpt, false, n);
    let x = embedded(m, Val::Uploaded(Table::Tokens), n as int);
    law_verify_computes(m, s, segs, kv_stride, pos, ckpt, false, n);
    let s1 = run(s, a);
    law_sample_tail_computes(m, s1, penalty, n as int);
    lemma_run_concat(s, a, b);
    let e = run(s1, b);
    assert(forall|q: u64| #[trigger] s1[Region::Raw(q)] == s[Region::Raw(q)]);
    assert forall|li: int| 0 <= li < m.layers@.len() implies #[trigger] settled(
        m,
        s,
        e,
        p,
        x,
        li,
    ) by {
        assert(settled(m, s, s1, p, x, li));
    }
}

} // verus!
