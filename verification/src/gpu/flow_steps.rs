//! Steps around the passes compute what they should: drafts, scores, and a grouped pass over experts.
use vstd::prelude::*;

use crate::gpu::ffn::{grouped_ops, FFN_IDS};
use crate::gpu::flow::{lemma_gemm, loose};
use crate::gpu::flow_draft::{draft_at, law_draft_step_computes, step_apart};
use crate::gpu::flow_layers::lemma_logits;
use crate::gpu::machine::{
    args1, args2, args3, args5, args6, group_run, lemma_run_short, made, patched, read, run, Fun,
    Mem, Val,
};
use crate::gpu::meaning::{embedded, logits_of, normed, times};
use crate::gpu::model::GpuModel;
use crate::gpu::passes::DraftPenalty;
use crate::gpu::program::{
    at, get16, get32, put16, put32, temp, Call, Grouped, Op, Proj, Ptr, Region, Scratch, Table,
    WeightId,
};

verus! {

broadcast use {group_run, lemma_run_short};

/// Embedding leaves the embeddings of the uploaded tokens in buffer 0.
pub proof fn law_embed_computes(m: &GpuModel, s: Mem, n: int)
    ensures
        run(s, m.embed_batch_ops(n))[temp(0).region] == embedded(
            m,
            Val::Uploaded(Table::Tokens),
            n,
        ),
{
}

// ---- drafts ----

/// Rows of the head that drafts are chosen with.
pub open spec fn draft_rows(m: &GpuModel) -> int {
    if m.draft_head is Some {
        m.draft_ids@.len() as int
    } else {
        m.cfg.vocab_size as int
    }
}

/// Draft logits of a hidden state: the draft head where there is one, else the output head.
pub open spec fn draft_logits_of(m: &GpuModel, x: Val) -> Val {
    if m.draft_head is Some {
        times(WeightId::DraftHead, x, m.cfg.hidden_size as int, draft_rows(m), 1)
    } else {
        logits_of(m, x, 1)
    }
}

proof fn lemma_draft_logits(m: &GpuModel, s: Mem, hidden: Ptr, id: int)
    requires
        0 <= id <= usize::MAX,
        hidden.region != temp(id).region,
        hidden.region != Region::Scratch(Scratch::Dequant),
    ensures
        ({
            let e = run(s, m.draft_logits_ops(hidden, id));
            &&& e[temp(id).region] == draft_logits_of(m, read(s, hidden))
            &&& forall|r: Region|
                r != temp(id).region && r != Region::Scratch(Scratch::Dequant)
                    ==> #[trigger] e[r] == s[r]
        }),
{
    let (w, wid, vocab) = m.draft_head_of();
    let h = m.cfg.hidden_size as int;
    let s1 = run(s, seq![get16(id, vocab)]);
    assert(read(s1, hidden) == read(s, hidden));
    lemma_gemm(s1, w, wid, hidden, temp(id), h, vocab, 1);
}

/// A greedy draft is the likeliest row of the draft logits.
pub proof fn law_argmax_hidden_computes(m: &GpuModel, s: Mem, hidden: Ptr)
    requires
        hidden.region != temp(0).region,
        hidden.region != Region::Scratch(Scratch::Dequant),
    ensures
        run(s, m.argmax_hidden_ops(hidden))[Region::Scratch(Scratch::Tok)] == made(
            Fun::Likeliest { vocab: draft_rows(m) as i32, n: 1 },
            args1(draft_logits_of(m, read(s, hidden))),
        ),
{
    lemma_draft_logits(m, s, hidden, 0);
}

/// What the host reads for a list of drafts is the draft logits.
pub proof fn law_topk_hidden_computes(m: &GpuModel, s: Mem, hidden: Ptr)
    requires
        hidden.region != temp(0).region,
        hidden.region != Region::Scratch(Scratch::Dequant),
    ensures
        run(s, m.topk_hidden_ops(hidden).drop_last())[temp(0).region] == draft_logits_of(
            m,
            read(s, hidden),
        ),
        m.topk_hidden_ops(hidden).last() == put16(0, draft_rows(m)),
{
    lemma_draft_logits(m, s, hidden, 0);
    let pre = m.draft_logits_ops(hidden, 0) + seq![Op::Sync];
    assert(m.topk_hidden_ops(hidden).drop_last() =~= pre);
    assert(run(s, pre) == run(run(s, m.draft_logits_ops(hidden, 0)), seq![Op::Sync]));
}

/// Draft logits, penalized where a penalty is asked for.
pub open spec fn penalized_draft(
    m: &GpuModel,
    s: Mem,
    logits: Val,
    p: Option<DraftPenalty>,
) -> Val {
    match p {
        Some(q) => made(
            Fun::Penalized { vocab: draft_rows(m) as i32, n: 1 },
            args6(
                logits,
                s[Region::Raw(q.tokens_ptr)],
                s[Region::Raw(q.counts_ptr)],
                s[Region::Raw(q.rep_pen_ptr)],
                s[Region::Raw(q.presence_ptr)],
                s[Region::Raw(q.freq_ptr)],
            ),
        ),
        None => logits,
    }
}

/// Sampling a draft leaves its row in buffer 42, and in buffer 43, until that is given back, the probability
/// of the row under the very distribution it was drawn from.
pub proof fn law_sample_draft_computes(m: &GpuModel, s: Mem, p: Option<DraftPenalty>)
    ensures
        ({
            let ops = m.sample_draft_ops(p);
            let e = run(s, ops.drop_last());
            let up = |t: Table| Val::Uploaded(t);
            let a = args5(
                penalized_draft(m, s, draft_logits_of(m, s[temp(40).region]), p),
                up(Table::Temps),
                up(Table::TopK),
                up(Table::TopP),
                up(Table::Seeds),
            );
            let vocab = draft_rows(m) as i32;
            &&& ops.last() == put32(43, 1)
            &&& e[temp(42).region] == made(Fun::Sampled { vocab, n: 1 }, a)
            &&& e[temp(43).region] == made(Fun::SampledProb { vocab, n: 1 }, a)
            &&& forall|r: Region|
                !(r is Temp) && r != Region::Scratch(Scratch::Dequant) ==> #[trigger] e[r] == s[r]
            &&& e[temp(40).region] == s[temp(40).region]
        }),
{
    let vocab = m.draft_head_of().2;
    lemma_draft_logits(m, s, temp(40), 41);
    let s1 = run(s, m.draft_logits_ops(temp(40), 41));
    let s2 = run(s1, m.draft_penalty_ops(p));
    assert(s2[temp(41).region] == penalized_draft(
        m,
        s,
        draft_logits_of(m, s[temp(40).region]),
        p,
    ));
    assert(forall|r: Region| r != temp(41).region ==> #[trigger] s2[r] == s1[r]);
    let mid = seq![
        Op::Alloc { id: 42, len: 1 },
        get32(43, 1),
        get32(44, 1),
        Op::Alloc { id: 45, len: 1 },
        get32(46, 1),
        Op::Alloc { id: 47, len: 1 },
        Op::Upload { table: Table::Temps, dst: temp(44) },
        Op::Upload { table: Table::TopK, dst: temp(45) },
        Op::Upload { table: Table::TopP, dst: temp(46) },
        Op::Upload { table: Table::Seeds, dst: temp(47) },
    ];
    let s3 = run(s2, mid);
    assert(s3[temp(41).region] == s2[temp(41).region]);
    assert(s3[temp(40).region] == s[temp(40).region]);
    let draw = Op::Launch(
        Call::SampleProb {
            out: temp(42),
            prob: temp(43),
            logits: temp(41),
            temps: temp(44),
            topk: temp(45),
            topp: temp(46),
            seeds: temp(47),
            vocab: vocab as i32,
            n: 1,
        },
    );
    let last = seq![Op::Sync, draw, put16(41, vocab), put32(44, 1), put32(46, 1), Op::Sync];
    let pre = m.draft_logits_ops(temp(40), 41) + m.draft_penalty_ops(p) + mid + last;
    assert(m.sample_draft_ops(p).drop_last() =~= pre);
    assert(run(s, pre) == run(s3, last));
}

/// A program in three legs, but for its last step.
proof fn lemma_legs(s: Mem, a: Seq<Op>, b: Seq<Op>, c: Seq<Op>)
    requires
        c.len() >= 1,
    ensures
        run(s, (a + b + c).drop_last()) == run(run(run(s, a), b), c.drop_last()),
        (a + b + c).last() == c.last(),
{
    assert((a + b + c).drop_last() =~= a + b + c.drop_last());
}

/// Sampling a draft after a step that left memory `s1`.
proof fn lemma_draw(
    m: &GpuModel,
    s: Mem,
    s1: Mem,
    kc: Region,
    vc: Region,
    p: Option<DraftPenalty>,
)
    requires
        !(kc is Temp) && !(kc is Scratch),
        !(vc is Temp) && !(vc is Scratch),
        forall|q: u64| #[trigger] s1[Region::Raw(q)] == s[Region::Raw(q)],
    ensures
        ({
            let rd = m.cfg.rotary_dim as int;
            let c = m.sample_draft_ops(p);
            let e = run(run(s1, seq![put32(0, rd), put32(1, rd)]), c.drop_last());
            let up = |t: Table| Val::Uploaded(t);
            &&& c.len() >= 1
            &&& e[temp(40).region] == s1[temp(40).region]
            &&& e[temp(42).region] == made(
                Fun::Sampled { vocab: draft_rows(m) as i32, n: 1 },
                args5(
                    penalized_draft(m, s, draft_logits_of(m, s1[temp(40).region]), p),
                    up(Table::Temps),
                    up(Table::TopK),
                    up(Table::TopP),
                    up(Table::Seeds),
                ),
            )
            &&& e[kc] == s1[kc]
            &&& e[vc] == s1[vc]
        }),
{
    let rd = m.cfg.rotary_dim as int;
    let s2 = run(s1, seq![put32(0, rd), put32(1, rd)]);
    assert(forall|r: Region|
        r != temp(0).region && r != temp(1).region ==> #[trigger] s2[r] == s1[r]);
    law_sample_draft_computes(m, s2, p);
    assert(s2[temp(40).region] == s1[temp(40).region]);
    assert(penalized_draft(m, s2, draft_logits_of(m, s1[temp(40).region]), p) == penalized_draft(
        m,
        s,
        draft_logits_of(m, s1[temp(40).region]),
        p,
    ));
}

/// A draft step that samples: the head's next hidden state is buffer 40, and the draft in buffer 42 is drawn
/// from the logits of that very state.
pub proof fn law_sampled_draft_step_computes(
    m: &GpuModel,
    s: Mem,
    hidden: Ptr,
    pos: usize,
    kc: Ptr,
    vc: Ptr,
    kv_stride: usize,
    p: Option<DraftPenalty>,
)
    requires
        m.draft_step_ok(hidden, pos, kc, vc, kv_stride),
        step_apart(hidden, kc, vc),
        !(kc.region is Raw),
        !(vc.region is Raw),
        m.cfg.hidden_size >= 1,
    ensures
        ({
            let ops = m.sampled_draft_ops(hidden, pos, kc, vc, kv_stride, p);
            let e = run(s, ops.drop_last());
            let d = draft_at(m, s, hidden, kc, vc, kv_stride, 1, pos + 1);
            let up = |t: Table| Val::Uploaded(t);
            &&& e[temp(40).region] == d.hidden
            &&& e[temp(42).region] == made(
                Fun::Sampled { vocab: draft_rows(m) as i32, n: 1 },
                args5(
                    penalized_draft(m, s, draft_logits_of(m, d.hidden), p),
                    up(Table::Temps),
                    up(Table::TopK),
                    up(Table::TopP),
                    up(Table::Seeds),
                ),
            )
            &&& e[kc.region] == patched(s[kc.region], kc.offset, d.keys)
            &&& e[vc.region] == patched(s[vc.region], vc.offset, d.values)
        }),
{
    let rd = m.cfg.rotary_dim as int;
    law_draft_step_computes(m, s, hidden, pos, kc, vc, kv_stride);
    let a = m.draft_pass_ops(hidden, pos, kc, vc, kv_stride);
    let b = seq![put32(0, rd), put32(1, rd)];
    let c = m.sample_draft_ops(p);
    let s1 = run(s, a);
    lemma_legs(s, a, b, c);
    lemma_draw(m, s, s1, kc.region, vc.region, p);
}

/// A greedy draft step leaves what its pass leaves.
pub proof fn law_plain_draft_step_computes(
    m: &GpuModel,
    s: Mem,
    hidden: Ptr,
    pos: usize,
    kc: Ptr,
    vc: Ptr,
    kv_stride: usize,
)
    requires
        m.draft_step_ok(hidden, pos, kc, vc, kv_stride),
        step_apart(hidden, kc, vc),
        m.cfg.hidden_size >= 1,
    ensures
        ({
            let e = run(s, m.draft_step_ops(hidden, pos, kc, vc, kv_stride));
            let d = draft_at(m, s, hidden, kc, vc, kv_stride, 1, pos + 1);
            &&& e[temp(40).region] == d.hidden
            &&& e[kc.region] == patched(s[kc.region], kc.offset, d.keys)
            &&& e[vc.region] == patched(s[vc.region], vc.offset, d.values)
        }),
{
    law_draft_step_computes(m, s, hidden, pos, kc, vc, kv_stride);
}

// ---- scoring a window ----

/// The logits of a window: its columns, normed, through the output head.
pub open spec fn window_logits_of(m: &GpuModel, s: Mem, n: int) -> Val {
    logits_of(m, normed(m, s[temp(1).region], s[Region::FinalNorm], n), n)
}

proof fn lemma_window(m: &GpuModel, s: Mem, n: usize)
    ensures
        run(s, m.window_logits_ops(n as int))[temp(2).region] == window_logits_of(m, s, n as int),
{
    let h = m.cfg.hidden_size as int;
    let norm = m.norm_op(0, 1, at(Region::FinalNorm), n);
    let s1 = run(s, seq![get16(0, h * n), norm, put16(1, h * n)]);
    assert(s1[temp(0).region] == normed(m, s[temp(1).region], s[Region::FinalNorm], n as int));
    lemma_logits(m, s1, temp(0), n as int, 2);
}

/// The scores of a window are those of the uploaded targets, `n - 1` of them, under the window's logits.
pub proof fn law_window_nll_computes(m: &GpuModel, s: Mem, n: usize)
    requires
        n >= 2,
    ensures
        run(s, m.nll_ops(n).drop_last())[temp(4).region] == made(
            Fun::Nll { vocab: m.cfg.vocab_size as i32, n: (n - 1) as i32 },
            args2(window_logits_of(m, s, n as int), Val::Uploaded(Table::Targets)),
        ),
        m.nll_ops(n).last() == put32(4, n - 1),
{
    lemma_window(m, s, n);
    let score = Op::Launch(
        Call::Nll {
            out: temp(4),
            logits: temp(2),
            targets: temp(3),
            vocab: m.cfg.vocab_size as i32,
            n: (n - 1) as i32,
        },
    );
    let last = seq![
        Op::Alloc { id: 3, len: (n - 1) as usize },
        Op::Upload { table: Table::Targets, dst: temp(3) },
        get32(4, n - 1),
        Op::Sync,
        score,
        put16(2, m.cfg.vocab_size * n),
        Op::Sync,
    ];
    let pre = m.window_logits_ops(n as int) + last;
    assert(m.nll_ops(n).drop_last() =~= pre);
    assert(run(s, pre) == run(run(s, m.window_logits_ops(n as int)), last));
}

/// The greedy tokens of a window are the likeliest under its logits.
pub proof fn law_window_argmax_computes(m: &GpuModel, s: Mem, n: usize)
    ensures
        run(s, m.window_argmax_ops(n))[temp(3).region] == made(
            Fun::Likeliest { vocab: m.cfg.vocab_size as i32, n: n as i32 },
            args1(window_logits_of(m, s, n as int)),
        ),
{
    lemma_window(m, s, n);
}

// ---- a grouped pass over experts ----

/// The experts' weighted sum, column groups of sixteen in expert order.
///
/// The columns are sorted by expert; every group goes through its expert's gated product; a column's sum
/// takes its parts back from where they were sorted to.
pub open spec fn grouped_sum(
    g: Grouped,
    x: Val,
    ids: Val,
    wts: Val,
    starts: Val,
    cursors: Val,
    rows: int,
) -> Val {
    let (h, mi, k) = (g.h as i32, g.mi as i32, g.k as i32);
    let (lo, hi) = (g.e_base, (g.e_base + g.e_span) as i32);
    let pairs = (g.batch * g.k) as i32;
    let groups = (rows / 16) as i32;
    let sorted = args3(cursors, ids, wts);
    let experts = made(Fun::GroupExperts { ne: g.ne as i32 }, args1(starts));
    let cols = made(
        Fun::SortedColumns { h, rows: rows as i32 },
        args2(x, made(Fun::SortedTokens { pairs, k, lo, hi }, sorted)),
    );
    let up = made(
        Fun::GroupProduct {
            w: WeightId::Of(g.block, Proj::ExpertGateUp),
            outn: (2 * g.mi) as i32,
            inn: h,
            e_base: lo,
            groups,
        },
        args2(cols, experts),
    );
    let down = made(
        Fun::GroupProduct {
            w: WeightId::Of(g.block, Proj::ExpertDown),
            outn: h,
            inn: mi,
            e_base: lo,
            groups,
        },
        args2(made(Fun::ExpertSilu { mi, rows: rows as i32 }, args1(up)), experts),
    );
    made(
        Fun::CombinedGroups { h, k, n: g.batch as i32 },
        args3(
            down,
            made(Fun::SortedWeights { pairs, k, lo, hi }, sorted),
            made(Fun::SortedPlaces { pairs, k, lo, hi }, sorted),
        ),
    )
}

/// A grouped pass leaves the experts' weighted sum in its result, and changes nothing else but its buffers.
#[verifier::rlimit(40)]
pub proof fn law_grouped_computes(s: Mem, g: Grouped, rows: int)
    requires
        g.first + FFN_IDS <= usize::MAX,
        !loose(g.x.region, g.first + 7, g.first + 15),
        !loose(g.out.region, g.first + 7, g.first + 15),
        g.ids.region matches Region::Temp(i) ==> !(g.first + 7 <= i < g.first + 15),
        g.wts.region matches Region::Temp(i) ==> !(g.first + 7 <= i < g.first + 15),
        !(g.out.region is Null),
        g.out.offset == 0,
    ensures
        ({
            let e = run(s, grouped_ops(g, rows));
            let t = g.first as int;
            &&& e[g.out.region] == grouped_sum(
                g,
                read(s, g.x),
                read(s, g.ids),
                read(s, g.wts),
                s[temp(t + 5).region],
                s[temp(t + 6).region],
                rows,
            )
            &&& forall|r: Region|
                r != g.out.region && !(r matches Region::Temp(i) && t + 7 <= i < t + 15)
                    ==> #[trigger] e[r] == s[r]
        }),
{
    let ops = grouped_ops(g, rows);
    let t = g.first as int;
    let a = ops.subrange(0, 7);
    let b = ops.subrange(7, 16);
    let c = ops.subrange(16, 20);
    assert(ops =~= a + b + c);
    let s1 = run(s, a);
    assert(a.len() == 7 && a[0] == ops[0] && a[1] == ops[1] && a[2] == ops[2] && a[3] == ops[3]
        && a[4] == ops[4] && a[5] == ops[5] && a[6] == ops[6]);
    let sorted = args3(s[temp(t + 6).region], read(s, g.ids), read(s, g.wts));
    let (k, lo, hi) = (g.k as i32, g.e_base, (g.e_base + g.e_span) as i32);
    let pairs = (g.batch * g.k) as i32;
    assert(s1[temp(t + 7).region] == made(Fun::SortedTokens { pairs, k, lo, hi }, sorted));
    assert(s1[temp(t + 8).region] == made(Fun::SortedWeights { pairs, k, lo, hi }, sorted));
    assert(s1[temp(t + 9).region] == made(Fun::SortedPlaces { pairs, k, lo, hi }, sorted));
    assert(s1[temp(t + 10).region] == made(
        Fun::GroupExperts { ne: g.ne as i32 },
        args1(s[temp(t + 5).region]),
    ));
    assert(read(s1, g.x) == read(s, g.x));
    let s2 = run(s1, b);
    assert(b.len() == 9 && b[0] == ops[7] && b[1] == ops[8] && b[2] == ops[9] && b[3] == ops[10]
        && b[4] == ops[11] && b[5] == ops[12] && b[6] == ops[13] && b[7] == ops[14] && b[8]
        == ops[15]);
    assert(s2[g.out.region] == grouped_sum(
        g,
        read(s, g.x),
        read(s, g.ids),
        read(s, g.wts),
        s[temp(t + 5).region],
        s[temp(t + 6).region],
        rows,
    ));
    let e = run(s2, c);
    assert(c.len() == 4 && c[0] == ops[16] && c[1] == ops[17] && c[2] == ops[18] && c[3]
        == ops[19]);
    assert(run(s, ops) == e);
}

} // verus!
