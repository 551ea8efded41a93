//! Whole passes compute the model: a decode step, a prompt prefill, a verify.
use vstd::prelude::*;

use crate::gpu::flow::loose;
use crate::gpu::flow_layers::{
    columns, frame_apart, law_layers_compute, lemma_logits, lemma_mixed_ext, owned_below, reached,
    remembers, settled,
};
use crate::gpu::forward::{Frame, Pass};
use crate::gpu::gemm::shifted;
use crate::gpu::machine::{
    args1, args5, args6, args7, exec, group_run, lemma_run_short, made, part, run, Fun, Mem, Val,
};
use crate::gpu::meaning::{
    cosines, embedded, layer, logits_of, normed, sines, summit, trunk, vector, Columns, Way,
};
use crate::gpu::model::GpuModel;
use crate::gpu::passes::VerifyPenalty;
use crate::gpu::program::{
    at, get16, get32, put16, put32, temp, Block, BlockVec, Call, DecodeBuf, Op, Region, Scratch,
    Table,
};
use crate::gpu::steps::{visible, HostStep};

verus! {

broadcast use {group_run, lemma_run_short};

/// The trunk looks at the vectors and at what the layers remember.
proof fn lemma_trunk_ext(m: &GpuModel, a: Mem, b: Mem, p: Columns, x: Val, k: nat)
    requires
        forall|r: Region| r is Vector || remembers(r) ==> #[trigger] b[r] == a[r],
    ensures
        trunk(m, b, p, x, k) == trunk(m, a, p, x, k),
    decreases k,
{
    if k > 0 {
        reveal(layer);
        lemma_trunk_ext(m, a, b, p, x, (k - 1) as nat);
        let y = trunk(m, a, p, x, (k - 1) as nat);
        let blk = Block::Layer((k - 1) as usize);
        assert(vector(b, blk, BlockVec::InputNorm) == vector(a, blk, BlockVec::InputNorm));
        assert(vector(b, blk, BlockVec::PostNorm) == vector(a, blk, BlockVec::PostNorm));
        lemma_mixed_ext(
            m,
            a,
            b,
            p,
            k - 1,
            normed(m, y, vector(a, blk, BlockVec::InputNorm), p.n),
        );
    }
}

/// What every layer remembers, too.
proof fn lemma_settled_ext(m: &GpuModel, a: Mem, b: Mem, e: Mem, p: Columns, x: Val, li: int)
    requires
        forall|r: Region| r is Vector || remembers(r) ==> #[trigger] b[r] == a[r],
        0 <= li,
    ensures
        settled(m, b, e, p, x, li) == settled(m, a, e, p, x, li),
{
    lemma_trunk_ext(m, a, b, p, x, li as nat);
    let y = trunk(m, a, p, x, li as nat);
    let blk = Block::Layer(li as usize);
    assert(vector(b, blk, BlockVec::InputNorm) == vector(a, blk, BlockVec::InputNorm));
    lemma_mixed_ext(m, a, b, p, li, normed(m, y, vector(a, blk, BlockVec::InputNorm), p.n));
}

/// Every layer remembers in `e` what it should after columns `x` ran through the model from `s` on.
pub open spec fn all_settled(m: &GpuModel, s: Mem, e: Mem, p: Columns, x: Val) -> bool {
    forall|li: int| 0 <= li < m.layers@.len() ==> #[trigger] settled(m, s, e, p, x, li)
}

/// Memory that a pass owns for its duration: buffers, and scratch of the moment.
pub open spec fn passing(r: Region) -> bool {
    r is Temp || loose(r, 0, 0)
}

// ---- decode ----

/// The columns of a decode step: every lane's column stands at its lane's position, and is turned by the
/// angle of that same position.
pub open spec fn decode_columns(
    m: &GpuModel,
    s: Mem,
    kv_stride: usize,
    max_pc: usize,
    n: usize,
) -> Columns {
    let pos = s[Region::Decode(DecodeBuf::Pos)];
    Columns {
        way: Way::Step {
            pos,
            lanes: s[Region::Decode(DecodeBuf::SlotIds)],
            max_pc: max_pc as int,
        },
        cos: cosines(m, s, pos, n as int),
        sin: sines(m, s, pos, n as int),
        stride: kv_stride as int,
        n: n as int,
        segs: Seq::empty(),
    }
}

/// The penalized logits of a decode step.
pub open spec fn decode_logits_of(
    m: &GpuModel,
    s: Mem,
    kv_stride: usize,
    max_pc: usize,
    n: usize,
) -> Val {
    let b = |x: DecodeBuf| s[Region::Decode(x)];
    let p = decode_columns(m, s, kv_stride, max_pc, n);
    let x = embedded(m, b(DecodeBuf::Tokens), n as int);
    made(
        Fun::Penalized { vocab: m.cfg.vocab_size as i32, n: n as i32 },
        args6(
            logits_of(m, summit(m, s, p, x), n as int),
            b(DecodeBuf::PenaltyTokens),
            b(DecodeBuf::PenaltyCounts),
            b(DecodeBuf::RepPen),
            b(DecodeBuf::Presence),
            b(DecodeBuf::Frequency),
        ),
    )
}

/// The trunk of a decode step leaves the normed columns after all layers in its result buffer.
pub proof fn law_trunk_computes(m: &GpuModel, s: Mem, f: Frame, out: int)
    requires
        m.frame_ok(f),
        frame_apart(f),
        m.layers@.len() >= 1,
        m.layers@.len() <= usize::MAX,
        f.n >= 1,
        m.cfg.hidden_size >= 1,
        0 <= out < f.first,
        out != f.residual,
        out != f.normed,
    ensures
        ({
            let e = run(s, m.trunk_ops(f, out));
            let p = columns(m, s, f, Seq::empty());
            let x = s[temp(f.residual as int).region];
            &&& e[temp(m.trunk_out(f, out)).region] == summit(m, s, p, x)
            &&& all_settled(m, s, e, p, x)
            &&& forall|r: Region|
                !passing(r) && !owned_below(
                    m,
                    r,
                    m.layers@.len() as int,
                ) ==> #[trigger] e[r] == s[r]
        }),
{
    let hn = m.cfg.hidden_size * f.n;
    let fuse = m.knobs.fuse_residual;
    let none = Seq::<(usize, usize)>::empty();
    let x = s[temp(f.residual as int).region];
    let k = m.layers@.len() as int;
    let p = columns(m, s, f, none);
    let first = m.norm_op(
        f.normed as int,
        f.residual as int,
        at(Region::Vector(Block::Layer(0), BlockVec::InputNorm)),
        f.n,
    );
    let pre = if fuse {
        seq![get16(f.normed as int, hn), first]
    } else {
        seq![get16(f.normed as int, hn)]
    };
    let s1 = run(s, pre);
    assert(forall|r: Region| r != temp(f.normed as int).region ==> #[trigger] s1[r] == s[r]);
    assert(columns(m, s1, f, none) == p);
    law_layers_compute(m, s1, f, none, fuse);
    let s2 = run(s1, m.layers_ops(f, none, fuse));
    assert(reached(m, s1, s2, f, none, fuse, x, k));
    lemma_trunk_ext(m, s, s1, p, x, k as nat);
    let y = trunk(m, s, p, x, k as nat);
    assert(s2[temp(f.residual as int).region] == y);
    let post = if fuse {
        Seq::<Op>::empty()
    } else {
        seq![
            get16(out, hn),
            m.norm_op(out, f.residual as int, at(Region::FinalNorm), f.n),
            put16(f.normed as int, hn),
        ]
    };
    let s3 = run(s2, post);
    assert(s2[Region::FinalNorm] == s[Region::FinalNorm]);
    assert(s3[temp(m.trunk_out(f, out)).region] == summit(m, s, p, x));
    let e = run(s3, seq![put16(f.residual as int, hn)]);
    assert(run(s, m.trunk_ops(f, out)) == e);
    assert(forall|r: Region| !(r is Temp) ==> #[trigger] e[r] == s2[r]);
    assert forall|li: int| 0 <= li < k implies #[trigger] settled(m, s, e, p, x, li) by {
        assert(settled(m, s1, s2, p, x, li));
        lemma_settled_ext(m, s, s1, s2, p, x, li);
    }
}

/// A decode step leaves the penalized logits of every lane in buffer 3, and every layer remembers its part.
/// The staging buffers stay, but for the angles.
pub proof fn law_decode_computes(m: &GpuModel, s: Mem, kv_stride: usize, max_pc: usize, n: usize)
    requires
        m.decode_ok(kv_stride, max_pc, n),
        m.layers@.len() <= usize::MAX,
        n >= 1,
        m.cfg.hidden_size >= 1,
    ensures
        ({
            let e = run(s, m.decode_ops(kv_stride, max_pc, n));
            let p = decode_columns(m, s, kv_stride, max_pc, n);
            let x = embedded(m, s[Region::Decode(DecodeBuf::Tokens)], n as int);
            &&& e[temp(3).region] == decode_logits_of(m, s, kv_stride, max_pc, n)
            &&& all_settled(m, s, e, p, x)
            &&& forall|r: Region|
                !passing(r) && !owned_below(m, r, m.layers@.len() as int) && r != Region::Decode(
                    DecodeBuf::Cos,
                ) && r != Region::Decode(DecodeBuf::Sin) ==> #[trigger] e[r] == s[r]
        }),
{
    let f = m.decode_frame(kv_stride, max_pc, n);
    let b = |x: DecodeBuf| at(Region::Decode(x));
    let hn = m.cfg.hidden_size * n;
    let p = decode_columns(m, s, kv_stride, max_pc, n);
    let x = embedded(m, s[Region::Decode(DecodeBuf::Tokens)], n as int);
    let k = m.layers@.len() as int;
    let out = m.trunk_out(f, 2);
    let embed = m.embed_op(temp(0), b(DecodeBuf::Tokens), n as int);
    let turn = m.rope_op(b(DecodeBuf::Cos), b(DecodeBuf::Sin), b(DecodeBuf::Pos), n as int);
    let s1 = exec(exec(exec(s, get16(0, hn)), embed), turn);
    assert(run(s, seq![get16(0, hn), embed, turn]) == s1);
    assert(s1[temp(0).region] == x);
    assert(columns(m, s1, f, Seq::empty()) == p);
    assert(frame_apart(f));
    law_trunk_computes(m, s1, f, 2);
    let s2 = run(s1, m.trunk_ops(f, 2));
    lemma_trunk_ext(m, s, s1, p, x, k as nat);
    assert(s2[temp(out).region] == summit(m, s, p, x));
    lemma_logits(m, s2, temp(out), n as int, 3);
    let s3 = run(s2, m.logits_ops(temp(out), n as int, 3));
    let pen = Op::Launch(
        Call::RepPenalty {
            logits: temp(3),
            tokens: b(DecodeBuf::PenaltyTokens),
            counts: b(DecodeBuf::PenaltyCounts),
            rep: b(DecodeBuf::RepPen),
            presence: b(DecodeBuf::Presence),
            freq: b(DecodeBuf::Frequency),
            vocab: m.cfg.vocab_size as i32,
            n: n as i32,
        },
    );
    let e = exec(exec(s3, put16(out, hn)), pen);
    assert(run(s3, seq![put16(out, hn), pen]) == e);
    assert(run(s, m.decode_ops(kv_stride, max_pc, n)) == e);
    assert(forall|r: Region| !passing(r) ==> #[trigger] e[r] == s2[r]);
    assert forall|li: int| 0 <= li < k implies #[trigger] settled(m, s, e, p, x, li) by {
        assert(settled(m, s1, s2, p, x, li));
        lemma_settled_ext(m, s, s1, s2, p, x, li);
    }
}

/// A greedy decode step chooses the likeliest token of every lane.
pub proof fn law_greedy_decode_computes(
    m: &GpuModel,
    s: Mem,
    kv_stride: usize,
    max_pc: usize,
    n: usize,
)
    requires
        m.decode_ok(kv_stride, max_pc, n),
        m.layers@.len() <= usize::MAX,
        n >= 1,
        m.cfg.hidden_size >= 1,
    ensures
        ({
            let e = run(s, m.greedy_decode_ops(kv_stride, max_pc, n));
            let p = decode_columns(m, s, kv_stride, max_pc, n);
            let x = embedded(m, s[Region::Decode(DecodeBuf::Tokens)], n as int);
            &&& e[Region::Decode(DecodeBuf::TokenIds)] == made(
                Fun::Likeliest { vocab: m.cfg.vocab_size as i32, n: n as i32 },
                args1(decode_logits_of(m, s, kv_stride, max_pc, n)),
            )
            &&& all_settled(m, s, e, p, x)
        }),
{
    law_decode_computes(m, s, kv_stride, max_pc, n);
    let p = decode_columns(m, s, kv_stride, max_pc, n);
    let x = embedded(m, s[Region::Decode(DecodeBuf::Tokens)], n as int);
    let s1 = run(s, m.decode_ops(kv_stride, max_pc, n));
    let e = run(s, m.greedy_decode_ops(kv_stride, max_pc, n));
    assert(forall|r: Region| remembers(r) ==> #[trigger] e[r] == s1[r]);
    assert forall|li: int| 0 <= li < m.layers@.len() implies #[trigger] settled(
        m,
        s,
        e,
        p,
        x,
        li,
    ) by {
        assert(settled(m, s, s1, p, x, li));
    }
}

/// A sampling decode step draws a token for every lane.
pub proof fn law_sampled_decode_computes(
    m: &GpuModel,
    s: Mem,
    kv_stride: usize,
    max_pc: usize,
    n: usize,
)
    requires
        m.decode_ok(kv_stride, max_pc, n),
        m.layers@.len() <= usize::MAX,
        n >= 1,
        m.cfg.hidden_size >= 1,
    ensures
        ({
            let e = run(s, m.sampled_decode_ops(kv_stride, max_pc, n));
            let b = |x: DecodeBuf| s[Region::Decode(x)];
            let p = decode_columns(m, s, kv_stride, max_pc, n);
            let x = embedded(m, b(DecodeBuf::Tokens), n as int);
            &&& e[Region::Decode(DecodeBuf::TokenIds)] == made(
                Fun::Sampled { vocab: m.cfg.vocab_size as i32, n: n as i32 },
                args5(
                    decode_logits_of(m, s, kv_stride, max_pc, n),
                    b(DecodeBuf::Temps),
                    b(DecodeBuf::TopK),
                    b(DecodeBuf::TopP),
                    b(DecodeBuf::Seeds),
                ),
            )
            &&& all_settled(m, s, e, p, x)
        }),
{
    law_decode_computes(m, s, kv_stride, max_pc, n);
    let p = decode_columns(m, s, kv_stride, max_pc, n);
    let x = embedded(m, s[Region::Decode(DecodeBuf::Tokens)], n as int);
    let s1 = run(s, m.decode_ops(kv_stride, max_pc, n));
    let e = run(s, m.sampled_decode_ops(kv_stride, max_pc, n));
    assert(forall|r: Region| remembers(r) ==> #[trigger] e[r] == s1[r]);
    assert forall|li: int| 0 <= li < m.layers@.len() implies #[trigger] settled(
        m,
        s,
        e,
        p,
        x,
        li,
    ) by {
        assert(settled(m, s, s1, p, x, li));
    }
}

// ---- prefill ----

/// The columns of a prefill: a run of lane `slot` from `pos` on, every column turned by the angle of its
/// uploaded position.
pub open spec fn prefill_columns(
    m: &GpuModel,
    s: Mem,
    slot: usize,
    kv_stride: usize,
    pos: usize,
    n: usize,
) -> Columns {
    let at = Val::Uploaded(Table::Pos);
    Columns {
        way: Way::Prompt { slot: slot as int, pos: pos as int },
        cos: cosines(m, s, at, n as int),
        sin: sines(m, s, at, n as int),
        stride: kv_stride as int,
        n: n as int,
        segs: seq![(0usize, n)],
    }
}

/// The last of `n` columns: what follows the `n - 1` columns before it.
pub open spec fn last_column(m: &GpuModel, x: Val, n: int) -> Val {
    made(
        Fun::Bytes { bytes: (m.cfg.hidden_size * 2) as usize },
        args1(part(x, ((n - 1) * m.cfg.hidden_size * 2) as u64)),
    )
}

/// A prefill leaves the token that follows the last column of the prompt in buffer 7, the columns after all
/// layers in buffer 2, and every layer remembers its part.
pub proof fn law_prefill_computes(
    m: &GpuModel,
    s: Mem,
    slot: usize,
    kv_stride: usize,
    pos: usize,
    n: usize,
)
    requires
        m.run_ok(Pass::Prefill { slot, pos }, kv_stride, n),
        m.layers@.len() <= usize::MAX,
        m.cfg.hidden_size >= 1,
        (n - 1) * m.cfg.hidden_size * 2 <= u64::MAX,
    ensures
        ({
            let e = run(s, m.prefill_ops(slot, kv_stride, pos, n));
            let p = prefill_columns(m, s, slot, kv_stride, pos, n);
            let x = embedded(m, Val::Uploaded(Table::Tokens), n as int);
            let top = last_column(m, summit(m, s, p, x), n as int);
            &&& e[temp(7).region] == made(
                Fun::Likeliest { vocab: m.cfg.vocab_size as i32, n: 1 },
                args1(logits_of(m, top, 1)),
            )
            &&& e[temp(2).region] == trunk(m, s, p, x, m.layers@.len())
            &&& all_settled(m, s, e, p, x)
            &&& forall|r: Region|
                !passing(r) && !owned_below(
                    m,
                    r,
                    m.layers@.len() as int,
                ) ==> #[trigger] e[r] == s[r]
        }),
{
    let (h, v, rd) = (
        m.cfg.hidden_size as int,
        m.cfg.vocab_size as int,
        m.cfg.rotary_dim as int,
    );
    let f = m.run_frame(Pass::Prefill { slot, pos }, kv_stride, n);
    let segs = seq![(0usize, n)];
    let p = prefill_columns(m, s, slot, kv_stride, pos, n);
    let x = embedded(m, Val::Uploaded(Table::Tokens), n as int);
    let k = m.layers@.len() as int;
    let head = seq![
        Op::UploadNew { table: Table::Pos, id: 9 },
        get32(0, rd * n),
        get32(1, rd * n),
        Op::Sync,
        m.rope_op(temp(0), temp(1), temp(9), n as int),
        Op::UploadNew { table: Table::Tokens, id: 8 },
        Op::Alloc16 { id: 2, len: (h * n) as usize },
        m.embed_op(temp(2), temp(8), n as int),
        get16(3, h * n),
    ];
    let s1 = run(s, head);
    assert(s1[temp(2).region] == x);
    assert(forall|r: Region| !(r is Temp) ==> #[trigger] s1[r] == s[r]);
    assert(columns(m, s1, f, segs) == p);
    assert(frame_apart(f));
    law_layers_compute(m, s1, f, segs, false);
    let s2 = run(s1, m.layers_ops(f, segs, false));
    assert(reached(m, s1, s2, f, segs, false, x, k));
    lemma_trunk_ext(m, s, s1, p, x, k as nat);
    let y = trunk(m, s, p, x, k as nat);
    assert(s2[temp(2).region] == y);
    assert(s2[Region::FinalNorm] == s[Region::FinalNorm]);
    let norm = m.norm_op(4, 2, at(Region::FinalNorm), n);
    let copy = Op::Copy {
        dst: temp(5),
        src: shifted(temp(4), (n - 1) * h * 2),
        bytes: (h * 2) as usize,
    };
    let mid = seq![get16(4, h * n), norm, put16(3, h * n), get16(5, h), copy];
    let s3 = run(s2, mid);
    assert(s3 == exec(
        exec(exec(exec(exec(s2, get16(4, h * n)), norm), put16(3, h * n)), get16(5, h)),
        copy,
    ));
    let top = last_column(m, summit(m, s, p, x), n as int);
    assert(s3[temp(5).region] == top);
    assert(s3[temp(2).region] == y);
    lemma_logits(m, s3, temp(5), 1, 6);
    let s4 = run(s3, m.logits_ops(temp(5), 1, 6));
    let pick = Op::Launch(
        Call::Argmax { out: temp(7), logits: temp(6), vocab: v as i32, n: 1 },
    );
    let last = seq![
        Op::Alloc { id: 7, len: 1 },
        pick,
        put16(6, v),
        put16(5, h),
        put16(4, h * n),
        Op::Sync,
    ];
    let e = run(s4, last);
    assert(run(s, m.prefill_ops(slot, kv_stride, pos, n)) == e);
    assert(forall|r: Region| !passing(r) ==> #[trigger] e[r] == s2[r]);
    assert forall|li: int| 0 <= li < k implies #[trigger] settled(m, s, e, p, x, li) by {
        assert(settled(m, s1, s2, p, x, li));
        lemma_settled_ext(m, s, s1, s2, p, x, li);
    }
}

// ---- verify ----

/// The columns of a verify. A column's entry is kept at its uploaded position; it is turned by the angle of
/// its uploaded rotary position, which is also the position that bounds what it sees.
pub open spec fn verify_columns(
    m: &GpuModel,
    s: Mem,
    segs: Seq<(usize, usize)>,
    kv_stride: usize,
    pos: usize,
    ckpt: Option<usize>,
    forest: bool,
    n: usize,
) -> Columns {
    let logical = Val::Uploaded(Table::Rope);
    Columns {
        way: Way::Verify {
            pos: Val::Uploaded(Table::Pos),
            logical,
            lanes: Val::Uploaded(Table::SlotIds),
            path: Val::Uploaded(Table::Path),
            starts: if forest {
                Val::Uploaded(Table::ColPosStart)
            } else {
                Val::Absent
            },
            winsrc: Val::Uploaded(Table::WinSrc),
            parents: Val::Uploaded(Table::Parent),
            max_pc: pos + n,
            ckpt: match ckpt {
                Some(k) => Some(k as int),
                None => None,
            },
        },
        cos: cosines(m, s, logical, n as int),
        sin: sines(m, s, logical, n as int),
        stride: kv_stride as int,
        n: n as int,
        segs,
    }
}

/// A table that a verify uploads into scratch.
pub open spec fn verify_table(x: Scratch) -> bool {
    match x {
        Scratch::Pos
        | Scratch::Rope
        | Scratch::Slot
        | Scratch::PStart
        | Scratch::WinSrc
        | Scratch::Parent
        | Scratch::Path => true,
        _ => false,
    }
}

/// A verify leaves the logits of every column in buffer 6, the columns after all layers in buffer 2, and
/// every layer remembers its part.
#[verifier::rlimit(40)]
pub proof fn law_verify_computes(
    m: &GpuModel,
    s: Mem,
    segs: Seq<(usize, usize)>,
    kv_stride: usize,
    pos: usize,
    ckpt: Option<usize>,
    forest: bool,
    n: usize,
)
    requires
        m.run_ok(Pass::Verify { pos, ckpt, forest }, kv_stride, n),
        m.layers@.len() <= usize::MAX,
        m.cfg.hidden_size >= 1,
    ensures
        ({
            let e = run(s, m.verify_ops(segs, kv_stride, pos, ckpt, forest, n));
            let p = verify_columns(m, s, segs, kv_stride, pos, ckpt, forest, n);
            let x = embedded(m, Val::Uploaded(Table::Tokens), n as int);
            &&& e[temp(6).region] == logits_of(m, summit(m, s, p, x), n as int)
            &&& e[temp(2).region] == trunk(m, s, p, x, m.layers@.len())
            &&& all_settled(m, s, e, p, x)
            &&& forall|r: Region|
                !passing(r) && !owned_below(m, r, m.layers@.len() as int) && !(
                r matches Region::Scratch(x) && verify_table(x)) ==> #[trigger] e[r] == s[r]
        }),
{
    let (h, rd) = (m.cfg.hidden_size as int, m.cfg.rotary_dim as int);
    let f = m.run_frame(Pass::Verify { pos, ckpt, forest }, kv_stride, n);
    let at_scratch = |x: Scratch| at(Region::Scratch(x));
    let p = verify_columns(m, s, segs, kv_stride, pos, ckpt, forest, n);
    let x = embedded(m, Val::Uploaded(Table::Tokens), n as int);
    let k = m.layers@.len() as int;
    let a1 = seq![
        Op::Upload { table: Table::Pos, dst: at_scratch(Scratch::Pos) },
        Op::Upload { table: Table::Rope, dst: at_scratch(Scratch::Rope) },
        Op::Upload { table: Table::SlotIds, dst: at_scratch(Scratch::Slot) },
    ];
    let a2 = if forest {
        seq![Op::Upload { table: Table::ColPosStart, dst: at_scratch(Scratch::PStart) }]
    } else {
        Seq::<Op>::empty()
    };
    let a3 = seq![
        Op::Sync,
        Op::Upload { table: Table::WinSrc, dst: at_scratch(Scratch::WinSrc) },
        Op::Upload { table: Table::Parent, dst: at_scratch(Scratch::Parent) },
        Op::Upload { table: Table::Path, dst: at_scratch(Scratch::Path) },
        get32(0, rd * n),
        get32(1, rd * n),
        m.rope_op(temp(0), temp(1), at_scratch(Scratch::Rope), n as int),
        Op::UploadNew { table: Table::Tokens, id: 8 },
        Op::Alloc16 { id: 2, len: (h * n) as usize },
        m.embed_op(temp(2), temp(8), n as int),
        get16(3, h * n),
    ];
    let b1 = run(s, a1);
    let b2 = run(b1, a2);
    let s1 = run(b2, a3);
    assert(s1[temp(2).region] == x);
    assert(forall|r: Region|
        !(r is Temp) && !(r matches Region::Scratch(x) && verify_table(x)) ==> #[trigger] s1[r]
            == s[r]);
    assert(columns(m, s1, f, segs) == p);
    assert(frame_apart(f));
    law_layers_compute(m, s1, f, segs, false);
    let s2 = run(s1, m.layers_ops(f, segs, false));
    assert(reached(m, s1, s2, f, segs, false, x, k));
    lemma_trunk_ext(m, s, s1, p, x, k as nat);
    let y = trunk(m, s, p, x, k as nat);
    assert(s2[temp(2).region] == y);
    assert(s2[Region::FinalNorm] == s[Region::FinalNorm]);
    let norm = m.norm_op(4, 2, at(Region::FinalNorm), n);
    let mid = seq![
        get16(4, h * n),
        norm,
        put16(3, h * n),
        put32(0, rd * n),
        put32(1, rd * n),
    ];
    let s3 = run(s2, mid);
    assert(s3[temp(4).region] == summit(m, s, p, x));
    assert(s3[temp(2).region] == y);
    lemma_logits(m, s3, temp(4), n as int, 6);
    let s4 = run(s3, m.logits_ops(temp(4), n as int, 6));
    let e = run(s4, seq![put16(4, h * n)]);
    assert(run(s, m.verify_ops(segs, kv_stride, pos, ckpt, forest, n)) == e);
    assert(forall|r: Region| !passing(r) ==> #[trigger] e[r] == s2[r]);
    assert forall|li: int| 0 <= li < k implies #[trigger] settled(m, s, e, p, x, li) by {
        assert(settled(m, s1, s2, p, x, li));
        lemma_settled_ext(m, s, s1, s2, p, x, li);
    }
}

/// Logits of verify columns, penalized where a penalty is asked for.
pub open spec fn penalized(
    m: &GpuModel,
    s: Mem,
    logits: Val,
    penalty: Option<VerifyPenalty>,
    n: int,
) -> Val {
    match penalty {
        Some(q) => made(
            Fun::Penalized { vocab: m.cfg.vocab_size as i32, n: n as i32 },
            args6(
                logits,
                s[Region::Raw(q.tokens_ptr)],
                s[Region::Raw(q.counts_ptr)],
                s[Region::Raw(q.rep_pen_ptr)],
                s[Region::Raw(q.presence_ptr)],
                s[Region::Raw(q.freq_ptr)],
            ),
        ),
        None => logits,
    }
}

/// After a greedy verify scratch holds the likeliest token that follows every column.
pub proof fn law_greedy_tail_computes(
    m: &GpuModel,
    s: Mem,
    penalty: Option<VerifyPenalty>,
    n: int,
)
    ensures
        ({
            let e = run(s, m.greedy_tail_ops(penalty, n));
            &&& e[Region::Scratch(Scratch::Tok)] == made(
                Fun::Likeliest { vocab: m.cfg.vocab_size as i32, n: n as i32 },
                args1(penalized(m, s, s[temp(6).region], penalty, n)),
            )
            &&& forall|r: Region|
                r != temp(6).region && r != Region::Scratch(
                    Scratch::Tok,
                ) ==> #[trigger] e[r] == s[r]
        }),
{
    let s1 = run(s, m.penalty_ops(penalty, n));
    assert(s1[temp(6).region] == penalized(m, s, s[temp(6).region], penalty, n));
    assert(forall|r: Region| r != temp(6).region ==> #[trigger] s1[r] == s[r]);
}

/// After a sampling verify scratch holds, for every column, the probability with which its draft is taken,
/// and the token that replaces it.
///
/// The drafts come first in the staged integers, then top-k; temperatures come first in the staged numbers,
/// then top-p, then the drafts' own probabilities.
pub proof fn law_sample_tail_computes(
    m: &GpuModel,
    s: Mem,
    penalty: Option<VerifyPenalty>,
    n: int,
)
    ensures
        ({
            let e = run(s, m.sample_tail_ops(penalty, n));
            let ints = Val::Uploaded(Table::SampleI32);
            let nums = Val::Uploaded(Table::SampleF32);
            let a = args7(
                penalized(m, s, s[temp(6).region], penalty, n),
                ints,
                part(nums, 128),
                nums,
                part(ints, 64),
                part(nums, 64),
                Val::Uploaded(Table::Seeds),
            );
            let (vocab, n) = (m.cfg.vocab_size as i32, n as i32);
            &&& e[Region::Scratch(Scratch::SampleProb)] == made(Fun::AcceptProb { vocab, n }, a)
            &&& e[Region::Scratch(Scratch::SampleResid)] == made(Fun::Replacement { vocab, n }, a)
            &&& forall|r: Region|
                !(r is Temp) && !(r is Scratch) ==> #[trigger] e[r] == s[r]
        }),
{
    let s1 = run(s, m.penalty_ops(penalty, n));
    assert(s1[temp(6).region] == penalized(m, s, s[temp(6).region], penalty, n));
    assert(forall|r: Region| r != temp(6).region ==> #[trigger] s1[r] == s[r]);
}

// ---- a step with host positions ----

/// The columns of a step with host positions: every column at its uploaded position of its uploaded lane,
/// turned by the angle of that same position.
pub open spec fn host_columns(m: &GpuModel, s: Mem, pos: Seq<usize>, kv_stride: usize) -> Columns {
    let at = Val::Uploaded(Table::Pos);
    let n = pos.len() as int;
    Columns {
        way: Way::Step { pos: at, lanes: Val::Uploaded(Table::SlotIds), max_pc: visible(pos) },
        cos: cosines(m, s, at, n),
        sin: sines(m, s, at, n),
        stride: kv_stride as int,
        n,
        segs: Seq::empty(),
    }
}

/// The bound on the visible keys of a batch fits.
proof fn lemma_visible(pos: Seq<usize>)
    requires
        forall|i: int| 0 <= i < pos.len() ==> #[trigger] pos[i] < i32::MAX,
    ensures
        1 <= visible(pos) <= i32::MAX,
    decreases pos.len(),
{
    if pos.len() > 0 {
        let q = pos.drop_last();
        assert forall|i: int| 0 <= i < q.len() implies #[trigger] q[i] < i32::MAX by {
            assert(q[i] == pos[i]);
        }
        lemma_visible(q);
        assert(pos[pos.len() - 1] < i32::MAX);
    }
}

/// A step with host positions leaves the normed columns after all layers in its result buffer; every lane's
/// column stands where its position says.
pub proof fn law_host_step_computes(
    m: &GpuModel,
    s: Mem,
    pos: Seq<usize>,
    slot: usize,
    kv_stride: usize,
    r: HostStep,
)
    requires
        m.host_step_ok(pos, slot, kv_stride),
        m.is_host_step(pos, slot, kv_stride, r),
        m.layers@.len() <= usize::MAX,
        pos.len() >= 1,
        m.cfg.hidden_size >= 1,
    ensures
        ({
            let e = run(s, r.ops@);
            let p = host_columns(m, s, pos, kv_stride);
            let x = s[temp(0).region];
            &&& e[temp(r.out as int).region] == summit(m, s, p, x)
            &&& all_settled(m, s, e, p, x)
            &&& r.pos@.len() == pos.len()
            &&& r.slots@.len() == pos.len()
            &&& forall|i: int|
                #![trigger r.pos@[i]]
                0 <= i < pos.len() ==> r.pos@[i] == pos[i] && r.slots@[i] == slot + i
            &&& forall|r: Region|
                !passing(r) && !owned_below(
                    m,
                    r,
                    m.layers@.len() as int,
                ) ==> #[trigger] e[r] == s[r]
        }),
{
    let n = pos.len() as int;
    let rd = m.cfg.rotary_dim as int;
    let f = m.host_frame(visible(pos), kv_stride, n);
    let p = host_columns(m, s, pos, kv_stride);
    let x = s[temp(0).region];
    let k = m.layers@.len() as int;
    lemma_visible(pos);
    let head = seq![
        Op::UploadNew { table: Table::Pos, id: 5 },
        Op::UploadNew { table: Table::SlotIds, id: 6 },
        get32(3, rd * n),
        get32(4, rd * n),
        Op::Sync,
        m.rope_op(temp(3), temp(4), temp(5), n),
    ];
    let s1 = run(s, head);
    assert(s1[temp(0).region] == x);
    assert(columns(m, s1, f, Seq::empty()) == p);
    assert(frame_apart(f));
    law_trunk_computes(m, s1, f, 2);
    let s2 = run(s1, m.trunk_ops(f, 2));
    lemma_trunk_ext(m, s, s1, p, x, k as nat);
    assert(s2[temp(m.trunk_out(f, 2)).region] == summit(m, s, p, x));
    let e = run(s2, seq![Op::Sync, put32(3, rd * n), put32(4, rd * n)]);
    assert(run(s, r.ops@) == e);
    assert(forall|q: Region| !passing(q) ==> #[trigger] e[q] == s2[q]);
    assert forall|li: int| 0 <= li < k implies #[trigger] settled(m, s, e, p, x, li) by {
        assert(settled(m, s1, s2, p, x, li));
        lemma_settled_ext(m, s, s1, s2, p, x, li);
    }
    assert forall|i: int|
        #![trigger r.pos@[i]]
        0 <= i < pos.len() implies r.pos@[i] == pos[i] && r.slots@[i] == slot + i by {
        assert(pos[i] < i32::MAX);
    }
}

} // verus!
