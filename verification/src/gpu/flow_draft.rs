//! The draft head computes the model: one pass of it, a draft step, a re-prime and a priming pass.
use vstd::prelude::*;

use crate::gpu::drafter::MtpCall;
use crate::gpu::flow::{apart, kept, kept_but, law_attention_computes, lemma_gemm, loose, meeting};
use crate::gpu::flow_blocks::law_ffn_computes;
use crate::gpu::gemm::{gemm_ops, shifted};
use crate::gpu::machine::{
    args1, args2, exec, group_run, lemma_run_short, made, part, patched, read, run, Fun, Mem, Val,
};
use crate::gpu::meaning::{
    added, attention, cosines, drafted, embedded, fed, normed, sines, times, vector, Drafted, Meeting,
};
use crate::gpu::model::GpuModel;
use crate::gpu::program::{
    at, get16, get32, put16, put32, temp, Block, BlockVec, Call, Op, Proj, Ptr, Region, Scratch, Table,
    WeightId,
};

verus! {

broadcast use {group_run, lemma_run_short};

/// Memory in which the draft head may keep its cache.
pub open spec fn cache_like(r: Region) -> bool {
    !(r is Temp) && !(r is Scratch) && !(r is Null) && !(r is Vector) && !(r is TpContext) && !(r
        is CosTable) && !(r is SinTable)
}

/// What a draft-head pass reads lies outside what it changes.
pub open spec fn draft_apart(c: MtpCall) -> bool {
    let (lo, hi) = (c.first as int, c.first + 40);
    let free = |p: Ptr|
        !loose(p.region, lo, hi) && p.region != c.kc.region && p.region != c.vc.region;
    &&& free(c.hidden)
    &&& free(c.tokens)
    &&& free(c.pos)
    &&& free(c.cos)
    &&& free(c.sin)
    &&& cache_like(c.kc.region)
    &&& cache_like(c.vc.region)
    &&& c.kc.region != c.vc.region
}

/// How a draft-head pass meets its cache: a run from a position on, or every column at its own position.
pub open spec fn draft_meeting(s: Mem, c: MtpCall) -> Meeting {
    match c.run {
        Some(p) => Meeting::Run { pos: p as int },
        None => Meeting::Columns {
            pos: read(s, c.pos),
            logical: read(s, c.pos),
            lanes: s[Region::Scratch(Scratch::MtpSlots)],
            path: Val::Absent,
            starts: Val::Absent,
            max_pc: c.max_pc as int,
        },
    }
}

/// What the draft head gives on the arguments of a pass.
pub open spec fn draft_of(m: &GpuModel, s: Mem, c: MtpCall) -> Drafted {
    drafted(
        m,
        s,
        read(s, c.hidden),
        read(s, c.tokens),
        read(s, c.cos),
        read(s, c.sin),
        read(s, c.kc),
        read(s, c.vc),
        c.kv_stride as int,
        c.n as int,
        draft_meeting(s, c),
    )
}

/// A draft-head pass leaves the head's hidden columns in buffer `first + 38` and its caches with the new
/// entries. Nothing else but scratch changes.
#[verifier::rlimit(40)]
pub proof fn law_draft_head_computes(m: &GpuModel, s: Mem, c: MtpCall)
    requires
        m.mtp_ok(c),
        draft_apart(c),
        c.n >= 1,
        m.cfg.hidden_size >= 1,
    ensures
        ({
            let e = run(s, m.mtp_ops(c));
            let d = draft_of(m, s, c);
            &&& e[temp(c.first + 38).region] == d.hidden
            &&& e[c.kc.region] == patched(s[c.kc.region], c.kc.offset, d.keys)
            &&& e[c.vc.region] == patched(s[c.vc.region], c.vc.offset, d.values)
            &&& kept_but(s, e, c.first as int, c.first + 40, c.kc.region, c.vc.region)
        }),
{
    let (t, n) = (c.first as int, c.n as int);
    let h = m.cfg.hidden_size as int;
    let mtp = m.mtp->0;
    let fed_at = GpuModel::ffn_out(mtp.mlp, t + 19);
    let norm = |x: Val, v: BlockVec| normed(m, x, vector(s, Block::Mtp, v), n);
    let fc = WeightId::Of(Block::Mtp, Proj::Fc);
    // The joined input.
    let left = m.mtp_norm_op(temp(t), c.hidden, BlockVec::PreFcHidden, c.n);
    let embed = m.embed_op(temp(t + 1), c.tokens, n);
    let right = m.mtp_norm_op(temp(t + 1), temp(t + 1), BlockVec::PreFcEmbed, c.n);
    let join = Op::Launch(
        Call::Concat {
            out: temp(t + 2),
            first: temp(t + 1),
            second: temp(t),
            h: h as i32,
            n: n as i32,
        },
    );
    let a1 = exec(exec(s, get16(t, h * n)), left);
    assert(kept(s, a1, t, t + 40));
    assert(read(a1, c.tokens) == read(s, c.tokens));
    let a2 = exec(exec(exec(a1, get16(t + 1, h * n)), embed), right);
    assert(kept(s, a2, t, t + 40));
    let a3 = exec(exec(a2, get16(t + 2, 2 * h * n)), join);
    let s1 = exec(exec(exec(a3, put16(t, h * n)), put16(t + 1, h * n)), get16(t + 3, h * n));
    assert(run(
        s,
        seq![
            get16(t, h * n),
            left,
            get16(t + 1, h * n),
            embed,
            right,
            get16(t + 2, 2 * h * n),
            join,
            put16(t, h * n),
            put16(t + 1, h * n),
            get16(t + 3, h * n),
        ],
    ) == s1);
    assert(kept(s, s1, t, t + 40));
    let pair = made(
        Fun::Joined { h: h as i32, n: n as i32 },
        args2(
            norm(embedded(m, read(s, c.tokens), n), BlockVec::PreFcEmbed),
            norm(read(s, c.hidden), BlockVec::PreFcHidden),
        ),
    );
    assert(s1[temp(t + 2).region] == pair);
    lemma_gemm(s1, mtp.fc, fc, temp(t + 2), temp(t + 3), 2 * h, h, n);
    let s2 = run(s1, gemm_ops(mtp.fc, fc, temp(t + 2), temp(t + 3), 2 * h, h, n));
    let x = times(fc, pair, 2 * h, h, n);
    assert(s2[temp(t + 3).region] == x);
    let first = m.mtp_norm_op(temp(t + 4), temp(t + 3), BlockVec::InputNorm, c.n);
    let s3 = exec(exec(exec(s2, put16(t + 2, 2 * h * n)), get16(t + 4, h * n)), first);
    assert(run(s2, seq![put16(t + 2, 2 * h * n), get16(t + 4, h * n), first]) == s3);
    assert(kept(s, s3, t, t + 40));
    assert(s3[temp(t + 3).region] == x);
    assert(s3[temp(t + 4).region] == norm(x, BlockVec::InputNorm));
    // The layer.
    let ac = m.mtp_attn(c);
    assert(apart(ac));
    law_attention_computes(m, s3, ac);
    assert(meeting(s3, ac.mode) == draft_meeting(s, c));
    assert(read(s3, c.cos) == read(s, c.cos) && read(s3, c.sin) == read(s, c.sin));
    assert(read(s3, c.kc) == read(s, c.kc) && read(s3, c.vc) == read(s, c.vc));
    assert(forall|v: BlockVec|
        #[trigger] vector(s3, Block::Mtp, v) == vector(s, Block::Mtp, v));
    let a = attention(
        m,
        s,
        Block::Mtp,
        mtp.fa,
        false,
        norm(x, BlockVec::InputNorm),
        read(s, c.cos),
        read(s, c.sin),
        read(s, c.kc),
        read(s, c.vc),
        c.kv_stride as int,
        n,
        draft_meeting(s, c),
    );
    let s4 = run(s3, m.full_attn_ops(ac));
    assert(s4[temp(t + 17).region] == a.out);
    assert(kept_but(s, s4, t, t + 40, c.kc.region, c.vc.region));
    let fuse = Op::Launch(
        Call::FusedResRmsnorm {
            out: temp(t + 4),
            residual: temp(t + 3),
            add: temp(t + 17),
            w: at(Region::Vector(Block::Mtp, BlockVec::PostNorm)),
            h: h as i32,
            n: n as i32,
            eps: m.cfg.rms_eps_bits,
        },
    );
    let s5 = run(s4, seq![fuse]);
    assert(s5 == exec(s4, fuse));
    let y = added(m, x, a.out, n);
    assert(s5[temp(t + 3).region] == y);
    assert(s5[temp(t + 4).region] == norm(y, BlockVec::PostNorm));
    law_ffn_computes(m, s5, Block::Mtp, mtp.mlp, temp(t + 4), n, false, t + 19);
    let s6 = run(s5, m.ffn_ops(Block::Mtp, mtp.mlp, temp(t + 4), n, false, t + 19));
    let add = Op::Launch(
        Call::AddResidual { residual: temp(t + 3), add: temp(fed_at), tot: (h * n) as i32 },
    );
    let last = m.mtp_norm_op(temp(t + 38), temp(t + 3), BlockVec::FinalNorm, c.n);
    let s7 = exec(s6, add);
    let z = added(
        m,
        y,
        fed(m, Block::Mtp, mtp.mlp, norm(y, BlockVec::PostNorm), n, false),
        n,
    );
    assert(s7[temp(t + 3).region] == z);
    let s8 = exec(
        exec(exec(exec(s7, put16(t + 17, h * n)), put16(fed_at, h * n)), put16(t + 4, h * n)),
        get16(t + 38, h * n),
    );
    assert(s8[temp(t + 3).region] == z);
    let e = exec(exec(s8, last), put16(t + 3, h * n));
    assert(run(
        s6,
        seq![
            add,
            put16(t + 17, h * n),
            put16(fed_at, h * n),
            put16(t + 4, h * n),
            get16(t + 38, h * n),
            last,
            put16(t + 3, h * n),
        ],
    ) == e);
    assert(run(s, m.mtp_ops(c)) == e);
}

/// What the draft head gives at uploaded tokens and positions: the columns' entries are kept at those
/// positions, and the columns are turned by the angles of those same positions.
#[verifier::opaque]
pub open spec fn draft_at(
    m: &GpuModel,
    s: Mem,
    hidden: Ptr,
    kc: Ptr,
    vc: Ptr,
    kv_stride: usize,
    n: int,
    max_pc: int,
) -> Drafted {
    let pos = Val::Uploaded(Table::Pos);
    drafted(
        m,
        s,
        read(s, hidden),
        Val::Uploaded(Table::Tokens),
        cosines(m, s, pos, n),
        sines(m, s, pos, n),
        read(s, kc),
        read(s, vc),
        kv_stride as int,
        n,
        Meeting::Columns {
            pos,
            logical: pos,
            lanes: s[Region::Scratch(Scratch::MtpSlots)],
            path: Val::Absent,
            starts: Val::Absent,
            max_pc,
        },
    )
}

/// A hidden state and caches that the buffers of a draft step leave alone.
pub open spec fn step_apart(hidden: Ptr, kc: Ptr, vc: Ptr) -> bool {
    &&& cache_like(kc.region)
    &&& cache_like(vc.region)
    &&& kc.region != vc.region
    &&& hidden.region != kc.region
    &&& hidden.region != vc.region
    &&& !(hidden.region is Scratch)
    &&& !(hidden.region is TpContext)
    &&& hidden.region matches Region::Temp(i) ==> i >= 48
}

/// Uploads, angles and the head's pass over columns whose tokens and positions go to scratch.
proof fn lemma_columns(
    m: &GpuModel,
    s: Mem,
    hidden: Ptr,
    tokens: Scratch,
    pos: Scratch,
    kc: Ptr,
    vc: Ptr,
    max_pc: usize,
    kv_stride: usize,
    n: usize,
)
    requires
        m.mtp_ok(m.mtp_columns(hidden, tokens, pos, kc, vc, max_pc, kv_stride, n)),
        step_apart(hidden, kc, vc),
        tokens != pos,
        tokens is DraftTok || tokens is ReprimeTok,
        pos is DraftPos || pos is ReprimePos,
        n >= 1,
        m.cfg.hidden_size >= 1,
    ensures
        ({
            let rd = m.cfg.rotary_dim as int;
            let e = run(
                s,
                seq![
                    Op::Upload { table: Table::Tokens, dst: at(Region::Scratch(tokens)) },
                    Op::Upload { table: Table::Pos, dst: at(Region::Scratch(pos)) },
                    Op::Sync,
                    get32(0, rd * n),
                    get32(1, rd * n),
                    m.rope_op(temp(0), temp(1), at(Region::Scratch(pos)), n as int),
                ] + m.mtp_ops(m.mtp_columns(hidden, tokens, pos, kc, vc, max_pc, kv_stride, n)),
            );
            let d = draft_at(m, s, hidden, kc, vc, kv_stride, n as int, max_pc as int);
            &&& e[temp(40).region] == d.hidden
            &&& e[kc.region] == patched(s[kc.region], kc.offset, d.keys)
            &&& e[vc.region] == patched(s[vc.region], vc.offset, d.values)
            &&& forall|r: Region|
                !loose(r, 0, 42) && r != kc.region && r != vc.region && r != Region::Scratch(tokens)
                    && r != Region::Scratch(pos) ==> #[trigger] e[r] == s[r]
        }),
{
    reveal(draft_at);
    let rd = m.cfg.rotary_dim as int;
    let c = m.mtp_columns(hidden, tokens, pos, kc, vc, max_pc, kv_stride, n);
    let head = seq![
        Op::Upload { table: Table::Tokens, dst: at(Region::Scratch(tokens)) },
        Op::Upload { table: Table::Pos, dst: at(Region::Scratch(pos)) },
        Op::Sync,
        get32(0, rd * n),
        get32(1, rd * n),
        m.rope_op(temp(0), temp(1), at(Region::Scratch(pos)), n as int),
    ];
    let s1 = run(s, head);
    let at_pos = Val::Uploaded(Table::Pos);
    assert(read(s1, c.cos) == cosines(m, s, at_pos, n as int));
    assert(read(s1, c.sin) == sines(m, s, at_pos, n as int));
    assert(read(s1, c.tokens) == Val::Uploaded(Table::Tokens));
    assert(read(s1, c.pos) == at_pos);
    assert(read(s1, hidden) == read(s, hidden));
    assert(read(s1, kc) == read(s, kc) && read(s1, vc) == read(s, vc));
    assert(forall|v: BlockVec|
        #[trigger] vector(s1, Block::Mtp, v) == vector(s, Block::Mtp, v));
    assert(draft_of(m, s1, c) == draft_at(
        m,
        s,
        hidden,
        kc,
        vc,
        kv_stride,
        n as int,
        max_pc as int,
    ));
    law_draft_head_computes(m, s1, c);
}

/// A draft step at position `pos` leaves the head's next hidden state in buffer 40: the head applied to the
/// last hidden state and the uploaded token, at the uploaded position.
pub proof fn law_draft_step_computes(
    m: &GpuModel,
    s: Mem,
    hidden: Ptr,
    pos: usize,
    kc: Ptr,
    vc: Ptr,
    kv_stride: usize,
)
    requires
        m.draft_step_ok(hidden, pos, kc, vc, kv_stride),
        step_apart(hidden, kc, vc),
        m.cfg.hidden_size >= 1,
    ensures
        ({
            let e = run(s, m.draft_pass_ops(hidden, pos, kc, vc, kv_stride));
            let d = draft_at(m, s, hidden, kc, vc, kv_stride, 1, pos + 1);
            &&& e[temp(40).region] == d.hidden
            &&& e[kc.region] == patched(s[kc.region], kc.offset, d.keys)
            &&& e[vc.region] == patched(s[vc.region], vc.offset, d.values)
            &&& forall|r: Region|
                !loose(r, 0, 42) && r != kc.region && r != vc.region && r != Region::Scratch(
                    Scratch::DraftTok,
                ) && r != Region::Scratch(Scratch::DraftPos) ==> #[trigger] e[r] == s[r]
        }),
{
    let rd = m.cfg.rotary_dim as int;
    assert(rd * 1 == rd);
    lemma_columns(
        m,
        s,
        hidden,
        Scratch::DraftTok,
        Scratch::DraftPos,
        kc,
        vc,
        (pos + 1) as usize,
        kv_stride,
        1,
    );
}

/// A re-prime over `n` accepted columns rewrites the head's caches with the entries that the head gives on
/// the model's own hidden states, and changes nothing else but scratch.
pub proof fn law_reprime_computes(
    m: &GpuModel,
    s: Mem,
    hidden: Ptr,
    n: usize,
    pos_start: usize,
    kc: Ptr,
    vc: Ptr,
    kv_stride: usize,
)
    requires
        m.mtp_ok(
            m.mtp_columns(
                hidden,
                Scratch::ReprimeTok,
                Scratch::ReprimePos,
                kc,
                vc,
                (pos_start + n) as usize,
                kv_stride,
                n,
            ),
        ),
        pos_start + n <= usize::MAX,
        step_apart(hidden, kc, vc),
        n >= 1,
        m.cfg.hidden_size >= 1,
    ensures
        ({
            let e = run(s, m.reprime_ops(hidden, n, pos_start, kc, vc, kv_stride));
            let d = draft_at(m, s, hidden, kc, vc, kv_stride, n as int, pos_start + n);
            &&& e[kc.region] == patched(s[kc.region], kc.offset, d.keys)
            &&& e[vc.region] == patched(s[vc.region], vc.offset, d.values)
            &&& forall|r: Region|
                !loose(r, 0, 42) && r != kc.region && r != vc.region && r != Region::Scratch(
                    Scratch::ReprimeTok,
                ) && r != Region::Scratch(Scratch::ReprimePos) ==> #[trigger] e[r] == s[r]
        }),
{
    lemma_columns(
        m,
        s,
        hidden,
        Scratch::ReprimeTok,
        Scratch::ReprimePos,
        kc,
        vc,
        (pos_start + n) as usize,
        kv_stride,
        n,
    );
}

/// A priming pass over columns `c0 .. c0 + cn` of a prompt adds the entries that the head gives on those
/// hidden columns and the tokens that follow them, from position `pos_start + c0` on.
pub proof fn law_prime_chunk_computes(
    m: &GpuModel,
    s: Mem,
    hidden: Ptr,
    kc: Ptr,
    vc: Ptr,
    kv_stride: usize,
    pos_start: usize,
    c0: int,
    cn: int,
)
    requires
        m.prime_ok(hidden, kc, vc, kv_stride, pos_start, c0, cn),
        step_apart(hidden, kc, vc),
        0 <= c0,
        1 <= cn <= usize::MAX,
        m.cfg.hidden_size >= 1,
    ensures
        ({
            let e = run(s, m.prime_chunk_ops(hidden, kc, vc, kv_stride, pos_start, c0, cn));
            let h = m.cfg.hidden_size as int;
            let pos = Val::Uploaded(Table::Pos);
            let d = drafted(
                m,
                s,
                made(
                    Fun::Bytes { bytes: (cn * h * 2) as usize },
                    args1(part(s[hidden.region], (hidden.offset + c0 * h * 2) as u64)),
                ),
                Val::Uploaded(Table::Tokens),
                cosines(m, s, pos, cn),
                sines(m, s, pos, cn),
                read(s, kc),
                read(s, vc),
                kv_stride as int,
                cn,
                Meeting::Run { pos: pos_start + c0 },
            );
            &&& hidden.region is Null || e[kc.region] == patched(
                s[kc.region],
                kc.offset,
                d.keys,
            )
            &&& hidden.region is Null || e[vc.region] == patched(
                s[vc.region],
                vc.offset,
                d.values,
            )
            &&& forall|r: Region|
                !loose(r, 0, 45) && r != kc.region && r != vc.region ==> #[trigger] e[r] == s[r]
        }),
{
    let (h, rd) = (m.cfg.hidden_size as int, m.cfg.rotary_dim as int);
    let c = m.prime_call(kc, vc, kv_stride, pos_start, c0, cn);
    let copy = Op::Copy {
        dst: temp(2),
        src: shifted(hidden, c0 * h * 2),
        bytes: (cn * h * 2) as usize,
    };
    let head = seq![
        Op::UploadNew { table: Table::Tokens, id: 3 },
        Op::UploadNew { table: Table::Pos, id: 4 },
        Op::Sync,
        get16(2, h * cn),
        copy,
        get32(0, rd * cn),
        get32(1, rd * cn),
        m.rope_op(temp(0), temp(1), temp(4), cn),
    ];
    let s1 = run(s, head);
    let at_pos = Val::Uploaded(Table::Pos);
    assert(read(s1, c.cos) == cosines(m, s, at_pos, cn));
    assert(read(s1, c.sin) == sines(m, s, at_pos, cn));
    assert(read(s1, c.tokens) == Val::Uploaded(Table::Tokens));
    assert(forall|r: Region| !(r is Temp) ==> #[trigger] s1[r] == s[r]);
    assert(read(s1, kc) == read(s, kc) && read(s1, vc) == read(s, vc));
    assert(forall|v: BlockVec|
        #[trigger] vector(s1, Block::Mtp, v) == vector(s, Block::Mtp, v));
    law_draft_head_computes(m, s1, c);
    let s2 = run(s1, m.mtp_ops(c));
    let e = run(
        s2,
        seq![
            Op::Sync,
            put32(0, rd * cn),
            put32(1, rd * cn),
            put16(2, h * cn),
            put16(43, h * cn),
        ],
    );
    assert(run(s, m.prime_chunk_ops(hidden, kc, vc, kv_stride, pos_start, c0, cn)) == e);
}

} // verus!
