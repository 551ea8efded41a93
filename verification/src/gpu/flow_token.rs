//! A token through the single-token path: layer by layer, and to the end.
use vstd::prelude::*;

use crate::config::LayerType;
use crate::gpu::flow_single::{
    angles_apart, law_one_mlp_computes, lemma_one_end, lemma_one_finish, lemma_one_join,
    lemma_one_mixed_ext, lemma_one_mixer, lemma_one_norm, lemma_one_start, one_added, one_cells,
    one_layer_of, one_mixed, one_normed, one_owned, one_reached, one_settled, one_trunk,
};
use crate::gpu::machine::{lemma_run_concat, read, run, Mem, Val};
use crate::gpu::meaning::vector;
use crate::gpu::model::GpuModel;
use crate::gpu::program::{at, get32, put32, temp, Block, BlockVec, Op, Ptr, Region};
use crate::gpu::single_calls::SingleCall;
use crate::seqs::flat;

verus! {

/// One more layer.
proof fn lemma_one_layer(
    m: &GpuModel,
    s0: Mem,
    s: Mem,
    pos: int,
    cos: Ptr,
    sin: Ptr,
    capture: bool,
    li: int,
)
    requires
        0 <= li < m.layers@.len(),
        m.layers@.len() <= usize::MAX,
        angles_apart(cos),
        angles_apart(sin),
        one_reached(m, s0, s, pos, cos, sin, li),
    ensures
        one_reached(
            m,
            s0,
            run(s, m.one_layer_ops(li, pos, cos, sin, capture)),
            pos,
            cos,
            sin,
            li + 1,
        ),
{
    let b = Block::Layer(li as usize);
    let h = m.cfg.hidden_size as int;
    let out = m.one_mixer_out(li);
    let x = s0[temp(0).region];
    let (vcos, vsin) = (read(s0, cos), read(s0, sin));
    let y = one_trunk(m, s0, x, pos, vcos, vsin, li as nat);
    let nx = one_normed(m, y, vector(s0, b, BlockVec::InputNorm));
    let (u, v) = one_cells(m, li);
    let norm = seq![
        m.one_norm_op(temp(1), temp(0), at(Region::Vector(b, BlockVec::InputNorm))),
    ];
    lemma_one_norm(m, s, 1, 0, at(Region::Vector(b, BlockVec::InputNorm)));
    let s1 = run(s, norm);
    assert(s1[temp(1).region] == nx);
    assert(read(s1, cos) == vcos && read(s1, sin) == vsin);
    lemma_one_mixer(m, s1, li, pos, cos, sin);
    lemma_one_mixed_ext(m, s0, s1, li, nx, pos, vcos, vsin);
    let a = one_mixed(m, s0, li, nx, pos, vcos, vsin);
    let mix = match m.layers@[li].layer_type {
        LayerType::FullAttention => m.one_attn_ops(li as usize, temp(1), pos, cos, sin, 3),
        LayerType::LinearAttention => m.one_gdn_ops(li as usize, temp(1), 3),
    };
    let s2 = run(s1, mix);
    assert(s2[temp(0).region] == y);
    lemma_one_join(m, s2, b, out);
    let join = seq![
        Op::Single(
            SingleCall::FusedNorm {
                out: temp(1),
                residual: temp(0),
                add: temp(out),
                w: at(Region::Vector(b, BlockVec::PostNorm)),
                h: h as i32,
                eps: m.cfg.rms_eps_bits,
            },
        ),
    ];
    let s3 = run(s2, join);
    let z = one_added(m, y, a.out);
    assert(s3[temp(0).region] == z);
    assert(s3[temp(1).region] == one_normed(m, z, vector(s0, b, BlockVec::PostNorm)));
    law_one_mlp_computes(m, s3, b, temp(1), 14);
    let mlp = m.one_mlp_ops(b, temp(1), 14);
    let s4 = run(s3, mlp);
    let add = seq![
        Op::Single(SingleCall::Add { residual: temp(0), add: temp(16), n: h as i32 }),
    ];
    let save = if capture {
        seq![Op::Capture { src: temp(0), len: m.cfg.hidden_size }]
    } else {
        Seq::<Op>::empty()
    };
    lemma_one_end(m, s4, save, out);
    let back = seq![put32(out, h), put32(16, h)];
    let e = run(run(run(s4, add), save), back);
    lemma_run_concat(s, norm, mix);
    lemma_run_concat(s, norm + mix, join);
    lemma_run_concat(s, norm + mix + join, mlp);
    lemma_run_concat(s, norm + mix + join + mlp, add);
    lemma_run_concat(s, norm + mix + join + mlp + add, save);
    lemma_run_concat(s, norm + mix + join + mlp + add + save, back);
    assert(run(s, m.one_layer_ops(li, pos, cos, sin, capture)) == e);
    assert(e[temp(0).region] == one_layer_of(m, s0, li, y, pos, vcos, vsin));
    assert(!(u is Temp) && !(v is Temp));
    assert(e[u] == s4[u] && s4[u] == s3[u] && s3[u] == s2[u]);
    assert(e[v] == s4[v] && s4[v] == s3[v] && s3[v] == s2[v]);
    assert(e[u] == a.first && e[v] == a.second);
    assert forall|r: Region|
        !(r matches Region::Temp(i) && i < 25) && r != u && r != v implies #[trigger] e[r] == s[r] by {
        assert(e[r] == s4[r]);
        assert(s4[r] == s3[r]);
        assert(s3[r] == s2[r]);
        assert(s2[r] == s1[r]);
        assert(s1[r] == s[r]);
    }
    assert(one_settled(m, s0, e, x, pos, vcos, vsin, li));
    assert forall|j: int| 0 <= j < li + 1 implies #[trigger] one_settled(
        m,
        s0,
        e,
        x,
        pos,
        vcos,
        vsin,
        j,
    ) by {
        if j < li {
            assert(one_settled(m, s0, s, x, pos, vcos, vsin, j));
            assert(e[one_cells(m, j).0] == s[one_cells(m, j).0]);
            assert(e[one_cells(m, j).1] == s[one_cells(m, j).1]);
        }
    }
}

proof fn lemma_one_layers(
    m: &GpuModel,
    s: Mem,
    pos: int,
    cos: Ptr,
    sin: Ptr,
    capture: bool,
    k: nat,
)
    requires
        k <= m.layers@.len(),
        m.layers@.len() <= usize::MAX,
        angles_apart(cos),
        angles_apart(sin),
    ensures
        one_reached(
            m,
            s,
            run(s, flat(k, |li: int| m.one_layer_ops(li, pos, cos, sin, capture))),
            pos,
            cos,
            sin,
            k as int,
        ),
    decreases k,
{
    let row = |li: int| m.one_layer_ops(li, pos, cos, sin, capture);
    if k > 0 {
        lemma_one_layers(m, s, pos, cos, sin, capture, (k - 1) as nat);
        let e = run(s, flat((k - 1) as nat, row));
        lemma_one_layer(m, s, e, pos, cos, sin, capture, k - 1);
        lemma_run_concat(s, flat((k - 1) as nat, row), row(k - 1));
        assert(flat(k, row) == flat((k - 1) as nat, row) + row(k - 1));
    } else {
        assert(run(s, flat(0, row)) == s);
    }
}

/// The trunk looks at the vectors and at what the layers remember.
proof fn lemma_one_trunk_ext(
    m: &GpuModel,
    a: Mem,
    b: Mem,
    x: Val,
    pos: int,
    cos: Val,
    sin: Val,
    k: nat,
)
    requires
        forall|r: Region| !(r is Temp) ==> #[trigger] b[r] == a[r],
    ensures
        one_trunk(m, b, x, pos, cos, sin, k) == one_trunk(m, a, x, pos, cos, sin, k),
    decreases k,
{
    if k > 0 {
        lemma_one_trunk_ext(m, a, b, x, pos, cos, sin, (k - 1) as nat);
        let y = one_trunk(m, a, x, pos, cos, sin, (k - 1) as nat);
        let blk = Block::Layer((k - 1) as usize);
        assert(vector(b, blk, BlockVec::InputNorm) == vector(a, blk, BlockVec::InputNorm));
        assert(vector(b, blk, BlockVec::PostNorm) == vector(a, blk, BlockVec::PostNorm));
        lemma_one_mixed_ext(
            m,
            a,
            b,
            k - 1,
            one_normed(m, y, vector(a, blk, BlockVec::InputNorm)),
            pos,
            cos,
            sin,
        );
    }
}

/// A token whose embedding is buffer 0 leaves the normed vector after all layers in buffer 2, whether or not
/// the residuals go to the host on the way; every layer remembers its part.
pub proof fn law_one_token_computes(
    m: &GpuModel,
    s: Mem,
    pos: int,
    cos: Ptr,
    sin: Ptr,
    capture: bool,
)
    requires
        m.layers@.len() <= usize::MAX,
        angles_apart(cos),
        angles_apart(sin),
    ensures
        ({
            let e = run(s, m.one_token_ops(pos, cos, sin, capture));
            let x = s[temp(0).region];
            let (vcos, vsin) = (read(s, cos), read(s, sin));
            let k = m.layers@.len();
            &&& e[temp(2).region] == one_normed(
                m,
                one_trunk(m, s, x, pos, vcos, vsin, k),
                s[Region::FinalNorm],
            )
            &&& forall|li: int|
                0 <= li < k ==> #[trigger] one_settled(m, s, e, x, pos, vcos, vsin, li)
            &&& forall|r: Region|
                !(r is Temp) && !one_owned(m, r, k as int) ==> #[trigger] e[r] == s[r]
        }),
{
    let h = m.cfg.hidden_size as int;
    let x = s[temp(0).region];
    let (vcos, vsin) = (read(s, cos), read(s, sin));
    let k = m.layers@.len();
    let first = seq![get32(1, h)];
    lemma_one_start(m, s);
    let s1 = run(s, first);
    assert(read(s1, cos) == vcos && read(s1, sin) == vsin);
    lemma_one_layers(m, s1, pos, cos, sin, capture, k);
    let all = flat(k, |li: int| m.one_layer_ops(li, pos, cos, sin, capture));
    let s2 = run(s1, all);
    lemma_one_trunk_ext(m, s, s1, x, pos, vcos, vsin, k);
    assert(s2[Region::FinalNorm] == s[Region::FinalNorm]);
    lemma_one_finish(m, s2);
    let last = seq![
        get32(2, h),
        m.one_norm_op(temp(2), temp(0), at(Region::FinalNorm)),
        put32(0, h),
        put32(1, h),
    ];
    let e = run(s2, last);
    lemma_run_concat(s, first, all);
    lemma_run_concat(s, first + all, last);
    assert(run(s, m.one_token_ops(pos, cos, sin, capture)) == e);
    assert forall|li: int| 0 <= li < k implies #[trigger] one_settled(
        m,
        s,
        e,
        x,
        pos,
        vcos,
        vsin,
        li,
    ) by {
        assert(one_settled(m, s1, s2, x, pos, vcos, vsin, li));
        lemma_one_trunk_ext(m, s, s1, x, pos, vcos, vsin, li as nat);
        let y = one_trunk(m, s, x, pos, vcos, vsin, li as nat);
        let blk = Block::Layer(li as usize);
        assert(vector(s1, blk, BlockVec::InputNorm) == vector(s, blk, BlockVec::InputNorm));
        lemma_one_mixed_ext(
            m,
            s,
            s1,
            li,
            one_normed(m, y, vector(s, blk, BlockVec::InputNorm)),
            pos,
            vcos,
            vsin,
        );
    }
}

} // verus!
