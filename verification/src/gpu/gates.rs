//! Byte gates: bit-for-bit comparisons of what the device returned for planted verifies.
use vstd::prelude::*;

use crate::gpu::mtp::fork_parent;
use crate::gpu::topo::{
    ancestry, is_forest, law_earlier_parents_form_a_forest, lemma_fuel, reaches_root,
};
use crate::gpu::tree::{is_compacted, kv_offset, path_tokens, planted_drafts, same_bits};

verus! {

/// Row `i` of a table of rows of `w` elements.
pub open spec fn row(t: Seq<u16>, w: int, i: int) -> Seq<u16> {
    t.subrange(i * w, (i + 1) * w)
}

/// How many of the pairs `(a(0), b(0)), .., (a(n - 1), b(n - 1))` differ.
pub open spec fn count_differing(
    n: nat,
    a: spec_fn(int) -> Seq<u16>,
    b: spec_fn(int) -> Seq<u16>,
) -> nat
    decreases n,
{
    if n == 0 {
        0
    } else {
        count_differing((n - 1) as nat, a, b) + (if a(n - 1) == b(n - 1) {
            0nat
        } else {
            1nat
        })
    }
}

proof fn lemma_count_bound(n: nat, a: spec_fn(int) -> Seq<u16>, b: spec_fn(int) -> Seq<u16>)
    ensures
        count_differing(n, a, b) <= n,
    decreases n,
{
    if n > 0 {
        lemma_count_bound((n - 1) as nat, a, b);
    }
}

/// Row `i` of `a` and row `k` of `b` hold the same bits.
fn same_row(a: &[u16], i: usize, b: &[u16], k: usize, w: usize) -> (eq: bool)
    requires
        (i + 1) * w <= a.len(),
        (k + 1) * w <= b.len(),
    ensures
        eq == (row(a@, w as int, i as int) == row(b@, w as int, k as int)),
{
    let la: usize = a.len();
    let lb: usize = b.len();
    proof {
        assert((i + 1) * w == i * w + w) by (nonlinear_arith);
        assert((k + 1) * w == k * w + w) by (nonlinear_arith);
        assert(0 <= i * w && 0 <= k * w) by (nonlinear_arith);
    }
    same_bits(a, i * w, b, k * w, w)
}

/// Compares the twin branches of a fork of `depth - 1` columns each: how many columns were compared
/// and how many differ in any bit.
pub fn twin_mismatches(logits: &[u16], vocab: usize, depth: usize) -> (r: (usize, usize))
    requires
        1 <= depth,
        (2 * depth - 1) * vocab <= logits.len(),
        2 * depth <= usize::MAX,
    ensures
        r.0 == depth - 1,
        r.1 == count_differing(
            (depth - 1) as nat,
            |i: int| row(logits@, vocab as int, i + 1),
            |i: int| row(logits@, vocab as int, depth + i),
        ),
{
    let ghost a = |i: int| row(logits@, vocab as int, i + 1);
    let ghost b = |i: int| row(logits@, vocab as int, depth + i);
    let mut mism: usize = 0;
    let mut i: usize = 1;
    while i < depth
        invariant
            1 <= i <= depth,
            2 * depth <= usize::MAX,
            (2 * depth - 1) * vocab <= logits.len(),
            a == (|i: int| row(logits@, vocab as int, i + 1)),
            b == (|i: int| row(logits@, vocab as int, depth + i)),
            mism == count_differing((i - 1) as nat, a, b),
            mism <= i - 1,
        decreases depth - i,
    {
        let bcol: usize = depth - 1 + i;
        proof {
            assert((i + 1) * vocab <= (2 * depth - 1) * vocab) by (nonlinear_arith)
                requires
                    1 <= i < depth,
            ;
            assert((bcol + 1) * vocab <= (2 * depth - 1) * vocab) by (nonlinear_arith)
                requires
                    bcol == depth - 1 + i,
                    i < depth,
            ;
            assert(a(i - 1) == row(logits@, vocab as int, i as int));
            assert(b(i - 1) == row(logits@, vocab as int, bcol as int));
        }
        if !same_row(logits, i, logits, bcol, vocab) {
            mism = mism + 1;
        }
        i = i + 1;
    }
    (depth - 1, mism)
}

/// Compares every lane's columns in the packed verify with the same columns of the lane alone.
pub fn lane_mismatches(
    packed: &[u16],
    alone_a: &[u16],
    alone_b: &[u16],
    vocab: usize,
    depth: usize,
) -> (r: (usize, usize))
    requires
        2 * depth <= usize::MAX,
        2 * depth * vocab <= packed.len(),
        depth * vocab <= alone_a.len(),
        depth * vocab <= alone_b.len(),
    ensures
        r.0 == 2 * depth,
        r.1 == count_differing(
            depth as nat,
            |i: int| row(packed@, vocab as int, i),
            |i: int| row(alone_a@, vocab as int, i),
        ) + count_differing(
            depth as nat,
            |i: int| row(packed@, vocab as int, depth + i),
            |i: int| row(alone_b@, vocab as int, i),
        ),
{
    let ghost pa = |i: int| row(packed@, vocab as int, i);
    let ghost aa = |i: int| row(alone_a@, vocab as int, i);
    let ghost pb = |i: int| row(packed@, vocab as int, depth + i);
    let ghost bb = |i: int| row(alone_b@, vocab as int, i);
    let mut mism: usize = 0;
    let mut r: usize = 0;
    while r < depth
        invariant
            r <= depth,
            2 * depth <= usize::MAX,
            2 * depth * vocab <= packed.len(),
            depth * vocab <= alone_a.len(),
            depth * vocab <= alone_b.len(),
            pa == (|i: int| row(packed@, vocab as int, i)),
            aa == (|i: int| row(alone_a@, vocab as int, i)),
            pb == (|i: int| row(packed@, vocab as int, depth + i)),
            bb == (|i: int| row(alone_b@, vocab as int, i)),
            mism == count_differing(r as nat, pa, aa) + count_differing(r as nat, pb, bb),
            mism <= 2 * r,
        decreases depth - r,
    {
        proof {
            assert((r + 1) * vocab <= depth * vocab) by (nonlinear_arith)
                requires
                    r < depth,
            ;
            assert((depth + r + 1) * vocab <= 2 * depth * vocab) by (nonlinear_arith)
                requires
                    r < depth,
            ;
            assert((r + 1) * vocab <= (depth + r + 1) * vocab) by (nonlinear_arith);
            assert(pa(r as int) == row(packed@, vocab as int, r as int));
            assert(aa(r as int) == row(alone_a@, vocab as int, r as int));
            assert(pb(r as int) == row(packed@, vocab as int, depth + r));
            assert(bb(r as int) == row(alone_b@, vocab as int, r as int));
        }
        if !same_row(packed, r, alone_a, r, vocab) {
            mism = mism + 1;
        }
        if !same_row(packed, depth + r, alone_b, r, vocab) {
            mism = mism + 1;
        }
        r = r + 1;
    }
    (2 * depth, mism)
}

/// Column `c` of a tree verify holds the same bits as the last column of its own path verified as a
/// plain chain of `len` columns.
pub fn column_matches_chain(
    tree: &[u16],
    c: usize,
    chain: &[u16],
    len: usize,
    vocab: usize,
) -> (eq: bool)
    requires
        len >= 1,
        (c + 1) * vocab <= tree.len(),
        len * vocab <= chain.len(),
    ensures
        eq == (row(tree@, vocab as int, c as int) == row(chain@, vocab as int, len - 1)),
{
    same_row(tree, c, chain, len - 1, vocab)
}

/// The KV entries of an accepted path moved to where a chain would have written them.
pub fn kv_compaction_holds(
    before: &[u16],
    after: &[u16],
    nkv: usize,
    kv_stride: usize,
    hd: usize,
    pos_start: usize,
    src_pos: &[usize],
) -> (ok: bool)
    requires
        nkv * kv_stride <= usize::MAX,
        nkv * kv_stride * hd <= before.len(),
        nkv * kv_stride * hd <= after.len(),
        pos_start + src_pos.len() <= kv_stride,
        forall|k: int| 0 <= k < src_pos.len() ==> pos_start + #[trigger] src_pos@[k] < kv_stride,
    ensures
        ok == is_compacted(
            before@,
            after@,
            nkv as int,
            kv_stride as int,
            hd as int,
            0,
            pos_start as int,
            src_pos@,
        ),
{
    let have_before: usize = before.len();
    let have_after: usize = after.len();
    let mut k: usize = 0;
    while k < src_pos.len()
        invariant
            k <= src_pos.len(),
            have_before == before.len(),
            have_after == after.len(),
            nkv * kv_stride <= usize::MAX,
            nkv * kv_stride * hd <= before.len(),
            nkv * kv_stride * hd <= after.len(),
            pos_start + src_pos.len() <= kv_stride,
            forall|k: int|
                0 <= k < src_pos.len() ==> pos_start + #[trigger] src_pos@[k] < kv_stride,
            is_compacted(
                before@,
                after@,
                nkv as int,
                kv_stride as int,
                hd as int,
                0,
                pos_start as int,
                src_pos@.take(k as int),
            ),
        decreases src_pos.len() - k,
    {
        let from: usize = src_pos[k];
        let mut h: usize = 0;
        while h < nkv
            invariant
                k < src_pos.len(),
                h <= nkv,
                have_before == before.len(),
                have_after == after.len(),
                nkv * kv_stride <= usize::MAX,
                nkv * kv_stride * hd <= before.len(),
                nkv * kv_stride * hd <= after.len(),
                pos_start + src_pos.len() <= kv_stride,
                from == src_pos@[k as int],
                pos_start + from < kv_stride,
                forall|i: int|
                    #![trigger kv_offset(nkv as int, kv_stride as int, hd as int, 0, i, pos_start + k)]
                    0 <= i < h ==> {
                        let dst = kv_offset(nkv as int, kv_stride as int, hd as int, 0, i, pos_start + k);
                        let src = kv_offset(
                            nkv as int,
                            kv_stride as int,
                            hd as int,
                            0,
                            i,
                            pos_start + from,
                        );
                        after@.subrange(dst, dst + hd) == before@.subrange(src, src + hd)
                    },
            decreases nkv - h,
        {
            proof {
                lemma_kv_in_range(nkv as int, kv_stride as int, hd as int, h as int, pos_start + k);
                lemma_kv_in_range(nkv as int, kv_stride as int, hd as int, h as int, pos_start + from);
            }
            let dst: usize = (h * kv_stride + pos_start + k) * hd;
            let src: usize = (h * kv_stride + pos_start + from) * hd;
            proof {
                assert(dst == kv_offset(nkv as int, kv_stride as int, hd as int, 0, h as int, pos_start + k)) by {
                    assert(0 * nkv == 0);
                    assert(h * kv_stride + pos_start + k == h * kv_stride + (pos_start + k));
                }
                assert(src == kv_offset(nkv as int, kv_stride as int, hd as int, 0, h as int, pos_start + from)) by {
                    assert(0 * nkv == 0);
                    assert(h * kv_stride + pos_start + from == h * kv_stride + (pos_start + from));
                }
            }
            if !same_bits(before, src, after, dst, hd) {
                proof {
                    let g = kv_offset(nkv as int, kv_stride as int, hd as int, 0, h as int, pos_start + k);
                    assert(g == dst);
                }
                return false;
            }
            h = h + 1;
        }
        k = k + 1;
        proof {
            let t = src_pos@.take(k as int);
            let t0 = src_pos@.take(k - 1);
            assert forall|q: int, i: int|
                #![trigger kv_offset(nkv as int, kv_stride as int, hd as int, 0, i, pos_start + q)]
                0 <= q < t.len() && 0 <= i < nkv implies {
                let dst = kv_offset(nkv as int, kv_stride as int, hd as int, 0, i, pos_start + q);
                let src = kv_offset(nkv as int, kv_stride as int, hd as int, 0, i, pos_start + t[q]);
                after@.subrange(dst, dst + hd) == before@.subrange(src, src + hd)
            } by {
                if q < k - 1 {
                    assert(t0[q] == t[q]);
                } else {
                    assert(t[q] == from);
                }
            }
        }
    }
    proof {
        assert(src_pos@.take(src_pos@.len() as int) =~= src_pos@);
    }
    true
}

proof fn lemma_kv_in_range(nkv: int, kv_stride: int, hd: int, h: int, pos: int)
    requires
        0 <= h < nkv,
        0 <= pos < kv_stride,
        0 <= hd,
    ensures
        0 <= h * kv_stride,
        h * kv_stride + pos < nkv * kv_stride,
        0 <= (h * kv_stride + pos) * hd,
        (h * kv_stride + pos) * hd + hd <= nkv * kv_stride * hd,
{
    assert(0 <= h * kv_stride) by (nonlinear_arith)
        requires
            0 <= h,
            0 <= pos < kv_stride,
    ;
    assert(h * kv_stride + kv_stride <= nkv * kv_stride) by (nonlinear_arith)
        requires
            0 <= h < nkv,
            0 < kv_stride,
    ;
    let a = h * kv_stride + pos;
    let b = nkv * kv_stride;
    assert(a * hd + hd <= b * hd) by (nonlinear_arith)
        requires
            a + 1 <= b,
            0 <= hd,
    ;
    assert(0 <= a * hd) by (nonlinear_arith)
        requires
            0 <= a,
            0 <= hd,
    ;
}

/// The two branches of a twin fork are the same computation: at equal depth they have the same tokens
/// behind them.
pub proof fn law_twin_branches_have_equal_paths(committed: u32, vocab: int, depth: int, i: int)
    requires
        2 <= depth,
        2 * depth <= i32::MAX,
        1 <= i < depth,
    ensures
        is_forest(fork_parent(depth - 1, depth - 1)),
        ({
            let parent = fork_parent(depth - 1, depth - 1);
            let drafts = planted_drafts(vocab, depth, 131, 7);
            let tokens = seq![committed] + drafts + drafts;
            path_tokens(parent, tokens, i) == path_tokens(parent, tokens, depth - 1 + i)
        }),
    decreases i,
{
    let parent = fork_parent(depth - 1, depth - 1);
    let drafts = planted_drafts(vocab, depth, 131, 7);
    let tokens = seq![committed] + drafts + drafts;
    let n = parent.len();
    assert forall|c: int| 0 <= c < parent.len() implies #[trigger] parent[c] < c by {}
    law_earlier_parents_form_a_forest(parent);
    let c = i;
    let d = depth - 1 + i;
    assert(reaches_root(parent, c, n));
    assert(reaches_root(parent, d, n));
    assert(parent[c] == c - 1);
    lemma_fuel(parent, parent[c] as int, (n - 1) as nat, n);
    lemma_fuel(parent, parent[d] as int, (n - 1) as nat, n);
    assert(ancestry(parent, c) == ancestry(parent, parent[c] as int).push(c as i32));
    assert(ancestry(parent, d) == ancestry(parent, parent[d] as int).push(d as i32));
    assert(tokens[c] == drafts[c - 1]);
    assert(tokens[d] == drafts[i - 1]);
    if i > 1 {
        law_twin_branches_have_equal_paths(committed, vocab, depth, i - 1);
        assert(parent[d] == d - 1);
    } else {
        assert(parent[d] == 0);
    }
    assert(path_tokens(parent, tokens, c) =~= path_tokens(parent, tokens, parent[c] as int).push(
        tokens[c],
    ));
    assert(path_tokens(parent, tokens, d) =~= path_tokens(parent, tokens, parent[d] as int).push(
        tokens[d],
    ));
}

} // verus!
