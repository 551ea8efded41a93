//! Accepting a path through a drafted tree, compacting its KV entries, and the planted trees that
//! check the verify bit for bit.
use vstd::prelude::*;

use crate::gpu::mtp::{fork_parent, fork_parents, greedy};
use crate::gpu::topo::{ancestors, ancestry, is_forest, lemma_fuel, lemma_path_len, reaches_root, root_path};
use crate::seqs::extend_range;

verus! {

/// Column `c` continues column `cur` with the token `want`.
pub open spec fn continues(parent: Seq<i32>, tokens: Seq<u32>, cur: int, want: u32, c: int) -> bool {
    1 <= c < parent.len() && parent[c] == cur && tokens[c] == want
}

/// The path and the emitted tokens of an accept walk from the root: every column's prediction is
/// emitted, the walk follows the first child that carries it, and ends where no child does.
pub open spec fn is_accept_walk(
    parent: Seq<i32>,
    tokens: Seq<u32>,
    preds: Seq<u32>,
    path: Seq<usize>,
    out: Seq<u32>,
) -> bool {
    &&& is_partial_walk(parent, tokens, preds, path, out)
    &&& forall|c: int|
        !continues(parent, tokens, path.last() as int, preds[path.last() as int], c)
}

/// A walk that may still go on.
pub open spec fn is_partial_walk(
    parent: Seq<i32>,
    tokens: Seq<u32>,
    preds: Seq<u32>,
    path: Seq<usize>,
    out: Seq<u32>,
) -> bool {
    &&& path.len() >= 1
    &&& path[0] == 0
    &&& out == path.map_values(|c: usize| preds[c as int])
    &&& forall|k: int|
        #![trigger path[k]]
        1 <= k < path.len() ==> {
            let cur = path[k - 1] as int;
            &&& continues(parent, tokens, cur, preds[cur], path[k] as int)
            &&& forall|c: int| c < path[k] ==> !continues(parent, tokens, cur, preds[cur], c)
        }
    &&& forall|k: int| 0 <= k < path.len() ==> (#[trigger] path[k]) < parent.len()
}

/// The first child of `cur` that carries `want`.
fn child_with(parent: &[i32], tokens: &[u32], cur: usize, want: u32) -> (r: Option<usize>)
    requires
        parent.len() == tokens.len(),
        parent.len() <= i32::MAX,
        cur < parent.len(),
    ensures
        match r {
            Some(c) => continues(parent@, tokens@, cur as int, want, c as int) && forall|i: int|
                i < c ==> !continues(parent@, tokens@, cur as int, want, i),
            None => forall|i: int| !continues(parent@, tokens@, cur as int, want, i),
        },
{
    let mut c: usize = 1;
    while c < parent.len()
        invariant
            1 <= c,
            parent.len() == tokens.len(),
            parent.len() <= i32::MAX,
            cur < parent.len(),
            forall|i: int| i < c ==> !continues(parent@, tokens@, cur as int, want, i),
        decreases parent.len() - c,
    {
        if parent[c] == cur as i32 && tokens[c] == want {
            return Some(c);
        }
        c = c + 1;
    }
    None
}

/// Walks a verified tree from the root, emitting the model's prediction at every column and following
/// the child that drafted it.
pub fn accept_walk(parent: &[i32], tokens: &[u32], preds: &[u32]) -> (r: (Vec<usize>, Vec<u32>))
    requires
        1 <= parent.len() <= i32::MAX,
        tokens.len() == parent.len(),
        preds.len() == parent.len(),
        is_forest(parent@),
    ensures
        is_accept_walk(parent@, tokens@, preds@, r.0@, r.1@),
{
    let ghost n = parent.len() as nat;
    let mut path: Vec<usize> = vec![0];
    let mut out: Vec<u32> = Vec::new();
    let mut cur: usize = 0;
    let ghost mut depth: nat = 0;
    proof {
        lemma_path_len(parent@, 0, n);
        assert(out@.push(preds@[0]) =~= path@.map_values(|c: usize| preds@[c as int]));
    }
    loop
        invariant
            1 <= parent.len() <= i32::MAX,
            n == parent.len(),
            tokens.len() == parent.len(),
            preds.len() == parent.len(),
            is_forest(parent@),
            path@.len() >= 1,
            cur == path@.last(),
            cur < parent.len(),
            is_partial_walk(parent@, tokens@, preds@, path@, out@.push(preds@[cur as int])),
            root_path(parent@, cur as int, n).len() >= depth + 1,
            depth < n,
        decreases n - depth,
    {
        let want: u32 = preds[cur];
        let ghost out0 = out@;
        out.push(want);
        match child_with(parent, tokens, cur, want) {
            Some(c) => {
                proof {
                    let p0 = path@;
                    let p1 = path@.push(c);
                    assert(reaches_root(parent@, c as int, n));
                    assert(root_path(parent@, c as int, n) == root_path(
                        parent@,
                        cur as int,
                        (n - 1) as nat,
                    ).push(c as i32));
                    lemma_fuel(parent@, cur as int, (n - 1) as nat, n);
                    lemma_path_len(parent@, c as int, n);
                    depth = depth + 1;
                    let o1 = out@.push(preds@[c as int]);
                    assert(o1 =~= p1.map_values(|c: usize| preds@[c as int])) by {
                        assert(out@ =~= p0.map_values(|c: usize| preds@[c as int]));
                    }
                    assert forall|k: int| #![trigger p1[k]] 1 <= k < p1.len() implies {
                        let u = p1[k - 1] as int;
                        &&& continues(parent@, tokens@, u, preds@[u], p1[k] as int)
                        &&& forall|i: int|
                            i < p1[k] ==> !continues(parent@, tokens@, u, preds@[u], i)
                    } by {
                        if k < p0.len() {
                            assert(p1[k] == p0[k]);
                            assert(p1[k - 1] == p0[k - 1]);
                        }
                    }
                }
                path.push(c);
                cur = c;
            },
            None => {
                return (path, out);
            },
        }
    }
}

/// Tokens on the way from the root to column `c`.
pub open spec fn path_tokens(parent: Seq<i32>, tokens: Seq<u32>, c: int) -> Seq<u32> {
    ancestry(parent, c).map_values(|x: i32| tokens[x as int])
}

/// Every column of the tree predicts what the model says after `base` and the tokens on its path.
pub open spec fn tree_predictions_of(
    next: spec_fn(Seq<u32>) -> u32,
    base: Seq<u32>,
    parent: Seq<i32>,
    tokens: Seq<u32>,
    preds: Seq<u32>,
) -> bool {
    forall|c: int|
        0 <= c < parent.len() ==> #[trigger] preds[c] == next(base + path_tokens(parent, tokens, c))
}

/// A child's path is its parent's path and the child.
proof fn lemma_child_path(parent: Seq<i32>, tokens: Seq<u32>, cur: int, c: int)
    requires
        is_forest(parent),
        0 <= c < parent.len() <= i32::MAX,
        parent[c] == cur,
        0 <= cur < parent.len(),
    ensures
        path_tokens(parent, tokens, c) == path_tokens(parent, tokens, cur).push(tokens[c]),
{
    let n = parent.len();
    assert(reaches_root(parent, c, n));
    lemma_fuel(parent, cur, (n - 1) as nat, n);
    assert(ancestry(parent, c) == ancestry(parent, cur).push(c as i32));
    assert(path_tokens(parent, tokens, c) =~= path_tokens(parent, tokens, cur).push(tokens[c]));
}

/// Walking a tree is lossless: whatever was drafted, the emitted tokens are exactly the next tokens
/// of greedy decoding after the committed one.
pub proof fn law_tree_walk_is_lossless(
    next: spec_fn(Seq<u32>) -> u32,
    base: Seq<u32>,
    parent: Seq<i32>,
    tokens: Seq<u32>,
    preds: Seq<u32>,
    path: Seq<usize>,
    out: Seq<u32>,
)
    requires
        1 <= parent.len() <= i32::MAX,
        tokens.len() == parent.len(),
        preds.len() == parent.len(),
        is_forest(parent),
        parent[0] < 0,
        tree_predictions_of(next, base, parent, tokens, preds),
        is_accept_walk(parent, tokens, preds, path, out),
    ensures
        out == greedy(next, base.push(tokens[0]), out.len()),
{
    lemma_walk_prefix(next, base, parent, tokens, preds, path, out, path.len() as int);
    assert(out.take(path.len() as int) =~= out);
}

proof fn lemma_walk_prefix(
    next: spec_fn(Seq<u32>) -> u32,
    base: Seq<u32>,
    parent: Seq<i32>,
    tokens: Seq<u32>,
    preds: Seq<u32>,
    path: Seq<usize>,
    out: Seq<u32>,
    k: int,
)
    requires
        1 <= parent.len() <= i32::MAX,
        tokens.len() == parent.len(),
        preds.len() == parent.len(),
        is_forest(parent),
        parent[0] < 0,
        tree_predictions_of(next, base, parent, tokens, preds),
        is_partial_walk(parent, tokens, preds, path, out),
        1 <= k <= path.len(),
    ensures
        out.take(k) == greedy(next, base.push(tokens[0]), k as nat),
        path_tokens(parent, tokens, path[k - 1] as int) == seq![tokens[0]] + out.take(k - 1),
    decreases k,
{
    let ctx = base.push(tokens[0]);
    let at = path[k - 1] as int;
    if k == 1 {
        let n = parent.len();
        assert(reaches_root(parent, 0, n));
        assert(root_path(parent, parent[0] as int, (n - 1) as nat) =~= Seq::<i32>::empty());
        assert(ancestry(parent, 0) =~= seq![0i32]);
        assert(path_tokens(parent, tokens, 0) =~= seq![tokens[0]]);
        assert(seq![tokens[0]] + out.take(0) =~= seq![tokens[0]]);
        assert(greedy(next, ctx, 0) =~= out.take(0));
    } else {
        lemma_walk_prefix(next, base, parent, tokens, preds, path, out, k - 1);
        let cur = path[k - 2] as int;
        assert(path[k - 1] == path[k - 1]);
        assert(continues(parent, tokens, cur, preds[cur], at));
        lemma_child_path(parent, tokens, cur, at);
        assert(out[k - 2] == preds[cur]);
        assert(out.take(k - 1) =~= out.take(k - 2).push(out[k - 2]));
        assert(seq![tokens[0]] + out.take(k - 1) =~= (seq![tokens[0]] + out.take(k - 2)).push(
            out[k - 2],
        ));
    }
    assert(out[k - 1] == preds[at]);
    assert(base + (seq![tokens[0]] + out.take(k - 1)) =~= ctx + out.take(k - 1));
    assert(out.take(k) =~= out.take(k - 1).push(out[k - 1]));
}

/// The tokens from the root to column `c`, as an independent chain would verify them.
pub fn chain_of_column(parent: &[i32], tokens: &[u32], c: usize) -> (r: Vec<u32>)
    requires
        is_forest(parent@),
        parent.len() <= i32::MAX,
        tokens.len() == parent.len(),
        c < parent.len(),
    ensures
        r@ == path_tokens(parent@, tokens@, c as int),
        r@.len() >= 1,
{
    let up: Vec<i32> = ancestors(parent, c);
    let mut r: Vec<u32> = Vec::new();
    let mut i: usize = 0;
    while i < up.len()
        invariant
            i <= up.len(),
            tokens.len() == parent.len(),
            forall|i: int| 0 <= i < up@.len() ==> 0 <= #[trigger] up@[i] < parent.len(),
            r@ == up@.take(i as int).map_values(|x: i32| tokens@[x as int]),
        decreases up.len() - i,
    {
        r.push(tokens[up[i] as usize]);
        i = i + 1;
        proof {
            assert(up@.take(i as int) =~= up@.take(i - 1).push(up@[i - 1]));
            assert(r@ =~= up@.take(i as int).map_values(|x: i32| tokens@[x as int]));
        }
    }
    proof {
        assert(up@.take(up@.len() as int) =~= up@);
    }
    r
}

// ---- KV compaction of an accepted path ----

/// The accepted columns already stand where a chain would have written them.
pub fn already_contiguous(src_pos: &[usize]) -> (b: bool)
    ensures
        b == (forall|k: int| 0 <= k < src_pos.len() ==> #[trigger] src_pos@[k] == k),
{
    let mut k: usize = 0;
    while k < src_pos.len()
        invariant
            k <= src_pos.len(),
            forall|i: int| 0 <= i < k ==> #[trigger] src_pos@[i] == i,
        decreases src_pos.len() - k,
    {
        if src_pos[k] != k {
            proof {
                assert(src_pos@[k as int] != k);
            }
            return false;
        }
        k = k + 1;
    }
    true
}

/// Element offset of position `pos` of KV head `head` of lane `slot`.
pub open spec fn kv_offset(nkv: int, kv_stride: int, hd: int, slot: int, head: int, pos: int) -> int {
    ((slot * nkv + head) * kv_stride + pos) * hd
}

/// After compaction, position `pos_start + k` of every head holds what position
/// `pos_start + src_pos[k]` held before.
pub open spec fn is_compacted(
    before: Seq<u16>,
    after: Seq<u16>,
    nkv: int,
    kv_stride: int,
    hd: int,
    slot: int,
    pos_start: int,
    src_pos: Seq<usize>,
) -> bool {
    forall|k: int, h: int|
        #![trigger kv_offset(nkv, kv_stride, hd, slot, h, pos_start + k)]
        0 <= k < src_pos.len() && 0 <= h < nkv ==> {
            let dst = kv_offset(nkv, kv_stride, hd, slot, h, pos_start + k);
            let src = kv_offset(nkv, kv_stride, hd, slot, h, pos_start + src_pos[k]);
            after.subrange(dst, dst + hd) == before.subrange(src, src + hd)
        }
}

/// Two runs of `w` elements hold the same bits.
pub fn same_bits(a: &[u16], ia: usize, b: &[u16], ib: usize, w: usize) -> (eq: bool)
    requires
        ia + w <= a.len(),
        ib + w <= b.len(),
    ensures
        eq == (a@.subrange(ia as int, ia + w) == b@.subrange(ib as int, ib + w)),
{
    let mut i: usize = 0;
    while i < w
        invariant
            i <= w,
            ia + w <= a.len(),
            ib + w <= b.len(),
            a@.subrange(ia as int, ia + i) == b@.subrange(ib as int, ib + i),
        decreases w - i,
    {
        if a[ia + i] != b[ib + i] {
            proof {
                assert(a@.subrange(ia as int, ia + w)[i as int] != b@.subrange(ib as int, ib + w)[
                    i as int
                ]);
            }
            return false;
        }
        i = i + 1;
        proof {
            assert(a@.subrange(ia as int, ia + i) =~= a@.subrange(ia as int, ia + i - 1).push(
                a@[ia + i - 1],
            ));
            assert(b@.subrange(ib as int, ib + i) =~= b@.subrange(ib as int, ib + i - 1).push(
                b@[ib + i - 1],
            ));
        }
    }
    true
}

// ---- planted trees ----

/// Draft tokens of a planted check: `i * step + first`, folded into `1..vocab`.
pub open spec fn planted_drafts(vocab: int, depth: int, step: int, first: int) -> Seq<u32> {
    Seq::new((depth - 1) as nat, |i: int| ((i * step + first) % (vocab - 1) + 1) as u32)
}

/// Draft tokens of a planted check.
pub fn plant_drafts(vocab: usize, depth: usize, step: usize, first: usize) -> (r: Vec<u32>)
    requires
        2 <= vocab <= u32::MAX,
        1 <= depth,
        depth * step + first <= usize::MAX,
    ensures
        r@ == planted_drafts(vocab as int, depth as int, step as int, first as int),
{
    let mut r: Vec<u32> = Vec::new();
    let mut i: usize = 0;
    while i < depth - 1
        invariant
            2 <= vocab <= u32::MAX,
            1 <= depth,
            i <= depth - 1,
            depth * step + first <= usize::MAX,
            r@ == planted_drafts(vocab as int, i + 1, step as int, first as int),
        decreases depth - i,
    {
        proof {
            assert(i * step <= depth * step) by (nonlinear_arith)
                requires
                    i <= depth,
            ;
        }
        r.push(((i * step + first) % (vocab - 1) + 1) as u32);
        i = i + 1;
        proof {
            assert(r@ =~= planted_drafts(vocab as int, i + 1, step as int, first as int));
        }
    }
    proof {
        assert(r@ =~= planted_drafts(vocab as int, depth as int, step as int, first as int));
    }
    r
}

/// A fork whose two branches carry the same drafts: parents and tokens.
pub fn twin_tree(committed: u32, vocab: usize, depth: usize) -> (r: (Vec<i32>, Vec<u32>))
    requires
        2 <= vocab <= u32::MAX,
        2 <= depth,
        2 * depth <= i32::MAX,
        depth * 131 + 7 <= usize::MAX,
    ensures
        r.0@ == fork_parent(depth - 1, depth - 1),
        r.1@ == seq![committed] + planted_drafts(vocab as int, depth as int, 131, 7)
            + planted_drafts(vocab as int, depth as int, 131, 7),
{
    let drafts: Vec<u32> = plant_drafts(vocab, depth, 131, 7);
    let mut tokens: Vec<u32> = vec![committed];
    extend_range(&mut tokens, drafts.as_slice(), 0, drafts.len());
    extend_range(&mut tokens, drafts.as_slice(), 0, drafts.len());
    proof {
        assert(drafts@.subrange(0, drafts@.len() as int) =~= drafts@);
    }
    (fork_parents(depth - 1, depth - 1), tokens)
}

/// A fork whose first branch is a single token the model does not want and whose second branch is the
/// model's own continuation.
pub fn decoy_tree(continuation: &[u32], depth: usize) -> (r: (Vec<i32>, Vec<u32>))
    requires
        2 <= depth,
        depth + 1 <= i32::MAX,
        continuation.len() > depth,
    ensures
        r.0@ == fork_parent(1, depth - 1),
        r.1@.len() == depth + 1,
        r.1@[0] == continuation@[0],
        r.1@[1] == (if continuation@[1] == 1 {
            2u32
        } else {
            1u32
        }),
        r.1@.subrange(2, depth + 1) == continuation@.subrange(1, depth as int),
{
    let decoy: u32 = if continuation[1] == 1 {
        2
    } else {
        1
    };
    let mut tokens: Vec<u32> = vec![continuation[0], decoy];
    extend_range(&mut tokens, continuation, 1, depth);
    proof {
        assert(tokens@.subrange(2, depth + 1) =~= continuation@.subrange(1, depth as int));
    }
    (fork_parents(1, depth - 1), tokens)
}

/// One step of the xorshift generator behind the random trees.
pub open spec fn xorshift(x: u64) -> u64 {
    let a = x ^ (x << 13);
    let b = a ^ (a >> 7);
    b ^ (b << 17)
}

/// The generator after `k` steps from `seed | 1`.
pub open spec fn xorshift_at(seed: u64, k: nat) -> u64
    decreases k,
{
    if k == 0 {
        seed | 1
    } else {
        xorshift(xorshift_at(seed, (k - 1) as nat))
    }
}

fn xorshift_step(x: u64) -> (r: u64)
    ensures
        r == xorshift(x),
{
    let a: u64 = x ^ (x << 13);
    let b: u64 = a ^ (a >> 7);
    b ^ (b << 17)
}

/// A random tree of `n` columns and random tokens: column `c` hangs from a random earlier column.
pub fn random_tree(committed: u32, vocab: usize, n: usize, seed: u64) -> (r: (Vec<i32>, Vec<u32>))
    requires
        1 <= n <= i32::MAX,
        3 <= vocab <= u32::MAX,
    ensures
        r.0@ == Seq::new(
            n as nat,
            |c: int|
                if c == 0 {
                    -1i32
                } else {
                    (xorshift_at(seed, c as nat) % (c as u64)) as i32
                },
        ),
        r.1@ == Seq::new(
            n as nat,
            |c: int|
                if c == 0 {
                    committed
                } else {
                    (xorshift_at(seed, (n - 1 + c) as nat) % ((vocab - 2) as u64) + 1) as u32
                },
        ),
{
    let mut rng: u64 = seed | 1;
    let mut parent: Vec<i32> = vec![-1];
    let mut c: usize = 1;
    while c < n
        invariant
            1 <= c <= n <= i32::MAX,
            rng == xorshift_at(seed, (c - 1) as nat),
            parent@ == Seq::new(
                c as nat,
                |c: int|
                    if c == 0 {
                        -1i32
                    } else {
                        (xorshift_at(seed, c as nat) % (c as u64)) as i32
                    },
            ),
        decreases n - c,
    {
        rng = xorshift_step(rng);
        parent.push((rng % (c as u64)) as i32);
        c = c + 1;
    }
    let mut tokens: Vec<u32> = vec![committed];
    let mut i: usize = 1;
    while i < n
        invariant
            1 <= i <= n <= i32::MAX,
            3 <= vocab <= u32::MAX,
            rng == xorshift_at(seed, (n - 1 + i - 1) as nat),
            tokens@ == Seq::new(
                i as nat,
                |c: int|
                    if c == 0 {
                        committed
                    } else {
                        (xorshift_at(seed, (n - 1 + c) as nat) % ((vocab - 2) as u64) + 1) as u32
                    },
            ),
        decreases n - i,
    {
        rng = xorshift_step(rng);
        tokens.push((rng % ((vocab - 2) as u64) + 1) as u32);
        i = i + 1;
    }
    (parent, tokens)
}

} // verus!
