//! Host tables of one multi-token verify.
use vstd::prelude::*;

use crate::gpu::topo::{
    ancestry, depth_of, is_forest, lemma_fuel, lemma_path_len, path_row, reaches_root, root_path,
    window_row, TreeTopo, MAX_VERIFY,
};
use crate::seqs::{
    fill, filled, flat, lemma_flat_ext, lemma_flat_index, lemma_flat_len, prefix,
};

verus! {

/// Everything a verify uploads before its first layer, plus the lane segments the host walks.
pub struct VerifyTables {
    /// KV-cache position per column: write offset and causal bound.
    pub pos: Vec<i32>,
    /// Rotary position per column.
    pub rope: Vec<i32>,
    /// Lane per column.
    pub slot_ids: Vec<i32>,
    /// Committed prefix length per column; absent when all columns belong to one lane.
    pub col_pos_start: Option<Vec<i32>>,
    /// `(start, len)` of each lane's run of columns.
    pub lane_segs: Vec<(usize, usize)>,
    /// Convolution-window source per column and tap.
    pub winsrc: Vec<i32>,
    /// Scan parent (low half) and lane (high half) per column.
    pub parent: Vec<i32>,
    /// Rank-to-slot table, `MAX_VERIFY` entries per column.
    pub path: Vec<u8>,
}

/// Positions of a chain of `n` columns after `pos_start` committed tokens.
pub open spec fn chain_pos(pos_start: int, n: nat) -> Seq<i32> {
    Seq::new(n, |j: int| (pos_start + j) as i32)
}

/// Parents of a chain: each column hangs from the one before it, the first is a root.
pub open spec fn chain_parent(n: nat) -> Seq<i32> {
    Seq::new(n, |j: int| (j - 1) as i32)
}

/// Window row of chain column `t`: the `ck` columns that end at `t`.
pub open spec fn chain_window_row(ck: int, t: int) -> Seq<i32> {
    Seq::new(ck as nat, |j: int| (t + j - (ck - 1)) as i32)
}

/// Rank-to-slot row of any chain column: rank `d` stands at offset `d`.
pub open spec fn chain_path_row() -> Seq<u8> {
    Seq::new(MAX_VERIFY as nat, |d: int| d as u8)
}

/// One column's scan parent and lane in one word: lane in the high half, parent in the low half.
pub open spec fn packed_parent(slot: i32, parent: i32) -> i32 {
    (((slot as u32 & 0xFFFF) << 16) | (parent as u32 & 0xFFFF)) as i32
}

/// Lane that `packed_parent` holds.
pub open spec fn unpack_slot(word: i32) -> u32 {
    (word as u32) >> 16
}

/// Parent that `packed_parent` holds.
pub open spec fn unpack_parent(word: i32) -> i32 {
    (word as u32 & 0xFFFF) as u16 as i16 as i32
}

/// Runs of columns that each begin at a root and hold no other root, in order, covering `0..n`.
pub open spec fn lane_segments(parent: Seq<i32>, n: int, segs: Seq<(usize, usize)>) -> bool {
    &&& forall|k: int|
        #![trigger segs[k]]
        0 <= k < segs.len() ==> {
            &&& segs[k].1 >= 1
            &&& segs[k].0 == (if k == 0 {
                0
            } else {
                segs[k - 1].0 + segs[k - 1].1
            })
            &&& segs[k].0 + segs[k].1 <= n
            &&& k > 0 ==> parent[segs[k].0 as int] == -1
            &&& forall|c: int|
                segs[k].0 < c < segs[k].0 + segs[k].1 ==> #[trigger] parent[c] != -1
        }
    &&& (if segs.len() == 0 {
        n == 0
    } else {
        segs.last().0 + segs.last().1 == n
    })
}

/// The scan parents that a verify of `n` columns uses.
pub open spec fn raw_parents(topo: Option<&TreeTopo>, n: nat) -> Seq<i32> {
    match topo {
        Some(t) => t.parent@.take(n as int),
        None => chain_parent(n),
    }
}

/// The lanes that a verify of `n` columns uses.
pub open spec fn lanes_of(topo: Option<&TreeTopo>, slot: usize, n: nat) -> Seq<i32> {
    match topo {
        Some(t) => match t.slot {
            Some(s) => s@.take(n as int),
            None => fill(n, slot as i32),
        },
        None => fill(n, slot as i32),
    }
}

/// `topo` has an entry for each of `n` columns in every table it carries.
pub open spec fn covers(t: &TreeTopo, n: int, ck: int) -> bool {
    &&& n <= t.kv_pos@.len()
    &&& n <= t.rope@.len()
    &&& n <= t.parent@.len()
    &&& n * MAX_VERIFY <= t.path@.len()
    &&& n * ck <= t.winsrc@.len()
    &&& t.slot matches Some(s) ==> n <= s@.len()
    &&& t.col_pos_start matches Some(s) ==> n <= s@.len()
}

impl VerifyTables {
    /// These are the tables of `n` columns on lane `slot` after `pos_start` committed tokens, with
    /// the planted topology where there is one and the chain otherwise.
    pub open spec fn describes(
        &self,
        n: nat,
        slot: usize,
        pos_start: int,
        ck: int,
        topo: Option<&TreeTopo>,
    ) -> bool {
        let lanes = lanes_of(topo, slot, n);
        let par = raw_parents(topo, n);
        &&& self.slot_ids@ == lanes
        &&& self.parent@ == Seq::new(n, |c: int| packed_parent(lanes[c], par[c]))
        &&& lane_segments(par, n as int, self.lane_segs@)
        &&& match topo {
            Some(t) => {
                &&& self.pos@ == t.kv_pos@.take(n as int)
                &&& self.rope@ == t.rope@.take(n as int)
                &&& self.winsrc@ == t.winsrc@.take(n * ck)
                &&& self.path@ == t.path@.take(n * MAX_VERIFY)
                &&& match t.col_pos_start {
                    Some(s) => self.col_pos_start matches Some(v) && v@ == s@.take(n as int),
                    None => self.col_pos_start is None,
                }
            },
            None => {
                &&& self.pos@ == chain_pos(pos_start, n)
                &&& self.rope@ == chain_pos(pos_start, n)
                &&& self.winsrc@ == flat(n, |c: int| chain_window_row(ck, c))
                &&& self.path@ == flat(n, |c: int| chain_path_row())
                &&& self.col_pos_start is None
            },
        }
    }
}

/// Positions of a chain.
fn chain_positions(pos_start: usize, n: usize) -> (r: Vec<i32>)
    requires
        pos_start + n <= i32::MAX,
    ensures
        r@ == chain_pos(pos_start as int, n as nat),
{
    let mut r: Vec<i32> = Vec::new();
    let mut j: usize = 0;
    while j < n
        invariant
            j <= n,
            pos_start + n <= i32::MAX,
            r@ == chain_pos(pos_start as int, j as nat),
        decreases n - j,
    {
        r.push((pos_start + j) as i32);
        j = j + 1;
    }
    r
}

/// Parents of a chain.
pub fn chain_parents(n: usize) -> (r: Vec<i32>)
    requires
        n <= i32::MAX,
    ensures
        r@ == chain_parent(n as nat),
{
    let mut r: Vec<i32> = Vec::new();
    let mut j: usize = 0;
    while j < n
        invariant
            j <= n <= i32::MAX,
            r@ == chain_parent(j as nat),
        decreases n - j,
    {
        r.push(j as i32 - 1);
        j = j + 1;
    }
    r
}

/// Convolution windows of a chain.
fn chain_windows(n: usize, ck: usize) -> (r: Vec<i32>)
    requires
        1 <= ck <= i32::MAX,
        n + ck <= i32::MAX,
    ensures
        r@ == flat(n as nat, |c: int| chain_window_row(ck as int, c)),
{
    let ghost row = |c: int| chain_window_row(ck as int, c);
    let mut r: Vec<i32> = Vec::new();
    let mut t: usize = 0;
    while t < n
        invariant
            t <= n,
            1 <= ck <= i32::MAX,
            n + ck <= i32::MAX,
            row == (|c: int| chain_window_row(ck as int, c)),
            r@ == flat(t as nat, row),
        decreases n - t,
    {
        let ghost r0 = r@;
        let mut j: usize = 0;
        while j < ck
            invariant
                t < n,
                j <= ck <= i32::MAX,
                1 <= ck,
                n + ck <= i32::MAX,
                r@ == r0 + chain_window_row(ck as int, t as int).take(j as int),
            decreases ck - j,
        {
            let v: i32 = t as i32 + j as i32 - (ck as i32 - 1);
            r.push(v);
            j = j + 1;
            proof {
                let full = chain_window_row(ck as int, t as int);
                assert(full.take(j as int) =~= full.take(j - 1).push(v));
                assert(r@ =~= r0 + full.take(j as int));
            }
        }
        t = t + 1;
        proof {
            let full = chain_window_row(ck as int, t - 1);
            assert(full.take(ck as int) =~= full);
            assert(row(t - 1) == full);
        }
    }
    r
}

/// Rank-to-slot table of a chain.
fn chain_paths(n: usize) -> (r: Vec<u8>)
    ensures
        r@ == flat(n as nat, |c: int| chain_path_row()),
{
    let ghost row = |c: int| chain_path_row();
    let mut r: Vec<u8> = Vec::new();
    let mut t: usize = 0;
    while t < n
        invariant
            t <= n,
            row == (|c: int| chain_path_row()),
            r@ == flat(t as nat, row),
        decreases n - t,
    {
        let ghost r0 = r@;
        let mut j: usize = 0;
        while j < MAX_VERIFY
            invariant
                j <= MAX_VERIFY,
                r@ == r0 + chain_path_row().take(j as int),
            decreases MAX_VERIFY - j,
        {
            r.push(j as u8);
            j = j + 1;
            proof {
                let full = chain_path_row();
                assert(full.take(j as int) =~= full.take(j - 1).push((j - 1) as u8));
                assert(r@ =~= r0 + full.take(j as int));
            }
        }
        t = t + 1;
        proof {
            assert(chain_path_row().take(MAX_VERIFY as int) =~= chain_path_row());
            assert(row(t - 1) == chain_path_row());
        }
    }
    r
}

/// Splits columns into lanes: a new lane begins at every root after the first column.
fn split_lanes(parent: &Vec<i32>) -> (segs: Vec<(usize, usize)>)
    ensures
        lane_segments(parent@, parent.len() as int, segs@),
{
    let n: usize = parent.len();
    let mut segs: Vec<(usize, usize)> = Vec::new();
    let mut c: usize = 0;
    while c < n
        invariant
            n == parent.len(),
            c <= n,
            c < n && c > 0 ==> parent@[c as int] == -1,
            lane_segments(parent@, c as int, segs@),
        decreases n - c,
    {
        let start: usize = c;
        c = c + 1;
        while c < n && parent[c] != -1
            invariant
                n == parent.len(),
                start < c <= n,
                forall|i: int| start < i < c ==> #[trigger] parent@[i] != -1,
            decreases n - c,
        {
            c = c + 1;
        }
        segs.push((start, c - start));
    }
    segs
}

/// Builds the tables of a verify over `n` tokens: chain defaults, overridden by a planted topology.
///
/// Wider than `MAX_VERIFY` is ruled out: such a batch would be dispatched to the prefill path, which
/// is not batch-invariant.
pub fn verify_tables(
    n: usize,
    slot: usize,
    pos_start: usize,
    ck: usize,
    topo: Option<&TreeTopo>,
) -> (t: VerifyTables)
    requires
        n <= MAX_VERIFY,
        pos_start + n <= i32::MAX,
        slot <= i32::MAX,
        1 <= ck,
        n + ck <= i32::MAX,
        topo matches Some(p) ==> covers(p, n as int, ck as int),
    ensures
        t.describes(n as nat, slot, pos_start as int, ck as int, topo),
{
    let pos: Vec<i32> = match topo {
        Some(p) => prefix(p.kv_pos.as_slice(), n),
        None => chain_positions(pos_start, n),
    };
    let rope: Vec<i32> = match topo {
        Some(p) => prefix(p.rope.as_slice(), n),
        None => chain_positions(pos_start, n),
    };
    let slot_ids: Vec<i32> = match topo {
        Some(p) => match &p.slot {
            Some(s) => prefix(s.as_slice(), n),
            None => filled(n, slot as i32),
        },
        None => filled(n, slot as i32),
    };
    let col_pos_start: Option<Vec<i32>> = match topo {
        Some(p) => match &p.col_pos_start {
            Some(s) => Some(prefix(s.as_slice(), n)),
            None => None,
        },
        None => None,
    };
    let raw: Vec<i32> = match topo {
        Some(p) => prefix(p.parent.as_slice(), n),
        None => chain_parents(n),
    };
    let lane_segs: Vec<(usize, usize)> = split_lanes(&raw);
    let winsrc: Vec<i32> = match topo {
        Some(p) => {
            let have: usize = p.winsrc.len();
            proof {
                assert(0 <= n * ck <= have) by (nonlinear_arith)
                    requires
                        n * ck <= have,
                ;
            }
            prefix(p.winsrc.as_slice(), n * ck)
        },
        None => chain_windows(n, ck),
    };
    let path: Vec<u8> = match topo {
        Some(p) => prefix(p.path.as_slice(), n * MAX_VERIFY),
        None => chain_paths(n),
    };
    let mut parent: Vec<i32> = Vec::new();
    let mut c: usize = 0;
    while c < n
        invariant
            c <= n,
            raw@.len() == n,
            slot_ids@.len() == n,
            parent@ == Seq::new(c as nat, |i: int| packed_parent(slot_ids@[i], raw@[i])),
        decreases n - c,
    {
        let s: i32 = slot_ids[c];
        let p: i32 = raw[c];
        let word: i32 = #[verifier::truncate]
        ((((s as u32) & 0xFFFF) << 16 | ((p as u32) & 0xFFFF)) as i32);
        parent.push(word);
        c = c + 1;
    }
    VerifyTables { pos, rope, slot_ids, col_pos_start, lane_segs, winsrc, parent, path }
}

/// Packing loses nothing: lanes below 2^16 and parents that fit in 16 signed bits come back.
pub proof fn law_packed_parent_round_trips(slot: i32, parent: i32)
    requires
        0 <= slot < 0x1_0000,
        -0x8000 <= parent < 0x8000,
    ensures
        unpack_slot(packed_parent(slot, parent)) == slot,
        unpack_parent(packed_parent(slot, parent)) == parent,
{
    assert(((((slot as u32 & 0xFFFF) << 16) | (parent as u32 & 0xFFFF)) as i32 as u32) >> 16
        == slot as u32) by (bit_vector)
        requires
            0 <= slot < 0x1_0000,
    ;
    assert((((((slot as u32 & 0xFFFF) << 16) | (parent as u32 & 0xFFFF)) as i32 as u32) & 0xFFFF)
        as u16 as i16 as i32 == parent) by (bit_vector)
        requires
            -0x8000 <= parent < 0x8000,
    ;
}

/// Ancestors of a chain column: all columns up to it.
pub proof fn lemma_chain_path(n: nat, x: int, fuel: nat)
    requires
        -1 <= x < n <= i32::MAX,
        fuel >= x + 1,
    ensures
        reaches_root(chain_parent(n), x, fuel),
        root_path(chain_parent(n), x, fuel) == Seq::new((x + 1) as nat, |d: int| d as i32),
    decreases fuel,
{
    if x >= 0 {
        lemma_chain_path(n, x - 1, (fuel - 1) as nat);
        assert(root_path(chain_parent(n), x, fuel) =~= Seq::new(
            (x + 1) as nat,
            |d: int| d as i32,
        ));
    } else {
        assert(root_path(chain_parent(n), x, fuel) =~= Seq::new(0, |d: int| d as i32));
    }
}

/// A chain is a tree: planting the chain's parent array uploads the same positions, lanes, parents
/// and windows as planting nothing, and the same rank-to-slot entry for every ancestor a column has.
pub proof fn law_chain_is_a_tree(
    n: nat,
    slot: usize,
    pos_start: int,
    ck: int,
    t: TreeTopo,
    planted: VerifyTables,
    plain: VerifyTables,
)
    requires
        n <= MAX_VERIFY,
        1 <= ck,
        t.is_tree_of(chain_parent(n), pos_start, ck),
        planted.describes(n, slot, pos_start, ck, Some(&t)),
        plain.describes(n, slot, pos_start, ck, None),
    ensures
        planted.pos@ == plain.pos@,
        planted.rope@ == plain.rope@,
        planted.slot_ids@ == plain.slot_ids@,
        planted.parent@ == plain.parent@,
        planted.winsrc@ == plain.winsrc@,
        forall|c: int, d: int|
            0 <= d <= c < n ==> #[trigger] planted.path@[c * MAX_VERIFY + d] == plain.path@[c
                * MAX_VERIFY + d],
{
    let par = chain_parent(n);
    assert forall|c: int| 0 <= c < n implies (#[trigger] ancestry(par, c)) == Seq::new(
        (c + 1) as nat,
        |d: int| d as i32,
    ) by {
        lemma_chain_path(n, c, n);
    }
    assert(t.kv_pos@.take(n as int) =~= t.kv_pos@);
    assert(t.parent@.take(n as int) =~= t.parent@);
    assert(t.rope@ =~= chain_pos(pos_start, n)) by {
        assert forall|c: int| 0 <= c < n implies t.rope@[c] == chain_pos(pos_start, n)[c] by {
            assert(ancestry(par, c).len() == c + 1);
        }
    }
    assert(t.rope@.take(n as int) =~= t.rope@);
    let wtree = |c: int| window_row(par, ck, c);
    let wchain = |c: int| chain_window_row(ck, c);
    assert forall|c: int| 0 <= c < n implies #[trigger] wtree(c) == wchain(c) by {
        assert(ancestry(par, c).len() == c + 1);
        assert(window_row(par, ck, c) =~= chain_window_row(ck, c));
    }
    lemma_flat_ext(n, wtree, wchain);
    lemma_flat_len(n, wtree, ck as nat);
    assert(t.winsrc@.take(n * ck) =~= t.winsrc@);
    let ptree = |c: int| path_row(par, c);
    let pchain = |c: int| chain_path_row();
    lemma_flat_len(n, ptree, MAX_VERIFY as nat);
    assert(t.path@.take(n * MAX_VERIFY) =~= t.path@);
    assert forall|c: int, d: int| 0 <= d <= c < n implies #[trigger] planted.path@[c * MAX_VERIFY
        + d] == plain.path@[c * MAX_VERIFY + d] by {
        lemma_flat_index(n, ptree, MAX_VERIFY as nat, c, d);
        lemma_flat_index(n, pchain, MAX_VERIFY as nat, c, d);
        assert(ancestry(par, c).len() == c + 1);
    }
}

/// A column of a tree is one deeper than its parent; a root has depth 0.
proof fn lemma_depth(parent: Seq<i32>, c: int)
    requires
        is_forest(parent),
        0 <= c < parent.len(),
    ensures
        parent[c] < parent.len(),
        depth_of(parent, c) == (if parent[c] < 0 {
            0
        } else {
            depth_of(parent, parent[c] as int) + 1
        }),
{
    let n = parent.len();
    assert(reaches_root(parent, c, n));
    let p = parent[c] as int;
    assert(reaches_root(parent, p, (n - 1) as nat));
    lemma_fuel(parent, p, (n - 1) as nat, n);
    assert(root_path(parent, c, n) == root_path(parent, p, (n - 1) as nat).push(c as i32));
    if p < 0 {
        assert(root_path(parent, p, (n - 1) as nat) =~= Seq::<i32>::empty());
    }
}

/// The rotary position of a verify column is where it stands in its text: a root follows the committed
/// prefix, and every other column stands one after its parent. This is the position at which a decode step
/// would have placed its token. Entries are kept side by side, column `c` at `c` after the prefix.
pub proof fn law_rotary_positions_follow_the_text(
    tables: VerifyTables,
    n: nat,
    slot: usize,
    pos_start: int,
    ck: int,
    topo: Option<&TreeTopo>,
    c: int,
)
    requires
        tables.describes(n, slot, pos_start, ck, topo),
        topo matches Some(t) ==> t.is_tree_of(t.parent@, pos_start, ck) && t.parent@.len() == n
            && is_forest(t.parent@),
        0 <= c < n,
        0 <= pos_start,
        pos_start + n <= i32::MAX,
    ensures
        tables.rope@.len() == n,
        tables.pos@.len() == n,
        tables.pos@[c] == pos_start + c,
        ({
            let p = raw_parents(topo, n)[c] as int;
            tables.rope@[c] == (if p < 0 {
                pos_start
            } else {
                tables.rope@[p] + 1
            })
        }),
{
    match topo {
        Some(t) => {
            let par = t.parent@;
            assert(par.take(n as int) =~= par);
            assert(t.rope@.take(n as int) =~= t.rope@);
            assert(t.kv_pos@.take(n as int) =~= t.kv_pos@);
            lemma_depth(par, c);
            lemma_path_len(par, c, n);
            if par[c] >= 0 {
                lemma_path_len(par, par[c] as int, n);
            }
        },
        None => {},
    }
}

} // verus!
