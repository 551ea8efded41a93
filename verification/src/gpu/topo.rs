//! Column topology of a multi-token verify: chains, trees and forests of lanes.
use vstd::prelude::*;

use crate::seqs::flat;

verus! {

/// Widest verify that the persistent scratch buffers are sized for.
pub const MAX_VERIFY: usize = 16;

/// A tree (or forest) of verify columns. All tables hold one entry per column, except `path`
/// (`MAX_VERIFY` per column) and `winsrc` (one per convolution tap per column).
pub struct TreeTopo {
    /// Logical position of the column: prefix length plus depth in the tree.
    pub rope: Vec<i32>,
    /// KV-cache slot that the column writes; distinct for every column.
    pub kv_pos: Vec<i32>,
    /// Parent column, negative for a root.
    pub parent: Vec<i32>,
    /// For column `b` and rank `d`: KV-slot offset of the ancestor of `b` at depth `d`.
    pub path: Vec<u8>,
    /// Input column of every convolution tap; negative values reach into the committed tail.
    pub winsrc: Vec<i32>,
    /// Lane of each column when several lanes share one verify.
    pub slot: Option<Vec<i32>>,
    /// Committed length of each column's lane when several lanes share one verify.
    pub col_pos_start: Option<Vec<i32>>,
}

/// Following parents from `x` leaves the tree at a root within `fuel` steps.
pub open spec fn reaches_root(parent: Seq<i32>, x: int, fuel: nat) -> bool
    decreases fuel,
{
    x < 0 || (x < parent.len() && fuel > 0 && reaches_root(
        parent,
        parent[x] as int,
        (fuel - 1) as nat,
    ))
}

/// Every column hangs, through finitely many parents, from a root.
pub open spec fn is_forest(parent: Seq<i32>) -> bool {
    forall|c: int| 0 <= c < parent.len() ==> #[trigger] reaches_root(parent, c, parent.len())
}

/// The columns from the root down to `x`, root first.
pub open spec fn root_path(parent: Seq<i32>, x: int, fuel: nat) -> Seq<i32>
    decreases fuel,
{
    if x < 0 || fuel == 0 {
        Seq::empty()
    } else {
        root_path(parent, parent[x] as int, (fuel - 1) as nat).push(x as i32)
    }
}

/// The columns from the root of column `c` down to `c` itself.
pub open spec fn ancestry(parent: Seq<i32>, c: int) -> Seq<i32> {
    root_path(parent, c, parent.len())
}

/// Depth of column `c`: 0 for a root.
pub open spec fn depth_of(parent: Seq<i32>, c: int) -> int {
    ancestry(parent, c).len() - 1
}

/// The `path` row of column `c`: its ancestors by depth, padded with zeros.
pub open spec fn path_row(parent: Seq<i32>, c: int) -> Seq<u8> {
    Seq::new(
        MAX_VERIFY as nat,
        |d: int|
            if d < ancestry(parent, c).len() {
                ancestry(parent, c)[d] as u8
            } else {
                0u8
            },
    )
}

/// Source of one convolution tap for a column whose ancestors are `up`: the ancestor at depth `wd`,
/// or, above the root, the distance `wd` back into the committed tail.
pub open spec fn tap_source(up: Seq<i32>, wd: int) -> i32 {
    if wd < 0 {
        wd as i32
    } else {
        up[wd]
    }
}

/// The `winsrc` row of column `c` for a kernel of `ck` taps.
pub open spec fn window_row(parent: Seq<i32>, ck: int, c: int) -> Seq<i32> {
    Seq::new(
        ck as nat,
        |j: int| tap_source(ancestry(parent, c), depth_of(parent, c) - (ck - 1) + j),
    )
}

impl TreeTopo {
    /// This is the tree of `parent` whose committed prefix has `pos_start` tokens.
    pub open spec fn is_tree_of(&self, parent: Seq<i32>, pos_start: int, ck: int) -> bool {
        let n = parent.len();
        &&& self.parent@ == parent
        &&& self.rope@ == Seq::new(n, |c: int| (pos_start + depth_of(parent, c)) as i32)
        &&& self.kv_pos@ == Seq::new(n, |c: int| (pos_start + c) as i32)
        &&& self.path@ == flat(n, |c: int| path_row(parent, c))
        &&& self.winsrc@ == flat(n, |c: int| window_row(parent, ck, c))
        &&& self.slot is None
        &&& self.col_pos_start is None
    }
}

/// More fuel than a column needs changes neither its reachability nor its path.
pub proof fn lemma_fuel(parent: Seq<i32>, x: int, fuel: nat, more: nat)
    requires
        reaches_root(parent, x, fuel),
        fuel <= more,
    ensures
        reaches_root(parent, x, more),
        root_path(parent, x, more) == root_path(parent, x, fuel),
    decreases fuel,
{
    if x >= 0 {
        lemma_fuel(parent, parent[x] as int, (fuel - 1) as nat, (more - 1) as nat);
    }
}

/// A path holds at most one column per unit of fuel.
pub proof fn lemma_path_len(parent: Seq<i32>, x: int, fuel: nat)
    ensures
        root_path(parent, x, fuel).len() <= fuel,
        x >= 0 && fuel > 0 ==> root_path(parent, x, fuel).len() >= 1,
    decreases fuel,
{
    if x >= 0 && fuel > 0 {
        lemma_path_len(parent, parent[x] as int, (fuel - 1) as nat);
    }
}

/// The columns on a path are columns of the tree.
proof fn lemma_path_members(parent: Seq<i32>, x: int, fuel: nat)
    requires
        reaches_root(parent, x, fuel),
        parent.len() <= i32::MAX,
    ensures
        forall|i: int|
            0 <= i < root_path(parent, x, fuel).len() ==> 0 <= #[trigger] root_path(
                parent,
                x,
                fuel,
            )[i] < parent.len(),
    decreases fuel,
{
    if x >= 0 {
        let up = root_path(parent, parent[x] as int, (fuel - 1) as nat);
        lemma_path_members(parent, parent[x] as int, (fuel - 1) as nat);
        assert forall|i: int| 0 <= i < root_path(parent, x, fuel).len() implies 0
            <= #[trigger] root_path(parent, x, fuel)[i] < parent.len() by {
            assert(root_path(parent, x, fuel) == up.push(x as i32));
            if i < up.len() {
                assert(0 <= up[i] < parent.len());
            }
        }
    }
}

/// Columns that all hang from earlier columns (or are roots) form a forest, and no path is longer than
/// its column's index allows.
pub proof fn law_earlier_parents_form_a_forest(parent: Seq<i32>)
    requires
        forall|c: int| 0 <= c < parent.len() ==> #[trigger] parent[c] < c,
    ensures
        is_forest(parent),
        forall|c: int|
            0 <= c < parent.len() ==> 1 <= (#[trigger] ancestry(parent, c)).len() <= c + 1,
{
    assert forall|c: int| 0 <= c < parent.len() implies #[trigger] reaches_root(
        parent,
        c,
        parent.len(),
    ) by {
        lemma_earlier_parents(parent, c, parent.len());
    }
    assert forall|c: int| 0 <= c < parent.len() implies 1 <= (#[trigger] ancestry(parent, c)).len()
        <= c + 1 by {
        lemma_earlier_parents(parent, c, parent.len());
        lemma_path_len(parent, c, parent.len());
    }
}

proof fn lemma_earlier_parents(parent: Seq<i32>, x: int, fuel: nat)
    requires
        forall|c: int| 0 <= c < parent.len() ==> #[trigger] parent[c] < c,
        x < parent.len(),
        fuel >= x + 1,
    ensures
        reaches_root(parent, x, fuel),
        x >= 0 ==> root_path(parent, x, fuel).len() <= x + 1,
        x < 0 ==> root_path(parent, x, fuel).len() == 0,
    decreases fuel,
{
    if x >= 0 {
        assert(parent[x] < x);
        lemma_earlier_parents(parent, parent[x] as int, (fuel - 1) as nat);
    }
}

/// The columns from the root of `c` down to `c`.
pub fn ancestors(parent: &[i32], c: usize) -> (up: Vec<i32>)
    requires
        is_forest(parent@),
        parent.len() <= i32::MAX,
        c < parent.len(),
    ensures
        up@ == ancestry(parent@, c as int),
        1 <= up@.len() <= parent.len(),
        forall|i: int| 0 <= i < up@.len() ==> 0 <= #[trigger] up@[i] < parent.len(),
{
    let n: usize = parent.len();
    let mut down: Vec<i32> = Vec::new();
    let mut x: i32 = c as i32;
    let mut left: usize = n;
    proof {
        assert(reaches_root(parent@, c as int, n as nat));
    }
    while x >= 0
        invariant
            n == parent.len(),
            n <= i32::MAX,
            left <= n,
            reaches_root(parent@, x as int, left as nat),
            root_path(parent@, x as int, left as nat) + down@.reverse() == ancestry(
                parent@,
                c as int,
            ),
        decreases left,
    {
        let ghost before = down@;
        proof {
            assert(before.push(x).reverse() =~= seq![x] + before.reverse());
        }
        down.push(x);
        let p: i32 = parent[x as usize];
        proof {
            let rest = root_path(parent@, p as int, (left - 1) as nat);
            assert(rest.push(x) + before.reverse() =~= rest + (seq![x] + before.reverse()));
        }
        x = p;
        left = left - 1;
    }
    let mut up: Vec<i32> = Vec::new();
    let mut i: usize = down.len();
    while i > 0
        invariant
            i <= down.len(),
            up@ == down@.subrange(i as int, down.len() as int).reverse(),
        decreases i,
    {
        i = i - 1;
        up.push(down[i]);
        proof {
            let tail = down@.subrange(i + 1, down.len() as int);
            assert(down@.subrange(i as int, down.len() as int) =~= seq![down@[i as int]] + tail);
            assert((seq![down@[i as int]] + tail).reverse() =~= tail.reverse().push(down@[i as int]));
        }
    }
    proof {
        assert(down@.subrange(0, down.len() as int) =~= down@);
        assert(root_path(parent@, x as int, left as nat) + down@.reverse() =~= down@.reverse());
        lemma_path_members(parent@, c as int, n as nat);
        lemma_path_len(parent@, c as int, n as nat);
    }
    up
}

/// The full topology of the tree given by `parent`, for a kernel of `ck` convolution taps.
///
/// Depth gives the rotary position, the column index gives the KV slot, and the ancestor path gives
/// both the rank-to-slot table and the convolution window, so a parent array alone describes any
/// tree.
pub fn topo_from_parent(parent: &[i32], pos_start: usize, ck: usize) -> (t: TreeTopo)
    requires
        is_forest(parent@),
        forall|c: int|
            0 <= c < parent.len() ==> (#[trigger] ancestry(parent@, c)).len() <= MAX_VERIFY,
        pos_start + parent.len() <= i32::MAX,
        1 <= ck <= i32::MAX,
    ensures
        t.is_tree_of(parent@, pos_start as int, ck as int),
{
    let n: usize = parent.len();
    let mut rope: Vec<i32> = Vec::new();
    let mut kv_pos: Vec<i32> = Vec::new();
    let mut path: Vec<u8> = Vec::new();
    let mut winsrc: Vec<i32> = Vec::new();
    let mut par: Vec<i32> = Vec::new();
    let ghost prow = |c: int| path_row(parent@, c);
    let ghost wrow = |c: int| window_row(parent@, ck as int, c);
    let mut c: usize = 0;
    while c < n
        invariant
            n == parent.len(),
            c <= n,
            is_forest(parent@),
            forall|c: int|
                0 <= c < parent.len() ==> (#[trigger] ancestry(parent@, c)).len() <= MAX_VERIFY,
            pos_start + n <= i32::MAX,
            1 <= ck <= i32::MAX,
            prow == (|c: int| path_row(parent@, c)),
            wrow == (|c: int| window_row(parent@, ck as int, c)),
            par@ == parent@.subrange(0, c as int),
            rope@ == Seq::new(c as nat, |c: int| (pos_start + depth_of(parent@, c)) as i32),
            kv_pos@ == Seq::new(c as nat, |c: int| (pos_start + c) as i32),
            path@ == flat(c as nat, prow),
            winsrc@ == flat(c as nat, wrow),
        decreases n - c,
    {
        let walk: Vec<i32> = ancestors(parent, c);
        proof {
            assert(ancestry(parent@, c as int).len() <= MAX_VERIFY);
        }
        let depth: usize = walk.len() - 1;
        rope.push((pos_start + depth) as i32);
        kv_pos.push((pos_start + c) as i32);
        par.push(parent[c]);
        let ghost path0 = path@;
        let mut dd: usize = 0;
        while dd < MAX_VERIFY
            invariant
                dd <= MAX_VERIFY,
                walk@ == ancestry(parent@, c as int),
                path@ == path0 + path_row(parent@, c as int).subrange(0, dd as int),
            decreases MAX_VERIFY - dd,
        {
            let v: u8 = if dd < walk.len() {
                #[verifier::truncate]
                (walk[dd] as u8)
            } else {
                0
            };
            path.push(v);
            dd = dd + 1;
            proof {
                let row = path_row(parent@, c as int);
                assert(row.subrange(0, dd as int) =~= row.subrange(0, dd - 1).push(v));
                assert(path@ =~= path0 + row.subrange(0, dd as int));
            }
        }
        let ghost win0 = winsrc@;
        let mut j: usize = 0;
        while j < ck
            invariant
                j <= ck,
                1 <= ck <= i32::MAX,
                walk@ == ancestry(parent@, c as int),
                depth == walk@.len() - 1,
                walk@.len() <= MAX_VERIFY,
                winsrc@ == win0 + window_row(parent@, ck as int, c as int).subrange(0, j as int),
            decreases ck - j,
        {
            let wd: i32 = depth as i32 - (ck as i32 - 1) + j as i32;
            let v: i32 = if wd < 0 {
                wd
            } else {
                walk[wd as usize]
            };
            winsrc.push(v);
            j = j + 1;
            proof {
                let row = window_row(parent@, ck as int, c as int);
                assert(row.subrange(0, j as int) =~= row.subrange(0, j - 1).push(v));
                assert(winsrc@ =~= win0 + row.subrange(0, j as int));
            }
        }
        c = c + 1;
        proof {
            let row = path_row(parent@, c - 1);
            assert(row.subrange(0, MAX_VERIFY as int) =~= row);
            let wr = window_row(parent@, ck as int, c - 1);
            assert(wr.subrange(0, ck as int) =~= wr);
            assert(prow(c - 1) == row);
            assert(wrow(c - 1) == wr);
            assert(par@ =~= parent@.subrange(0, c as int));
        }
    }
    proof {
        assert(parent@.subrange(0, n as int) =~= parent@);
    }
    TreeTopo { rope, kv_pos, parent: par, path, winsrc, slot: None, col_pos_start: None }
}

} // verus!
