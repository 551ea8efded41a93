//! Several lanes packed into one verify.
use vstd::prelude::*;

use crate::gpu::topo::{TreeTopo, MAX_VERIFY};
use crate::gpu::verify::{chain_path_row, chain_window_row, VerifyTables};
use crate::seqs::{fill, flat, lemma_flat_index, lemma_flat_len};

verus! {

/// Positions of one lane: its own committed length plus the rank.
pub open spec fn lane_rope(plens: Seq<usize>, depth: int, lane: int) -> Seq<i32> {
    Seq::new(depth as nat, |r: int| (plens[lane] + r) as i32)
}

/// Parents of one lane's columns in the packed batch; the lane's first column is a root.
pub open spec fn lane_parent(depth: int, lane: int) -> Seq<i32> {
    Seq::new(
        depth as nat,
        |r: int|
            if r == 0 {
                -1i32
            } else {
                (lane * depth + r - 1) as i32
            },
    )
}

/// Rank-to-slot row of rank `r`: offsets within the lane, up to the column itself.
pub open spec fn lane_path_row(r: int) -> Seq<u8> {
    Seq::new(
        MAX_VERIFY as nat,
        |d: int|
            if d <= r {
                d as u8
            } else {
                0u8
            },
    )
}

/// Window row of rank `r` of `lane`: packed columns of the same lane, then its committed tail.
pub open spec fn lane_window_row(depth: int, ck: int, lane: int, r: int) -> Seq<i32> {
    Seq::new(
        ck as nat,
        |j: int|
            {
                let wd = r - (ck - 1) + j;
                if wd < 0 {
                    wd as i32
                } else {
                    (lane * depth + wd) as i32
                }
            },
    )
}

impl TreeTopo {
    /// This packs one chain of `depth` columns per lane, lane `l` after `plens[l]` committed tokens.
    pub open spec fn is_forest_of(&self, plens: Seq<usize>, depth: int, ck: int) -> bool {
        let lanes = plens.len();
        &&& self.rope@ == flat(lanes, |l: int| lane_rope(plens, depth, l))
        &&& self.kv_pos@ == flat(lanes, |l: int| lane_rope(plens, depth, l))
        &&& self.parent@ == flat(lanes, |l: int| lane_parent(depth, l))
        &&& self.path@ == flat(lanes, |l: int| flat(depth as nat, |r: int| lane_path_row(r)))
        &&& self.winsrc@ == flat(
            lanes,
            |l: int| flat(depth as nat, |r: int| lane_window_row(depth, ck, l, r)),
        )
        &&& self.slot matches Some(s) && s@ == flat(lanes, |l: int| fill(depth as nat, l as i32))
        &&& self.col_pos_start matches Some(s) && s@ == flat(
            lanes,
            |l: int| fill(depth as nat, plens[l] as i32),
        )
    }
}

/// The packed verify of several lanes, each a chain of `depth` columns after its own committed
/// prefix. Column `lane * depth + r` is rank `r` of `lane`.
pub fn forest_topo(plens: &[usize], depth: usize, ck: usize) -> (t: TreeTopo)
    requires
        1 <= depth <= MAX_VERIFY,
        plens.len() * depth <= i32::MAX,
        plens.len() <= i32::MAX,
        1 <= ck <= i32::MAX - MAX_VERIFY,
        forall|l: int| 0 <= l < plens.len() ==> #[trigger] plens@[l] + depth <= i32::MAX,
    ensures
        t.is_forest_of(plens@, depth as int, ck as int),
{
    let lanes: usize = plens.len();
    let ghost rope_row = |l: int| lane_rope(plens@, depth as int, l);
    let ghost par_row = |l: int| lane_parent(depth as int, l);
    let ghost slot_row = |l: int| fill(depth as nat, l as i32);
    let ghost start_row = |l: int| fill(depth as nat, plens@[l] as i32);
    let ghost pth_row = |l: int| flat(depth as nat, |r: int| lane_path_row(r));
    let ghost win_row = |l: int| flat(depth as nat, |r: int| lane_window_row(depth as int, ck as int, l, r));
    let mut rope: Vec<i32> = Vec::new();
    let mut kv_pos: Vec<i32> = Vec::new();
    let mut parent: Vec<i32> = Vec::new();
    let mut slotv: Vec<i32> = Vec::new();
    let mut cps: Vec<i32> = Vec::new();
    let mut path: Vec<u8> = Vec::new();
    let mut winsrc: Vec<i32> = Vec::new();
    let mut lane: usize = 0;
    while lane < lanes
        invariant
            lanes == plens.len(),
            lane <= lanes <= i32::MAX,
            1 <= depth <= MAX_VERIFY,
            lanes * depth <= i32::MAX,
            1 <= ck <= i32::MAX - MAX_VERIFY,
            forall|l: int| 0 <= l < plens.len() ==> #[trigger] plens@[l] + depth <= i32::MAX,
            rope_row == (|l: int| lane_rope(plens@, depth as int, l)),
            par_row == (|l: int| lane_parent(depth as int, l)),
            slot_row == (|l: int| fill(depth as nat, l as i32)),
            start_row == (|l: int| fill(depth as nat, plens@[l] as i32)),
            pth_row == (|l: int| flat(depth as nat, |r: int| lane_path_row(r))),
            win_row == (|l: int|
                flat(depth as nat, |r: int| lane_window_row(depth as int, ck as int, l, r))),
            rope@ == flat(lane as nat, rope_row),
            kv_pos@ == flat(lane as nat, rope_row),
            parent@ == flat(lane as nat, par_row),
            slotv@ == flat(lane as nat, slot_row),
            cps@ == flat(lane as nat, start_row),
            path@ == flat(lane as nat, pth_row),
            winsrc@ == flat(lane as nat, win_row),
        decreases lanes - lane,
    {
        let plen: usize = plens[lane];
        proof {
            assert(lane * depth + depth <= lanes * depth) by (nonlinear_arith)
                requires
                    lane < lanes,
            ;
            assert(plens@[lane as int] + depth <= i32::MAX);
        }
        let base: usize = lane * depth;
        let ghost rope0 = rope@;
        let ghost par0 = parent@;
        let ghost slot0 = slotv@;
        let ghost cps0 = cps@;
        let ghost path0 = path@;
        let ghost win0 = winsrc@;
        let ghost prow = |r: int| lane_path_row(r);
        let ghost wrow = |r: int| lane_window_row(depth as int, ck as int, lane as int, r);
        let mut r: usize = 0;
        while r < depth
            invariant
                lane < lanes == plens.len(),
                lanes <= i32::MAX,
                r <= depth <= MAX_VERIFY,
                base == lane * depth,
                base + depth <= i32::MAX,
                plen == plens@[lane as int],
                plen + depth <= i32::MAX,
                1 <= ck <= i32::MAX - MAX_VERIFY,
                prow == (|r: int| lane_path_row(r)),
                wrow == (|r: int| lane_window_row(depth as int, ck as int, lane as int, r)),
                rope@ == rope0 + lane_rope(plens@, depth as int, lane as int).take(r as int),
                kv_pos@ == rope@,
                parent@ == par0 + lane_parent(depth as int, lane as int).take(r as int),
                slotv@ == slot0 + fill(r as nat, lane as i32),
                cps@ == cps0 + fill(r as nat, plen as i32),
                path@ == path0 + flat(r as nat, prow),
                winsrc@ == win0 + flat(r as nat, wrow),
            decreases depth - r,
        {
            let c: usize = base + r;
            let p: i32 = if r == 0 {
                -1
            } else {
                (c - 1) as i32
            };
            parent.push(p);
            slotv.push(lane as i32);
            rope.push((plen + r) as i32);
            kv_pos.push((plen + r) as i32);
            cps.push(plen as i32);
            let ghost path1 = path@;
            let mut dd: usize = 0;
            while dd < MAX_VERIFY
                invariant
                    dd <= MAX_VERIFY,
                    path@ == path1 + lane_path_row(r as int).take(dd as int),
                decreases MAX_VERIFY - dd,
            {
                let v: u8 = if dd <= r {
                    dd as u8
                } else {
                    0
                };
                path.push(v);
                dd = dd + 1;
                proof {
                    let full = lane_path_row(r as int);
                    assert(full.take(dd as int) =~= full.take(dd - 1).push(v));
                    assert(path@ =~= path1 + full.take(dd as int));
                }
            }
            let ghost win1 = winsrc@;
            let mut j: usize = 0;
            while j < ck
                invariant
                    j <= ck <= i32::MAX - MAX_VERIFY,
                    1 <= ck,
                    r < depth <= MAX_VERIFY,
                    base == lane * depth,
                    base + depth <= i32::MAX,
                    winsrc@ == win1 + lane_window_row(
                        depth as int,
                        ck as int,
                        lane as int,
                        r as int,
                    ).take(j as int),
                decreases ck - j,
            {
                let wd: i32 = r as i32 - (ck as i32 - 1) + j as i32;
                let v: i32 = if wd < 0 {
                    wd
                } else {
                    base as i32 + wd
                };
                winsrc.push(v);
                j = j + 1;
                proof {
                    let full = lane_window_row(depth as int, ck as int, lane as int, r as int);
                    assert(full.take(j as int) =~= full.take(j - 1).push(v));
                    assert(winsrc@ =~= win1 + full.take(j as int));
                }
            }
            r = r + 1;
            proof {
                let lr = lane_rope(plens@, depth as int, lane as int);
                assert(lr.take(r as int) =~= lr.take(r - 1).push((plen + r - 1) as i32));
                assert(rope@ =~= rope0 + lr.take(r as int));
                let lp = lane_parent(depth as int, lane as int);
                assert(lp.take(r as int) =~= lp.take(r - 1).push(p));
                assert(parent@ =~= par0 + lp.take(r as int));
                assert(slotv@ =~= slot0 + fill(r as nat, lane as i32));
                assert(cps@ =~= cps0 + fill(r as nat, plen as i32));
                let pr = lane_path_row(r - 1);
                assert(pr.take(MAX_VERIFY as int) =~= pr);
                assert(prow(r - 1) == pr);
                assert(path@ =~= path0 + flat(r as nat, prow));
                let wr = lane_window_row(depth as int, ck as int, lane as int, r - 1);
                assert(wr.take(ck as int) =~= wr);
                assert(wrow(r - 1) == wr);
                assert(winsrc@ =~= win0 + flat(r as nat, wrow));
            }
        }
        lane = lane + 1;
        proof {
            let l = lane - 1;
            let lr = lane_rope(plens@, depth as int, l);
            assert(lr.take(depth as int) =~= lr);
            assert(rope_row(l) == lr);
            let lp = lane_parent(depth as int, l);
            assert(lp.take(depth as int) =~= lp);
            assert(par_row(l) == lp);
            assert(slot_row(l) == fill(depth as nat, l as i32));
            assert(start_row(l) == fill(depth as nat, plen as i32));
            assert(pth_row(l) == flat(depth as nat, prow));
            assert(win_row(l) == flat(depth as nat, wrow));
        }
    }
    TreeTopo {
        rope,
        kv_pos,
        parent,
        path,
        winsrc,
        slot: Some(slotv),
        col_pos_start: Some(cps),
    }
}

/// What a lane's columns see does not depend on the lanes packed beside it: rank `r` of `lane` has
/// the positions, rank-to-slot entries and (shifted to the lane's own columns) window of column `r`
/// of that lane verified alone, and carries the lane's own number and committed length.
pub proof fn law_packed_lane_matches_lane_alone(
    t: TreeTopo,
    alone: VerifyTables,
    plens: Seq<usize>,
    depth: int,
    ck: int,
    lane: int,
    r: int,
)
    requires
        t.is_forest_of(plens, depth, ck),
        0 <= lane < plens.len(),
        0 <= r < depth <= MAX_VERIFY,
        1 <= ck,
        plens.len() * depth <= i32::MAX,
        ck + depth <= i32::MAX,
        alone.describes(depth as nat, lane as usize, plens[lane] as int, ck, None),
    ensures
        t.rope@[lane * depth + r] == alone.rope@[r],
        t.kv_pos@[lane * depth + r] == alone.pos@[r],
        t.slot->0@[lane * depth + r] == lane as i32,
        t.col_pos_start->0@[lane * depth + r] == plens[lane] as i32,
        t.parent@[lane * depth + r] == (if r == 0 {
            -1
        } else {
            lane * depth + r - 1
        }),
        forall|d: int|
            0 <= d <= r ==> #[trigger] t.path@[(lane * depth + r) * MAX_VERIFY + d]
                == alone.path@[r * MAX_VERIFY + d],
        forall|j: int|
            0 <= j < ck ==> #[trigger] t.winsrc@[(lane * depth + r) * ck + j] == (if alone.winsrc@[r
                * ck + j] < 0 {
                alone.winsrc@[r * ck + j] as int
            } else {
                lane * depth + alone.winsrc@[r * ck + j]
            }),
{
    let lanes = plens.len();
    let w = depth as nat;
    assert(0 <= lane * depth + depth <= lanes * depth) by (nonlinear_arith)
        requires
            0 <= lane < lanes,
            0 < depth,
    ;
    lemma_flat_index(lanes, |l: int| lane_rope(plens, depth, l), w, lane, r);
    lemma_flat_index(lanes, |l: int| lane_parent(depth, l), w, lane, r);
    lemma_flat_index(lanes, |l: int| fill(w, l as i32), w, lane, r);
    lemma_flat_index(lanes, |l: int| fill(w, plens[l] as i32), w, lane, r);
    let prow = |r: int| lane_path_row(r);
    let pall = |l: int| flat(w, |r: int| lane_path_row(r));
    let pw = w * MAX_VERIFY as nat;
    assert forall|l: int| 0 <= l < lanes implies (#[trigger] pall(l)).len() == pw by {
        lemma_flat_len(w, prow, MAX_VERIFY as nat);
    }
    assert forall|d: int| 0 <= d <= r implies #[trigger] t.path@[(lane * depth + r) * MAX_VERIFY
        + d] == alone.path@[r * MAX_VERIFY + d] by {
        lemma_flat_index(w, prow, MAX_VERIFY as nat, r, d);
        lemma_flat_index(lanes, pall, pw, lane, r * MAX_VERIFY + d);
        lemma_flat_index(w, |c: int| chain_path_row(), MAX_VERIFY as nat, r, d);
        assert((lane * depth + r) * MAX_VERIFY + d == lane * pw + (r * MAX_VERIFY + d))
            by (nonlinear_arith)
            requires
                pw == depth * MAX_VERIFY,
        ;
    }
    let wall = |l: int| flat(w, |r: int| lane_window_row(depth, ck, l, r));
    let ww = w * ck as nat;
    assert forall|l: int| 0 <= l < lanes implies (#[trigger] wall(l)).len() == ww by {
        lemma_flat_len(w, |r: int| lane_window_row(depth, ck, l, r), ck as nat);
    }
    assert forall|j: int| 0 <= j < ck implies #[trigger] t.winsrc@[(lane * depth + r) * ck + j] == (
    if alone.winsrc@[r * ck + j] < 0 {
        alone.winsrc@[r * ck + j] as int
    } else {
        lane * depth + alone.winsrc@[r * ck + j]
    }) by {
        lemma_flat_index(w, |r: int| lane_window_row(depth, ck, lane, r), ck as nat, r, j);
        lemma_flat_index(lanes, wall, ww, lane, r * ck + j);
        lemma_flat_index(w, |c: int| chain_window_row(ck, c), ck as nat, r, j);
        assert((lane * depth + r) * ck + j == lane * ww + (r * ck + j)) by (nonlinear_arith)
            requires
                ww == depth * ck,
        ;
    }
}

} // verus!
