//! What clearing, copying and compacting lanes does to what the layers remember.
use vstd::prelude::*;

use crate::config::LayerType;
use crate::gpu::flow_blocks::lemma_gdn_sizes;
use crate::gpu::machine::{
    args1, args2, exec, group_run, lemma_run_short, made, part, patched, run, Fun, Mem, Val,
};
use crate::gpu::meaning::{gdn_sizes, halved, share};
use crate::gpu::model::GpuModel;
use crate::gpu::program::{at, get16, put16, temp, Op, Region, Scratch, Table};
use crate::seqs::flat;

verus! {

broadcast use {group_run, lemma_run_short};

/// Bytes of a lane in `r`: windows, recurrent state, or keys (or values) of `stride` positions.
pub open spec fn lane_bytes(m: &GpuModel, r: Region, stride: int) -> int {
    let z = gdn_sizes(m);
    match r {
        Region::ConvState(_) => z.channels * m.cfg.conv_kernel * 4,
        Region::SState(_) => z.nv * z.kd * z.vd * 4,
        _ => share(m.cfg.num_kv_heads, halved(m)) * stride * m.cfg.head_dim * 2,
    }
}

/// Layer `i` is of kind `k`, and among the first `n`.
pub open spec fn layer_is(m: &GpuModel, i: int, n: int, k: LayerType) -> bool {
    0 <= i < n && m.cfg.layer_types@[i] == k
}

/// A lane of `r` is cleared when its request ends: state that a step reads before it writes, and caches where
/// that is asked for.
pub open spec fn cleared(m: &GpuModel, r: Region, n: int) -> bool {
    match r {
        Region::ConvState(i) | Region::SState(i) => layer_is(
            m,
            i as int,
            n,
            LayerType::LinearAttention,
        ),
        Region::KCache(i) | Region::VCache(i) => m.knobs.zero_kv && layer_is(
            m,
            i as int,
            n,
            LayerType::FullAttention,
        ),
        _ => false,
    }
}

/// The memory after lane `slot` of everything to clear in the first `n` layers was cleared.
pub open spec fn is_cleared(m: &GpuModel, s: Mem, e: Mem, slot: int, stride: int, n: int) -> bool {
    forall|r: Region|
        #[trigger] e[r] == if cleared(m, r, n) {
            let bytes = lane_bytes(m, r, stride);
            patched(
                s[r],
                (slot * bytes) as u64,
                made(Fun::Zeroed { bytes: bytes as usize }, Seq::empty()),
            )
        } else {
            s[r]
        }
}

/// Clearing a lane zeroes exactly that lane's bytes of everything that has to go, and nothing else.
pub proof fn law_zero_slot_clears(m: &GpuModel, s: Mem, slot: int, stride: int, n: nat)
    requires
        n <= m.cfg.layer_types@.len(),
        m.cfg.layer_types@.len() <= usize::MAX,
        0 <= slot,
        m.slot_fits(slot, stride),
        0 <= stride,
    ensures
        is_cleared(
            m,
            s,
            run(s, flat(n, |li: int| m.zero_layer_ops(slot, stride, li))),
            slot,
            stride,
            n as int,
        ),
    decreases n,
{
    let row = |li: int| m.zero_layer_ops(slot, stride, li);
    lemma_gdn_sizes(m);
    if n > 0 {
        law_zero_slot_clears(m, s, slot, stride, (n - 1) as nat);
        let a = run(s, flat((n - 1) as nat, row));
        let e = run(a, row(n - 1));
        assert(flat(n, row) == flat((n - 1) as nat, row) + row(n - 1));
        assert(run(s, flat(n, row)) == e);
        assert forall|r: Region|
            #[trigger] e[r] == if cleared(m, r, n as int) {
                let bytes = lane_bytes(m, r, stride);
                patched(
                    s[r],
                    (slot * bytes) as u64,
                    made(Fun::Zeroed { bytes: bytes as usize }, Seq::empty()),
                )
            } else {
                s[r]
            } by {
            assert(a[r] == a[r]);
        }
    }
}

/// The memory after the recurrent state of lane `src` was copied to lane `dst` in the first `n` layers.
pub open spec fn is_copied(m: &GpuModel, s: Mem, e: Mem, src: int, dst: int, n: int) -> bool {
    forall|r: Region|
        #[trigger] e[r] == if (r is ConvState || r is SState) && cleared(m, r, n) {
            let bytes = lane_bytes(m, r, 0);
            patched(
                s[r],
                (dst * bytes) as u64,
                made(
                    Fun::Bytes { bytes: bytes as usize },
                    args1(part(s[r], (src * bytes) as u64)),
                ),
            )
        } else {
            s[r]
        }
}

/// A snapshot gives lane `dst` the windows and states of lane `src`, layer by layer, and leaves keys, values
/// and all else alone.
pub proof fn law_copy_gdn_slot_copies(m: &GpuModel, s: Mem, src: int, dst: int, n: nat)
    requires
        n <= m.cfg.layer_types@.len(),
        m.cfg.layer_types@.len() <= usize::MAX,
        0 <= src,
        0 <= dst,
        src * m.conv_bytes() <= u64::MAX,
        dst * m.conv_bytes() <= u64::MAX,
        src * m.state_bytes() <= u64::MAX,
        dst * m.state_bytes() <= u64::MAX,
    ensures
        is_copied(
            m,
            s,
            run(s, flat(n, |li: int| m.copy_layer_ops(src, dst, li))),
            src,
            dst,
            n as int,
        ),
    decreases n,
{
    let row = |li: int| m.copy_layer_ops(src, dst, li);
    lemma_gdn_sizes(m);
    if n > 0 {
        law_copy_gdn_slot_copies(m, s, src, dst, (n - 1) as nat);
        let a = run(s, flat((n - 1) as nat, row));
        let e = run(a, row(n - 1));
        assert(flat(n, row) == flat((n - 1) as nat, row) + row(n - 1));
        assert(run(s, flat(n, row)) == e);
        assert forall|r: Region|
            #[trigger] e[r] == if (r is ConvState || r is SState) && cleared(m, r, n as int) {
                let bytes = lane_bytes(m, r, 0);
                patched(
                    s[r],
                    (dst * bytes) as u64,
                    made(
                        Fun::Bytes { bytes: bytes as usize },
                        args1(part(s[r], (src * bytes) as u64)),
                    ),
                )
            } else {
                s[r]
            } by {
            assert(a[r] == a[r]);
        }
    }
}

/// A cache with the entries of the uploaded path put back side by side from `pos` on.
pub open spec fn compacted_cache(
    m: &GpuModel,
    cache: Val,
    len: int,
    pos: int,
    slot: int,
    stride: int,
) -> Val {
    let nkv = share(m.cfg.num_kv_heads, halved(m)) as i32;
    let (len, pos, slot, stride) = (len as i32, pos as i32, slot as i32, stride as i32);
    let hd = m.cfg.head_dim as i32;
    made(
        Fun::Compacted { len, pos, slot, nkv, stride, hd },
        args2(
            cache,
            made(
                Fun::Gathered { len, pos, slot, nkv, stride, hd },
                args2(cache, Val::Uploaded(Table::Pos)),
            ),
        ),
    )
}

/// `r` is a key or value cache of one of the first `n` layers.
pub open spec fn cache_below(m: &GpuModel, r: Region, n: int) -> bool {
    match r {
        Region::KCache(i) | Region::VCache(i) => layer_is(
            m,
            i as int,
            n,
            LayerType::FullAttention,
        ),
        _ => false,
    }
}

/// The first `n` layers are compacted: keys and values alike, each out of itself.
pub open spec fn is_moved(
    m: &GpuModel,
    s: Mem,
    e: Mem,
    len: int,
    pos: int,
    slot: int,
    stride: int,
    n: int,
) -> bool {
    forall|r: Region|
        r != temp(0).region && r != temp(1).region && r != Region::Scratch(Scratch::Pos)
            ==> #[trigger] e[r] == if cache_below(m, r, n) {
            compacted_cache(m, s[r], len, pos, slot, stride)
        } else {
            s[r]
        }
}

proof fn lemma_compact(
    m: &GpuModel,
    s: Mem,
    len: int,
    pos: int,
    slot: int,
    stride: int,
    n: nat,
)
    requires
        n <= m.cfg.layer_types@.len(),
        m.cfg.layer_types@.len() <= usize::MAX,
        s[Region::Scratch(Scratch::Pos)] == Val::Uploaded(Table::Pos),
    ensures
        ({
            let e = run(s, flat(n, |li: int| m.compact_layer_ops(li, len, pos, slot, stride)));
            &&& is_moved(m, s, e, len, pos, slot, stride, n as int)
            &&& e[Region::Scratch(Scratch::Pos)] == Val::Uploaded(Table::Pos)
        }),
    decreases n,
{
    let row = |li: int| m.compact_layer_ops(li, len, pos, slot, stride);
    if n > 0 {
        lemma_compact(m, s, len, pos, slot, stride, (n - 1) as nat);
        let a = run(s, flat((n - 1) as nat, row));
        let e = run(a, row(n - 1));
        assert(flat(n, row) == flat((n - 1) as nat, row) + row(n - 1));
        assert(run(s, flat(n, row)) == e);
        let i = (n - 1) as usize;
        if m.cfg.layer_types@[n - 1] == LayerType::FullAttention {
            let b = exec(a, m.compact_op(n - 1, len, pos, slot, stride, 0));
            assert(e == exec(b, m.compact_op(n - 1, len, pos, slot, stride, 1)));
            assert(a[Region::KCache(i)] == s[Region::KCache(i)]);
            assert(a[Region::VCache(i)] == s[Region::VCache(i)]);
            assert(e[Region::KCache(i)] == compacted_cache(
                m,
                s[Region::KCache(i)],
                len,
                pos,
                slot,
                stride,
            ));
            assert(e[Region::VCache(i)] == compacted_cache(
                m,
                s[Region::VCache(i)],
                len,
                pos,
                slot,
                stride,
            ));
            assert(forall|r: Region|
                r != Region::KCache(i) && r != Region::VCache(i) && r != temp(0).region && r
                    != temp(1).region ==> #[trigger] e[r] == a[r]);
        } else {
            assert(e == a);
        }
    }
}

/// Compaction puts the entries of the uploaded path side by side in every key cache and every value cache,
/// each out of its own entries, and leaves all else alone.
pub proof fn law_compaction_moves(
    m: &GpuModel,
    s: Mem,
    len: int,
    pos: int,
    slot: int,
    stride: int,
)
    requires
        m.cfg.layer_types@.len() <= usize::MAX,
    ensures
        is_moved(
            m,
            s,
            run(s, m.compact_ops(len, pos, slot, stride)),
            len,
            pos,
            slot,
            stride,
            m.cfg.layer_types@.len() as int,
        ),
{
    let elems = len * m.kv_heads() * m.cfg.head_dim;
    let n = m.cfg.layer_types@.len();
    let head = seq![
        Op::Upload { table: Table::Pos, dst: at(Region::Scratch(Scratch::Pos)) },
        get16(0, elems),
        get16(1, elems),
    ];
    let s1 = run(s, head);
    lemma_compact(m, s1, len, pos, slot, stride, n);
    let s2 = run(s1, flat(n, |li: int| m.compact_layer_ops(li, len, pos, slot, stride)));
    let e = run(s2, seq![put16(0, elems), put16(1, elems)]);
    assert(run(s, m.compact_ops(len, pos, slot, stride)) == e);
    assert(forall|r: Region|
        r != temp(0).region && r != temp(1).region ==> #[trigger] e[r] == s2[r]);
    assert(forall|r: Region|
        r != temp(0).region && r != temp(1).region && r != Region::Scratch(Scratch::Pos)
            ==> #[trigger] s1[r] == s[r]);
}

} // verus!
