//! Lanes: what each layer keeps per lane, and how a lane is cleared, copied and compacted.
use vstd::prelude::*;

use crate::config::LayerType;
use crate::gpu::gemm::{shift, shifted};
use crate::gpu::model::GpuModel;
use crate::gpu::program::{
    at, borrow16, chain, get16, give16, int32, ptr, put16, temp, tmp, Call, Op, Ptr, Region, Scratch,
    Table,
};
use crate::gpu::topo::MAX_VERIFY;
use crate::gpu::tree::already_contiguous;
use crate::seqs::flat;
use crate::shard::{redzone_violations, visits_uniform, written};

verus! {

/// The buffers of one layer, in elements.
#[allow(inconsistent_fields)]
#[derive(Clone, Copy, Debug, PartialEq, Eq, Structural)]
pub enum LayerState {
    /// A key cache and a value cache of this size each.
    Kv { elems: usize },
    /// Convolution and recurrent state. With a red zone the buffers are twice as large, and the upper
    /// half holds a bit pattern that no kernel of this rank may touch.
    Recurrent { conv: usize, state: usize, red_zone: bool },
}

/// The bytes of a layer's buffers fit the machine.
pub open spec fn state_small(s: LayerState) -> bool {
    match s {
        LayerState::Kv { elems } => elems * 2 <= usize::MAX,
        LayerState::Recurrent { conv, state, .. } => conv * 8 <= usize::MAX && state * 8 <= usize::MAX,
    }
}

/// Clears one kind of buffer of layer `i`: convolution state, recurrent state, keys, values. A red zone is
/// cleared with the buffer that has it.
pub open spec fn zero_part(s: LayerState, part: int, i: int) -> Seq<Op> {
    match s {
        LayerState::Kv { elems } => if part == 2 {
            seq![Op::Zero { dst: at(Region::KCache(i as usize)), bytes: (elems * 2) as usize }]
        } else if part == 3 {
            seq![Op::Zero { dst: at(Region::VCache(i as usize)), bytes: (elems * 2) as usize }]
        } else {
            Seq::<Op>::empty()
        },
        LayerState::Recurrent { conv, state, red_zone } => {
            let n = if red_zone {
                2int
            } else {
                1int
            };
            if part == 0 {
                seq![
                    Op::Zero {
                        dst: at(Region::ConvState(i as usize)),
                        bytes: (conv * n * 4) as usize,
                    },
                ]
            } else if part == 1 {
                seq![
                    Op::Zero { dst: at(Region::SState(i as usize)), bytes: (state * n * 4) as usize },
                ]
            } else {
                Seq::<Op>::empty()
            }
        },
    }
}

impl GpuModel {
    /// Sizes of a layer's state fit the machine.
    pub open spec fn state_fits(&self, kv_slots: int, state_slots: int, stride: int) -> bool {
        &&& self.gdn_fits()
        &&& self.conv_bytes() <= usize::MAX
        &&& self.state_bytes() <= usize::MAX
        &&& self.kv_bytes(stride) <= usize::MAX
        &&& state_slots * self.conv_bytes() <= usize::MAX
        &&& state_slots * self.state_bytes() <= usize::MAX
        &&& kv_slots * self.kv_bytes(stride) <= usize::MAX
    }

    /// The state of layer `li`: a KV cache per lane, or recurrent state per state slot. State slots
    /// above the lanes hold snapshots and need no KV.
    pub open spec fn layer_state(
        &self,
        kv_slots: int,
        state_slots: int,
        stride: int,
        li: int,
    ) -> LayerState {
        match self.cfg.layer_types@[li] {
            LayerType::FullAttention => LayerState::Kv {
                elems: (kv_slots * (self.kv_bytes(stride) / 2)) as usize,
            },
            LayerType::LinearAttention => LayerState::Recurrent {
                conv: (state_slots * (self.conv_bytes() / 4)) as usize,
                state: (state_slots * (self.state_bytes() / 4)) as usize,
                red_zone: self.head_proof_on(),
            },
        }
    }

    /// The state of every layer.
    pub fn new_batch_state(&self, kv_slots: usize, state_slots: usize, max_seq_len: usize) -> (r: Vec<
        LayerState,
    >)
        requires
            self.state_fits(kv_slots as int, state_slots as int, max_seq_len as int),
            self.head_proof_on() ==> state_slots == 1,
        ensures
            r@ == Seq::new(
                self.cfg.layer_types@.len(),
                |li: int|
                    self.layer_state(
                        kv_slots as int,
                        state_slots as int,
                        max_seq_len as int,
                        li,
                    ),
            ),
    {
        let cb: usize = self.conv_slot_bytes() / 4;
        let sb: usize = self.state_slot_bytes() / 4;
        let kb: usize = self.kv_slot_bytes(max_seq_len) / 2;
        proof {
            lemma_part(state_slots as int, self.conv_bytes(), 4);
            lemma_part(state_slots as int, self.state_bytes(), 4);
            lemma_part(kv_slots as int, self.kv_bytes(max_seq_len as int), 2);
        }
        let conv: usize = state_slots * cb;
        let state: usize = state_slots * sb;
        let elems: usize = kv_slots * kb;
        let red_zone: bool = self.tp_head_proof();
        let ghost f = |li: int|
            self.layer_state(kv_slots as int, state_slots as int, max_seq_len as int, li);
        let mut r: Vec<LayerState> = Vec::new();
        let mut li: usize = 0;
        while li < self.cfg.layer_types.len()
            invariant
                li <= self.cfg.layer_types@.len(),
                f == (|li: int|
                    self.layer_state(kv_slots as int, state_slots as int, max_seq_len as int, li)),
                conv == state_slots * (self.conv_bytes() / 4),
                state == state_slots * (self.state_bytes() / 4),
                elems == kv_slots * (self.kv_bytes(max_seq_len as int) / 2),
                red_zone == self.head_proof_on(),
                r@ == Seq::new(li as nat, f),
            decreases self.cfg.layer_types@.len() - li,
        {
            let s: LayerState = match self.cfg.layer_types[li] {
                LayerType::FullAttention => LayerState::Kv { elems },
                LayerType::LinearAttention => LayerState::Recurrent { conv, state, red_zone },
            };
            r.push(s);
            li = li + 1;
            proof {
                assert(r@ =~= Seq::new(li as nat, f));
            }
        }
        r
    }

    /// The state of the single-token path can be sized.
    pub open spec fn one_state_fits(&self, stride: int) -> bool {
        &&& self.cfg.num_kv_heads * self.cfg.head_dim <= usize::MAX
        &&& self.cfg.num_kv_heads * self.cfg.head_dim * stride <= usize::MAX
        &&& 0 <= self.cfg.spec_key_dim()
        &&& 0 <= self.cfg.spec_value_dim()
        &&& self.cfg.spec_key_dim() * 2 + self.cfg.spec_value_dim() <= usize::MAX
        &&& (self.cfg.spec_key_dim() * 2 + self.cfg.spec_value_dim()) * self.cfg.conv_kernel
            <= usize::MAX
        &&& self.cfg.lin_num_v_heads * self.cfg.lin_k_dim <= usize::MAX
        &&& self.cfg.lin_num_v_heads * self.cfg.lin_k_dim * self.cfg.lin_v_dim <= usize::MAX
    }

    /// The state of every layer of the single-token path: one lane, f32, never sharded.
    pub fn new_state_stride(&self, stride: usize) -> (r: Vec<LayerState>)
        requires
            self.one_state_fits(stride as int),
        ensures
            r@ == Seq::new(
                self.cfg.layer_types@.len(),
                |li: int| self.one_layer_state(stride as int, li),
            ),
    {
        let c = &self.cfg;
        let elems: usize = c.num_kv_heads * c.head_dim * stride;
        let conv: usize = (c.key_dim() * 2 + c.value_dim()) * c.conv_kernel;
        let state: usize = c.lin_num_v_heads * c.lin_k_dim * c.lin_v_dim;
        let ghost f = |li: int| self.one_layer_state(stride as int, li);
        let mut r: Vec<LayerState> = Vec::new();
        let mut li: usize = 0;
        while li < self.cfg.layer_types.len()
            invariant
                li <= self.cfg.layer_types@.len(),
                f == (|li: int| self.one_layer_state(stride as int, li)),
                elems == self.cfg.num_kv_heads * self.cfg.head_dim * stride,
                conv == (self.cfg.spec_key_dim() * 2 + self.cfg.spec_value_dim())
                    * self.cfg.conv_kernel,
                state == self.cfg.lin_num_v_heads * self.cfg.lin_k_dim * self.cfg.lin_v_dim,
                r@ == Seq::new(li as nat, f),
            decreases self.cfg.layer_types@.len() - li,
        {
            let s: LayerState = match self.cfg.layer_types[li] {
                LayerType::FullAttention => LayerState::Kv { elems },
                LayerType::LinearAttention => LayerState::Recurrent { conv, state, red_zone: false },
            };
            r.push(s);
            li = li + 1;
            proof {
                assert(r@ =~= Seq::new(li as nat, f));
            }
        }
        r
    }

    /// The state of the single-token path for every position of the model.
    pub fn new_state(&self) -> (r: Vec<LayerState>)
        requires
            self.one_state_fits(self.cfg.max_position_embeddings as int),
        ensures
            r@ == Seq::new(
                self.cfg.layer_types@.len(),
                |li: int| self.one_layer_state(self.cfg.max_position_embeddings as int, li),
            ),
    {
        self.new_state_stride(self.cfg.max_position_embeddings)
    }

    /// The state of layer `li` of the single-token path.
    pub open spec fn one_layer_state(&self, stride: int, li: int) -> LayerState {
        let c = &self.cfg;
        match c.layer_types@[li] {
            LayerType::FullAttention => LayerState::Kv {
                elems: (c.num_kv_heads * c.head_dim * stride) as usize,
            },
            LayerType::LinearAttention => LayerState::Recurrent {
                conv: ((c.spec_key_dim() * 2 + c.spec_value_dim()) * c.conv_kernel) as usize,
                state: (c.lin_num_v_heads * c.lin_k_dim * c.lin_v_dim) as usize,
                red_zone: false,
            },
        }
    }

    // ---- clearing ----

    /// Zeroes `bytes` bytes of lane `slot` of a buffer.
    pub open spec fn zero_op(region: Region, slot: int, bytes: int) -> Op {
        Op::Zero { dst: shifted(at(region), slot * bytes), bytes: bytes as usize }
    }

    /// Clears layer `li` of a lane. The recurrence reads its state on every step, so that has to go; a
    /// KV cache is read only up to what was written, so it may stay.
    pub open spec fn zero_layer_ops(&self, slot: int, kv_stride: int, li: int) -> Seq<Op> {
        match self.cfg.layer_types@[li] {
            LayerType::LinearAttention => seq![
                Self::zero_op(Region::ConvState(li as usize), slot, self.conv_bytes()),
                Self::zero_op(Region::SState(li as usize), slot, self.state_bytes()),
            ],
            LayerType::FullAttention => if self.knobs.zero_kv {
                seq![
                    Self::zero_op(Region::KCache(li as usize), slot, self.kv_bytes(kv_stride)),
                    Self::zero_op(Region::VCache(li as usize), slot, self.kv_bytes(kv_stride)),
                ]
            } else {
                Seq::<Op>::empty()
            },
        }
    }

    fn zero_region(region: Region, slot: usize, bytes: usize) -> (op: Op)
        requires
            slot * bytes <= u64::MAX,
        ensures
            op == Self::zero_op(region, slot as int, bytes as int),
    {
        proof {
            assert(0 <= slot * bytes) by (nonlinear_arith);
        }
        Op::Zero { dst: shift(ptr(region), slot as u64 * bytes as u64), bytes }
    }

    /// Clears a lane for a new request.
    pub fn zero_slot_state(&self, slot: usize, kv_stride: usize) -> (r: Vec<Op>)
        requires
            self.slot_fits(slot as int, kv_stride as int),
        ensures
            r@ == flat(
                self.cfg.layer_types@.len(),
                |li: int| self.zero_layer_ops(slot as int, kv_stride as int, li),
            ),
    {
        let cb: usize = self.conv_slot_bytes();
        let sb: usize = self.state_slot_bytes();
        let kb: usize = self.kv_slot_bytes(kv_stride);
        let ghost row = |li: int| self.zero_layer_ops(slot as int, kv_stride as int, li);
        let mut r: Vec<Op> = Vec::new();
        let mut li: usize = 0;
        while li < self.cfg.layer_types.len()
            invariant
                li <= self.cfg.layer_types@.len(),
                self.slot_fits(slot as int, kv_stride as int),
                cb == self.conv_bytes(),
                sb == self.state_bytes(),
                kb == self.kv_bytes(kv_stride as int),
                row == (|li: int| self.zero_layer_ops(slot as int, kv_stride as int, li)),
                r@ == flat(li as nat, row),
            decreases self.cfg.layer_types@.len() - li,
        {
            let ops: Vec<Op> = match self.cfg.layer_types[li] {
                LayerType::LinearAttention => vec![
                    Self::zero_region(Region::ConvState(li), slot, cb),
                    Self::zero_region(Region::SState(li), slot, sb),
                ],
                LayerType::FullAttention => if self.knobs.zero_kv {
                    vec![
                        Self::zero_region(Region::KCache(li), slot, kb),
                        Self::zero_region(Region::VCache(li), slot, kb),
                    ]
                } else {
                    Vec::new()
                },
            };
            proof {
                assert(ops@ =~= row(li as int));
            }
            chain(&mut r, ops);
            li = li + 1;
        }
        r
    }

    /// Clears everything: all convolution states, all recurrent states, all keys, all values.
    pub fn zero_state(states: &[LayerState]) -> (r: Vec<Op>)
        requires
            forall|i: int| 0 <= i < states@.len() ==> state_small(#[trigger] states@[i]),
        ensures
            r@ == flat(states@.len(), |i: int| zero_part(states@[i], 0, i)) + flat(
                states@.len(),
                |i: int| zero_part(states@[i], 1, i),
            ) + flat(states@.len(), |i: int| zero_part(states@[i], 2, i)) + flat(
                states@.len(),
                |i: int| zero_part(states@[i], 3, i),
            ),
    {
        let mut r: Vec<Op> = Self::zero_plane(states, 0);
        chain(&mut r, Self::zero_plane(states, 1));
        chain(&mut r, Self::zero_plane(states, 2));
        chain(&mut r, Self::zero_plane(states, 3));
        r
    }

    fn zero_plane(states: &[LayerState], part: u8) -> (r: Vec<Op>)
        requires
            forall|i: int| 0 <= i < states@.len() ==> state_small(#[trigger] states@[i]),
            part < 4,
        ensures
            r@ == flat(states@.len(), |i: int| zero_part(states@[i], part as int, i)),
    {
        let ghost row = |i: int| zero_part(states@[i], part as int, i);
        let mut r: Vec<Op> = Vec::new();
        let mut i: usize = 0;
        while i < states.len()
            invariant
                i <= states@.len(),
                part < 4,
                forall|i: int| 0 <= i < states@.len() ==> state_small(#[trigger] states@[i]),
                row == (|i: int| zero_part(states@[i], part as int, i)),
                r@ == flat(i as nat, row),
            decreases states@.len() - i,
        {
            proof {
                assert(state_small(states@[i as int]));
            }
            let ops: Vec<Op> = match states[i] {
                LayerState::Kv { elems } => if part == 2 {
                    vec![Op::Zero { dst: ptr(Region::KCache(i)), bytes: elems * 2 }]
                } else if part == 3 {
                    vec![Op::Zero { dst: ptr(Region::VCache(i)), bytes: elems * 2 }]
                } else {
                    Vec::new()
                },
                LayerState::Recurrent { conv, state, red_zone } => {
                    let n: usize = if red_zone {
                        2
                    } else {
                        1
                    };
                    if part == 0 {
                        vec![Op::Zero { dst: ptr(Region::ConvState(i)), bytes: conv * n * 4 }]
                    } else if part == 1 {
                        vec![Op::Zero { dst: ptr(Region::SState(i)), bytes: state * n * 4 }]
                    } else {
                        Vec::new()
                    }
                },
            };
            proof {
                assert(ops@ =~= row(i as int));
            }
            chain(&mut r, ops);
            i = i + 1;
        }
        r
    }

    // ---- snapshots ----

    /// Copies `bytes` bytes from lane `src` of a buffer to lane `dst`.
    pub open spec fn lane_copy(region: Region, src: int, dst: int, bytes: int) -> Op {
        Op::Copy {
            dst: shifted(at(region), dst * bytes),
            src: shifted(at(region), src * bytes),
            bytes: bytes as usize,
        }
    }

    /// The recurrent state of layer `li`, copied between lanes. KV needs no snapshot: a verify
    /// overwrites what it left behind.
    pub open spec fn copy_layer_ops(&self, src: int, dst: int, li: int) -> Seq<Op> {
        match self.cfg.layer_types@[li] {
            LayerType::LinearAttention => seq![
                Self::lane_copy(Region::ConvState(li as usize), src, dst, self.conv_bytes()),
                Self::lane_copy(Region::SState(li as usize), src, dst, self.state_bytes()),
            ],
            LayerType::FullAttention => Seq::<Op>::empty(),
        }
    }

    /// Copies the recurrent state of one slot to another.
    pub fn copy_gdn_slot(&self, src: usize, dst: usize) -> (r: Vec<Op>)
        requires
            self.gdn_fits(),
            self.conv_bytes() <= usize::MAX,
            self.state_bytes() <= usize::MAX,
            src * self.conv_bytes() <= u64::MAX,
            dst * self.conv_bytes() <= u64::MAX,
            src * self.state_bytes() <= u64::MAX,
            dst * self.state_bytes() <= u64::MAX,
        ensures
            r@ == flat(
                self.cfg.layer_types@.len(),
                |li: int| self.copy_layer_ops(src as int, dst as int, li),
            ),
    {
        let cb: usize = self.conv_slot_bytes();
        let sb: usize = self.state_slot_bytes();
        proof {
            assert(0 <= src * cb && 0 <= dst * cb && 0 <= src * sb && 0 <= dst * sb)
                by (nonlinear_arith);
        }
        let (cs, cd) = (src as u64 * cb as u64, dst as u64 * cb as u64);
        let (ss, sd) = (src as u64 * sb as u64, dst as u64 * sb as u64);
        let ghost row = |li: int| self.copy_layer_ops(src as int, dst as int, li);
        let mut r: Vec<Op> = Vec::new();
        let mut li: usize = 0;
        while li < self.cfg.layer_types.len()
            invariant
                li <= self.cfg.layer_types@.len(),
                cb == self.conv_bytes(),
                sb == self.state_bytes(),
                cs == src * self.conv_bytes(),
                cd == dst * self.conv_bytes(),
                ss == src * self.state_bytes(),
                sd == dst * self.state_bytes(),
                row == (|li: int| self.copy_layer_ops(src as int, dst as int, li)),
                r@ == flat(li as nat, row),
            decreases self.cfg.layer_types@.len() - li,
        {
            let (conv, state) = (ptr(Region::ConvState(li)), ptr(Region::SState(li)));
            let ops: Vec<Op> = match self.cfg.layer_types[li] {
                LayerType::LinearAttention => vec![
                    Op::Copy { dst: shift(conv, cd), src: shift(conv, cs), bytes: cb },
                    Op::Copy { dst: shift(state, sd), src: shift(state, ss), bytes: sb },
                ],
                LayerType::FullAttention => Vec::new(),
            };
            proof {
                assert(ops@ =~= row(li as int));
            }
            chain(&mut r, ops);
            li = li + 1;
        }
        r
    }

    // ---- compaction ----

    /// One direction of moving the KV of an accepted path: 0 gathers it into buffers 0 and 1, 1 puts it
    /// back contiguously.
    pub open spec fn compact_op(
        &self,
        li: int,
        len: int,
        pos: int,
        slot: int,
        kv_stride: int,
        dir: i32,
    ) -> Op {
        Op::Launch(
            Call::CompactKv {
                kc: at(Region::KCache(li as usize)),
                vc: at(Region::VCache(li as usize)),
                ks: temp(0),
                vs: temp(1),
                src: at(Region::Scratch(Scratch::Pos)),
                len: len as i32,
                pos: pos as i32,
                slot: slot as i32,
                nkv: self.kv_heads() as i32,
                stride: kv_stride as i32,
                hd: self.cfg.head_dim as i32,
                dir,
            },
        )
    }

    /// Compaction of layer `li`.
    pub open spec fn compact_layer_ops(
        &self,
        li: int,
        len: int,
        pos: int,
        slot: int,
        kv_stride: int,
    ) -> Seq<Op> {
        match self.cfg.layer_types@[li] {
            LayerType::FullAttention => seq![
                self.compact_op(li, len, pos, slot, kv_stride, 0),
                self.compact_op(li, len, pos, slot, kv_stride, 1),
            ],
            LayerType::LinearAttention => Seq::<Op>::empty(),
        }
    }

    /// Compaction of all layers, by way of buffers 0 and 1.
    pub open spec fn compact_ops(&self, len: int, pos: int, slot: int, kv_stride: int) -> Seq<Op> {
        let elems = len * self.kv_heads() * self.cfg.head_dim;
        seq![
            Op::Upload { table: Table::Pos, dst: at(Region::Scratch(Scratch::Pos)) },
            get16(0, elems),
            get16(1, elems),
        ] + flat(
            self.cfg.layer_types@.len(),
            |li: int| self.compact_layer_ops(li, len, pos, slot, kv_stride),
        ) + seq![put16(0, elems), put16(1, elems)]
    }

    /// Moves the KV of an accepted tree path to where a chain would have written it. Nothing is done
    /// where it stands there already.
    pub fn compact_kv(
        &self,
        src_pos: &[usize],
        slot: usize,
        pos_start: usize,
        kv_stride: usize,
    ) -> (r: Vec<Op>)
        requires
            src_pos@.len() <= MAX_VERIFY,
            slot <= i32::MAX,
            pos_start <= i32::MAX,
            kv_stride <= i32::MAX,
            self.cfg.num_kv_heads <= i32::MAX,
            self.cfg.head_dim <= i32::MAX,
            MAX_VERIFY * self.kv_heads() * self.cfg.head_dim <= usize::MAX,
        ensures
            ({
                let len = src_pos@.len() as int;
                r@ == (if forall|k: int| 0 <= k < len ==> #[trigger] src_pos@[k] == k {
                    Seq::<Op>::empty()
                } else {
                    self.compact_ops(len, pos_start as int, slot as int, kv_stride as int)
                })
            }),
    {
        if already_contiguous(src_pos) {
            let none: Vec<Op> = Vec::new();
            proof {
                assert(none@ =~= Seq::<Op>::empty());
            }
            return none;
        }
        let len: usize = src_pos.len();
        let nkv: usize = self.eff_num_kv_heads();
        let hd: usize = self.cfg.head_dim;
        proof {
            assert(0 <= len * nkv && len * nkv * hd <= 16 * nkv * hd && len * nkv <= 16 * nkv && 0
                <= len * nkv * hd) by (nonlinear_arith)
                requires
                    len <= 16,
                    nkv >= 0,
                    hd >= 0,
            ;
        }
        let elems: usize = if hd == 0 {
            proof {
                assert(len * nkv * hd == 0) by (nonlinear_arith)
                    requires
                        hd == 0,
                ;
            }
            0
        } else {
            proof {
                assert(len * nkv <= len * nkv * hd) by (nonlinear_arith)
                    requires
                        hd >= 1,
                        len * nkv >= 0,
                ;
            }
            len * nkv * hd
        };
        let mut r: Vec<Op> = vec![
            Op::Upload { table: Table::Pos, dst: ptr(Region::Scratch(Scratch::Pos)) },
            borrow16(0, elems),
            borrow16(1, elems),
        ];
        let ghost first = r@;
        let ghost row = |li: int|
            self.compact_layer_ops(
                li,
                len as int,
                pos_start as int,
                slot as int,
                kv_stride as int,
            );
        proof {
            assert(first + flat(0, row) =~= first);
        }
        let mut li: usize = 0;
        while li < self.cfg.layer_types.len()
            invariant
                li <= self.cfg.layer_types@.len(),
                len <= MAX_VERIFY,
                slot <= i32::MAX,
                pos_start <= i32::MAX,
                kv_stride <= i32::MAX,
                nkv == self.kv_heads(),
                nkv <= i32::MAX,
                hd == self.cfg.head_dim,
                hd <= i32::MAX,
                row == (|li: int|
                    self.compact_layer_ops(
                        li,
                        len as int,
                        pos_start as int,
                        slot as int,
                        kv_stride as int,
                    )),
                r@ == first + flat(li as nat, row),
            decreases self.cfg.layer_types@.len() - li,
        {
            if let LayerType::FullAttention = self.cfg.layer_types[li] {
                let mut dir: i32 = 0;
                let ghost before = r@;
                while dir < 2
                    invariant
                        0 <= dir <= 2,
                        len <= MAX_VERIFY,
                        slot <= i32::MAX,
                        pos_start <= i32::MAX,
                        kv_stride <= i32::MAX,
                        nkv == self.kv_heads(),
                        nkv <= i32::MAX,
                        hd == self.cfg.head_dim,
                        hd <= i32::MAX,
                        r@ == before + Seq::new(
                            dir as nat,
                            |d: int|
                                self.compact_op(
                                    li as int,
                                    len as int,
                                    pos_start as int,
                                    slot as int,
                                    kv_stride as int,
                                    d as i32,
                                ),
                        ),
                    decreases 2 - dir,
                {
                    r.push(
                        Op::Launch(
                            Call::CompactKv {
                                kc: ptr(Region::KCache(li)),
                                vc: ptr(Region::VCache(li)),
                                ks: tmp(0),
                                vs: tmp(1),
                                src: ptr(Region::Scratch(Scratch::Pos)),
                                len: int32(len),
                                pos: int32(pos_start),
                                slot: int32(slot),
                                nkv: int32(nkv),
                                stride: int32(kv_stride),
                                hd: int32(hd),
                                dir,
                            },
                        ),
                    );
                    dir = dir + 1;
                    proof {
                        assert(r@ =~= before + Seq::new(
                            dir as nat,
                            |d: int|
                                self.compact_op(
                                    li as int,
                                    len as int,
                                    pos_start as int,
                                    slot as int,
                                    kv_stride as int,
                                    d as i32,
                                ),
                        ));
                    }
                }
                proof {
                    assert(r@ =~= before + row(li as int));
                }
            }
            li = li + 1;
            proof {
                assert(r@ =~= first + flat(li as nat, row));
            }
        }
        r.push(give16(0, elems));
        r.push(give16(1, elems));
        proof {
            assert(first =~= seq![
                Op::Upload { table: Table::Pos, dst: at(Region::Scratch(Scratch::Pos)) },
                get16(0, elems as int),
                get16(1, elems as int),
            ]);
            assert(r@ =~= first + flat(self.cfg.layer_types@.len(), row) + seq![
                put16(0, elems as int),
                put16(1, elems as int),
            ]);
            assert(exists|k: int| 0 <= k < len && src_pos@[k] != k);
        }
        r
    }

    // ---- hidden columns ----

    /// Copies `ncols` neighbouring hidden columns from column `col` on.
    pub fn copy_hidden_cols(&self, dst: Ptr, src: Ptr, col: usize, ncols: usize) -> (op: Op)
        requires
            src.offset + col * self.cfg.hidden_size * 2 <= u64::MAX,
            ncols * self.cfg.hidden_size * 2 <= usize::MAX,
        ensures
            op == (Op::Copy {
                dst,
                src: shifted(src, col * self.cfg.hidden_size * 2),
                bytes: (ncols * self.cfg.hidden_size * 2) as usize,
            }),
    {
        let h: usize = self.cfg.hidden_size;
        proof {
            assert(0 <= col * h && 0 <= ncols * h) by (nonlinear_arith);
        }
        Op::Copy { dst, src: shift(src, col as u64 * h as u64 * 2), bytes: ncols * h * 2 }
    }

    /// Copies one hidden column.
    pub fn copy_hidden_col(&self, dst: Ptr, src: Ptr, col: usize) -> (op: Op)
        requires
            src.offset + col * self.cfg.hidden_size * 2 <= u64::MAX,
            self.cfg.hidden_size * 2 <= usize::MAX,
        ensures
            op == (Op::Copy {
                dst,
                src: shifted(src, col * self.cfg.hidden_size * 2),
                bytes: (self.cfg.hidden_size * 2) as usize,
            }),
    {
        self.copy_hidden_cols(dst, src, col, 1)
    }

    // ---- red zones ----

    /// Judges the state buffers read back from a device under the head proof: how many were checked, and
    /// how many show a kernel that ran outside this rank's heads. `visits` counts how often each head
    /// was visited; `buffers` holds the bits of each buffer with the number of entries that are this
    /// rank's own.
    pub fn verify_head_redzones(&self, visits: Option<&[u64]>, buffers: &[(Vec<u32>, usize)]) -> (r: (
        usize,
        usize,
    ))
        requires
            buffers@.len() < usize::MAX,
            visits matches Some(v) ==> 1 <= self.lin_v_heads() <= v@.len(),
            forall|i: int| 0 <= i < buffers@.len() ==> (#[trigger] buffers@[i]).1 * 2 <= usize::MAX,
        ensures
            !self.head_proof_on() ==> r.0 == 0 && r.1 == 0,
            self.head_proof_on() ==> {
                &&& r.0 == (if visits is Some {
                    1int
                } else {
                    0
                }) + checked_upto(buffers@, buffers@.len() as int)
                &&& r.1 == (if visits is Some && !uniform(visits->0@, self.lin_v_heads()) {
                    1int
                } else {
                    0
                }) + broken_upto(buffers@, buffers@.len() as int)
            },
    {
        if !self.tp_head_proof() {
            return (0, 0);
        }
        let mut checked: usize = 0;
        let mut bad: usize = 0;
        if let Some(v) = visits {
            checked = 1;
            if !visits_uniform(v, self.eff_lin_v_heads()) {
                bad = 1;
            }
        }
        let ghost (c0, b0) = (checked as int, bad as int);
        let mut i: usize = 0;
        while i < buffers.len()
            invariant
                i <= buffers@.len(),
                buffers@.len() < usize::MAX,
                0 <= b0 <= c0 <= 1,
                forall|i: int|
                    0 <= i < buffers@.len() ==> (#[trigger] buffers@[i]).1 * 2 <= usize::MAX,
                checked == c0 + checked_upto(buffers@, i as int),
                bad == b0 + broken_upto(buffers@, i as int),
                0 <= broken_upto(buffers@, i as int) <= checked_upto(buffers@, i as int) <= i,
            decreases buffers@.len() - i,
        {
            proof {
                assert(buffers@[i as int].1 * 2 <= usize::MAX);
            }
            if let Some(n) = redzone_violations(buffers[i].0.as_slice(), buffers[i].1) {
                checked = checked + 1;
                if n > 0 {
                    bad = bad + 1;
                }
            }
            i = i + 1;
        }
        (checked, bad)
    }
}

/// Every local head was visited equally often, and no other head at all.
pub open spec fn uniform(visits: Seq<u64>, nloc: int) -> bool {
    &&& visits[0] > 0
    &&& forall|i: int| 0 <= i < nloc ==> #[trigger] visits[i] == visits[0]
    &&& forall|i: int| nloc <= i < visits.len() ==> #[trigger] visits[i] == 0
}

/// The buffer has a red zone.
pub open spec fn zoned(b: (Vec<u32>, usize)) -> bool {
    b.0@.len() >= b.1 * 2
}

/// Buffers with a red zone among the first `n`.
pub open spec fn checked_upto(b: Seq<(Vec<u32>, usize)>, n: int) -> int
    decreases n,
{
    if n <= 0 {
        0
    } else {
        checked_upto(b, n - 1) + (if zoned(b[n - 1]) {
            1int
        } else {
            0
        })
    }
}

/// Buffers whose red zone was written among the first `n`.
pub open spec fn broken_upto(b: Seq<(Vec<u32>, usize)>, n: int) -> int
    decreases n,
{
    if n <= 0 {
        0
    } else {
        broken_upto(b, n - 1) + (if zoned(b[n - 1]) && written(b[n - 1].0@.skip(b[n - 1].1 as int)) > 0 {
            1int
        } else {
            0
        })
    }
}

proof fn lemma_part(n: int, bytes: int, w: int)
    requires
        n >= 0,
        bytes >= 0,
        w >= 1,
    ensures
        0 <= n * (bytes / w) <= n * bytes,
{
    assert(0 <= n * (bytes / w) && n * (bytes / w) <= n * bytes) by (nonlinear_arith)
        requires
            n >= 0,
            bytes >= 0,
            w >= 1,
    ;
}

/// Lanes do not share memory: the bytes of two lanes of a buffer are disjoint, and those of any lane lie
/// within the buffer.
pub proof fn law_lanes_are_disjoint(bytes: int, lanes: int, a: int, b: int)
    requires
        bytes >= 0,
        0 <= a < b < lanes,
    ensures
        a * bytes + bytes <= b * bytes,
        b * bytes + bytes <= lanes * bytes,
        0 <= a * bytes,
{
    assert(a * bytes + bytes <= b * bytes && b * bytes + bytes <= lanes * bytes && 0 <= a * bytes)
        by (nonlinear_arith)
        requires
            bytes >= 0,
            0 <= a,
            a + 1 <= b,
            b + 1 <= lanes,
    ;
}

} // verus!
