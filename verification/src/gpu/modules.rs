//! The kernels that are loaded at start-up, and the check that they are the right ones.
use vstd::prelude::*;

use crate::gpu::program::Call;
use crate::gpu::single_calls::SingleCall;
use crate::text::{chars_of, strip_front, without_prefix};

verus! {

/// Kernels of the batched module.
pub open spec fn batch_list() -> Seq<Seq<char>> {
    seq![
        "rmsnorm_b"@,
        "fused_res_rmsnorm_b"@,
        "add_residual_b"@,
        "silu_mul_b"@,
        "rmsnorm_perhead_b"@,
        "rmsnorm_gated_b"@,
        "rope_b"@,
        "conv1d_b"@,
        "delta_step_b"@,
        "write_kv_b"@,
        "compact_kv_b"@,
        "sigmoid_gate_b"@,
        "split_qgate_b"@,
        "gather_rope_b"@,
        "embed_gather_b"@,
        "argmax_b"@,
        "conv1d_prefill"@,
        "conv1d_prefill_state"@,
        "delta_step_prefill"@,
        "attn_softmax_tile"@,
        "attn_finalize"@,
        "attn_tile_init"@,
        "write_kv_prefill"@,
        "gqa_attn_prefill"@,
        "rep_penalty_b"@,
        "gqa_attn_splitk"@,
        "gqa_attn_reduce"@,
        "sample_b"@,
        "concat_b"@,
        "gemm_binv_b"@,
        "sample_prob_b"@,
        "spec_verify_b"@,
        "nll_b"@,
        "gemm_mma_fp4_b"@,
        "gemm_mma_fp8_b"@,
        "dequant_fp4_tiled_b"@,
        "dequant_fp8_tiled_b"@,
        "embed_gather_fp4_tiled_b"@,
        "embed_gather_fp8_tiled_b"@,
        "bw_read_b"@,
        "split_gdn_b"@,
        "split_qkv_b"@,
        "moe_router_topk_b"@,
        "moe_experts_b"@,
        "moe_experts_fp4_b"@,
        "moe_shared_combine_b"@,
        "moe_gate_up_fp4_warp"@,
        "moe_silu_b"@,
        "moe_down_fp4_warp"@,
        "gemm_moe_mma_fp4"@,
        "moe_combine_experts_b"@,
        "moe_silu_bf16_b"@,
        "moe_count_b"@,
        "moe_offsets_b"@,
        "moe_scatter_b"@,
        "moe_tilemap_b"@,
        "moe_gather_x_b"@,
        "gemm_moe_grouped_mma_fp4"@,
        "moe_combine_grouped_b"@,
        "tp_mask_rows"@,
        "tp_gate_copy_signal"@,
        "tp_wait_add"@,
        "tp_bench_fill"@,
        "tp_bench_validate"@,
        "tp_bench_stall"@,
        "kernel_build_id"@,
    ]
}

/// Kernels of the single-token module.
pub open spec fn single_list() -> Seq<Seq<char>> {
    seq![
        "rmsnorm_qwen"@,
        "rmsnorm_gated"@,
        "rmsnorm_perhead"@,
        "silu_mul"@,
        "add_residual"@,
        "sigmoid_gate"@,
        "rope_rot_half"@,
        "gqa_attention"@,
        "write_kv"@,
        "split_qgate"@,
        "conv1d_step"@,
        "delta_step"@,
        "f32tobf16"@,
        "bf16tof32"@,
        "fused_residual_rmsnorm"@,
        "argmax_pass1"@,
        "argmax_pass2"@,
    ]
}

/// The texts of a list of names.
pub open spec fn names_view(v: Seq<&'static str>) -> Seq<Seq<char>> {
    v.map_values(|s: &'static str| s@)
}

/// Kernels of the batched module.
pub fn batch_kernels() -> (r: Vec<&'static str>)
    ensures
        names_view(r@) == batch_list(),
{
    let r: Vec<&'static str> = vec![
        "rmsnorm_b",
        "fused_res_rmsnorm_b",
        "add_residual_b",
        "silu_mul_b",
        "rmsnorm_perhead_b",
        "rmsnorm_gated_b",
        "rope_b",
        "conv1d_b",
        "delta_step_b",
        "write_kv_b",
        "compact_kv_b",
        "sigmoid_gate_b",
        "split_qgate_b",
        "gather_rope_b",
        "embed_gather_b",
        "argmax_b",
        "conv1d_prefill",
        "conv1d_prefill_state",
        "delta_step_prefill",
        "attn_softmax_tile",
        "attn_finalize",
        "attn_tile_init",
        "write_kv_prefill",
        "gqa_attn_prefill",
        "rep_penalty_b",
        "gqa_attn_splitk",
        "gqa_attn_reduce",
        "sample_b",
        "concat_b",
        "gemm_binv_b",
        "sample_prob_b",
        "spec_verify_b",
        "nll_b",
        "gemm_mma_fp4_b",
        "gemm_mma_fp8_b",
        "dequant_fp4_tiled_b",
        "dequant_fp8_tiled_b",
        "embed_gather_fp4_tiled_b",
        "embed_gather_fp8_tiled_b",
        "bw_read_b",
        "split_gdn_b",
        "split_qkv_b",
        "moe_router_topk_b",
        "moe_experts_b",
        "moe_experts_fp4_b",
        "moe_shared_combine_b",
        "moe_gate_up_fp4_warp",
        "moe_silu_b",
        "moe_down_fp4_warp",
        "gemm_moe_mma_fp4",
        "moe_combine_experts_b",
        "moe_silu_bf16_b",
        "moe_count_b",
        "moe_offsets_b",
        "moe_scatter_b",
        "moe_tilemap_b",
        "moe_gather_x_b",
        "gemm_moe_grouped_mma_fp4",
        "moe_combine_grouped_b",
        "tp_mask_rows",
        "tp_gate_copy_signal",
        "tp_wait_add",
        "tp_bench_fill",
        "tp_bench_validate",
        "tp_bench_stall",
        "kernel_build_id",
    ];
    proof {
        assert(names_view(r@) =~= batch_list());
    }
    r
}

/// Kernels of the single-token module.
pub fn single_kernels() -> (r: Vec<&'static str>)
    ensures
        names_view(r@) == single_list(),
{
    let r: Vec<&'static str> = vec![
        "rmsnorm_qwen",
        "rmsnorm_gated",
        "rmsnorm_perhead",
        "silu_mul",
        "add_residual",
        "sigmoid_gate",
        "rope_rot_half",
        "gqa_attention",
        "write_kv",
        "split_qgate",
        "conv1d_step",
        "delta_step",
        "f32tobf16",
        "bf16tof32",
        "fused_residual_rmsnorm",
        "argmax_pass1",
        "argmax_pass2",
    ];
    proof {
        assert(names_view(r@) =~= single_list());
    }
    r
}

/// Every kernel that a program launches is loaded.
pub proof fn law_launched_kernels_are_loaded(c: Call)
    ensures
        batch_list().contains(c.spec_symbol()),
{
    let l = batch_list();
    match c {
        Call::GatherRope { .. } => assert(l[13] == "gather_rope_b"@),
        Call::Rmsnorm { .. } => assert(l[0] == "rmsnorm_b"@),
        Call::FusedResRmsnorm { .. } => assert(l[1] == "fused_res_rmsnorm_b"@),
        Call::AddResidual { .. } => assert(l[2] == "add_residual_b"@),
        Call::SiluMul { .. } => assert(l[3] == "silu_mul_b"@),
        Call::SplitQkv { .. } => assert(l[41] == "split_qkv_b"@),
        Call::SplitQgate { .. } => assert(l[12] == "split_qgate_b"@),
        Call::RmsnormPerhead { .. } => assert(l[4] == "rmsnorm_perhead_b"@),
        Call::Rope { .. } => assert(l[6] == "rope_b"@),
        Call::WriteKvPrefill { .. } => assert(l[22] == "write_kv_prefill"@),
        Call::WriteKv { .. } => assert(l[9] == "write_kv_b"@),
        Call::AttnPrefill { .. } => assert(l[23] == "gqa_attn_prefill"@),
        Call::AttnSplitk { .. } => assert(l[25] == "gqa_attn_splitk"@),
        Call::AttnReduce { .. } => assert(l[26] == "gqa_attn_reduce"@),
        Call::SigmoidGate { .. } => assert(l[11] == "sigmoid_gate_b"@),
        Call::SplitGdn { .. } => assert(l[40] == "split_gdn_b"@),
        Call::Conv1d { .. } => assert(l[7] == "conv1d_b"@),
        Call::DeltaStep { .. } => assert(l[8] == "delta_step_b"@),
        Call::RmsnormGated { .. } => assert(l[5] == "rmsnorm_gated_b"@),
        Call::Conv1dPrefill { .. } => assert(l[16] == "conv1d_prefill"@),
        Call::Conv1dState { .. } => assert(l[17] == "conv1d_prefill_state"@),
        Call::DeltaPrefill { .. } => assert(l[18] == "delta_step_prefill"@),
        Call::GemmFp4 { .. } => assert(l[33] == "gemm_mma_fp4_b"@),
        Call::GemmFp8 { .. } => assert(l[34] == "gemm_mma_fp8_b"@),
        Call::GemmBinv { .. } => assert(l[29] == "gemm_binv_b"@),
        Call::DequantFp4 { .. } => assert(l[35] == "dequant_fp4_tiled_b"@),
        Call::DequantFp8 { .. } => assert(l[36] == "dequant_fp8_tiled_b"@),
        Call::EmbedBf16 { .. } => assert(l[14] == "embed_gather_b"@),
        Call::EmbedFp4 { .. } => assert(l[37] == "embed_gather_fp4_tiled_b"@),
        Call::EmbedFp8 { .. } => assert(l[38] == "embed_gather_fp8_tiled_b"@),
        Call::Argmax { .. } => assert(l[15] == "argmax_b"@),
        Call::RepPenalty { .. } => assert(l[24] == "rep_penalty_b"@),
        Call::Sample { .. } => assert(l[27] == "sample_b"@),
        Call::SampleProb { .. } => assert(l[30] == "sample_prob_b"@),
        Call::SpecVerify { .. } => assert(l[31] == "spec_verify_b"@),
        Call::Nll { .. } => assert(l[32] == "nll_b"@),
        Call::MoeRouterTopk { .. } => assert(l[42] == "moe_router_topk_b"@),
        Call::MoeExperts { .. } => assert(l[43] == "moe_experts_b"@),
        Call::MoeGemm { .. } => assert(l[49] == "gemm_moe_mma_fp4"@),
        Call::MoeSilu { .. } => assert(l[51] == "moe_silu_bf16_b"@),
        Call::MoeCombine { .. } => assert(l[50] == "moe_combine_experts_b"@),
        Call::MoeCount { .. } => assert(l[52] == "moe_count_b"@),
        Call::MoeOffsets { .. } => assert(l[53] == "moe_offsets_b"@),
        Call::MoeScatter { .. } => assert(l[54] == "moe_scatter_b"@),
        Call::MoeTilemap { .. } => assert(l[55] == "moe_tilemap_b"@),
        Call::MoeGatherX { .. } => assert(l[56] == "moe_gather_x_b"@),
        Call::MoeGrouped { .. } => assert(l[57] == "gemm_moe_grouped_mma_fp4"@),
        Call::MoeCombineGrouped { .. } => assert(l[58] == "moe_combine_grouped_b"@),
        Call::MoeSharedCombine { .. } => assert(l[45] == "moe_shared_combine_b"@),
        Call::Concat { .. } => assert(l[28] == "concat_b"@),
        Call::TpSignal { .. } => assert(l[60] == "tp_gate_copy_signal"@),
        Call::TpWaitAdd { .. } => assert(l[61] == "tp_wait_add"@),
        Call::CompactKv { .. } => assert(l[10] == "compact_kv_b"@),
        Call::AttnTileInit { .. } => assert(l[21] == "attn_tile_init"@),
        Call::AttnSoftmaxTile { .. } => assert(l[19] == "attn_softmax_tile"@),
        Call::AttnFinalize { .. } => assert(l[20] == "attn_finalize"@),
    }
}

/// Every kernel of the single-token path is loaded.
pub proof fn law_single_kernels_are_loaded(c: SingleCall)
    ensures
        single_list().contains(c.spec_symbol()),
{
    let l = single_list();
    match c {
        SingleCall::ToBf16 { .. } => assert(l[12] == "f32tobf16"@),
        SingleCall::ToF32 { .. } => assert(l[13] == "bf16tof32"@),
        SingleCall::Norm { .. } => assert(l[0] == "rmsnorm_qwen"@),
        SingleCall::NormGated { .. } => assert(l[1] == "rmsnorm_gated"@),
        SingleCall::Conv1dStep { .. } => assert(l[10] == "conv1d_step"@),
        SingleCall::DeltaOne { .. } => assert(l[11] == "delta_step"@),
        SingleCall::FusedNorm { .. } => assert(l[14] == "fused_residual_rmsnorm"@),
        SingleCall::Add { .. } => assert(l[4] == "add_residual"@),
        SingleCall::Silu { .. } => assert(l[3] == "silu_mul"@),
        SingleCall::SplitGate { .. } => assert(l[9] == "split_qgate"@),
        SingleCall::HeadNorm { .. } => assert(l[2] == "rmsnorm_perhead"@),
        SingleCall::RopeHalf { .. } => assert(l[6] == "rope_rot_half"@),
        SingleCall::WriteOne { .. } => assert(l[8] == "write_kv"@),
        SingleCall::Attention { .. } => assert(l[7] == "gqa_attention"@),
        SingleCall::Gate { .. } => assert(l[5] == "sigmoid_gate"@),
        SingleCall::ArgmaxParts { .. } => assert(l[15] == "argmax_pass1"@),
        SingleCall::ArgmaxMerge { .. } => assert(l[16] == "argmax_pass2"@),
    }
}

// ---- the build stamp ----

/// The value of a hexadecimal digit, or sixteen.
pub open spec fn hex_value(c: char) -> nat {
    if '0' <= c && c <= '9' {
        (c as u32 - 48) as nat
    } else if 'a' <= c && c <= 'f' {
        (c as u32 - 87) as nat
    } else if 'A' <= c && c <= 'F' {
        (c as u32 - 55) as nat
    } else {
        16
    }
}

/// The value of hexadecimal digits.
pub open spec fn hex_number(s: Seq<char>) -> nat
    decreases s.len(),
{
    if s.len() == 0 {
        0
    } else {
        hex_number(s.drop_last()) * 16 + hex_value(s.last())
    }
}

/// The number that a text writes in hexadecimal, with an optional plus sign, in 64 bits.
pub open spec fn hex_in(s: Seq<char>) -> Option<nat> {
    let d = without_prefix(s, "+"@);
    if d.len() > 0 && (forall|i: int| 0 <= i < d.len() ==> hex_value(#[trigger] d[i]) < 16)
        && hex_number(d) <= u64::MAX {
        Some(hex_number(d))
    } else {
        None
    }
}

fn hex_digit(c: char) -> (v: u64)
    ensures
        v == hex_value(c),
{
    if '0' <= c && c <= '9' {
        c as u64 - 48
    } else if 'a' <= c && c <= 'f' {
        c as u64 - 87
    } else if 'A' <= c && c <= 'F' {
        c as u64 - 55
    } else {
        16
    }
}

proof fn lemma_hex_grows(s: Seq<char>, k: int)
    requires
        0 <= k <= s.len(),
    ensures
        hex_number(s.take(k)) <= hex_number(s),
    decreases s.len() - k,
{
    if k < s.len() {
        lemma_hex_grows(s, k + 1);
        assert(s.take(k + 1).drop_last() =~= s.take(k));
    } else {
        assert(s.take(k) =~= s);
    }
}

/// The number that a text writes in hexadecimal.
pub fn parse_hex(s: &str) -> (r: Option<u64>)
    ensures
        match r {
            Some(n) => hex_in(s@) == Some(n as nat),
            None => hex_in(s@) is None,
        },
{
    let c: Vec<char> = chars_of(s);
    let d: Vec<char> = strip_front(c.as_slice(), "+");
    if d.len() == 0 {
        return None;
    }
    let mut n: u64 = 0;
    let mut i: usize = 0;
    proof {
        assert(d@.take(0) =~= Seq::<char>::empty());
    }
    while i < d.len()
        invariant
            i <= d@.len(),
            d@.len() > 0,
            d@ == without_prefix(s@, "+"@),
            n == hex_number(d@.take(i as int)),
            forall|k: int| 0 <= k < i ==> hex_value(#[trigger] d@[k]) < 16,
        decreases d@.len() - i,
    {
        let v: u64 = hex_digit(d[i]);
        proof {
            assert(d@.take(i + 1).drop_last() =~= d@.take(i as int));
            assert(d@.take(i + 1).last() == d@[i as int]);
            lemma_hex_grows(d@, i + 1);
        }
        if v >= 16 {
            return None;
        }
        if n > (u64::MAX - v) / 16 {
            return None;
        }
        n = n * 16 + v;
        i = i + 1;
    }
    proof {
        assert(d@.take(d@.len() as int) =~= d@);
    }
    Some(n)
}

/// Why the loaded kernels are refused.
#[derive(Clone, Copy, Debug, PartialEq, Eq, Structural)]
pub enum BuildFault {
    /// The module carries no stamp.
    NoStamp,
    /// The module was built from other sources.
    Stale { found: u64, expected: u64 },
}

/// Holds the stamp that the module carries against the one that the engine was built with: a module from
/// other sources may have other launch parameters, and then runs wild rather than slow.
pub fn check_build_id(expected: &str, found: Option<u64>) -> (r: Result<(), BuildFault>)
    ensures
        ({
            let want = match hex_in(expected@) {
                Some(n) => n as u64,
                None => 0u64,
            };
            r == (match found {
                None => Err::<(), BuildFault>(BuildFault::NoStamp),
                Some(f) => if f == want {
                    Ok::<(), BuildFault>(())
                } else {
                    Err::<(), BuildFault>(BuildFault::Stale { found: f, expected: want })
                },
            })
        }),
{
    let want: u64 = match parse_hex(expected) {
        Some(n) => n,
        None => 0,
    };
    match found {
        None => Err(BuildFault::NoStamp),
        Some(f) => if f == want {
            Ok(())
        } else {
            Err(BuildFault::Stale { found: f, expected: want })
        },
    }
}

} // verus!
