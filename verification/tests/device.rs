use gb10_inference::config::{Config, LayerType};
use gb10_inference::gpu::drafter::{mtp_prime_plan, PRIME_CHUNK};
use gb10_inference::gpu::ffn::expand_grouped;
use gb10_inference::gpu::gemm::{gemm_act, gemm_act_binv};
use gb10_inference::gpu::invariance::{algorithm_name, sweep_algorithms, worst_xor};
use gb10_inference::gpu::model::{
    gdn_launch, tp_probe_batch, AttnIn, GdnIn, GpuModel, Knobs, TpSettings, W,
};
use gb10_inference::gpu::modules::{
    batch_kernels, check_build_id, parse_hex, single_kernels, BuildFault,
};
use gb10_inference::gpu::parallel::Cut;
use gb10_inference::gpu::pool::{bucket_down, bucket_up, Acquire, Pool};
use gb10_inference::gpu::program::{
    Arg, Block, Call, DecodeBuf, Op, Proj, Ptr, Region, Scratch, Table, WeightId, Width,
};
use gb10_inference::gpu::single::{test_conv1d, test_delta_step};
use gb10_inference::gpu::slots::LayerState;
use gb10_inference::gpu::steps::{
    decode_buffer, may_capture, pack_verify, pass_positions, read_tokens, scratch_bytes, unpack_verify,
    Initial,
};
use gb10_inference::gpu::topo::{topo_from_parent, MAX_VERIFY};

fn config() -> Config {
    Config {
        hidden_size: 64,
        vocab_size: 1024,
        num_layers: 2,
        num_heads: 4,
        num_kv_heads: 2,
        head_dim: 64,
        rotary_dim: 16,
        intermediate_size: 128,
        lin_num_v_heads: 4,
        lin_num_k_heads: 2,
        lin_k_dim: 32,
        lin_v_dim: 32,
        conv_kernel: 4,
        layer_types: vec![LayerType::LinearAttention, LayerType::FullAttention],
        max_position_embeddings: 256,
        tie_word_embeddings: false,
        is_moe: false,
        moe_layers: vec![],
        num_experts: 0,
        num_experts_per_tok: 0,
        moe_intermediate_size: 0,
        shared_expert_intermediate_size: 0,
        ple_ngram_size: 0,
        ple_heads_per_ngram: 0,
        ple_vocab_base: 0,
        ple_vocab_divisor: 0,
        ple_seed: 0,
        eos_token_id: 2,
        rms_eps_bits: 0x358637bd,
    }
}

fn settings(rank: i32, world: i32) -> TpSettings {
    TpSettings {
        rank,
        world,
        shard_mixers: true,
        fp32_partials: false,
        probe_batch: 1,
        head_proof: false,
        head_fault: false,
    }
}

fn model(rank: i32, world: i32) -> GpuModel {
    let knobs = Knobs { prefill_scalar: false, zero_kv: false, fuse_residual: true };
    GpuModel::new(config(), true, true, settings(rank, world), knobs)
}

fn raw(a: u64) -> Ptr {
    Ptr { region: Region::Raw(a), offset: 0 }
}

fn size(w: &Width, len: usize) -> i64 {
    match w {
        Width::F32 => 4 * len as i64,
        Width::Bf16 => 2 * len as i64,
    }
}

/// Bytes that a program borrows and does not give back.
fn kept(ops: &[Op]) -> i64 {
    ops.iter()
        .map(|op| match op {
            Op::Get { width, len, .. } => size(width, *len),
            Op::Release { width, len, .. } => -size(width, *len),
            _ => 0,
        })
        .sum()
}

fn waits(ops: &[Op]) -> usize {
    ops.iter().filter(|op| matches!(op, Op::Launch(Call::TpWaitAdd { .. }))).count()
}

#[test]
fn programs_give_back_what_they_borrow() {
    let m = model(0, 1);
    assert_eq!(kept(&m.forward_decode_gpu(256, 17, 3)), 0);
    assert_eq!(kept(&m.verify_forward(4, 0, 256, 9, Some(2), None).1), 0);
    assert_eq!(kept(&m.prefill_batch(33, 0, 256, 0)), 2 * 4 * 16 * 33, "but for the angles");
    let (kc, vc) = (raw(1), raw(2));
    assert_eq!(kept(&m.mtp_draft_step(raw(3), 9, kc, vc, 256)), 2 * 64, "but for the new hidden state");
}

#[test]
fn launched_kernels_are_loaded() {
    let m = model(0, 1);
    let names = batch_kernels();
    let (_, verify) = m.verify_forward(4, 0, 256, 9, Some(2), None);
    let mut seen = 0;
    for op in m.forward_decode_gpu(256, 17, 3).iter().chain(&verify).chain(&m.prefill_batch(200, 0, 256, 0)) {
        if let Op::Launch(c) = op {
            assert!(names.contains(&c.symbol()), "{}", c.symbol());
            seen += 1;
        }
    }
    assert!(seen > 50);
    let singles = single_kernels();
    for op in m.forward_token(3, raw(1), raw(2)) {
        if let Op::Single(c) = op {
            assert!(singles.contains(&c.symbol()), "{}", c.symbol());
        }
    }
}

#[test]
fn ranks_stay_in_step() {
    let (a, b) = (model(0, 2), model(1, 2));
    let n = waits(&a.forward_decode_gpu(256, 17, 1));
    assert_eq!(n, waits(&b.forward_decode_gpu(256, 17, 1)));
    assert_eq!(n, 4, "two layers, a mixer and a feed-forward part each");
    assert_eq!(waits(&b.forward_decode_gpu(256, 17, 3)), 3 * n, "a slot holds one column");
    assert_eq!(waits(&model(0, 1).forward_decode_gpu(256, 17, 3)), 0);
    assert_eq!(waits(&a.mtp_draft_step(raw(3), 9, raw(1), raw(2), 256)), 0);
    assert_eq!(waits(&a.prefill_batch(20, 0, 256, 0)), 20 * n);
}

#[test]
fn products_by_format() {
    let id = WeightId::Of(Block::Layer(0), Proj::Up);
    let count = |w: W, n: usize| gemm_act(w, id, raw(1), raw(2), 64, 128, n).len();
    assert!(count(W::Bf16, 1) >= 1);
    assert!(count(W::Nvfp4 { m: 128, k: 64 }, 1) >= 1);
    let ops = gemm_act(W::Bf16, id, raw(1), raw(2), 64, 128, 5);
    assert!(matches!(ops[..], [Op::Blas { m: 128, n: 5, k: 64, .. }]));
    let ops = gemm_act_binv(W::Bf16, id, raw(1), raw(2), 64, 128, 5);
    assert!(!ops.iter().any(|op| matches!(op, Op::Blas { n: 5, .. })), "no batch-dependent product");
}

#[test]
fn buckets() {
    assert_eq!((bucket_up(1), bucket_up(256), bucket_up(257), bucket_up(5000)), (256, 256, 512, 8192));
    assert_eq!((bucket_down(255), bucket_down(256), bucket_down(511), bucket_down(513)), (0, 256, 256, 512));
}

#[test]
fn pooled_buffers_are_reused() {
    let mut p: Pool<u32, u32> = Pool::new();
    assert!(matches!(p.get(300), Acquire::Allocate(512)));
    assert_eq!(p.release(7, 512), None);
    assert_eq!(p.cached_bytes(), 2048);
    assert!(matches!(p.get(2000), Acquire::Allocate(2048)));
    assert!(matches!(p.get_bf16(400), Acquire::Allocate(512)));
    assert!(matches!(p.get(400), Acquire::Reuse(7, 512)));
    assert_eq!(p.cached_bytes(), 0);
    assert_eq!(p.release(8, 100), Some(8), "too small to keep");
    assert_eq!(p.release_bf16(9, 1024), None);
    let (f, g, bytes) = p.surrender();
    assert_eq!((f.len(), g.len(), bytes), (0, 1, 2048));
}

#[test]
fn the_pool_is_trimmed_to_its_cap() {
    let mut p: Pool<u32, u32> = Pool::new();
    p.cap_bytes = 5000;
    p.release(1, 512);
    p.release(2, 1024);
    p.release_bf16(3, 256);
    assert_eq!(p.cached_bytes(), 2048 + 4096 + 512);
    let (f, g) = p.trim();
    assert_eq!((f.len(), g.len()), (1, 0));
    assert_eq!((f[0].buf, f[0].len), (2, 1024));
    assert_eq!(p.cached_bytes(), 2560);
}

#[test]
fn effective_shapes() {
    let (one, two) = (model(0, 1), model(1, 2));
    assert_eq!((one.eff_num_heads(), two.eff_num_heads()), (4, 2));
    assert_eq!((one.eff_num_kv_heads(), two.eff_num_kv_heads()), (2, 1));
    assert_eq!((one.eff_lin_v_heads(), two.eff_lin_v_heads()), (4, 2));
    assert_eq!((one.eff_conv_dim(), two.eff_conv_dim()), (256, 128));
    assert_eq!((one.eff_gdn_fused_m(), GdnIn::fused_m(&config())), (392, 392));
    assert_eq!(AttnIn::fused_m(&config()), 4 * 64 * 2 + 2 * 2 * 64);
    assert_eq!(gdn_launch(128, 128), (4, 4 * (128 * 36 + 96)));
    assert_eq!(one.kv_stride(), 256);
    assert_eq!(tp_probe_batch(Some(8)), 8);
    assert_eq!((tp_probe_batch(Some(17)), tp_probe_batch(Some(0)), tp_probe_batch(None)), (1, 1, 1));
    assert_eq!(two.tp_payload(128), Some(128));
    assert_eq!(two.tp_payload(127), None);
}

#[test]
fn weight_sizes() {
    assert_eq!(W::Bf16.bytes(), 0);
    assert_eq!(W::Fp8 { m: 32, k: 64 }.bytes(), 2048 + 128);
    assert_eq!(W::Nvfp4 { m: 32, k: 64 }.bytes(), 1024 + 128 + 8);
    assert_eq!(W::Nvfp4Raw { m: 32, k: 64 }.bytes(), 1024 + 128);
    assert!(!W::Bf16.is_quantized() && W::Fp8 { m: 1, k: 1 }.is_quantized());
}

#[test]
fn projections_are_cut() {
    let m = model(0, 2);
    let w = W::Nvfp4 { m: 128, k: 64 };
    match m.tp_cut(Proj::Up, w) {
        Cut::Rows(s) => assert_eq!(s, vec![(0, 128, true)]),
        _ => panic!("rows"),
    }
    assert!(matches!(m.tp_cut(Proj::Down, w), Cut::Columns));
    assert!(matches!(m.tp_cut(Proj::O, w), Cut::Columns));
    assert!(matches!(m.tp_cut(Proj::Router, w), Cut::Whole));
}

#[test]
fn states_by_layer() {
    let m = model(0, 1);
    let s = m.new_batch_state(3, 5, 256);
    assert_eq!(s.len(), 2);
    match s[0] {
        LayerState::Recurrent { conv, state, red_zone } => {
            assert_eq!(conv, 5 * 256 * 4);
            assert_eq!(state, 5 * 4 * 32 * 32);
            assert!(!red_zone);
        }
        LayerState::Kv { .. } => panic!("a recurrent layer"),
    }
    match s[1] {
        LayerState::Kv { elems } => assert_eq!(elems, 3 * 2 * 256 * 64),
        LayerState::Recurrent { .. } => panic!("an attention layer"),
    }
    let ops = m.copy_gdn_slot(2, 0);
    assert_eq!(ops.len(), 2);
    assert!(matches!(ops[0], Op::Copy { bytes: 4096, .. }));
    assert!(m.compact_kv(&[0, 1, 2], 0, 9, 256).is_empty());
    assert!(!m.compact_kv(&[0, 2], 0, 9, 256).is_empty());
    let op = m.copy_hidden_col(raw(1), raw(2), 3);
    match op {
        Op::Copy { src, bytes, .. } => assert_eq!((src.offset, bytes), (3 * 64 * 2, 128)),
        _ => panic!("a copy"),
    }
}

#[test]
fn priming_goes_in_chunks() {
    let plan = mtp_prime_plan(2 * PRIME_CHUNK + 5);
    assert_eq!(plan, vec![(0, PRIME_CHUNK), (PRIME_CHUNK, PRIME_CHUNK), (2 * PRIME_CHUNK, 5)]);
}

#[test]
fn host_steps() {
    let m = model(0, 1);
    let s = m.forward_batch_core(&[4, 9], 1, 256);
    assert_eq!((s.pos, s.slots), (vec![4, 9], vec![1, 2]));
    assert!(matches!(s.ops[0], Op::UploadNew { table: Table::Pos, .. }));
    let (ops, rows) = m.window_nll(6);
    assert_eq!(rows, 5);
    assert_eq!(kept(&ops), -2 * 64 * 6, "the hidden columns are consumed");
    assert!(m.first_moe().is_none());
    assert!(m.probe_moe(3).is_none());
    let s = m.forward_batch(&[4, 9], 256);
    assert_eq!((s.pos, s.slots), (vec![4, 9], vec![0, 1]));
    let s = m.forward_into_slot(7, 3, 256);
    assert_eq!((s.pos, s.slots), (vec![7], vec![3]));
    let (mut gpu, host) = (m.forward_decode_gpu(256, 17, 3), m.forward_decode(256, 17, 3));
    gpu.push(Op::Sync);
    assert!(gpu == host);
    let (mut gpu, host) = (m.decode_sample_gpu_core(256, 17, 3), m.forward_decode_sample_gpu(256, 17, 3));
    gpu.push(Op::Sync);
    assert!(gpu == host);
    assert_eq!(kept(&host), 0);
    assert_eq!(m.cfg().hidden_size, 64);
    assert!(m.layer(1).mlp == m.layers[1].mlp);
    assert!(m.new_state() == m.new_state_stride(256));
}

#[test]
fn positions_of_a_pass() {
    assert_eq!(pass_positions(7, 3), vec![7, 8, 9]);
    assert!(pass_positions(i32::MAX as usize, 0).is_empty());
}

#[test]
fn a_draft_is_sampled_in_its_step() {
    let m = model(0, 1);
    let ops = m.mtp_draft_step_sample(raw(3), 9, raw(1), raw(2), 256, None);
    assert_eq!(kept(&ops), 2 * 64, "the new hidden state stays");
    assert_eq!(ops.iter().filter(|o| matches!(o, Op::Launch(Call::SampleProb { .. }))).count(), 1);
    assert_eq!(ops.iter().filter(|o| matches!(o, Op::Launch(Call::RepPenalty { .. }))).count(), 0);
}

#[test]
fn a_prompt_is_primed_in_passes() {
    let m = model(0, 1);
    let n = PRIME_CHUNK + 5;
    assert!(m.prompt_fits(raw(3), raw(1), raw(2), 4096, 7, n));
    let passes = m.mtp_prime_prompt(raw(3), raw(1), raw(2), 4096, 7, n);
    assert_eq!(passes.len(), 2);
    assert_eq!((passes[0].first, passes[0].pos.len(), passes[0].pos[0]), (0, PRIME_CHUNK, 7));
    assert_eq!((passes[1].first, passes[1].pos.len(), passes[1].pos[4]), (PRIME_CHUNK, 5, 2059));
    assert!(passes.iter().all(|p| kept(&p.ops) == 0));
    assert!(m.mtp_prime_prompt(raw(3), raw(1), raw(2), 4096, 7, 0).is_empty());
    assert!(!m.prompt_fits(raw(3), raw(1), raw(2), 4096, 1 << 31, 1));
}

#[test]
fn sampling_parameters() {
    let p = pack_verify(3, 0u32, 7, 9, 40, &[11, 12], &[1, 2]);
    assert_eq!(p.floats.len(), 3 * MAX_VERIFY);
    assert_eq!(p.floats[..4], [7, 7, 7, 0]);
    assert_eq!(p.floats[MAX_VERIFY..MAX_VERIFY + 4], [9, 9, 9, 0]);
    assert_eq!(p.floats[2 * MAX_VERIFY..2 * MAX_VERIFY + 3], [1, 2, 0]);
    assert_eq!(p.ints[..3], [11, 12, 0]);
    assert_eq!(p.ints[MAX_VERIFY..MAX_VERIFY + 4], [40, 40, 40, 0]);
    let s = unpack_verify(3, &[5u32, 6, 7, 8], &[1, 2, 3, 4]);
    assert_eq!((s.p_of_draft, s.resid_tok, s.bonus_tok), (vec![5, 6], vec![1, 2], 3));
    assert_eq!(read_tokens(&[1, 2, 3], 2), vec![1, 2]);
    assert_eq!(read_tokens(&[1, 2, 3], 9), vec![1, 2, 3]);
}

#[test]
fn staging_buffers() {
    let (len, init) = decode_buffer(DecodeBuf::Cos, 8, 16);
    assert_eq!(len, 128);
    assert!(matches!(init, Initial::Zeros));
    let (len, init) = decode_buffer(DecodeBuf::PenaltyTokens, 8, 16);
    assert_eq!(len, 512);
    assert!(matches!(init, Initial::MinusOnes));
    assert!(matches!(decode_buffer(DecodeBuf::SlotIds, 8, 16), (8, Initial::Identity)));
    assert!(may_capture(1, 3, 4) && may_capture(2, 4, 4) && !may_capture(2, 3, 4));
}

#[test]
fn algorithms() {
    let a = sweep_algorithms();
    assert_eq!((a.len(), a[0], a[1], a[25]), (49, -1, 0, 100));
    assert_eq!(algorithm_name(-1), "DEFAULT");
    assert_eq!(algorithm_name(7), "ALGO7");
    assert_eq!(algorithm_name(107), "ALGO7_TENSOR_OP");
    assert_eq!(worst_xor(&[1, 2, 3], &[1, 2, 3], 3), 0);
    assert_eq!(worst_xor(&[1, 6, 3], &[1, 2, 2], 3), 4);
}

#[test]
fn build_stamps() {
    assert_eq!(parse_hex("ff10"), Some(0xff10));
    assert_eq!(parse_hex("xyz"), None);
    assert!(check_build_id("1f", Some(0x1f)).is_ok());
    assert!(matches!(check_build_id("1f", None), Err(BuildFault::NoStamp)));
    assert!(matches!(
        check_build_id("1f", Some(3)),
        Err(BuildFault::Stale { found: 3, expected: 0x1f })
    ));
}

#[test]
fn passes_that_fit() {
    let m = model(0, 1);
    assert!(m.decode_fits(256, 17, 3));
    assert!(m.prefill_fits(200, 1, 256, 0));
    assert!(m.verify_fits(4, 0, 256, 9, Some(2), None));
    assert!(m.draft_step_fits(raw(3), 9, raw(1), raw(2), 256));
    assert!(m.reprime_fits(raw(3), 4, 9, raw(1), raw(2), 256));
    assert!(m.prime_fits(raw(3), raw(1), raw(2), 256, 0, 0, 100));
    assert!(m.draft_head_fits() && m.states_fit(3, 5, 256) && m.lane_fits(4, 256));
    let t = topo_from_parent(&[-1, 0, 0], 9, 4);
    assert!(m.verify_fits(3, 0, 256, 9, Some(2), Some(&t)));
}

#[test]
fn passes_that_do_not_fit() {
    let m = model(0, 1);
    assert!(!m.decode_fits(256, 17, 1 << 31), "more lanes than a kernel counts");
    assert!(!m.decode_fits(1 << 31, 17, 1), "a longer cache than a kernel counts");
    assert!(!m.prefill_fits(0, 0, 256, 0), "nothing to prefill");
    assert!(!m.prefill_fits(1 << 26, 0, 256, 0), "too many columns");
    assert!(!m.prefill_fits(4, 1 << 40, 256, 0), "a lane beyond the cache");
    assert!(!m.verify_fits(17, 0, 256, 9, Some(2), None), "wider than a verify");
    let t = topo_from_parent(&[-1, 0], 9, 4);
    assert!(!m.verify_fits(3, 0, 256, 9, Some(2), Some(&t)), "a tree of two columns");
    assert!(!m.reprime_fits(raw(3), 17, 9, raw(1), raw(2), 256));
    assert!(!m.draft_step_fits(raw(3), usize::MAX, raw(1), raw(2), 256));
    assert!(!m.states_fit(usize::MAX, 1, 256));
    let mut wide = config();
    wide.hidden_size = 1 << 40;
    let knobs = Knobs { prefill_scalar: false, zero_kv: false, fuse_residual: true };
    let wide = GpuModel::new(wide, true, false, settings(0, 1), knobs);
    assert!(!wide.decode_fits(256, 17, 1));
    let mut bare = model(0, 1);
    bare.layers.clear();
    assert!(!bare.decode_fits(256, 17, 1), "no layers");
    let mut none = model(0, 1);
    none.mtp = None;
    assert!(!none.draft_step_fits(raw(3), 9, raw(1), raw(2), 256), "no draft head");
}

#[test]
fn single_steps() {
    let op = test_conv1d(raw(1), raw(2), raw(3), 64, 4);
    assert!(matches!(op, Op::Single(c) if c.symbol() == "conv1d_step"));
    let op = test_delta_step(
        raw(1), raw(2), raw(3), raw(4), raw(5), raw(6), raw(7), 4, 32, 16, raw(8), raw(9),
    );
    match op {
        Op::Single(c) => {
            assert_eq!(c.symbol(), "delta_step");
            assert_eq!(c.geometry(), ((4, 1, 1), (32, 1, 1), 4 * (32 + 64 + 32)));
            assert_eq!(c.args().len(), 12);
        }
        _ => panic!("a single-token kernel"),
    }
    let m = model(0, 1);
    match m.rmsnorm_qwen(raw(1), raw(2), raw(3), 48, 0x3a83126f) {
        Op::Single(c) => {
            assert_eq!(c.symbol(), "rmsnorm_qwen");
            assert_eq!(c.geometry(), ((1, 1, 1), (48, 1, 1), 192));
            assert!(matches!(c.args()[3..], [Arg::I32(48), Arg::FBits(0x3a83126f)]));
        }
        _ => panic!("a norm"),
    }
    match m.rmsnorm_gated(raw(1), raw(2), raw(3), raw(4), 32, 0x3a83126f) {
        Op::Single(c) => {
            assert_eq!(c.symbol(), "rmsnorm_gated");
            assert_eq!(c.geometry(), ((1, 1, 1), (32, 1, 1), 128));
            assert!(matches!(c.args()[4..], [Arg::I32(32), Arg::FBits(0x3a83126f)]));
        }
        _ => panic!("a gated norm"),
    }
}

#[test]
fn scratch_sizes() {
    assert_eq!(scratch_bytes(Scratch::Pos), Some(64));
    assert_eq!(scratch_bytes(Scratch::Path), Some(256));
    assert_eq!(scratch_bytes(Scratch::WinSrc), Some(512));
    assert_eq!(scratch_bytes(Scratch::MoeIds), Some(1024));
    assert_eq!(scratch_bytes(Scratch::SampleF32), Some(192));
    assert_eq!(scratch_bytes(Scratch::DraftTok), Some(4));
    assert_eq!(scratch_bytes(Scratch::Dequant), None);
}

#[test]
fn grouped_passes_expand() {
    let m = model(0, 1);
    for op in m.prefill_batch(200, 0, 256, 0) {
        if let Op::Grouped(g) = op {
            assert_eq!(kept(&expand_grouped(g, 256)), 0);
        }
    }
}
