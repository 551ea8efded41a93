use gb10_inference::kernels::{
    launch_add_residual, launch_apply_rope, launch_fused_attention_decode, launch_gemm_nvfp4,
    launch_rms_norm, launch_silu_gate_mul, ptx_files, KernelModule, LaunchArg, ROPE_BASE_BITS,
};
use gb10_inference::knobs::env_knob;
use gb10_inference::kv_cache::KVCache;
use gb10_inference::memory::{compute_memory_requirements, UnifiedMemoryPool};
use gb10_inference::memwatch::{mem_available_bytes, Watch};
use gb10_inference::model::{
    targets, tensor_name, DenseLinear, LayerPart, ModelConfig, ModelFault, NVFP4WeightBlock,
    PackedLinear, Qwen3Model, Target, TransformerLayer,
};
use gb10_inference::net::{
    agreement, link_outcome, peer, step_bits, trace_enable, LinkFault, LinkRegister, NetCtx, TpLink,
    STEP_MASK,
};

#[test]
fn memory_table() {
    let table = "MemTotal:       131000000 kB\nMemFree:        5 kB\nMemAvailable:   2048 kB\nX: 1\n";
    assert_eq!(mem_available_bytes(table), Some(2048 * 1024));
    assert_eq!(mem_available_bytes("MemTotal: 4 kB\n"), None);
    assert_eq!(mem_available_bytes("MemAvailable: many kB\n"), None);
    assert_eq!(mem_available_bytes("MemAvailable:\n"), None);
    assert_eq!(mem_available_bytes(""), None);
}

#[test]
fn two_strikes_end_the_process() {
    let mut w = Watch::new();
    assert!(!w.sample(100, 50));
    assert!(!w.sample(40, 50));
    assert!(!w.sample(60, 50), "a spike passes");
    assert!(!w.sample(49, 50));
    assert!(w.sample(48, 50));
    assert_eq!(w.least, Some(40));
}

#[test]
fn generic_names_win() {
    let s = |t: &str| Some(t.to_string());
    let k = env_knob(s("a"), s("b"), false);
    assert_eq!((k.value, k.warn), (s("a"), false));
    let k = env_knob(None, s("b"), false);
    assert_eq!((k.value, k.warn), (s("b"), true));
    let k = env_knob(None, s("b"), true);
    assert_eq!((k.value, k.warn), (s("b"), false));
    let k = env_knob(None, None, false);
    assert_eq!((k.value, k.warn), (None, false));
}

#[test]
fn link_codes() {
    assert!(link_outcome(0).is_ok());
    assert!(matches!(link_outcome(-2), Err(LinkFault::Aborted)));
    assert!(matches!(link_outcome(7), Err(LinkFault::Code(7))));
    assert!(matches!(link_outcome(-1), Err(LinkFault::Code(-1))));
}

#[test]
fn links_are_registered() {
    let link = TpLink { ctx: NetCtx { address: 0x1000 }, slot_bytes: 64 };
    let mut reg = LinkRegister::new();
    assert_eq!(reg.link(), None);
    let s = trace_enable(&mut reg, &link);
    assert_eq!((s.inject_delay_us_max, s.timestamps), (0, true));
    assert_eq!(reg.link(), Some(0x1000));
    assert!(link.slot_holds(32, 2));
    assert!(!link.slot_holds(33, 2));
    assert!(!link.slot_holds(usize::MAX, 2));
}

#[test]
fn agreement_words() {
    let w = agreement(0x1_0000_0002, 3, 0xDEAD_BEEF);
    assert_eq!(w, 0x0000_0203_DEAD_BEEF);
    assert_eq!(w & STEP_MASK, step_bits(0x1_0000_0002));
    assert_eq!(peer(w), Some((3, 0xDEAD_BEEF)));
    assert_eq!(peer(0), None);
}

fn small() -> ModelConfig {
    ModelConfig {
        hidden_size: 4,
        num_heads: 2,
        num_kv_heads: 1,
        head_dim: 2,
        num_layers: 2,
        vocab_size: 3,
        intermediate_size: 5,
        max_seq_len: 8,
        rms_norm_eps_bits: 1e-6f32.to_bits(),
        num_experts: 0,
        experts_per_token: 0,
    }
}

#[test]
fn allocations() {
    let mut p = UnifiedMemoryPool::new(1 << 40, 1);
    assert_eq!(p.size(), 1 << 30);
    assert_eq!(p.allocate(10, 2, 4).ok(), Some(1 << 40));
    assert_eq!(p.next, 20);
    assert_eq!(p.allocate(1, 1, 1).ok(), Some((1 << 40) + 32));
    assert_eq!(p.allocate(1, 1, 256).ok(), Some((1 << 40) + 256));
    assert_eq!(p.next, 22);
    assert!(p.allocate(1 << 30, 1, 1).is_err());
}

#[test]
fn cache_addresses() {
    let mut p = UnifiedMemoryPool::new(0x1000, 1);
    let mut c = KVCache::new(&small(), &mut p).ok().unwrap();
    assert_eq!(c.ptrs.bytes_per_k, 8 * 2 * 2);
    assert_eq!((c.ptrs.base_k, c.ptrs.base_v), (0x1000, 0x1020));
    assert_eq!(p.next, 2 * 2 * 32);
    assert_eq!(c.ptrs.stride_k_layer(), 16);
    let r = c.row(1, 3);
    assert_eq!(r.k, 0x1000 + 64 + 12);
    assert_eq!(r.v, 0x1020 + 64 + 12);
    assert_eq!(r.len, 2);
    let mut taken = vec![false; 128];
    for layer in 0..2 {
        for pos in 0..8 {
            let r = c.row(layer, pos);
            for start in [r.k, r.v] {
                for b in start..start + 4 {
                    assert!(!std::mem::replace(&mut taken[(b - 0x1000) as usize], true));
                }
            }
        }
    }
    assert!(taken.iter().all(|&t| t));
    c.advance();
    c.advance();
    assert_eq!(c.current_len, 2);
    c.reset();
    assert_eq!(c.current_len, 0);
}

#[test]
fn memory_requirements() {
    let r = compute_memory_requirements(&ModelConfig::default());
    let h = 1024usize;
    let layer = 4 * h * h * 2 + h * 2816 * 2 * 2 + 2816 * h * 2 + 2 * h * 2;
    let weights = 2 * 151936 * h * 2 + 24 * layer;
    let kv = 24 * 8 * 128 * 4096 * 4;
    assert_eq!(r.weights_mb, weights >> 20);
    assert_eq!(r.kv_cache_mb, kv >> 20);
    assert_eq!(r.activations_mb, 0);
    assert_eq!(r.total_mb, (weights + kv + h * 8) >> 20);
}

#[test]
fn model_shapes() {
    let c = ModelConfig::qwen3_5_0_08b();
    assert_eq!((c.hidden_size, c.num_layers, c.vocab_size), (1024, 24, 151936));
    assert_eq!(f32::from_bits(c.rms_norm_eps_bits), 1e-6);
    assert_eq!(small().total_params(), 2 * 12 + 2 * (4 * 16 + 3 * 20));
    let p = PackedLinear::new(40, 3, 16);
    assert_eq!((p.weights.len(), p.scales.len()), (9, 9));
    assert_eq!(p.num_blocks(), 3);
    assert!(p.weights.iter().all(|b| b.is_zero()));
    assert!(NVFP4WeightBlock { scale: 0x8000, packed_values: 9 }.is_zero());
    assert!(!NVFP4WeightBlock { scale: 1, packed_values: 0 }.is_zero());
}

fn weight_file(tensors: &[(&str, &str, usize, Vec<u8>)]) -> Vec<u8> {
    let mut header = String::from("{");
    let mut data = Vec::new();
    for (i, (name, dtype, n, bytes)) in tensors.iter().enumerate() {
        if i > 0 {
            header.push(',');
        }
        header.push_str(&format!(
            "\"{name}\":{{\"dtype\":\"{dtype}\",\"shape\":[{n}],\"data_offsets\":[{},{}]}}",
            data.len(),
            data.len() + bytes.len()
        ));
        data.extend_from_slice(bytes);
    }
    header.push('}');
    if header.len() % 2 != 0 {
        header.push(' ');
    }
    let mut out = (header.len() as u64).to_le_bytes().to_vec();
    out.extend_from_slice(header.as_bytes());
    out.extend_from_slice(&data);
    out
}

#[test]
fn models_load() {
    let c = small();
    let embed: Vec<u16> = (0..12).map(|i| 0x100 + i).collect();
    let raw: Vec<u8> = embed.iter().flat_map(|x| x.to_le_bytes()).collect();
    let file = weight_file(&[("model.embed_tokens.weight", "BF16", 12, raw)]);
    let mut m = Qwen3Model::load_from_safetensors(&file, c).ok().unwrap();
    let ts = targets(&c);
    assert_eq!(ts.len(), 2 + 2 * 9);
    assert_eq!(ts[2], Target::Layer(0, LayerPart::InputNorm));
    assert_eq!(tensor_name(ts[19]), "model.layers.1.mlp.down_proj.weight");
    assert_eq!(m.embed_tokens, embed);
    assert_eq!(m.lm_head, vec![0; 12]);
    assert_eq!(m.layers.len(), 2);
    assert_eq!(m.layers[0].input_layernorm_weight, vec![0x3C00; 4]);
    assert_eq!(m.layers[1].dense_k_proj.weight, vec![0; 2 * 4]);
    assert_eq!(m.layers[1].dense_down_proj.bias, vec![0; 4]);
    assert_eq!(m.layers[0].gate_proj.weights.len(), 5);
    assert_eq!(m.lm_head_packed.out_features, 3);
    let mut pool = UnifiedMemoryPool::new(0, 1);
    assert!(m.upload_to_device(&mut pool).is_ok());
    assert_eq!((m.embed_tokens_ptr, m.lm_head_ptr), (Some(0), Some(32)));
    assert_eq!(m.layers[0].input_layernorm_weight_ptr, Some(48));
    assert_eq!(m.layers[0].post_attention_layernorm_weight_ptr, Some(64));
    let mut full = UnifiedMemoryPool { base: 0, size: 50, next: 0 };
    assert!(m.upload_to_device(&mut full).is_err());
    let mut blank = Qwen3Model::new(c);
    let mut full = UnifiedMemoryPool { base: 0x1000, size: 50, next: 1 };
    assert!(blank.upload_to_device(&mut full).is_err());
    assert_eq!(full.next, 1 + 24 + 24 + 8, "the tensor that did not fit is counted");
    assert_eq!((blank.embed_tokens_ptr, blank.lm_head_ptr), (Some(0x1010), Some(0x1020)));
    assert_eq!(blank.layers[0].input_layernorm_weight_ptr, None);
    assert_eq!(blank.layers[1].dense_down_proj.weight_ptr, None);
}

#[test]
fn new_models_are_blank() {
    let m = Qwen3Model::new(small());
    assert_eq!(m.embed_tokens, vec![0; 12]);
    assert_eq!(m.layers[1].post_attention_layernorm_weight, vec![0x3C00; 4]);
    assert!(m.embed_tokens_ptr.is_none() && m.layers[0].dense_q_proj.weight_ptr.is_none());
    let l = TransformerLayer::new(&small());
    assert_eq!((l.down_proj.in_features, l.down_proj.out_features), (5, 4));
    let d = DenseLinear::new(3, 2);
    assert_eq!((d.weight, d.bias), (vec![0; 6], vec![0; 2]));
}

#[test]
fn model_faults() {
    let c = small();
    let bad = Qwen3Model::load_from_safetensors(b"no such file", c).err().unwrap();
    assert!(matches!(bad, ModelFault::Header(_)));
    let file = weight_file(&[("lm_head.weight", "U8", 3, vec![1, 2, 3])]);
    match Qwen3Model::load_from_safetensors(&file, c).err().unwrap() {
        ModelFault::Cast(n) => assert_eq!(n, "lm_head.weight"),
        _ => panic!("odd bytes are no words"),
    }
    let file = weight_file(&[("a", "U8", 1, vec![0]), ("lm_head.weight", "BF16", 12, vec![0; 24])]);
    match Qwen3Model::load_from_safetensors(&file, c).err().unwrap() {
        ModelFault::Unaligned(n) => assert_eq!(n, "lm_head.weight"),
        _ => panic!("words stand at even places"),
    }
    let file = weight_file(&[("a", "U8", 2, vec![0; 2]), ("lm_head.weight", "BF16", 12, vec![7; 24])]);
    assert_eq!(Qwen3Model::load_from_safetensors(&file, c).ok().unwrap().lm_head, vec![0x0707; 12]);
    let file = weight_file(&[("model.layers.1.input_layernorm.weight", "BF16", 2, vec![0; 4])]);
    match Qwen3Model::load_from_safetensors(&file, c).err().unwrap() {
        ModelFault::Size { name, expected, got } => {
            assert_eq!(name, "model.layers.1.input_layernorm.weight");
            assert_eq!((expected, got), (4, 2));
        }
        _ => panic!("the size is wrong"),
    }
}

#[test]
fn kernel_files() {
    let files = ptx_files();
    let names: Vec<&str> = files.iter().map(|f| f.0).collect();
    assert_eq!(names, vec!["gemm_nvfp4", "fused_decode", "rms_norm", "silu_gate"]);
    assert_eq!(files[2].1, "src/ptx/rms_norm.ptx");
    assert_eq!(files[2].2.len(), 4);
    let m = KernelModule { kernels: vec!["a".to_string(), "b".to_string()] };
    assert_eq!((m.get_func("b"), m.get_func("c")), (Some(1), None));
    assert_eq!((m.len(), m.is_empty()), (2, false));
}

#[test]
fn launches() {
    let l = launch_gemm_nvfp4(1, 2, 3, 4, 65, 64, 128);
    assert_eq!((l.kernel, l.grid, l.block), ("gemm_nvfp4_sm121", (2, 1, 1), 256));
    assert!(matches!(l.args[..4], [LaunchArg::Addr(2), LaunchArg::Addr(3), LaunchArg::Addr(4), LaunchArg::Addr(1)]));
    let l = launch_rms_norm(1, 2, 3, 257, 9);
    assert_eq!((l.kernel, l.grid, l.shared_bytes), ("rms_norm_kernel", (2, 1, 1), 1024));
    assert!(matches!(l.args[4], LaunchArg::F32(9)));
    let l = launch_silu_gate_mul(1, 2, 3, 256);
    assert_eq!((l.kernel, l.grid), ("silu_gate_mul_kernel", (1, 1, 1)));
    let l = launch_add_residual(1, 2, 3, 1);
    assert_eq!((l.kernel, l.grid), ("add_residual_kernel", (1, 1, 1)));
    let l = launch_apply_rope(1, 2, 7, 64, 8);
    assert_eq!((l.kernel, l.grid), ("apply_rope_kernel", (2, 1, 1)));
    assert_eq!(f32::from_bits(ROPE_BASE_BITS), 10000.0);
    let l = launch_fused_attention_decode(1, 2, 3, 4, 5, 6, 7, 8, 9);
    assert_eq!((l.kernel, l.grid, l.block), ("fused_decode_single_token", (6, 1, 1), 128));
    assert!(matches!(l.args[8], LaunchArg::I32(9)));
}
