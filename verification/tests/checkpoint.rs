use gb10_inference::bits::{
    best_rows, halves_of, narrow, to_bf16_bits, to_f32_bits, top_two, words_of, LOWEST,
};
use gb10_inference::checkpoint::{
    find_entry, index_files, is_shard_file, load_shard, needs_f32, Catalog, Class, HeaderFault,
    IndexFault, LoadFault, Piece, ShardFault,
};
use gb10_inference::config::{Config, LayerType};
use gb10_inference::gpu::loader::{tensor_names, vector_name, weight_format, Loader, Request};
use gb10_inference::gpu::model::{AttnIn, Ffn, GdnIn, GpuModel, Knobs, TpSettings, W};
use gb10_inference::gpu::packing::{pack_draft_fp8, pack_draft_nvfp4, pack_fp8, pack_nvfp4};
use gb10_inference::gpu::program::{Block, BlockVec, Proj, WeightId};
use gb10_inference::mma::{repack_fp8_mma, repack_nvfp4_mma};
use gb10_inference::recipe::{Fmt, Group};
use half::bf16;

struct File {
    header: Vec<String>,
    data: Vec<u8>,
}

impl File {
    fn new() -> File {
        File { header: vec![], data: vec![] }
    }

    fn put(mut self, name: &str, dtype: &str, shape: &[usize], bytes: &[u8]) -> File {
        self.header.push(format!(
            "\"{name}\":{{\"dtype\":\"{dtype}\",\"shape\":{shape:?},\"data_offsets\":[{},{}]}}",
            self.data.len(),
            self.data.len() + bytes.len()
        ));
        self.data.extend_from_slice(bytes);
        self
    }

    fn plain(self, name: &str, shape: &[usize]) -> File {
        let n: usize = shape.iter().product();
        self.put(name, "BF16", shape, &vec![0u8; 2 * n])
    }

    fn packed(self, stem: &str, m: usize, k: usize) -> File {
        self.put(&format!("{stem}.weight_packed"), "U8", &[m, k / 2], &vec![7u8; m * k / 2])
            .put(&format!("{stem}.weight_scale"), "F8_E4M3", &[m, k / 16], &vec![8u8; m * k / 16])
            .put(&format!("{stem}.weight_global_scale"), "F32", &[1], &1f32.to_le_bytes())
    }

    fn eight(self, stem: &str, m: usize, k: usize) -> File {
        self.put(&format!("{stem}.weight"), "F8_E4M3", &[m, k], &vec![9u8; m * k]).put(
            &format!("{stem}.weight_scale"),
            "F32",
            &[m],
            &vec![0u8; 4 * m],
        )
    }

    fn bytes(self) -> Vec<u8> {
        let h = format!("{{{}}}", self.header.join(","));
        let mut out = (h.len() as u64).to_le_bytes().to_vec();
        out.extend_from_slice(h.as_bytes());
        out.extend_from_slice(&self.data);
        out
    }
}

#[test]
fn index_lists_each_shard_once() {
    let text = "{\"metadata\":{\"total_size\":1},\"weight_map\":{\"a\":\"s2.safetensors\",\
        \"b\":\"s1.safetensors\",\"c\":\"s2.safetensors\"}}";
    assert_eq!(index_files(text).ok().unwrap(), vec!["s1.safetensors", "s2.safetensors"]);
    assert!(matches!(index_files("{\"metadata\":{}}"), Err(IndexFault::NoWeightMap)));
    assert!(matches!(index_files("[1]"), Err(IndexFault::NoWeightMap)));
    match index_files("{\"weight_map\"") {
        Err(IndexFault::Syntax(e)) => assert!(e.contains("line 1"), "{e}"),
        _ => panic!("broken JSON"),
    }
}

#[test]
fn shard_files_by_name() {
    assert!(is_shard_file("model-00001.safetensors"));
    assert!(!is_shard_file("model.safetensors.index.json"));
    assert!(!is_shard_file("config.json"));
}

#[test]
fn small_vectors_stay_wide() {
    for n in [
        "m.layers.0.linear_attn.A_log",
        "m.layers.0.linear_attn.dt_bias",
        "m.norm.weight",
        "m.layers.0.linear_attn.conv1d.weight",
    ] {
        assert!(needs_f32(n), "{n}");
    }
    assert!(!needs_f32("m.layers.0.mlp.up_proj.weight"));
    assert!(!needs_f32("m.norm.bias"));
}

#[test]
fn shards_are_read() {
    let raw = File::new()
        .packed("a", 32, 64)
        .eight("b", 16, 48)
        .plain("c.weight", &[4, 32])
        .plain("d.norm.weight", &[4])
        .bytes();
    let recipe = Some(vec![(Group::Other, Fmt::Fp8)]);
    let s = load_shard(&raw, &recipe).ok().unwrap();
    assert_eq!(s.entries.len(), 7);
    let piece = |k: &str| s.items.iter().find(|i| i.key == k).map(|i| i.piece);
    match piece("a.weight").unwrap() {
        Piece::Nvfp4 { packed, scale, global, m, k } => {
            assert_eq!((m, k), (32, 64));
            assert_eq!(s.entries[packed].name, "a.weight_packed");
            assert_eq!(s.entries[scale].name, "a.weight_scale");
            assert_eq!(s.entries[global].name, "a.weight_global_scale");
            let e = &s.entries[packed];
            assert_eq!(&raw[s.data_start + e.start..s.data_start + e.end], &vec![7u8; 1024][..]);
        }
        _ => panic!("a packed weight"),
    }
    match piece("b.weight").unwrap() {
        Piece::Fp8 { weight, scale, m, k } => {
            assert_eq!((m, k), (16, 48));
            assert_eq!(s.entries[weight].name, "b.weight");
            assert_eq!(s.entries[scale].name, "b.weight_scale");
        }
        _ => panic!("an eight-bit weight"),
    }
    assert!(matches!(piece("c.weight"), Some(Piece::Bf16 { fake: Some(Fmt::Fp8), .. })));
    assert!(matches!(piece("d.norm.weight"), Some(Piece::F32 { .. })));
    assert_eq!(s.items.len(), 4);
    let i = find_entry(&s.entries, &"b.weight".to_string());
    assert_eq!(s.entries[i].shape, vec![16, 48]);
    assert_eq!(find_entry(&s.entries, &"nowhere".to_string()), s.entries.len());
}

#[test]
fn shard_faults() {
    let fault = |raw: &[u8]| match load_shard(raw, &None) {
        Err(ShardFault::Header(f)) => f,
        _ => panic!("no header"),
    };
    let with = |len: u64, text: &[u8]| [&len.to_le_bytes()[..], text].concat();
    assert!(matches!(fault(b"short"), HeaderFault::TooSmall));
    assert!(matches!(fault(&with(100_000_001, b"{}")), HeaderFault::TooLarge));
    assert!(matches!(fault(&with(3, b"{}")), HeaderFault::InvalidLength));
    let f = fault(&with(2, &[0xFF, 0xFE]));
    assert!(matches!(f, HeaderFault::NotUtf8(_)));
    let detail = std::str::from_utf8(&[0xFF, 0xFE]).unwrap_err().to_string();
    assert_eq!(f.message(), format!("invalid UTF-8 in header: {detail}"));
    assert!(matches!(fault(&with(2, b"[]")), HeaderFault::Json(_)));
    let listed = |dtype: &str, shape: &str, at: &str| {
        let text = format!("{{\"a\":{{\"dtype\":\"{dtype}\",\"shape\":{shape},\"data_offsets\":{at}}}}}");
        fault(&[with(text.len() as u64, text.as_bytes()), vec![0; 8]].concat())
    };
    let f = listed("F32", "[1]", "[4,8]");
    assert!(matches!(&f, HeaderFault::InvalidOffset(n) if n == "a"));
    assert_eq!(f.message(), "invalid offset for tensor `a`");
    let f = listed("F32", "[1]", "[0,8]");
    assert!(matches!(f, HeaderFault::InvalidInfo));
    assert_eq!(f.message(), "invalid shape, data type, or offset for tensor");
    let f = listed("F32", &format!("[{},2]", usize::MAX), "[0,8]");
    assert!(matches!(f, HeaderFault::SizeOverflow));
    assert_eq!(f.message(), "overflow computing buffer size from shape and/or element type");
    let f = listed("F4", "[1]", "[0,8]");
    assert!(matches!(f, HeaderFault::PartByte));
    assert!(f.message().starts_with("The slice is slicing for subbytes dtypes"));
    assert!(matches!(listed("F5", "[1]", "[0,8]"), HeaderFault::Json(_)));
    assert!(matches!(fault(&with(2, b"{}x")), HeaderFault::Incomplete));
    assert_eq!(fault(&with(2, b"{}x")).message(), "incomplete metadata, file not fully covered");
    assert!(fault(&with(1, b"{")).message().starts_with("invalid JSON in header: "));
    assert!(matches!(load_shard(&with(2, b"{}"), &None), Ok(s) if s.entries.is_empty() && s.data_start == 10));
    let size = (1u64 << 61) - 1;
    let huge: Vec<String> = (0..8)
        .map(|i| {
            let (a, b) = (i * size, (i + 1) * size);
            format!("\"t{i}\":{{\"dtype\":\"U8\",\"shape\":[{size}],\"data_offsets\":[{a},{b}]}}")
        })
        .collect();
    let huge = format!("{{{}}}", huge.join(","));
    let raw = with(huge.len() as u64, huge.as_bytes());
    assert!(matches!(fault(&raw), HeaderFault::Incomplete), "an end beyond every file");
    let raw = File::new().put("a.weight_packed", "U8", &[16, 8], &[0; 128]).bytes();
    match load_shard(&raw, &None) {
        Err(ShardFault::Tensor(LoadFault::NotFound(n))) => assert_eq!(n, "a.weight_scale"),
        _ => panic!("a scale is missing"),
    }
    let raw = File::new()
        .put("a.weight_packed", "U8", &[128], &[0; 128])
        .put("a.weight_scale", "F8_E4M3", &[16], &[0; 16])
        .put("a.weight_global_scale", "F32", &[1], &[0; 4])
        .bytes();
    match load_shard(&raw, &None) {
        Err(ShardFault::Tensor(LoadFault::Malformed(n))) => assert_eq!(n, "a.weight_packed"),
        _ => panic!("no matrix"),
    }
    let raw = File::new().put("x.weight", "I8", &[3], &[0; 3]).bytes();
    assert!(matches!(load_shard(&raw, &None), Err(ShardFault::Tensor(LoadFault::Malformed(_)))));
}

#[test]
fn later_shards_replace_earlier_ones() {
    let mut c = Catalog::new(false);
    let key = "a.weight".to_string();
    c.ingest(0, &File::new().plain("a.weight", &[2, 2]).bytes(), &None).ok().unwrap();
    c.ingest(1, &File::new().plain("a.weight", &[2, 2]).bytes(), &None).ok().unwrap();
    assert_eq!(c.items[c.find(Class::Bf16, &key).unwrap()].shard, 1);
    assert_eq!(c.find(Class::Fp8, &key), None);
    assert!(!c.quantized());
    assert!(c.any_under("a.") && !c.any_under("b."));
    assert!(c.ingest(2, b"", &None).is_err());
    assert_eq!(c.items.len(), 2);
    c.ingest(2, &File::new().eight("b", 16, 16).bytes(), &None).ok().unwrap();
    assert!(c.quantized());
    let mut d = Catalog::new(true);
    d.ingest(0, &File::new().eight("b", 16, 16).bytes(), &None).ok().unwrap();
    assert!(!d.quantized());
    assert!(d.find(Class::Bf16, &"b.weight".to_string()).is_some());
}

fn config() -> Config {
    Config {
        hidden_size: 64,
        vocab_size: 1024,
        num_layers: 2,
        num_heads: 4,
        num_kv_heads: 2,
        head_dim: 16,
        rotary_dim: 8,
        intermediate_size: 128,
        lin_num_v_heads: 4,
        lin_num_k_heads: 2,
        lin_k_dim: 16,
        lin_v_dim: 16,
        conv_kernel: 4,
        layer_types: vec![LayerType::LinearAttention, LayerType::FullAttention],
        max_position_embeddings: 256,
        tie_word_embeddings: false,
        is_moe: false,
        moe_layers: vec![],
        num_experts: 0,
        num_experts_per_tok: 0,
        moe_intermediate_size: 0,
        shared_expert_intermediate_size: 0,
        ple_ngram_size: 0,
        ple_heads_per_ngram: 0,
        ple_vocab_base: 0,
        ple_vocab_divisor: 0,
        ple_seed: 0,
        eos_token_id: 2,
        rms_eps_bits: 0x358637bd,
    }
}

fn alone() -> TpSettings {
    TpSettings {
        rank: 0,
        world: 1,
        shard_mixers: false,
        fp32_partials: false,
        probe_batch: 1,
        head_proof: false,
        head_fault: false,
    }
}

fn knobs() -> Knobs {
    Knobs { prefill_scalar: false, zero_kv: false, fuse_residual: true }
}

const L: &str = "model.language_model.layers.";

fn norms(mut f: File) -> File {
    f = f.plain("model.language_model.norm.weight", &[64]);
    for i in 0..2 {
        f = f
            .plain(&format!("{L}{i}.input_layernorm.weight"), &[64])
            .plain(&format!("{L}{i}.post_attention_layernorm.weight"), &[64]);
    }
    f.plain(&format!("{L}0.linear_attn.conv1d.weight"), &[128, 4])
        .plain(&format!("{L}0.linear_attn.A_log"), &[4])
        .plain(&format!("{L}0.linear_attn.dt_bias"), &[4])
        .plain(&format!("{L}0.linear_attn.norm.weight"), &[16])
        .plain(&format!("{L}1.self_attn.q_norm.weight"), &[16])
        .plain(&format!("{L}1.self_attn.k_norm.weight"), &[16])
}

const MATRICES: [(&str, usize, usize); 17] = [
    ("model.language_model.embed_tokens", 1024, 64),
    ("lm_head", 1024, 64),
    ("model.language_model.layers.0.linear_attn.in_proj_qkv", 128, 64),
    ("model.language_model.layers.0.linear_attn.in_proj_z", 64, 64),
    ("model.language_model.layers.0.linear_attn.in_proj_b", 4, 64),
    ("model.language_model.layers.0.linear_attn.in_proj_a", 4, 64),
    ("model.language_model.layers.0.linear_attn.out_proj", 64, 64),
    ("model.language_model.layers.0.mlp.gate_proj", 128, 64),
    ("model.language_model.layers.0.mlp.up_proj", 128, 64),
    ("model.language_model.layers.0.mlp.down_proj", 64, 128),
    ("model.language_model.layers.1.self_attn.q_proj", 128, 64),
    ("model.language_model.layers.1.self_attn.k_proj", 32, 64),
    ("model.language_model.layers.1.self_attn.v_proj", 32, 64),
    ("model.language_model.layers.1.self_attn.o_proj", 64, 64),
    ("model.language_model.layers.1.mlp.gate_proj", 128, 64),
    ("model.language_model.layers.1.mlp.up_proj", 128, 64),
    ("model.language_model.layers.1.mlp.down_proj", 64, 128),
];

#[test]
fn models_are_put_together() {
    let mut f = norms(File::new());
    for (stem, m, k) in MATRICES {
        f = f.plain(&format!("{stem}.weight"), &[m, k]);
    }
    let mut cat = Catalog::new(false);
    cat.ingest(0, &f.bytes(), &None).ok().unwrap();
    let m = Loader { cat: &cat, tied: false }.load_model(config(), 100, alone(), knobs()).ok().unwrap();
    assert!(matches!(m.embed, W::Bf16));
    assert!(matches!(m.lm_head, Some(W::Bf16)));
    assert_eq!(m.layers.len(), 2);
    assert!(m.mtp.is_none() && m.draft_head.is_none());
    assert!(matches!(m.layers[0].la.unwrap().in_proj, GdnIn::Split { .. }));
    assert!(m.layers[0].fa.is_none());
    assert!(matches!(m.layers[1].fa.unwrap().qkv, AttnIn::Split { .. }));
    let host = GpuModel::new(config(), true, false, alone(), knobs());
    assert_eq!(host.layers.len(), 2);
    assert!(matches!(host.layers[1].mlp, Ffn::Dense(_)));
}

#[test]
fn quantized_models_are_fused() {
    let mut f = norms(File::new());
    for (stem, m, k) in MATRICES {
        f = f.packed(stem, m, k);
    }
    let mut cat = Catalog::new(false);
    cat.ingest(0, &f.bytes(), &None).ok().unwrap();
    let m = Loader { cat: &cat, tied: false }.load_model(config(), 100, alone(), knobs()).ok().unwrap();
    assert!(matches!(m.layers[0].la.unwrap().in_proj, GdnIn::Fused(W::Nvfp4 { m: 200, k: 64 })));
    assert!(matches!(m.layers[1].fa.unwrap().qkv, AttnIn::Fused(W::Nvfp4 { m: 192, k: 64 })));
    assert!(matches!(m.draft_head, Some(W::Nvfp4 { m: 624, k: 64 })));
    assert_eq!(m.draft_ids.len(), 624);
    assert_eq!(m.draft_token(112), 512);
}

#[test]
fn missing_weights_are_named() {
    let mut cat = Catalog::new(false);
    cat.ingest(0, &norms(File::new()).bytes(), &None).ok().unwrap();
    let l = Loader { cat: &cat, tied: true };
    match l.load_model(config(), 0, alone(), knobs()) {
        Err(LoadFault::Missing(c, n)) => {
            assert!(matches!(c, Class::Bf16));
            assert_eq!(n, "model.language_model.embed_tokens.weight");
        }
        _ => panic!("there is no embedding"),
    }
    let fused = Request::Weight(WeightId::Of(Block::Layer(0), Proj::GdnIn), true);
    match l.check_all(&[Request::FinalNorm, fused]) {
        Some(LoadFault::Unfused(n)) => {
            assert_eq!(n, "model.language_model.layers.0.linear_attn.in_proj_qkv.weight")
        }
        _ => panic!("sixteen-bit tensors are not joined"),
    }
    let mtp = Request::Vector(Block::Mtp, BlockVec::PreFcHidden);
    match l.check_all(&[mtp]) {
        Some(LoadFault::Missing(Class::F32, n)) => assert_eq!(n, "mtp.pre_fc_norm_hidden.weight"),
        _ => panic!("there is no draft head"),
    }
}

#[test]
fn tensor_names_of_weights() {
    assert_eq!(
        tensor_names(WeightId::Of(Block::Layer(12), Proj::Qkv), false, true),
        vec![
            "model.language_model.layers.12.self_attn.q_proj.weight",
            "model.language_model.layers.12.self_attn.k_proj.weight",
            "model.language_model.layers.12.self_attn.v_proj.weight",
        ]
    );
    assert_eq!(
        tensor_names(WeightId::DraftHead, true, false),
        vec!["model.language_model.embed_tokens.weight"]
    );
    let experts = WeightId::Of(Block::Mtp, Proj::ExpertDown);
    assert_eq!(tensor_names(experts, false, false), vec!["mtp.layers.0.mlp.experts.down_proj"]);
    assert_eq!(tensor_names(experts, false, true), vec!["mtp.layers.0.mlp.experts.down_proj.weight"]);
    assert_eq!(
        vector_name(Block::Layer(3), BlockVec::ALog),
        "model.language_model.layers.3.linear_attn.A_log"
    );
}

#[test]
fn formats_of_joined_weights() {
    let mut cat = Catalog::new(false);
    let f = File::new().eight("a", 16, 32).eight("b", 48, 32).plain("c.weight", &[2, 2]);
    cat.ingest(0, &f.bytes(), &None).ok().unwrap();
    let n = |v: &[&str]| v.iter().map(|s| s.to_string()).collect::<Vec<String>>();
    assert!(matches!(
        weight_format(&cat, &n(&["a.weight", "b.weight"])),
        Ok(W::Fp8 { m: 64, k: 32 })
    ));
    assert!(matches!(weight_format(&cat, &n(&["c.weight"])), Ok(W::Bf16)));
    assert!(matches!(
        weight_format(&cat, &n(&["a.weight", "x.weight"])),
        Err(LoadFault::Missing(Class::Fp8, _))
    ));
}

#[test]
fn packed_weights_are_tiled() {
    let (m, k) = (32usize, 32usize);
    let qw: Vec<u8> = (0..m * k / 2).map(|i| (i * 7 % 256) as u8).collect();
    let sc: Vec<u8> = (0..m * k / 16).map(|i| (i * 3 % 256) as u8).collect();
    let half = m * k / 4;
    let p = pack_nvfp4(
        &[(&qw[..half], &sc[..32], 1u32, 16), (&qw[half..], &sc[32..], 2, 16)],
        k,
    );
    assert_eq!((p.weights, p.scales), repack_nvfp4_mma(&qw, &sc, m, k));
    assert_eq!(p.tile_scales, vec![1, 2]);
    let rows: Vec<u32> = (16..32).collect();
    let d = pack_draft_nvfp4(&qw, &sc, 9u32, k, &rows);
    assert_eq!((d.weights, d.scales), repack_nvfp4_mma(&qw[half..], &sc[32..], 16, k));
    assert_eq!((d.tile_scales, d.m), (vec![9], 16));
    let q8: Vec<u8> = (0..m * k).map(|i| (i * 5 % 256) as u8).collect();
    let rs: Vec<u32> = (0..m as u32).collect();
    let p = pack_fp8(&[(&q8[..], &rs[..], m)], k);
    assert_eq!(p.weights, repack_fp8_mma(&q8, m, k));
    assert_eq!(p.row_scales, rs);
    let d = pack_draft_fp8(&q8, &rs, k, &rows);
    assert_eq!(d.weights, repack_fp8_mma(&q8[16 * k..], 16, k));
    assert_eq!(d.row_scales, rs[16..].to_vec());
}

#[test]
fn words_of_bytes() {
    assert_eq!(halves_of(&[1, 2, 3, 4]), vec![0x0201, 0x0403]);
    assert_eq!(words_of(&[1, 2, 3, 4]), vec![0x0403_0201]);
}

#[test]
fn widening_and_narrowing() {
    for b in [0u16, 0x8000, 0x3F80, 0xC000, 0x0001, 0x7F80, 0xFF80, 0x7F81, 0x7FC0, 0x3FB3] {
        let wide = to_f32_bits(&b.to_le_bytes(), false)[0];
        assert_eq!(wide, bf16::from_bits(b).to_f32().to_bits(), "{b:04x}");
        if !bf16::from_bits(b).is_nan() {
            assert_eq!(narrow(wide), b);
        }
    }
    for x in [1.0f32, 1.00390625, 1.005859375, -0.1, 3.4e38, 1e-40, f32::INFINITY, f32::NAN] {
        assert_eq!(narrow(x.to_bits()), bf16::from_f32(x).to_bits(), "{x}");
        assert_eq!(to_bf16_bits(&x.to_le_bytes(), true), vec![bf16::from_f32(x).to_bits()]);
        assert_eq!(to_f32_bits(&x.to_le_bytes(), true), vec![x.to_bits()]);
    }
    assert_eq!(to_bf16_bits(&[1, 2], false), vec![0x0201]);
}

#[test]
fn largest_entries() {
    let col: Vec<u16> =
        [1.0f32, 5.0, -3.0, 5.0, 4.0].iter().map(|x| bf16::from_f32(*x).to_bits()).collect();
    let t = top_two(&col);
    assert_eq!(t.first, 1, "the first of equals");
    assert_eq!((t.best, t.second), (0x40A0, 0x40A0));
    assert_eq!(best_rows(&col, 3), vec![1, 3, 4]);
    assert_eq!(best_rows(&col, 9).len(), 5);
    let t = top_two(&[0x7FC0, 0xFF80]);
    assert_eq!((t.first, t.best, t.second), (0, LOWEST, LOWEST));
}
