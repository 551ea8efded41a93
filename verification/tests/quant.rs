use gb10_inference::config::{Config, LayerType};
use gb10_inference::mma::{
    fp4_tile_slot, fp8_tile_slot, repack_fp8_mma, repack_fp8_tiles, repack_nvfp4_mma,
    repack_nvfp4_tiles, repack_ranges, set_repack_threading, RepackThreading, MMA_K, MMA_M,
    MMA_TILE_FP4, MMA_TILE_FP8, REPACK_MIN_TILES_PER_THREAD,
};
use gb10_inference::recipe::{
    fmt_for, fmt_for_layer, fmt_name, group_name, group_of, layer_index_of, parse_layer_rules,
    parse_recipe, Fmt, Group, RecipeFault,
};
use gb10_inference::shard::{
    count_rows, gdn_segments, pad_redzone, qkv_segments, redzone_violations, shard_col_segs,
    shard_f32_segs, shard_row, visits_uniform, TiledWeight, TP_REDZONE_SENTINEL,
};
use gb10_inference::tensors::{
    fuse_fp8, fuse_nvfp4, nibble_at, pack_nibbles, ple_code, ple_records, stq_lane, subset_rows_fp8,
    subset_rows_nvfp4, StqKind, PLE_REC_BYTES, STQ_BLOCK,
};
use gb10_inference::vocab::{draft_vocab_rows, draft_vocab_rows_text};
use half::bf16;

const E2M1: [f32; 8] = [0.0, 0.5, 1.0, 1.5, 2.0, 3.0, 4.0, 6.0];

fn e4m3_to_f32(b: u8) -> f32 {
    let sign = if b & 0x80 != 0 { -1.0f32 } else { 1.0f32 };
    let exp = ((b >> 3) & 0x0F) as i32;
    let man = (b & 0x07) as f32;
    if exp == 0 {
        sign * (man / 8.0) * 2.0f32.powi(-6)
    } else {
        sign * (1.0 + man / 8.0) * 2.0f32.powi(exp - 7)
    }
}

fn f32_to_e4m3(x: f32) -> u8 {
    let a = x.abs().min(448.0);
    let mut best = 0u8;
    for c in 0..127u8 {
        if (e4m3_to_f32(c) - a).abs() < (e4m3_to_f32(best) - a).abs() {
            best = c;
        }
    }
    if x < 0.0 {
        best | 0x80
    } else {
        best
    }
}

fn f32_to_e2m1(x: f32) -> u8 {
    let a = x.abs().min(6.0);
    let mut best = 0u8;
    for (i, v) in E2M1.iter().enumerate() {
        if (v - a).abs() < (E2M1[best as usize] - a).abs() {
            best = i as u8;
        }
    }
    if x < 0.0 {
        best | 8
    } else {
        best
    }
}

/// Codes and block scales of a row-major weight.
fn quantize_nvfp4(w: &[bf16], m: usize, k: usize) -> (Vec<u8>, Vec<u8>) {
    let amax = w.iter().fold(0.0f32, |a, x| a.max(x.to_f32().abs()));
    let s_tensor = amax / (6.0 * 448.0);
    let mut codes = Vec::new();
    let mut scales = Vec::new();
    for blk in w[..m * k].chunks(16) {
        let bmax = blk.iter().fold(0.0f32, |a, x| a.max(x.to_f32().abs()));
        let code = f32_to_e4m3(bmax / 6.0 / s_tensor);
        scales.push(code);
        let s = e4m3_to_f32(code) * s_tensor;
        for x in blk {
            codes.push(f32_to_e2m1(x.to_f32() / s));
        }
    }
    (pack_nibbles(&codes), scales)
}

fn quantize_fp8(w: &[bf16], k: usize) -> Vec<u8> {
    let mut out = Vec::new();
    for row in w.chunks(k) {
        let amax = row.iter().fold(0.0f32, |a, x| a.max(x.to_f32().abs()));
        for x in row {
            out.push(f32_to_e4m3(x.to_f32() * 448.0 / amax));
        }
    }
    out
}

fn random_weights(n: usize) -> Vec<bf16> {
    let mut s = 99u64;
    (0..n)
        .map(|_| {
            s = s.wrapping_mul(6364136223846793005).wrapping_add(1442695040888963407);
            bf16::from_f32(((s >> 33) as f32 / 2f32.powi(31) - 0.5) * 0.2)
        })
        .collect()
}

#[test]
fn mma_tile_slots_are_bijective() {
    let mut seen4 = [false; MMA_TILE_FP4 * 2];
    let mut seen8 = [false; MMA_TILE_FP8];
    for r in 0..MMA_M {
        for c in 0..MMA_K {
            let (off, hi) = fp4_tile_slot(r, c);
            let idx = off * 2 + hi as usize;
            assert!(!seen4[idx], "fp4 slot collision at ({},{})", r, c);
            seen4[idx] = true;
            let o8 = fp8_tile_slot(r, c);
            assert!(!seen8[o8], "fp8 slot collision at ({},{})", r, c);
            seen8[o8] = true;
        }
    }
    assert!(seen4.iter().all(|&b| b) && seen8.iter().all(|&b| b), "tile not fully covered");
}

#[test]
fn mma_repack_roundtrips() {
    let (m, k) = (32usize, 64usize);
    let w = random_weights(m * k);

    let (qweight, scales) = quantize_nvfp4(&w, m, k);
    let (wt, st) = repack_nvfp4_mma(&qweight, &scales, m, k);
    let nblk = k / MMA_K;
    for row in 0..m {
        for c in 0..k {
            let (mt, kb) = (row / MMA_M, c / MMA_K);
            let (off, hi) = fp4_tile_slot(row % MMA_M, c % MMA_K);
            let byte = wt[(mt * nblk + kb) * MMA_TILE_FP4 + off];
            let got = if hi { byte >> 4 } else { byte & 0x0F };
            let want = {
                let b = qweight[row * (k / 2) + c / 2];
                if c % 2 == 1 {
                    b >> 4
                } else {
                    b & 0x0F
                }
            };
            assert_eq!(got, want, "fp4 nibble ({},{})", row, c);
            assert_eq!(
                st[(mt * nblk + kb) * MMA_M + row % MMA_M],
                scales[row * nblk + kb],
                "fp4 scale ({},{})",
                row,
                c
            );
        }
    }

    let q8 = quantize_fp8(&w, k);
    let wt8 = repack_fp8_mma(&q8, m, k);
    for row in 0..m {
        for c in 0..k {
            let (mt, kb) = (row / MMA_M, c / MMA_K);
            let off = fp8_tile_slot(row % MMA_M, c % MMA_K);
            assert_eq!(
                wt8[(mt * nblk + kb) * MMA_TILE_FP8 + off],
                q8[row * k + c],
                "fp8 byte ({},{})",
                row,
                c
            );
        }
    }
}

#[test]
fn threads_repack_the_same_bytes() {
    let (m, k) = (48usize, 96usize);
    let w = random_weights(m * k);
    let (qw, sc) = quantize_nvfp4(&w, m, k);
    let whole = repack_nvfp4_mma(&qw, &sc, m, k);
    let (a, b) = (repack_nvfp4_tiles(&qw, &sc, m, k, 0, 7), repack_nvfp4_tiles(&qw, &sc, m, k, 7, 11));
    assert_eq!([a.0, b.0].concat(), whole.0);
    assert_eq!([a.1, b.1].concat(), whole.1);
    let q8 = quantize_fp8(&w, k);
    let parts = [repack_fp8_tiles(&q8, m, k, 0, 4), repack_fp8_tiles(&q8, m, k, 4, 14)];
    assert_eq!(parts.concat(), repack_fp8_mma(&q8, m, k));
}

#[test]
fn tiles_are_shared_out() {
    let mut t = RepackThreading { on: true };
    let step = REPACK_MIN_TILES_PER_THREAD;
    assert_eq!(repack_ranges(&t, Some(8), step), vec![(0, step)]);
    assert_eq!(repack_ranges(&t, Some(8), step + 1).len(), 2);
    assert_eq!(repack_ranges(&t, None, 100 * step), vec![(0, 100 * step)]);
    let r = repack_ranges(&t, Some(64), 1000 * step);
    assert_eq!(r.len(), 16, "at most sixteen threads");
    let mut next = 0;
    for (lo, n) in r {
        assert_eq!(lo, next);
        next = lo + n;
    }
    assert_eq!(next, 1000 * step);
    set_repack_threading(&mut t, false);
    assert_eq!(repack_ranges(&t, Some(8), 50 * step), vec![(0, 50 * step)]);
    assert!(repack_ranges(&t, Some(8), 0).is_empty());
}

#[test]
fn layer_rules_parse_and_select() {
    let rules = parse_layer_rules("all,layers:5+19+33+47+61:fp8").ok().unwrap();
    assert_eq!(rules.len(), 5);
    assert!(rules.iter().all(|r| r.fmt == Fmt::Fp8));
    let rules2 = parse_layer_rules("all,layers:0-61:bf16").ok().unwrap();
    assert_eq!(rules2.len(), 1);
    assert_eq!((rules2[0].lo, rules2[0].hi, rules2[0].fmt), (0, 61, Fmt::Bf16));
    assert_eq!(layer_index_of("model.language_model.layers.5.self_attn.q_proj.weight"), Some(5));
    assert_eq!(layer_index_of("model.layers.61.mlp.down_proj.weight"), Some(61));
    assert_eq!(layer_index_of("lm_head.weight"), None);
    assert_eq!(layer_index_of("mtp.layers.0.mlp.gate_up_proj.weight"), Some(0));
    let map = parse_recipe("all").ok().unwrap().unwrap();
    let f1 = fmt_for_layer(&map, &rules, "model.language_model.layers.19.self_attn.q_proj.weight");
    let f2 = fmt_for_layer(&map, &rules, "model.language_model.layers.20.self_attn.q_proj.weight");
    let f3 = fmt_for_layer(&map, &rules, "lm_head.weight");
    assert!(matches!(f1, Fmt::Fp8), "tap-layer override must win: {f1:?}");
    assert!(matches!(f2, Fmt::Nvfp4), "non-tap layer falls back to the group map: {f2:?}");
    assert!(matches!(f3, Fmt::Nvfp4), "non-layered tensor uses the group map: {f3:?}");
    let f4 = fmt_for_layer(&map, &rules2, "model.language_model.layers.5.self_attn.q_proj.weight");
    assert!(matches!(f4, Fmt::Bf16));
}

#[test]
fn layer_rules_take_a_comma_list() {
    let rules = parse_layer_rules("all,layers:5,19,33,47,61:fp8").ok().unwrap();
    let got: Vec<(usize, usize)> = rules.iter().map(|r| (r.lo, r.hi)).collect();
    assert_eq!(got, vec![(5, 5), (19, 19), (33, 33), (47, 47), (61, 61)]);
    let map = parse_recipe("all,layers:5,19,33,47,61:fp8").ok().unwrap().unwrap();
    assert_eq!(map.len(), 11);
}

#[test]
fn later_layer_rules_win() {
    let rules = parse_layer_rules("layers:0-9:fp8,layers:4:bf16").ok().unwrap();
    let name = |i: usize| format!("model.layers.{i}.mlp.up_proj.weight");
    assert_eq!(fmt_for_layer(&[], &rules, &name(3)), Fmt::Fp8);
    assert_eq!(fmt_for_layer(&[], &rules, &name(4)), Fmt::Bf16);
    assert_eq!(fmt_for_layer(&[(Group::Mlp, Fmt::Nvfp4)], &rules, &name(10)), Fmt::Nvfp4);
}

#[test]
fn recipes() {
    let map = |s: &str| parse_recipe(s).ok().unwrap();
    assert!(map("").is_none() && map(" off ").is_none() && map("none").is_none());
    assert_eq!(map("mlp,attn").unwrap(), vec![(Group::Mlp, Fmt::Nvfp4), (Group::Attn, Fmt::Nvfp4)]);
    let m = map("all,gdn:fp8,-router").unwrap();
    assert_eq!(m.len(), 10);
    assert_eq!(fmt_for(&m, "model.layers.0.linear_attn.in_proj_qkv.weight"), Fmt::Fp8);
    assert_eq!(fmt_for(&m, "model.layers.0.mlp.gate.weight"), Fmt::Bf16);
    assert_eq!(fmt_for(&m, "model.layers.0.input_layernorm.weight"), Fmt::Bf16);
    assert!(map("mlp,mlp:bf16").unwrap().is_empty());
}

#[test]
fn recipe_errors() {
    let bad = |s: &str| {
        let e = parse_recipe(s).err().unwrap();
        (e.fault, e.message())
    };
    assert_eq!(bad("mlp:int4"), (RecipeFault::UnknownFormat, "unknown format \"int4\"".into()));
    assert_eq!(bad("all,foo"), (RecipeFault::UnknownGroup, "unknown group \"foo\"".into()));
    let bad = |s: &str| {
        let e = parse_layer_rules(s).err().unwrap();
        (e.fault, e.message())
    };
    assert_eq!(
        bad("layers:1:int4"),
        (RecipeFault::UnknownLayerFormat, "unknown layer format \"int4\"".into())
    );
    assert_eq!(
        bad("layers:9-3:fp8"),
        (RecipeFault::BadLayerRange, "bad layer range \"9-3\"".into())
    );
    assert_eq!(
        bad("layers:x:fp8"),
        (RecipeFault::BadLayerSelector, "bad layer selector \"x\"".into())
    );
}

#[test]
fn families_of_tensors() {
    for (name, g, s) in [
        ("model.layers.0.mlp.gate.weight", Group::Router, "router"),
        ("mtp.layers.0.mlp.shared_expert_gate.weight", Group::Router, "router"),
        ("mtp.fc.weight", Group::Mtp, "mtp"),
        ("lm_head.weight", Group::LmHead, "lmhead"),
        ("model.embed_tokens.weight", Group::Embed, "embed"),
        ("model.ple.ngram_embedding.0", Group::PleTable, "pletable"),
        ("model.layers.0.ple.key_proj.weight", Group::Ple, "ple"),
        ("model.layers.0.mlp_hyper_connection.up", Group::Hc, "hc"),
        ("model.layers.0.mlp.experts.gate_up_proj", Group::Expert, "expert"),
        ("model.layers.0.mlp.down_proj.weight", Group::Mlp, "mlp"),
        ("model.layers.0.self_attn.q_proj.weight", Group::Attn, "attn"),
        ("model.layers.0.linear_attn.out_proj.weight", Group::Gdn, "gdn"),
        ("model.layers.0.linear_attn.conv1d.weight", Group::Other, "other"),
    ] {
        assert_eq!(group_of(name), g, "{name}");
        assert_eq!(group_name(g), s);
    }
    assert_eq!([fmt_name(Fmt::Bf16), fmt_name(Fmt::Fp8), fmt_name(Fmt::Nvfp4)], ["bf16", "fp8", "nvfp4"]);
    assert_eq!(StqKind::Stq1_0.name(), "stq1_0");
    assert_eq!(StqKind::Ternary2.name(), "ternary2");
    assert_eq!(StqKind::Ls3Bit.name(), "ls3bit");
}

#[test]
fn nibbles_round_trip() {
    let codes: Vec<u8> = (0..32).map(|i| (i * 7 % 16) as u8).collect();
    let packed = pack_nibbles(&codes);
    assert_eq!(packed[0], 0x70);
    for (i, c) in codes.iter().enumerate() {
        assert_eq!(nibble_at(&packed, i), *c);
    }
}

#[test]
fn fused_tensors() {
    let (qa, qb) = (vec![1u8; 16 * 8], vec![2u8; 32 * 8]);
    let (sa, sb) = (vec![3u8; 16], vec![4u8; 32]);
    let (q, s, g) = fuse_nvfp4(&[(&qa[..], &sa[..], 5u32, 16), (&qb[..], &sb[..], 6, 32)], 16);
    assert_eq!(q, [qa, qb].concat());
    assert_eq!(s, [sa, sb].concat());
    assert_eq!(g, vec![5, 6, 6]);
    let (da, db) = (vec![1u8; 16 * 16], vec![2u8; 16 * 16]);
    let (ra, rb) = (vec![7u32; 16], vec![8u32; 16]);
    let (d, r) = fuse_fp8(&[(&da[..], &ra[..], 16), (&db[..], &rb[..], 16)], 16);
    assert_eq!(d, [da, db].concat());
    assert_eq!(r, [ra, rb].concat());
}

#[test]
fn subsets_of_rows() {
    let qw: Vec<u8> = (0..4 * 8).map(|i| i as u8).collect();
    let sc = vec![10u8, 11, 12, 13];
    let (q, s) = subset_rows_nvfp4(&qw, &sc, 16, &[3, 1]);
    assert_eq!(q, [&qw[24..32], &qw[8..16]].concat());
    assert_eq!(s, vec![13, 11]);
    let d: Vec<u8> = (0..3 * 4).map(|i| i as u8).collect();
    let (q, r) = subset_rows_fp8(&d, &[1u32, 2, 3], 4, &[2, 0]);
    assert_eq!(q, vec![8, 9, 10, 11, 0, 1, 2, 3]);
    assert_eq!(r, vec![3, 1]);
}

#[test]
fn embedding_records() {
    let rows = 3;
    let qw: Vec<u8> = (0..rows * 80).map(|i| (i * 37 % 251) as u8).collect();
    let sc: Vec<u8> = (0..rows * 10).map(|i| (200 + i) as u8).collect();
    let rec = ple_records(&qw, &sc, rows);
    assert_eq!(rec.len(), rows * PLE_REC_BYTES);
    for r in 0..rows {
        let one = &rec[r * PLE_REC_BYTES..(r + 1) * PLE_REC_BYTES];
        assert_eq!(&one[90..], &[0u8; 6]);
        for i in [0usize, 1, 17, 159] {
            assert_eq!(ple_code(one, i), (nibble_at(&qw, r * 160 + i), sc[r * 10 + i / 16]));
        }
    }
}

#[test]
fn groups_partition_a_block() {
    let mut seen = [false; STQ_BLOCK];
    for g in 0..64 {
        for p in 0..4 {
            let j = stq_lane(g, p);
            assert!(!seen[j], "weight {j} twice");
            seen[j] = true;
        }
    }
    assert!(seen.iter().all(|&b| b));
    assert_eq!([stq_lane(17, 0), stq_lane(17, 1), stq_lane(17, 2), stq_lane(17, 3)], [65, 81, 97, 113]);
}

#[test]
fn draft_rows() {
    let rows = draft_vocab_rows(100, 2048);
    assert_eq!(rows.len() % 16, 0);
    assert_eq!(rows.len(), 112 + 512);
    assert_eq!(rows[..112], (0..112).collect::<Vec<u32>>()[..]);
    assert_eq!(rows[112..], (1536..2048).collect::<Vec<u32>>()[..]);
    assert_eq!(draft_vocab_rows(5000, 2048), (0..2048).collect::<Vec<u32>>());
    assert_eq!(draft_vocab_rows(0, 3), vec![0, 1, 2, 0, 1, 2, 0, 1, 2, 0, 1, 2, 0, 0, 1, 2], "real rows only");
    assert!(draft_vocab_rows(9, 0).is_empty());
    assert_eq!(draft_vocab_rows(0, 17)[..16], (0..15).chain(0..1).collect::<Vec<u32>>()[..]);
    assert_eq!(draft_vocab_rows(7, 0xFFFF_FFF0).len(), 16 + 512);
    assert_eq!(draft_vocab_rows(7, 0xFFFF_FFF0)[527], 0xFFFF_FFEF);
    let hy = draft_vocab_rows(16, 120832);
    assert_eq!(hy[16], 120000);
    assert_eq!(hy.len(), 16 + 832);
}

#[test]
fn draft_rows_of_a_list() {
    let rows = draft_vocab_rows_text("7 3\n3 nonsense 99999 1600\t", 2048);
    assert_eq!(rows.len() % 16, 0);
    assert_eq!(rows[..4], [3, 7, 1600, 1536]);
    assert_eq!(rows[3 + 511..], [0, 1, 2, 4, 5, 6, 8, 9, 10, 11, 12, 13, 14, 15][..]);
    let mut sorted = rows.clone();
    sorted.sort_unstable();
    sorted.dedup();
    assert_eq!(sorted.len(), rows.len(), "no row twice");
    for i in 1536..2048u32 {
        assert!(rows.contains(&i));
    }
    let all = draft_vocab_rows_text("4 2", 5);
    assert_eq!(all, vec![2, 4, 0, 1, 3, 0, 1, 2, 3, 4, 0, 1, 2, 3, 4, 0], "ids again where none is left");
    assert!(draft_vocab_rows_text("1 2", 0).is_empty());
}

fn tiny_config() -> Config {
    Config {
        hidden_size: 64,
        vocab_size: 128,
        num_layers: 2,
        num_heads: 4,
        num_kv_heads: 2,
        head_dim: 16,
        rotary_dim: 8,
        intermediate_size: 128,
        lin_num_v_heads: 4,
        lin_num_k_heads: 2,
        lin_k_dim: 16,
        lin_v_dim: 16,
        conv_kernel: 4,
        layer_types: vec![LayerType::LinearAttention, LayerType::FullAttention],
        max_position_embeddings: 256,
        tie_word_embeddings: false,
        is_moe: false,
        moe_layers: vec![],
        num_experts: 0,
        num_experts_per_tok: 0,
        moe_intermediate_size: 0,
        shared_expert_intermediate_size: 0,
        ple_ngram_size: 3,
        ple_heads_per_ngram: 1,
        ple_vocab_base: 11,
        ple_vocab_divisor: 8,
        ple_seed: 1234,
        eos_token_id: 2,
        rms_eps_bits: 0x358637bd,
    }
}

#[test]
fn fused_projections_have_runs() {
    let c = tiny_config();
    assert_eq!(qkv_segments(&c), vec![(0, 128, true), (128, 32, true), (160, 32, true)]);
    assert_eq!(
        gdn_segments(&c),
        vec![
            (0, 32, true),
            (32, 32, true),
            (64, 64, true),
            (128, 64, true),
            (192, 4, false),
            (196, 4, false)
        ]
    );
    assert_eq!(count_rows(&gdn_segments(&c)), 16 + 16 + 32 + 32 + 4 + 4);
}

#[test]
fn column_shards_are_the_rows_of_the_rank() {
    let (m, k) = (64usize, 32usize);
    let qw: Vec<u8> = (0..m * k / 2).map(|i| (i * 31 % 256) as u8).collect();
    let sc: Vec<u8> = (0..m * k / 16).map(|i| (i % 256) as u8).collect();
    let (wt, st) = repack_nvfp4_mma(&qw, &sc, m, k);
    let w = TiledWeight::Nvfp4 { qweight: wt, scales: st, gs: vec![1u32, 2, 3, 4], m, k };
    let segs = [(0usize, 32usize, true), (32, 32, true)];
    for rank in 0..2usize {
        let rows: Vec<u32> = (0..16u32)
            .map(|i| i + 16 * rank as u32)
            .chain((0..16u32).map(|i| 32 + i + 16 * rank as u32))
            .collect();
        let (q, s) = subset_rows_nvfp4(&qw, &sc, k, &rows);
        let (want_w, want_s) = repack_nvfp4_mma(&q, &s, 32, k);
        match shard_col_segs(&w, &segs, rank) {
            TiledWeight::Nvfp4 { qweight, scales, gs, m, k } => {
                assert_eq!((m, k), (32, 32));
                assert_eq!(qweight, want_w);
                assert_eq!(scales, want_s);
                assert_eq!(gs, if rank == 0 { vec![1, 3] } else { vec![2, 4] });
            }
            TiledWeight::Fp8 { .. } => unreachable!(),
        }
    }
}

#[test]
fn row_shards_are_the_columns_of_the_rank() {
    let (m, k) = (32usize, 64usize);
    let d: Vec<u8> = (0..m * k).map(|i| (i * 13 % 256) as u8).collect();
    let scale: Vec<u32> = (0..m as u32).collect();
    let w = TiledWeight::Fp8 { data: repack_fp8_mma(&d, m, k), row_scale: scale.clone(), m, k };
    for rank in 0..2usize {
        let mut half = Vec::new();
        for row in d.chunks(k) {
            half.extend_from_slice(&row[rank * 32..(rank + 1) * 32]);
        }
        match shard_row(&w, rank) {
            TiledWeight::Fp8 { data, row_scale, m, k } => {
                assert_eq!((m, k), (32, 32));
                assert_eq!(data, repack_fp8_mma(&half, 32, 32));
                assert_eq!(row_scale, scale);
            }
            TiledWeight::Nvfp4 { .. } => unreachable!(),
        }
    }
}

#[test]
fn vector_shards() {
    let src: Vec<u32> = (0..24).collect();
    assert_eq!(shard_f32_segs(&src, &[(0, 4), (4, 8)], 2, 0), vec![0, 1, 2, 3, 8, 9, 10, 11, 12, 13, 14, 15]);
    assert_eq!(shard_f32_segs(&src, &[(0, 4), (4, 8)], 2, 1), vec![4, 5, 6, 7, 16, 17, 18, 19, 20, 21, 22, 23]);
}

#[test]
fn head_execution_proof() {
    let s = TP_REDZONE_SENTINEL;
    assert_eq!(redzone_violations(&[1, 2, s, s], 2), Some(0));
    assert_eq!(redzone_violations(&[1, 2, s, 0], 2), Some(1));
    assert_eq!(redzone_violations(&[1, 2, 3], 2), None);
    assert_eq!(pad_redzone(&[1, 2], 4, s), vec![1, 2, s, s]);
    assert!(visits_uniform(&[3, 3, 0, 0], 2));
    assert!(!visits_uniform(&[3, 2, 0, 0], 2));
    assert!(!visits_uniform(&[3, 3, 1, 0], 2));
    assert!(!visits_uniform(&[0, 0, 0, 0], 2));
}
