use gb10_inference::config::{Config, LayerType};
use gb10_inference::ple::{
    is_prime, layer_multipliers, nth_prime_after, splitmix64, PleHash, SPLITMIX_GAMMA,
};
use gb10_inference::ple_table::{
    check_rows, record_offset, rows_per_thread, MetaFault, PleCache, PleReader, PleSsdStats,
    PleTableMeta,
};
use gb10_inference::tensors::PLE_REC_BYTES;

#[test]
fn primes_and_multipliers_match_reference() {
    assert_eq!(nth_prime_after(19_999_999, 1), 20_000_003);
    assert!(is_prime(20_000_003));
    let m = layer_multipliers(248_320, 3, 0, 1234);
    assert_eq!(m, vec![23_703_573_157_769, 20_109_073_645_365, 8_052_911_324_071]);
    let mut p = 19_999_999u64;
    let mut primes = Vec::new();
    for _ in 0..16 {
        p = nth_prime_after(p, 1);
        primes.push(p);
    }
    assert_eq!(
        primes,
        vec![
            20000003, 20000023, 20000033, 20000047, 20000059, 20000063, 20000069, 20000077, 20000081,
            20000093, 20000107, 20000147, 20000153, 20000159, 20000161, 20000171
        ]
    );
    assert_eq!(primes.iter().sum::<u64>(), 320_001_446);
}

#[test]
fn primality() {
    let small: Vec<u64> = (0..30).filter(|&v| is_prime(v)).collect();
    assert_eq!(small, vec![2, 3, 5, 7, 11, 13, 17, 19, 23, 29]);
    assert!(!is_prime(25) && !is_prime(20_000_001));
    assert_eq!(nth_prime_after(7, 1), 11);
    assert_eq!(nth_prime_after(7, 3), 17);
    assert_eq!(nth_prime_after(9, 0), 9);
}

#[test]
fn splitmix_reference_values() {
    assert_eq!(splitmix64(0), 0xE220_A839_7B1D_CDAF);
    assert_eq!(splitmix64(SPLITMIX_GAMMA), 0x6E78_9E6A_A1B9_65F4);
}

#[test]
fn multipliers_are_odd_and_small_enough() {
    for vocab in [2u64, 1000, 248_320] {
        for m in layer_multipliers(vocab, 5, 3, 99) {
            assert_eq!(m % 2, 1);
            assert!((m as i128) * (vocab as i128 - 1) <= i64::MAX as i128);
        }
    }
}

fn config() -> Config {
    Config {
        hidden_size: 64,
        vocab_size: 1000,
        num_layers: 1,
        num_heads: 4,
        num_kv_heads: 2,
        head_dim: 16,
        rotary_dim: 8,
        intermediate_size: 128,
        lin_num_v_heads: 4,
        lin_num_k_heads: 2,
        lin_k_dim: 16,
        lin_v_dim: 16,
        conv_kernel: 4,
        layer_types: vec![LayerType::FullAttention],
        max_position_embeddings: 256,
        tie_word_embeddings: false,
        is_moe: false,
        moe_layers: vec![],
        num_experts: 0,
        num_experts_per_tok: 0,
        moe_intermediate_size: 0,
        shared_expert_intermediate_size: 0,
        ple_ngram_size: 3,
        ple_heads_per_ngram: 2,
        ple_vocab_base: 100,
        ple_vocab_divisor: 64,
        ple_seed: 1234,
        eos_token_id: 2,
        rms_eps_bits: 0x358637bd,
    }
}

#[test]
fn hash_tables() {
    let t = PleHash::new(&config()).unwrap();
    assert_eq!(t.ngram_heads(), 4);
    assert_eq!(t.head_vocab, vec![101, 103, 107, 109]);
    assert_eq!(t.head_offset, vec![0, 101, 204, 311]);
    assert_eq!(t.total_rows, 448);
    assert_eq!(t.multipliers, layer_multipliers(1000, 3, 0, 1234));
    let d = t.device_table();
    assert_eq!(d.len(), 3 + 4 + 4);
    assert_eq!(&d[3..7], &[101, 103, 107, 109]);
}

#[test]
fn row_ids_follow_the_formula() {
    let t = PleHash::new(&config()).unwrap();
    let ctx = [17i32, 400, 999];
    let mut out = vec![0i64; 4];
    t.row_ids(&ctx, &mut out);
    let m = &t.multipliers;
    let two = (999 * m[0]) ^ (400 * m[1]);
    let three = two ^ (17 * m[2]);
    let want: Vec<i64> = (0..4)
        .map(|h| {
            let mix = if h < 2 { two } else { three };
            mix.rem_euclid(t.head_vocab[h]) + t.head_offset[h]
        })
        .collect();
    assert_eq!(out, want);
    for h in 0..4 {
        assert!(t.head_offset[h] <= out[h] && out[h] < t.head_offset[h] + t.head_vocab[h]);
    }
}

#[test]
fn end_tokens_reset_the_context() {
    let t = PleHash::new(&config()).unwrap();
    let (mut a, mut b) = (vec![0i64; 4], vec![0i64; 4]);
    t.row_ids(&[17, 2, 999], &mut a);
    t.row_ids(&[55, 2, 999], &mut b);
    assert_eq!(a, b, "what stands before an end token does not count");
    t.row_ids(&[17, 3, 999], &mut a);
    t.row_ids(&[55, 3, 999], &mut b);
    assert_ne!(a, b);
}

const META: &str = "{\"format\":\"ple-rows-nvfp4-v1\",\"complete\":true,\"file\":\"t.bin\",\"dim\":160,\"record_bytes\":96,\
    \"num_shards\":2,\"rows_per_shard\":5,\"total_rows\":10,\"shard_global_scales\":[1.5,2.25]}";

#[test]
fn table_descriptions() {
    let m = PleTableMeta::parse(META).ok().unwrap();
    assert_eq!(m.file, "t.bin");
    assert_eq!((m.dim, m.record_bytes, m.num_shards), (160, 96, 2));
    assert_eq!((m.rows_per_shard, m.total_rows), (5, 10));
    assert_eq!(m.shard_global_scales, vec!["1.5", "2.25"]);
    assert!(m.check_length(960).is_ok());
    assert!(matches!(m.check_length(959), Err(MetaFault::Length)));
}

#[test]
fn table_description_faults() {
    let fault = |from: &str, to: &str| {
        let t = META.replace(from, to);
        assert_ne!(t, META);
        PleTableMeta::parse(&t).err().unwrap()
    };
    assert!(matches!(fault("{", "["), MetaFault::Syntax(_)));
    assert!(matches!(fault("nvfp4-v1", "nvfp4-v9"), MetaFault::Format));
    assert!(matches!(fault("\"complete\":true", "\"complete\":false"), MetaFault::Incomplete));
    assert!(matches!(fault("\"dim\":160,", ""), MetaFault::Field));
    assert!(matches!(fault("\"dim\":160", "\"dim\":\"x\""), MetaFault::Field));
    assert!(matches!(fault("[1.5,2.25]", "[1.5]"), MetaFault::ScaleCount));
    assert!(matches!(fault("\"record_bytes\":96", "\"record_bytes\":95"), MetaFault::Geometry));
}

#[test]
fn cached_rows() {
    let mut c = PleCache::new(2);
    let rec = |b: u8| vec![b; PLE_REC_BYTES];
    let rows = [7i64, 9, 7];
    let mut out = vec![0u8; 3 * PLE_REC_BYTES];
    let (misses, hits) = c.lookup(&rows, &mut out);
    assert_eq!((misses.clone(), hits), (vec![(0usize, 7i64), (1, 9), (2, 7)], 0));
    out[..PLE_REC_BYTES].copy_from_slice(&rec(70));
    out[PLE_REC_BYTES..2 * PLE_REC_BYTES].copy_from_slice(&rec(90));
    out[2 * PLE_REC_BYTES..].copy_from_slice(&rec(70));
    c.absorb(&misses, &out);
    let mut again = vec![0u8; 3 * PLE_REC_BYTES];
    let (misses, hits) = c.lookup(&rows, &mut again);
    assert!(misses.is_empty());
    assert_eq!(hits, 3);
    assert_eq!(again, out);
    c.absorb(&[(0, 8)], &rec(80));
    let mut one = rec(0);
    assert_eq!(c.lookup(&[7], &mut one), (vec![(0, 7)], 0), "emptied before it would overflow");
    assert_eq!(c.lookup(&[8], &mut one), (vec![], 1));
    assert_eq!(one, rec(80));
}

#[test]
fn reads_are_checked_and_shared_out() {
    assert!(check_rows(&[(0, 0), (1, 9)], 10).is_ok());
    assert_eq!(check_rows(&[(0, 0), (1, 10)], 10).err().unwrap().row, 10);
    assert_eq!(check_rows(&[(0, -1)], 10).err().unwrap().row, -1);
    assert_eq!(rows_per_thread(100, 16), 7);
    assert_eq!(rows_per_thread(1, 16), 1);
    assert_eq!(record_offset(5), 480);
}

#[test]
fn statistics_add_up() {
    let mut s = PleSsdStats::new();
    s.count(16, 4, 1000);
    s.count(16, 6, 500);
    assert_eq!((s.gathers, s.rows, s.cache_hits, s.read_ns), (2, 32, 10, 1500));
}

#[test]
fn a_gather_reads_the_table() {
    let file: Vec<u8> = (0..4u8).flat_map(|r| vec![r + 1; PLE_REC_BYTES]).collect();
    let record = |r: i64| file[r as usize * PLE_REC_BYTES..][..PLE_REC_BYTES].to_vec();
    let mut reader = PleReader::new(4, 16);
    let rows = [2i64, 0, 2, 3];
    let g = reader.begin(&rows).ok().unwrap();
    assert_eq!(g.misses, vec![(0, 2), (1, 0), (2, 2), (3, 3)]);
    let read: Vec<u8> = g.misses.iter().flat_map(|m| record(m.1)).collect();
    let want: Vec<u8> = rows.iter().flat_map(|&r| record(r)).collect();
    assert_eq!(reader.finish(g, &read, 5), want);
    let g = reader.begin(&[3, 1]).ok().unwrap();
    assert_eq!((g.misses.clone(), g.hits), (vec![(1, 1)], 1));
    assert_eq!(reader.finish(g, &record(1), 7), [record(3), record(1)].concat());
    let s = reader.stats;
    assert_eq!((s.gathers, s.rows, s.cache_hits, s.read_ns), (2, 6, 1, 12));
    assert_eq!(reader.begin(&[0, 4, -1]).err().unwrap().row, 4);
    assert_eq!(reader.begin(&[-1]).err().unwrap().row, -1);
    assert_eq!(reader.stats, s, "a refused gather is not counted");
}
