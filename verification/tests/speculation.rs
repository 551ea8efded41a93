use gb10_inference::gpu::forest::forest_topo;
use gb10_inference::gpu::gates::{
    column_matches_chain, kv_compaction_holds, lane_mismatches, twin_mismatches,
};
use gb10_inference::gpu::generate::{prompt_steps, How, TpRun, GRAPH_CAPTURE_AT};
use gb10_inference::gpu::mtp::{
    accept_prefix, chain_step, common_prefix_streams, fork_parents, fork_tree, lookup_context, mtp_fork_draft,
    ngram_next, propose, second_best, HiddenSource, MtpRun,
};
use gb10_inference::gpu::probes::{
    accept_samples, auto_depths, calibrate_mtp_r, find_row, kv_runs, median, probe_reject_again,
    probe_reject_path, profile_mtp, setup_probe, sorted, split_latency, top_three, verify_matches,
    DecodeRun, ProbeStep, ProfileCase, ProfileLaunch, SampleTrial, Tally,
};
use gb10_inference::gpu::topo::{ancestors, topo_from_parent, MAX_VERIFY};
use gb10_inference::gpu::tree::{
    accept_walk, already_contiguous, chain_of_column, decoy_tree, plant_drafts, random_tree,
    same_bits, twin_tree,
};
use gb10_inference::gpu::verify::{chain_parents, verify_tables};

#[test]
fn ancestors_from_the_root() {
    let parent = [-1, 0, 1, 0, 3];
    assert_eq!(ancestors(&parent, 4), vec![0, 3, 4]);
    assert_eq!(ancestors(&parent, 0), vec![0]);
}

#[test]
fn tree_tables() {
    let parent = [-1, 0, 1, 0];
    let t = topo_from_parent(&parent, 100, 4);
    assert_eq!(t.rope, vec![100, 101, 102, 101]);
    assert_eq!(t.kv_pos, vec![100, 101, 102, 103]);
    assert_eq!(t.parent, parent.to_vec());
    assert_eq!(t.path.len(), 4 * MAX_VERIFY);
    assert_eq!(t.path[3 * MAX_VERIFY..3 * MAX_VERIFY + 3], [0, 3, 0]);
    assert_eq!(t.winsrc[..4], [-3, -2, -1, 0]);
    assert_eq!(t.winsrc[8..12], [-1, 0, 1, 2]);
    assert_eq!(t.winsrc[12..16], [-2, -1, 0, 3]);
    assert!(t.slot.is_none() && t.col_pos_start.is_none());
}

#[test]
fn a_chain_is_a_tree_without_branches() {
    let n = 5;
    let chain = verify_tables(n, 2, 40, 4, None);
    let parents = chain_parents(n);
    assert_eq!(parents, vec![-1, 0, 1, 2, 3]);
    let topo = topo_from_parent(&parents, 40, 4);
    let tree = verify_tables(n, 2, 40, 4, Some(&topo));
    assert_eq!(chain.pos, tree.pos);
    assert_eq!(chain.rope, tree.rope);
    assert_eq!(chain.slot_ids, vec![2; 5]);
    assert_eq!(chain.slot_ids, tree.slot_ids);
    assert_eq!(chain.winsrc, tree.winsrc);
    assert_eq!(chain.parent, tree.parent);
    for c in 0..n {
        let row = c * MAX_VERIFY..c * MAX_VERIFY + c + 1;
        assert_eq!(chain.path[row.clone()], tree.path[row], "ancestors of column {c}");
    }
    assert_eq!(chain.lane_segs, vec![(0, 5)]);
    assert_eq!(tree.lane_segs, vec![(0, 5)]);
}

#[test]
fn packed_lanes_match_lanes_alone() {
    let (plens, depth, ck) = ([7usize, 30], 3usize, 4usize);
    let t = forest_topo(&plens, depth, ck);
    assert_eq!(t.parent, vec![-1, 0, 1, -1, 3, 4]);
    assert_eq!(t.slot, Some(vec![0, 0, 0, 1, 1, 1]));
    assert_eq!(t.col_pos_start, Some(vec![7, 7, 7, 30, 30, 30]));
    let tables = verify_tables(6, 0, 0, ck, Some(&t));
    assert_eq!(tables.lane_segs, vec![(0, 3), (3, 3)]);
    for lane in 0..2 {
        let alone = verify_tables(depth, lane, plens[lane], ck, None);
        for r in 0..depth {
            let c = lane * depth + r;
            assert_eq!(t.rope[c], alone.rope[r]);
            assert_eq!(t.kv_pos[c], alone.pos[r]);
            for j in 0..ck {
                let (w, a) = (t.winsrc[c * ck + j], alone.winsrc[r * ck + j]);
                assert_eq!(w, if a < 0 { a } else { a + (lane * depth) as i32 });
            }
        }
    }
}

#[test]
fn accepted_prefixes() {
    assert_eq!(accept_prefix(&[1, 2, 3], &[1, 2, 9, 4]), 2);
    assert_eq!(accept_prefix(&[1, 2, 3], &[1, 2, 3, 4]), 3);
    assert_eq!(accept_prefix(&[1], &[2, 3]), 0);
    assert_eq!(accept_prefix(&[], &[5]), 0);
}

fn next_token(ctx: &[u32]) -> u32 {
    ctx.iter().fold(17u32, |a, t| a.wrapping_mul(31).wrapping_add(*t)) % 50
}

#[test]
fn speculation_is_lossless() {
    let prompt = [3u32, 1, 4];
    let mut greedy = prompt.to_vec();
    for _ in 0..40 {
        let t = next_token(&greedy);
        greedy.push(t);
    }
    let depth = 4;
    let mut run = MtpRun::start(greedy[3], prompt.len(), depth, 20);
    let mut step = 0u32;
    while run.wants_step() {
        let at = prompt.len() + run.out.len();
        let drafts: Vec<u32> = (0..depth - 1)
            .map(|i| if (step as usize + i) % 3 == 2 { 99 } else { greedy[at + i] })
            .collect();
        let input = run.verify_input(&drafts);
        assert_eq!(input[0], *run.out.last().unwrap());
        let mut ctx: Vec<u32> = prompt.to_vec();
        ctx.extend_from_slice(&run.out);
        ctx.pop();
        let preds: Vec<u32> = input
            .iter()
            .map(|t| {
                ctx.push(*t);
                next_token(&ctx)
            })
            .collect();
        run.settle(&drafts, &preds);
        step += 1;
    }
    assert_eq!(run.out[..], greedy[3..3 + run.out.len()]);
    assert!(run.out.len() >= 20);
}

#[test]
fn steps_settle() {
    let mut run = MtpRun::start(5, 10, 3, 100);
    let s = run.settle(&[6, 7], &[6, 8, 9]);
    assert_eq!((s.accepted, s.bonus, s.hidden_col), (1, 8, 1));
    assert_eq!(s.rollback, Some(3));
    assert_eq!(run.out, vec![5, 6, 8]);
    assert_eq!((run.committed, run.main_pos, run.mtp_pos), (8, 12, 11));
    assert_eq!((run.steps, run.drafted, run.accepted), (1, 2, 1));
    assert_eq!(s.reprime.len(), 2);
    assert!(matches!(s.reprime[0].source, HiddenSource::Saved));
    assert_eq!((s.reprime[0].token, s.reprime[0].pos), (5, 9));
    assert!(matches!(s.reprime[1].source, HiddenSource::VerifyColumn(0)));
    assert_eq!((s.reprime[1].token, s.reprime[1].pos), (6, 10));
    let s = run.settle(&[1, 2], &[1, 2, 3]);
    assert_eq!((s.accepted, s.rollback), (2, None));
    assert!(run.kv_exhausted(20) && !run.kv_exhausted(21));
}

#[test]
fn the_bonus_does_not_overshoot() {
    let mut run = MtpRun::start(5, 1, 3, 3);
    run.settle(&[6, 7], &[6, 7, 8]);
    assert_eq!(run.out, vec![5, 6, 7]);
    assert!(!run.wants_step());
}

#[test]
fn streams_are_cut() {
    assert_eq!(common_prefix_streams(&[1, 2, 3], &[1, 9]), (vec![1, 2], vec![1, 9]));
}

#[test]
fn chains_of_drafts() {
    let prompt = [1, 2, 3, 9, 1, 2];
    let run = MtpRun::start(3, prompt.len(), 4, 100);
    assert_eq!(run.next_draft(&[]), Some((3, 5)), "the committed token, one position behind the model");
    assert_eq!(run.next_draft(&[8]), Some((8, 6)));
    assert_eq!(run.next_draft(&[8, 7]), Some((7, 7)));
    assert_eq!(run.next_draft(&[8, 7, 6]), None, "three drafts fill a verify of four");
    assert_eq!(lookup_context(&prompt, &run.out), vec![1, 2, 3, 9, 1, 2, 3]);
    assert_eq!(run.choose_draft(&prompt, &[], 77, 3), 9, "the first emitted token is context too");
    assert_eq!(run.choose_draft(&prompt, &[9], 77, 3), 1, "and so is a draft");
    assert_eq!(run.choose_draft(&prompt, &[8], 77, 3), 77);
    assert_eq!(run.choose_draft(&prompt, &[], 77, 0), 77);
    assert_eq!(chain_step(&[5], 10, 3), Some((5, 10)));
    assert_eq!(chain_step(&[5, 6], 10, 3), Some((6, 11)));
    assert_eq!(chain_step(&[5, 6, 7], 10, 3), None);
    assert_eq!(second_best(4, &[4, 4, 6, 7]), 6);
    assert_eq!(second_best(4, &[4]), 4);
}

#[test]
fn prompt_lookup() {
    let ctx = [1, 2, 3, 4, 2, 3, 5, 2, 3];
    assert_eq!(ngram_next(&ctx, 2), Some(5), "the most recent occurrence");
    assert_eq!(ngram_next(&ctx, 3), None);
    assert_eq!(propose(77, &ctx, 2), 5);
    assert_eq!(propose(77, &ctx, 3), 77);
    assert_eq!(propose(77, &ctx, 0), 77);
}

#[test]
fn forks() {
    assert_eq!(fork_parents(2, 2), vec![-1, 0, 1, 0, 3]);
    assert_eq!(fork_tree(9, &[1, 2], &[3, 4]), (vec![-1, 0, 1, 0, 3], vec![9, 1, 2, 3, 4]));
    assert_eq!(fork_tree(9, &[1, 2], &[1, 4]), (vec![-1, 0, 1], vec![9, 1, 2]));
    assert_eq!(fork_tree(9, &[1, 2], &[]), (vec![-1, 0, 1], vec![9, 1, 2]));
    let work = [5, 2, 3, 5, 2];
    let forked = |first| (vec![-1, 0, 1, 0, 3], vec![9, 1, 2, first, 7]);
    assert_eq!(mtp_fork_draft(9, &[1, 2], &[6, 7], &work, 0), forked(6), "the head's second best");
    assert_eq!(mtp_fork_draft(9, &[1, 2], &[6, 7], &work, 2), forked(3), "a copied first token");
    assert_eq!(mtp_fork_draft(9, &[1, 2], &[6, 7], &work, 6), forked(6), "too little to copy from");
    assert_eq!(mtp_fork_draft(9, &[1, 2], &[6, 7], &[1, 2, 3], 2), forked(6), "nothing matches");
    assert_eq!(mtp_fork_draft(9, &[3, 2], &[6, 7], &work, 2), (vec![-1, 0, 1], vec![9, 3, 2]));
    assert_eq!(mtp_fork_draft(9, &[6, 2], &[6, 7], &work, 0), (vec![-1, 0, 1], vec![9, 6, 2]));
}

#[test]
fn walks_follow_the_predictions() {
    let parent = [-1, 0, 1, 0, 3];
    let tokens = [9, 1, 2, 3, 4];
    assert_eq!(accept_walk(&parent, &tokens, &[3, 0, 0, 4, 8]), (vec![0, 3, 4], vec![3, 4, 8]));
    assert_eq!(accept_walk(&parent, &tokens, &[7, 0, 0, 4, 8]), (vec![0], vec![7]));
    assert_eq!(chain_of_column(&parent, &tokens, 4), vec![9, 3, 4]);
}

#[test]
fn tree_walks_are_lossless() {
    let base = [2u32, 7];
    for seed in 0..20u64 {
        let (parent, tokens) = random_tree(11, 6, 12, seed);
        let preds: Vec<u32> = (0..12)
            .map(|c| {
                let mut ctx = base.to_vec();
                ctx.extend_from_slice(&chain_of_column(&parent, &tokens, c));
                next_token(&ctx) % 6
            })
            .collect();
        let (path, out) = accept_walk(&parent, &tokens, &preds);
        assert_eq!(path.len(), out.len());
        let mut ctx = vec![2u32, 7, 11];
        for t in out {
            assert_eq!(t, next_token(&ctx) % 6);
            ctx.push(t);
        }
    }
}

#[test]
fn planted_trees() {
    assert_eq!(plant_drafts(100, 4, 131, 7), vec![8, 40, 72]);
    let (p, t) = twin_tree(5, 100, 3);
    assert_eq!(p, vec![-1, 0, 1, 0, 3]);
    assert_eq!(t, vec![5, 8, 40, 8, 40]);
    let (p, t) = decoy_tree(&[5, 1, 6, 7], 3);
    assert_eq!(p, vec![-1, 0, 0, 2]);
    assert_eq!(t, vec![5, 2, 1, 6]);
    let (p, t) = random_tree(5, 100, 9, 42);
    assert_eq!((p[0], t[0]), (-1, 5));
    assert!((1..9).all(|c| 0 <= p[c] && (p[c] as usize) < c && 1 <= t[c] && t[c] < 99));
}

#[test]
fn compared_columns() {
    let logits = [0u16, 0, 1, 2, 3, 4, 1, 2, 3, 5];
    assert_eq!(twin_mismatches(&logits, 2, 3), (2, 1));
    assert_eq!(lane_mismatches(&[1, 2, 3, 4], &[1, 2], &[3, 4], 2, 1), (2, 0));
    assert_eq!(lane_mismatches(&[1, 2, 3, 4], &[1, 2], &[3, 5], 2, 1), (2, 1));
    assert!(column_matches_chain(&[9, 9, 1, 2], 1, &[7, 7, 1, 2], 2, 2));
    assert!(!column_matches_chain(&[9, 9, 1, 2], 0, &[7, 7, 1, 2], 2, 2));
    assert!(same_bits(&[1, 2, 3], 1, &[2, 3], 0, 2));
    assert!(!same_bits(&[1, 2, 3], 0, &[2, 3], 0, 2));
}

#[test]
fn compaction() {
    assert!(already_contiguous(&[0, 1, 2]));
    assert!(!already_contiguous(&[0, 2]));
    let before: Vec<u16> = (0..2 * 4).collect();
    let mut after = before.clone();
    after[2] = before[3];
    after[6] = before[7];
    assert!(kv_compaction_holds(&before, &after, 2, 4, 1, 1, &[0, 2]));
    after[6] = 99;
    assert!(!kv_compaction_holds(&before, &after, 2, 4, 1, 1, &[0, 2]));
}

#[test]
fn prompts_are_walked() {
    let s = prompt_steps(&[7, 8]);
    assert_eq!((s[0].token, s[0].pos, s[0].logits), (7, 0, false));
    assert_eq!((s[1].token, s[1].pos, s[1].logits), (8, 1, true));
}

#[test]
fn generation_records_a_graph_once() {
    let mut run = TpRun::start(5, 10, 14, 512, 0, true);
    let mut how = Vec::new();
    while let Some(s) = run.next() {
        assert_eq!((s.token, s.pos, s.max_pc), (5 + how.len() as u32, 10 + how.len(), 512));
        how.push(s.how);
        run.settle(5 + how.len() as u32, matches!(s.how, How::Capture));
    }
    assert_eq!(how.len(), 13);
    for (i, h) in how.iter().enumerate() {
        match h {
            How::Eager => assert!(i < GRAPH_CAPTURE_AT),
            How::Capture => assert_eq!(i, GRAPH_CAPTURE_AT),
            How::Replay => assert!(i > GRAPH_CAPTURE_AT),
        }
    }
    assert_eq!(run.out, (5..19).collect::<Vec<u32>>());
}

#[test]
fn generation_ends_at_the_end_token() {
    let mut run = TpRun::start(5, 1, 10, 512, 0, false);
    assert_eq!(run.next().unwrap().max_pc, 2);
    run.settle(6, false);
    run.settle(0, false);
    assert!(run.next().is_none());
    assert_eq!(run.out, vec![5, 6]);
    let run = TpRun::start(0, 1, 10, 512, 0, false);
    assert!(run.next().is_none() && run.out.is_empty());
}

#[test]
fn acceptance_is_sampled() {
    assert_eq!(top_three(&[4, 5, 6, 7]), (4, 5, 6));
    assert_eq!(top_three(&[4]), (4, 4, 4));
    let conf = [(10u32, 1u32), (20, 2), (30, 3)];
    let top3 = [(1, 0, 0), (0, 0, 9), (7, 7, 7)];
    let (s, n) = accept_samples(&[1, 2, 3], &[1, 9, 3, 4], &conf, &top3);
    assert_eq!(n, 1);
    assert_eq!(s.len(), 2, "up to the first that is rejected");
    assert!(s[0].accepted && s[0].covered_top2 && s[0].covered_top3);
    assert!(!s[1].accepted && !s[1].covered_top2 && s[1].covered_top3);
    assert_eq!((s[1].depth_idx, s[1].target_top1_p, s[1].target_margin), (2, 20, 2));
}

#[test]
fn trials_are_tallied() {
    let mut t = SampleTrial::new(3, 8, 40);
    assert_eq!(t.column_key(5), 5);
    let sampler = [1u32; 32];
    let mut accept = [false; 31];
    accept[0] = true;
    let resid = [2u32; 32];
    t.record(&sampler, &accept, &resid);
    assert_eq!((t.done, t.launches, t.accepted), (31, 1, 1));
    assert_eq!((t.mtp.hist[3], t.mtp.hist[2]), (1, 30));
    assert_eq!((t.sampler.hist[1], t.bonus.hist[2]), (32, 1));
    assert_eq!(t.column_key(5), 37);
    t.record(&sampler, &accept, &resid);
    assert_eq!((t.done, t.accepted), (40, 2));
    assert!(!t.wants_launch());
    let mut c = Tally::new(4);
    c.add(2);
    assert_eq!((c.hist.clone(), c.n), (vec![0, 0, 1, 0], 1));
}

#[test]
fn latencies() {
    assert_eq!(sorted(&[3, 1, 2, 1]), vec![1, 1, 2, 3]);
    assert_eq!(median(&[5, 1, 9]), 5);
    assert_eq!(median(&[4, 1, 3, 2]), 3);
    assert!(split_latency(&[1; 20]).is_none());
    let times: Vec<u64> = (0..21).rev().collect();
    let (warm, steady) = split_latency(&times).unwrap();
    assert_eq!(warm, times[..16].to_vec());
    assert_eq!(steady, vec![0, 1, 2, 3, 4]);
}

#[test]
fn verify_against_decodes() {
    let mut d = DecodeRun::start(4, 10);
    assert_eq!(d.next(), (4, 10, 11));
    d.push(5);
    d.push(6);
    assert_eq!(d.next(), (6, 12, 13));
    assert_eq!(d.verify_input(2), vec![4, 5]);
    assert_eq!(verify_matches(&[5, 7], &d.tokens, 2), vec![true, false]);
}

#[test]
fn rejection_leaves_no_trace() {
    assert_eq!(setup_probe().len(), 4);
    let p = probe_reject_path(9, 77);
    assert_eq!(p[0], ProbeStep::Decode { slot: 1, token: 77, pos: 9 });
    assert_eq!(p[1], ProbeStep::VerifyTwice { slot: 0, token: 77, pos: 9, ckpt: 2 });
    assert_eq!(p[6], ProbeStep::SameKv { a: 0, b: 1, last: 9 });
    let p = probe_reject_again(9, 78);
    assert_eq!(p[4], ProbeStep::SameKv { a: 0, b: 1, last: 10 });
    assert_eq!(kv_runs(2, 8, 4, 1, 2), vec![(64, 76), (96, 108)]);
}

#[test]
fn profiles_cover_the_policy() {
    let depths = auto_depths();
    let cases = profile_mtp();
    assert!(matches!(cases[0], ProfileCase::Decode));
    let labels: Vec<String> = cases.iter().map(|c| c.label()).collect();
    let (decode, rows) = calibrate_mtp_r(&labels);
    assert_eq!(decode, Some(0));
    assert_eq!(rows.len(), depths.len());
    for (r, d) in rows.iter().zip(depths) {
        assert_eq!(r.depth, d);
        assert!(r.draft.is_some() && r.verify.is_some() && r.rollback.is_some());
        assert!(r.argmax.is_some() && r.reprime.is_some());
    }
    assert_eq!(find_row(&labels, "no such row"), None);
}

#[test]
fn profile_launches() {
    let of = |c: ProfileCase| c.launch(9, 20);
    assert!(matches!(of(ProfileCase::Decode), ProfileLaunch::Decode { token: 9, pos: 20, context: 21 }));
    assert!(matches!(of(ProfileCase::DraftStep), ProfileLaunch::Draft { token: 9, pos: 19 }));
    assert!(matches!(of(ProfileCase::DraftArgmax), ProfileLaunch::Argmax));
    assert!(matches!(of(ProfileCase::PenaltyUpload), ProfileLaunch::Penalties { columns: 2, entries: 128 }));
    let verify = |c: ProfileCase| match of(c) {
        ProfileLaunch::Verify { tokens, pos, ckpt, greedy } => (tokens, pos, ckpt, greedy),
        _ => panic!("a verify"),
    };
    assert_eq!(verify(ProfileCase::VerifyCore { n: 4, ckpt: false }), (vec![9; 4], 20, None, false));
    assert_eq!(verify(ProfileCase::VerifyCore { n: 1, ckpt: true }), (vec![9], 20, Some(2), false));
    assert_eq!(verify(ProfileCase::VerifyBackbone), (vec![9; 2], 20, Some(2), false));
    assert_eq!(verify(ProfileCase::VerifyGreedy), (vec![9; 2], 20, Some(2), true));
    match of(ProfileCase::VerifySample { n: 3 }) {
        ProfileLaunch::Sample { tokens, pos, ckpt, drafts, seeds } => {
            assert_eq!((tokens, pos, ckpt), (vec![9; 3], 20, Some(2)));
            assert_eq!((drafts, seeds), (vec![9; 2], vec![0, 1, 2]));
        }
        _ => panic!("a sampling verify"),
    }
    assert!(matches!(of(ProfileCase::Rollback), ProfileLaunch::CopyState { from: 2, to: 0 }));
    assert!(matches!(of(ProfileCase::Reprime), ProfileLaunch::Reprime { tokens, pos: 19 } if tokens == vec![9; 2]));
}
