use prop_amm::run::{batch_seeds, run, seed_range, sim_seeds, worker_count, RunError, RunPlan};
use prop_amm::search_stats::{
    enabled, inc_arb_bracket_call, inc_arb_bracket_eval, inc_arb_early_stop_amount_tol,
    inc_arb_golden_call, inc_arb_golden_eval, inc_arb_golden_iter, inc_router_call,
    inc_router_early_stop_rel_gap, inc_router_eval, inc_router_iter, reset, snapshot_if_enabled,
    SearchStats,
};
use prop_amm::validate::{
    concavity_holds, concavity_inputs, mix, monotonicity_violation, post_trade_reserves,
    random_probe, CONCAVITY_DELTA_NANO,
};

#[test]
fn zero_seed_stride_is_refused() {
    assert_eq!(run(10, 20, 0, 5, 0, false), Err(RunError::ZeroSeedStride));
    assert_eq!(run(0, 0, 3, 0, 0, true), Err(RunError::ZeroSeedStride));
}

#[test]
fn plan_keeps_the_numbers_and_maps_zero_workers_to_auto() {
    assert_eq!(
        run(1000, 10_000, 0, 7, 3, false),
        Ok(RunPlan {
            simulations: 1000,
            steps: 10_000,
            n_workers: None,
            seed_start: 7,
            seed_stride: 3,
            bpf: false,
        })
    );
    assert_eq!(
        run(4, 500, 2, 0, 1, true),
        Ok(RunPlan {
            simulations: 4,
            steps: 500,
            n_workers: Some(2),
            seed_start: 0,
            seed_stride: 1,
            bpf: true,
        })
    );
}

#[test]
fn worker_count_defaults_to_the_machine_up_to_eight() {
    assert_eq!(worker_count(Some(2), 64), 2);
    assert_eq!(worker_count(Some(100), 4), 100);
    assert_eq!(worker_count(None, 4), 4);
    assert_eq!(worker_count(None, 8), 8);
    assert_eq!(worker_count(None, 64), 8);
    assert_eq!(worker_count(None, 0), 0);
}

#[test]
fn batch_seeds_are_start_plus_index_times_stride() {
    assert_eq!(batch_seeds(4, 0, 1), vec![0, 1, 2, 3]);
    assert_eq!(batch_seeds(12, 9_001, 7)[11], 9_001 + 11 * 7);
    assert_eq!(batch_seeds(0, 5, 5), Vec::<u64>::new());
    assert_eq!(batch_seeds(3, u64::MAX - 1, 2), vec![u64::MAX - 1, 0, 2]);
    assert_eq!(batch_seeds(3, 1, u64::MAX), vec![1, 0, u64::MAX]);
}

#[test]
fn simulation_streams_use_neighbouring_seeds() {
    let seeds = sim_seeds(42);
    assert_eq!((seeds.price, seeds.retail, seeds.arbitrage), (42, 43, 44));
    let wrapped = sim_seeds(u64::MAX);
    assert_eq!((wrapped.price, wrapped.retail, wrapped.arbitrage), (u64::MAX, 0, 1));
}

#[test]
fn counters_count_only_when_enabled() {
    let mut off = SearchStats::new(false);
    inc_arb_bracket_call(&mut off);
    inc_router_eval(&mut off);
    assert!(!enabled(&off));
    assert_eq!(snapshot_if_enabled(&off), None);
    assert_eq!(off.counts.arb_bracket_calls, 0);

    let mut on = SearchStats::new(true);
    inc_arb_bracket_call(&mut on);
    inc_arb_bracket_eval(&mut on);
    inc_arb_bracket_eval(&mut on);
    inc_arb_golden_call(&mut on);
    inc_arb_golden_iter(&mut on);
    inc_arb_golden_eval(&mut on);
    inc_arb_early_stop_amount_tol(&mut on);
    inc_router_call(&mut on);
    inc_router_iter(&mut on);
    inc_router_eval(&mut on);
    inc_router_early_stop_rel_gap(&mut on);
    let snapshot = snapshot_if_enabled(&on).expect("enabled");
    assert_eq!(snapshot.arb_bracket_calls, 1);
    assert_eq!(snapshot.arb_bracket_evals, 2);
    assert_eq!(snapshot.arb_golden_calls, 1);
    assert_eq!(snapshot.arb_golden_iters, 1);
    assert_eq!(snapshot.arb_golden_evals, 1);
    assert_eq!(snapshot.arb_early_stop_amount_tol, 1);
    assert_eq!(snapshot.router_calls, 1);
    assert_eq!(snapshot.router_golden_iters, 1);
    assert_eq!(snapshot.router_evals, 1);
    assert_eq!(snapshot.router_early_stop_rel_gap, 1);

    on.counts.router_calls = u64::MAX;
    inc_router_call(&mut on);
    assert_eq!(on.counts.router_calls, 0);

    reset(&mut on);
    let cleared = snapshot_if_enabled(&on).expect("enabled");
    assert_eq!(cleared.arb_bracket_evals, 0);
    assert_eq!(cleared.router_evals, 0);
    assert!(enabled(&on));
}

#[test]
fn mix_has_its_known_values() {
    assert_eq!(mix(0), 0);
    assert_eq!(mix(1), 6_238_072_747_940_578_789);
    assert_eq!(mix(42), 12_058_926_934_050_108_962);
    assert_eq!(mix(u64::MAX), 13_029_008_266_876_403_067);
}

#[test]
fn concavity_probe_inputs_rise_or_are_skipped() {
    assert_eq!(CONCAVITY_DELTA_NANO, 1_000_000);
    assert_eq!(concavity_inputs(100_000_000), Some((101_000_000, 102_000_000)));
    assert_eq!(concavity_inputs(0), Some((1_000_000, 2_000_000)));
    assert_eq!(concavity_inputs(u64::MAX), None);
    assert_eq!(concavity_inputs(u64::MAX - 1_000_000), None);
    assert_eq!(
        concavity_inputs(u64::MAX - 1_000_001),
        Some((u64::MAX - 1, u64::MAX))
    );
    assert_eq!(
        concavity_inputs(u64::MAX - 2_000_000),
        Some((u64::MAX - 1_000_000, u64::MAX))
    );
}

#[test]
fn concavity_allows_one_unit_of_rounding() {
    assert!(concavity_holds(0, 10, 20));
    assert!(concavity_holds(0, 10, 21));
    assert!(!concavity_holds(0, 10, 22));
    assert!(concavity_holds(0, 10, 5));
    assert!(!concavity_holds(10, 0, 0));
    assert!(concavity_holds(10, 5, 0));
    assert!(concavity_holds(10, 5, 1));
    assert!(!concavity_holds(10, 5, 2));
    assert!(concavity_holds(0, u64::MAX, u64::MAX));
    assert!(!concavity_holds(u64::MAX, 0, u64::MAX));
}

#[test]
fn monotonicity_check_finds_the_first_stall() {
    assert_eq!(monotonicity_violation(&[]), None);
    assert_eq!(monotonicity_violation(&[5]), None);
    assert_eq!(monotonicity_violation(&[1, 2, 3]), None);
    assert_eq!(monotonicity_violation(&[0, 0, 0, 1]), None);
    assert_eq!(monotonicity_violation(&[1, 2, 2, 1]), Some(2));
    assert_eq!(monotonicity_violation(&[3, 1, 0]), Some(1));
    assert_eq!(monotonicity_violation(&[0, 4, 0, 0]), Some(2));
}

#[test]
fn probe_numbers_come_from_the_seed() {
    let probe = random_probe(5);
    assert_eq!(probe.storage.len(), 1024);
    assert_eq!(&probe.storage[..4], &[220, 108, 20, 232]);
    assert_eq!(probe.storage[31], 226);
    assert!(probe.storage[32..].iter().all(|b| *b == 0));
    assert_eq!(probe.reserve_x, 972_617_340_533);
    assert_eq!(probe.reserve_y, 23_537_136_353_150);
    assert_eq!(probe.side, 1);
    assert_eq!(probe.amount, 8_016_132_942);
    assert_eq!(random_probe(4).side, 0);
    let edge = random_probe(u64::MAX);
    assert_eq!(edge.storage[1], (mix(0) & 0xFF) as u8);
    assert_eq!(edge.storage[2], (mix(1) & 0xFF) as u8);
}

#[test]
fn post_trade_reserves_stay_in_range() {
    assert_eq!(post_trade_reserves(0, 100, 200, 30, 40), (60, 230));
    assert_eq!(post_trade_reserves(1, 100, 200, 30, 40), (130, 160));
    assert_eq!(post_trade_reserves(0, 10, u64::MAX, 30, 40), (0, u64::MAX));
    assert_eq!(post_trade_reserves(1, u64::MAX, 10, 30, 40), (u64::MAX, 0));
    assert_eq!(post_trade_reserves(7, 1, 2, 3, 1), (4, 1));
}

#[test]
fn seed_range_spans_the_seeds() {
    assert_eq!(seed_range(&[]), None);
    assert_eq!(seed_range(&[7]), Some((7, 7)));
    assert_eq!(seed_range(&[5, 3, 9, 3]), Some((3, 9)));
    assert_eq!(seed_range(&batch_seeds(12, 9_001, 7)), Some((9_001, 9_078)));
    assert_eq!(seed_range(&batch_seeds(3, u64::MAX - 1, 2)), Some((0, u64::MAX - 1)));
}
