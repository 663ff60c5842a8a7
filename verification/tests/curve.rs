use prop_amm::curve::swap_output;
use prop_amm::instruction::{encode_instruction, encode_swap_instruction, STORAGE_SIZE};
use prop_amm::normalizer;
use prop_amm::starter;
use prop_amm::validate::concavity_holds;

const NANO: u64 = 1_000_000_000;

fn storage_with_fee(fee_bps: u16) -> [u8; STORAGE_SIZE] {
    let mut storage = [0u8; STORAGE_SIZE];
    storage[0..2].copy_from_slice(&fee_bps.to_le_bytes());
    storage
}

#[test]
fn reference_quote_has_its_exact_values() {
    let zero = [0u8; STORAGE_SIZE];
    let buy = encode_swap_instruction(0, 100 * NANO, 100 * NANO, 10_000 * NANO, &zero);
    assert_eq!(normalizer::compute_swap(&buy), 987_158_034);
    let small_buy = encode_swap_instruction(0, 10 * NANO, 100 * NANO, 10_000 * NANO, &zero);
    assert_eq!(normalizer::compute_swap(&small_buy), 99_600_698);
    let sell = encode_swap_instruction(1, NANO, 100 * NANO, 10_000 * NANO, &zero);
    assert_eq!(normalizer::compute_swap(&sell), 98_715_803_439);
}

#[test]
fn reference_quote_reads_the_fee_from_storage() {
    let at = |fee: u16| {
        normalizer::compute_swap(&encode_swap_instruction(
            0,
            100 * NANO,
            100 * NANO,
            10_000 * NANO,
            &storage_with_fee(fee),
        ))
    };
    assert_eq!(at(0), 987_158_034);
    assert_eq!(at(30), 987_158_034);
    assert_eq!(at(100), 980_295_078);
    assert_eq!(at(10), 989_118_704);
    assert_eq!(normalizer::fee_bps_from_storage(&storage_with_fee(0)), 30);
    assert_eq!(normalizer::fee_bps_from_storage(&storage_with_fee(77)), 77);
    assert_eq!(normalizer::fee_bps_from_storage(&[5]), 30);
    assert_eq!(normalizer::fee_bps_from_storage(&[]), 30);
}

#[test]
fn reference_quote_is_zero_where_no_trade_can_happen() {
    let zero = [0u8; STORAGE_SIZE];
    assert_eq!(normalizer::compute_swap(&[]), 0);
    assert_eq!(normalizer::compute_swap(&[0u8; 24]), 0);
    assert_eq!(normalizer::compute_swap(&encode_swap_instruction(0, NANO, 0, NANO, &zero)), 0);
    assert_eq!(normalizer::compute_swap(&encode_swap_instruction(1, NANO, NANO, 0, &zero)), 0);
    assert_eq!(normalizer::compute_swap(&encode_swap_instruction(2, NANO, NANO, NANO, &zero)), 0);
    assert_eq!(normalizer::compute_swap(&encode_swap_instruction(0, 0, NANO, NANO, &zero)), 0);
    let whole = storage_with_fee(10_000);
    assert_eq!(normalizer::compute_swap(&encode_swap_instruction(0, NANO, NANO, NANO, &whole)), 0);
    let beyond = storage_with_fee(u16::MAX);
    assert_eq!(normalizer::compute_swap(&encode_swap_instruction(1, NANO, NANO, NANO, &beyond)), 0);
}

#[test]
fn reference_quote_works_on_a_bare_header() {
    let header = encode_instruction(0, 100 * NANO, 100 * NANO, 10_000 * NANO);
    assert_eq!(normalizer::compute_swap(&header), 987_158_034);
    let mut one_more = header.to_vec();
    one_more.push(200);
    assert_eq!(normalizer::compute_swap(&one_more), 987_158_034);
}

#[test]
fn reference_quote_never_pays_the_whole_reserve() {
    let zero = [0u8; STORAGE_SIZE];
    let out = normalizer::compute_swap(&encode_swap_instruction(0, u64::MAX, u64::MAX, 1, &zero));
    assert!(out < u64::MAX);
    let out = normalizer::compute_swap(&encode_swap_instruction(1, u64::MAX, u64::MAX, u64::MAX, &zero));
    assert!(out < u64::MAX);
    assert_eq!(swap_output(u64::MAX, u64::MAX, u64::MAX, 1, 1), u64::MAX / 2);
}

#[test]
fn starter_quote_has_its_exact_values() {
    let zero = [0u8; STORAGE_SIZE];
    let buy = encode_swap_instruction(0, 50 * NANO, 100 * NANO, 10_000 * NANO, &zero);
    assert_eq!(starter::compute_swap(&buy), 472_754_416);
    assert_eq!(normalizer::compute_swap(&buy), 496_027_303);
    assert_eq!(starter::compute_swap(&[1u8; 20]), 0);
    assert_eq!(starter::compute_swap(&encode_swap_instruction(3, NANO, NANO, NANO, &zero)), 0);
    assert_eq!(starter::compute_swap(&encode_swap_instruction(0, NANO, 0, NANO, &zero)), 0);
    let fee = storage_with_fee(9_000);
    let with_fee = encode_swap_instruction(0, 50 * NANO, 100 * NANO, 10_000 * NANO, &fee);
    assert_eq!(starter::compute_swap(&with_fee), 472_754_416);
}

#[test]
fn swap_output_matches_the_rounded_down_formula() {
    let cases: [(u64, u64, u64, u64, u64); 5] = [
        (38, 10, 1000, 5000, 10_000),
        (39, 10, 1000, 5000, 10_000),
        (40, 10, 1000, 5000, 10_000),
        (1, 1, 1, 1, 1),
        (123_456_789, 987_654_321, 555_555_555, 997, 1000),
    ];
    for (input, reserve_in, reserve_out, num, den) in cases {
        let net = input as u128 * num as u128 / den as u128;
        let expected = reserve_out as u128 * net / (reserve_in as u128 + net);
        assert_eq!(swap_output(input, reserve_in, reserve_out, num, den) as u128, expected);
    }
    assert_eq!(swap_output(38, 10, 1000, 5000, 10_000), 655);
    assert_eq!(swap_output(40, 10, 1000, 5000, 10_000), 666);
}

#[test]
fn reference_quote_grows_with_the_input() {
    let zero = [0u8; STORAGE_SIZE];
    for side in [0u8, 1u8] {
        let mut prev = 0u64;
        for step in 0..2_000u64 {
            let input = step * 7_919 + step * step;
            let out = normalizer::compute_swap(&encode_swap_instruction(side, input, 3 * NANO, 700 * NANO, &zero));
            assert!(out >= prev);
            prev = out;
        }
    }
}

#[test]
fn reference_quote_is_concave_over_even_steps() {
    let zero = [0u8; STORAGE_SIZE];
    for side in [0u8, 1u8] {
        for base in 0..500u64 {
            let input = base * 1_234_567;
            let step = 1_000_000u64;
            let at = |x: u64| {
                normalizer::compute_swap(&encode_swap_instruction(side, x, 100 * NANO, 10_000 * NANO, &zero))
            };
            assert!(concavity_holds(at(input), at(input + step), at(input + 2 * step)));
        }
    }
}

#[test]
fn fee_rounding_can_bend_the_curve_over_uneven_net_steps() {
    let storage = storage_with_fee(5_000);
    let at = |x: u64| normalizer::compute_swap(&encode_swap_instruction(0, x, 1000, 10, &storage));
    assert_eq!((at(38), at(39), at(40)), (655, 655, 666));
    assert!(!concavity_holds(at(38), at(39), at(40)));
}
