use prop_amm::instruction::{encode_swap_instruction, STORAGE_SIZE};
use prop_amm::normalizer::compute_swap;
use prop_amm::router::{CurveScreen, OrderRouter, MIN_DIN, MIN_INPUT_NANO};

const M: u64 = 1_000_000;

fn landmarks(screen: CurveScreen) -> Vec<(u64, u64)> {
    match screen {
        CurveScreen::Landmarks(points) => points,
        other => panic!("expected landmarks, got {:?}", other),
    }
}

#[test]
fn nothing_to_pay_out_is_refused() {
    let _router = OrderRouter::new();
    assert!(matches!(OrderRouter::screen_curve(&[], 0), CurveScreen::Rejected));
    assert!(matches!(
        OrderRouter::screen_curve(&[(M, 1), (2 * M, 2), (3 * M, 3)], 0),
        CurveScreen::Rejected
    ));
}

#[test]
fn fewer_than_three_landmarks_are_accepted() {
    assert!(matches!(OrderRouter::screen_curve(&[], 10), CurveScreen::Accepted));
    assert!(matches!(
        OrderRouter::screen_curve(&[(M, 5), (2 * M, 1)], 10),
        CurveScreen::Accepted
    ));
    // Three samples, two inputs.
    assert!(matches!(
        OrderRouter::screen_curve(&[(M, 9), (M, 1), (2 * M, 5)], 10),
        CurveScreen::Accepted
    ));
    // Three inputs, the middle one too close to the first.
    assert!(matches!(
        OrderRouter::screen_curve(&[(M, 9), (M + MIN_DIN - 1, 1), (2 * M, 5)], 10),
        CurveScreen::Accepted
    ));
}

#[test]
fn samples_that_do_not_count_are_left_out() {
    let samples = [
        (MIN_INPUT_NANO - 1, 5),
        (M, 0),
        (2 * M, 100),
        (3 * M, 101),
        (M, 1),
        (2 * M, 2),
        (3 * M, 3),
    ];
    assert_eq!(
        landmarks(OrderRouter::screen_curve(&samples, 100)),
        vec![(M, 1), (2 * M, 2), (3 * M, 3)]
    );
    assert_eq!(
        landmarks(OrderRouter::screen_curve(&samples, 102)),
        vec![(M, 1), (2 * M, 100), (3 * M, 101)]
    );
}

#[test]
fn landmarks_are_sorted_merged_and_spaced() {
    let samples = [
        (5 * M, 50),
        (M, 10),
        (3 * M, 30),
        (M, 12),
        (3 * M + 1, 31),
        (3 * M + MIN_DIN, 32),
        (M, 11),
        (3 * M + MIN_DIN + 5, 33),
    ];
    assert_eq!(
        landmarks(OrderRouter::screen_curve(&samples, 1_000)),
        vec![(M, 12), (3 * M, 30), (3 * M + MIN_DIN, 32), (5 * M, 50)]
    );
}

#[test]
fn a_drop_of_one_unit_passes_and_of_two_is_refused() {
    let by_one = [(M, 10), (2 * M, 9), (3 * M, 9)];
    assert_eq!(landmarks(OrderRouter::screen_curve(&by_one, 100)), by_one.to_vec());
    let by_two = [(M, 10), (2 * M, 8), (3 * M, 9)];
    assert!(matches!(OrderRouter::screen_curve(&by_two, 100), CurveScreen::Rejected));
    let late = [(M, 1), (2 * M, 5), (3 * M, 9), (4 * M, 7)];
    assert!(matches!(OrderRouter::screen_curve(&late, 100), CurveScreen::Rejected));
    // A fall between points that are not landmarks is not seen.
    let hidden = [(M, 10), (M + 1, 2), (2 * M, 10), (3 * M, 10)];
    assert_eq!(
        landmarks(OrderRouter::screen_curve(&hidden, 100)),
        vec![(M, 10), (2 * M, 10), (3 * M, 10)]
    );
}

#[test]
fn extreme_values_are_handled() {
    let samples = [(u64::MAX, u64::MAX - 1), (M, 1), (u64::MAX - MIN_DIN, 2)];
    assert_eq!(
        landmarks(OrderRouter::screen_curve(&samples, u64::MAX)),
        vec![(M, 1), (u64::MAX - MIN_DIN, 2), (u64::MAX, u64::MAX - 1)]
    );
}

#[test]
fn samples_of_the_reference_curve_are_never_refused_for_a_fall() {
    let storage = [0u8; STORAGE_SIZE];
    let nano = 1_000_000_000u64;
    for (rx, ry) in [(100 * nano, 10_000 * nano), (3, 7 * nano), (nano, 5)] {
        for side in [0u8, 1u8] {
            let mut samples = Vec::new();
            let mut input = 999_983u64;
            for k in 0..40u64 {
                input = input.wrapping_mul(48_271) % (2_000 * nano);
                let probe = if k % 5 == 0 { input % 3_000_000 } else { input };
                let out = compute_swap(&encode_swap_instruction(side, probe, rx, ry, &storage));
                samples.push((probe, out));
            }
            let reserve = if side == 0 { rx } else { ry };
            assert!(!matches!(
                OrderRouter::screen_curve(&samples, reserve),
                CurveScreen::Rejected
            ));
        }
    }
}

/// The screening written the plain way, to hold the library's against.
fn plain_screen(samples: &[(u64, u64)], max_output_nano: u64) -> Option<Option<Vec<(u64, u64)>>> {
    if max_output_nano == 0 {
        return None;
    }
    let mut sorted: Vec<(u64, u64)> = samples
        .iter()
        .copied()
        .filter(|(input, output)| {
            !(*input < MIN_INPUT_NANO || *output == 0 || *output >= max_output_nano)
        })
        .collect();
    if sorted.len() < 3 {
        return Some(None);
    }
    sorted.sort();
    let mut collapsed: Vec<(u64, u64)> = Vec::new();
    for (input, output) in sorted {
        if let Some((last_in, last_out)) = collapsed.last_mut() {
            if *last_in == input {
                *last_out = (*last_out).max(output);
                continue;
            }
        }
        collapsed.push((input, output));
    }
    if collapsed.len() < 3 {
        return Some(None);
    }
    let mut marks: Vec<(u64, u64)> = Vec::new();
    for &(input, output) in &collapsed {
        if let Some(&(last_in, _)) = marks.last() {
            if input - last_in < MIN_DIN {
                continue;
            }
        }
        marks.push((input, output));
    }
    if marks.len() < 3 {
        return Some(None);
    }
    for window in marks.windows(2) {
        if window[1].1 + 1 < window[0].1 {
            return None;
        }
    }
    Some(Some(marks))
}

#[test]
fn screening_agrees_with_the_plain_way_on_scrambled_samples() {
    let mut state = 0x2545_F491_4F6C_DD1Du64;
    let mut next = move |bound: u64| {
        state ^= state << 13;
        state ^= state >> 7;
        state ^= state << 17;
        state % bound
    };
    let mut seen = [0usize; 3];
    for round in 0..3_000 {
        let count = next(9) as usize;
        let spread = if round % 2 == 0 { 6 } else { 60 };
        let max_output = if round % 50 == 0 { 0 } else { 5 + next(40) };
        let samples: Vec<(u64, u64)> = (0..count)
            .map(|_| (MIN_INPUT_NANO - MIN_DIN + next(spread) * (MIN_DIN / 2), next(45)))
            .collect();
        let plain = plain_screen(&samples, max_output);
        match OrderRouter::screen_curve(&samples, max_output) {
            CurveScreen::Rejected => {
                assert_eq!(plain, None);
                seen[0] += 1;
            }
            CurveScreen::Accepted => {
                assert_eq!(plain, Some(None));
                seen[1] += 1;
            }
            CurveScreen::Landmarks(points) => {
                assert_eq!(plain, Some(Some(points)));
                seen[2] += 1;
            }
        }
    }
    assert!(seen.iter().all(|n| *n > 50), "{:?}", seen);
}
