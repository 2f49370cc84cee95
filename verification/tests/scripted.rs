use ndl_rand::replay::{ndl_rand_from, Draw};
use ndl_rand::RandError;

#[test]
fn zero_bound_is_refused_whatever_the_samples() {
    assert_eq!(ndl_rand_from(0, &[]), Err(RandError {}));
    assert_eq!(ndl_rand_from(0, &[1 << 63, 7]), Err(RandError {}));
}

#[test]
fn first_sample_with_a_large_remainder_settles_the_run() {
    // The product of 2^63 and 5 is 2 * 2^64 + 2^63.
    assert_eq!(ndl_rand_from(5, &[1 << 63]), Ok(Some(Draw { value: 2, used: 1 })));
    assert_eq!(ndl_rand_from(5, &[1 << 63, 0, 99]), Ok(Some(Draw { value: 2, used: 1 })));
}

#[test]
fn same_samples_give_the_same_result() {
    let samples: [u64; 4] = [0, 0x2AAA_AAAA_AAAA_AAAB, 0x5555_5555_5555_5556, 17];
    let once = ndl_rand_from(6, &samples);
    let again = ndl_rand_from(6, &samples);
    assert_eq!(once, again);
    assert_eq!(once, Ok(Some(Draw { value: 2, used: 3 })));
}

#[test]
fn rejected_samples_are_passed_over() {
    assert_eq!(ndl_rand_from(5, &[0, 0, 1 << 63]), Ok(Some(Draw { value: 2, used: 3 })));
    assert_eq!(
        ndl_rand_from((1 << 63) + 1, &[0, 2, 3, 1]),
        Ok(Some(Draw { value: 1, used: 3 }))
    );
}

#[test]
fn remainder_between_threshold_and_bound_is_kept() {
    assert_eq!(ndl_rand_from(3, &[0xAAAA_AAAA_AAAA_AAAB]), Ok(Some(Draw { value: 2, used: 1 })));
    assert_eq!(
        ndl_rand_from(3, &[0, 0xAAAA_AAAA_AAAA_AAAB]),
        Ok(Some(Draw { value: 2, used: 2 }))
    );
}

#[test]
fn samples_that_are_all_rejected_give_nothing() {
    assert_eq!(ndl_rand_from(5, &[]), Ok(None));
    assert_eq!(ndl_rand_from(5, &[0]), Ok(None));
    assert_eq!(ndl_rand_from(5, &[0, 0, 0]), Ok(None));
    assert_eq!(ndl_rand_from((1 << 63) + 1, &[0, 2, 0, 2]), Ok(None));
}

#[test]
fn scripted_results_stay_below_the_bound() {
    let samples: [u64; 6] = [0, 1, 1 << 32, 1 << 63, u64::MAX - 1, u64::MAX];
    let bounds: [u64; 6] = [1, 2, 10_000, 1 << 63, (1 << 63) + 1, u64::MAX];
    for max in bounds {
        for start in 0..samples.len() {
            if let Ok(Some(draw)) = ndl_rand_from(max, &samples[start..]) {
                assert!(draw.value < max);
                assert!(draw.used >= 1 && draw.used <= samples.len() - start);
            }
        }
    }
}

#[test]
fn largest_sample_gives_the_largest_value() {
    assert_eq!(ndl_rand_from(10_000, &[u64::MAX]), Ok(Some(Draw { value: 9_999, used: 1 })));
    assert_eq!(
        ndl_rand_from(u64::MAX, &[u64::MAX]),
        Ok(Some(Draw { value: u64::MAX - 1, used: 1 }))
    );
}

#[test]
fn first_sample_just_above_two_to_the_64_is_dropped() {
    // 67280421310721 * 274177 is 2^64 + 1: the remainder 1 lies below the
    // threshold 274176.
    assert_eq!(
        ndl_rand_from(274_177, &[67_280_421_310_721, u64::MAX]),
        Ok(Some(Draw { value: 274_176, used: 2 }))
    );
    assert_eq!(ndl_rand_from(274_177, &[67_280_421_310_721]), Ok(None));
}

#[test]
fn largest_bound_drops_zero_and_keeps_the_largest_sample() {
    assert_eq!(
        ndl_rand_from(u64::MAX, &[0, u64::MAX]),
        Ok(Some(Draw { value: u64::MAX - 1, used: 2 }))
    );
}

#[test]
fn bound_of_half_the_words_rejects_nothing() {
    assert_eq!(ndl_rand_from(1 << 63, &[2]), Ok(Some(Draw { value: 1, used: 1 })));
    assert_eq!(ndl_rand_from(1 << 63, &[0, 2]), Ok(Some(Draw { value: 0, used: 1 })));
}

#[test]
fn scaling_is_not_the_plain_remainder() {
    // 2^63 mod 5 is 3; the scaled value is 2.
    assert_eq!(ndl_rand_from(5, &[1 << 63]), Ok(Some(Draw { value: 2, used: 1 })));
}
