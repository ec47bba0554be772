use ark_bls12_377::Fr;
use ark_ff::BigInteger256;
use ark_ff::PrimeField;
use ark_std::One;
use ark_std::Zero;
use msm_workload::field::Scalar;
use msm_workload::layout::high_frequency_tier;
use msm_workload::layout::low_frequency_tier;
use msm_workload::layout::Tier;
use msm_workload::layout::MIN_LEN;
use msm_workload::layout::ONE_COUNT;
use msm_workload::layout::TIERED_LIMIT;
use msm_workload::layout::TIERED_MIN;
use msm_workload::layout::ZERO_COUNT;
use msm_workload::random::shuffle_scalars;
use msm_workload::runs::Run;
use msm_workload::util::draw_tier;
use msm_workload::util::generate_nonuniform_scalars;
use msm_workload::util::generate_nonuniform_scalars_with;
use msm_workload::util::generate_nonuniform_unshuffled;
use msm_workload::util::write_tiered_block;
use msm_workload::util::GenerateError;
use msm_workload::util::TieredScalars;
use rand::SeedableRng;
use rand_chacha::ChaCha20Rng;

const ZERO: Scalar = Scalar { limbs: [0, 0, 0, 0] };
const ONE: Scalar = Scalar { limbs: [1, 0, 0, 0] };

fn scalar(low: u64) -> Scalar {
    Scalar { limbs: [low, 0, 0, 0] }
}

fn total(runs: &[Run]) -> usize {
    runs.iter().map(|r| r.count).sum()
}

fn unshuffled(len: usize, seed: u64) -> TieredScalars {
    let mut rng = ChaCha20Rng::seed_from_u64(seed);
    generate_nonuniform_unshuffled(len, &mut rng).unwrap()
}

/// Checks that `scalars[at..]` starts with the runs written out and returns
/// the index behind them.
fn expect_runs(scalars: &[Scalar], mut at: usize, runs: &[Run]) -> usize {
    for run in runs {
        assert!(scalars[at..at + run.count].iter().all(|s| *s == run.value));
        at += run.count;
    }
    at
}

#[test]
fn constants_are_the_documented_numbers() {
    assert_eq!(ZERO_COUNT, 150_000);
    assert_eq!(ONE_COUNT, 50_000);
    assert_eq!(MIN_LEN, 1 << 23);
    assert_eq!(TIERED_MIN, 200_000 + 200 * 4_000 + 19_000 * 200);
    assert_eq!(TIERED_LIMIT, 200_000 + 299 * 7_999 + 20_999 * 399 + 1);
    assert_eq!(
        high_frequency_tier(),
        Tier { min_values: 200, max_values: 300, min_count: 4_000, max_count: 8_000 }
    );
    assert_eq!(
        low_frequency_tier(),
        Tier { min_values: 19_000, max_values: 21_000, min_count: 200, max_count: 400 }
    );
}

#[test]
fn nonuniform_rejects_lengths_below_the_minimum() {
    let mut rng = ChaCha20Rng::seed_from_u64(1);
    for len in [0, 1, 200_000, (1 << 22), (1 << 23) - 1] {
        assert_eq!(generate_nonuniform_scalars(len).unwrap_err(), GenerateError::InvalidInput);
        assert_eq!(
            generate_nonuniform_scalars_with(len, &mut rng).unwrap_err(),
            GenerateError::InvalidInput
        );
        assert_eq!(
            generate_nonuniform_unshuffled(len, &mut rng).unwrap_err(),
            GenerateError::InvalidInput
        );
    }
}

#[test]
fn nonuniform_at_the_minimum_has_exactly_that_length() {
    let scalars = generate_nonuniform_scalars(1 << 23).unwrap();
    assert_eq!(scalars.len(), 8_388_608);
}

#[test]
fn nonuniform_above_the_minimum_has_exactly_that_length() {
    let w = unshuffled((1 << 23) + 12_345, 50);
    assert_eq!(w.scalars.len(), 8_400_953);
}

#[test]
fn unshuffled_starts_with_zeros_then_ones() {
    let w = unshuffled(MIN_LEN, 49);
    assert!(w.scalars[..150_000].iter().all(|s| *s == ZERO));
    assert!(w.scalars[150_000..200_000].iter().all(|s| *s == ONE));
    assert_eq!(Fr::from_repr(BigInteger256(w.scalars[0].limbs)).unwrap(), Fr::zero());
    assert_eq!(Fr::from_repr(BigInteger256(w.scalars[150_000].limbs)).unwrap(), Fr::one());
    assert_ne!(w.scalars[200_000], ONE);
}

#[test]
fn unshuffled_tiers_lie_in_the_documented_ranges() {
    let w = unshuffled(MIN_LEN, 36);
    assert!((200..300).contains(&w.high.len()));
    assert!(w.high.iter().all(|r| (4_000..8_000).contains(&r.count)));
    assert!((19_000..21_000).contains(&w.low.len()));
    assert!(w.low.iter().all(|r| (200..400).contains(&r.count)));
    let tiered = 200_000 + total(&w.high) + total(&w.low);
    assert!((TIERED_MIN..TIERED_LIMIT).contains(&tiered));
}

#[test]
fn unshuffled_is_identities_then_tiers_then_fill() {
    let w = unshuffled(MIN_LEN, 62);
    let after_high = expect_runs(&w.scalars, 200_000, &w.high);
    let after_low = expect_runs(&w.scalars, after_high, &w.low);
    let fill = w.scalars.len() - after_low;
    assert_eq!(150_000 + 50_000 + total(&w.high) + total(&w.low) + fill, 8_388_608);
    assert_eq!(w.scalars.len(), 8_388_608);
    let tail = &w.scalars[after_low..];
    assert!(tail.windows(2).take(10_000).all(|p| p[0] != p[1]));
}

#[test]
fn same_seed_gives_the_same_unshuffled_workload() {
    let first = unshuffled(MIN_LEN, 19);
    let second = unshuffled(MIN_LEN, 19);
    assert_eq!(first.high, second.high);
    assert_eq!(first.low, second.low);
    assert!(first.scalars == second.scalars);
}

#[test]
fn another_seed_gives_other_tiers() {
    let first = draw_tier(high_frequency_tier(), &mut ChaCha20Rng::seed_from_u64(15));
    let second = draw_tier(high_frequency_tier(), &mut ChaCha20Rng::seed_from_u64(16));
    let again = draw_tier(high_frequency_tier(), &mut ChaCha20Rng::seed_from_u64(15));
    assert_ne!(first, second);
    assert_eq!(first, again);
}

#[test]
fn shuffling_keeps_the_values_and_loses_the_order() {
    let w = unshuffled(MIN_LEN, 54);
    let mut shuffled = w.scalars.clone();
    shuffle_scalars(&mut shuffled, &mut ChaCha20Rng::seed_from_u64(18));
    assert_eq!(shuffled.len(), w.scalars.len());
    assert!(shuffled != w.scalars);
    assert!(!shuffled[..150_000].iter().all(|s| *s == ZERO));
    let mut before = w.scalars;
    before.sort_unstable_by_key(|s| s.limbs);
    shuffled.sort_unstable_by_key(|s| s.limbs);
    assert!(before == shuffled);
}

#[test]
fn shuffled_workload_holds_the_identities_and_the_tiers() {
    let mut rng = ChaCha20Rng::seed_from_u64(33);
    let scalars = generate_nonuniform_scalars_with(MIN_LEN, &mut rng).unwrap();
    assert_eq!(scalars.len(), 8_388_608);
    assert_eq!(scalars.iter().filter(|s| **s == ZERO).count(), 150_000);
    assert_eq!(scalars.iter().filter(|s| **s == ONE).count(), 50_000);
    assert!(!scalars[..200_000].iter().all(|s| *s == ZERO || *s == ONE));
    let mut sorted = scalars;
    sorted.sort_unstable_by_key(|s| s.limbs);
    let mut high_values = 0;
    let mut low_values = 0;
    let mut start = 0;
    while start < sorted.len() {
        let mut end = start + 1;
        while end < sorted.len() && sorted[end] == sorted[start] {
            end += 1;
        }
        let count = end - start;
        if sorted[start] != ZERO && sorted[start] != ONE {
            if (4_000..8_000).contains(&count) {
                high_values += 1;
            } else if (200..400).contains(&count) {
                low_values += 1;
            } else {
                assert_eq!(count, 1);
            }
        }
        start = end;
    }
    assert!((200..300).contains(&high_values));
    assert!((19_000..21_000).contains(&low_values));
}

#[test]
fn draw_tier_respects_its_ranges() {
    let mut rng = ChaCha20Rng::seed_from_u64(20);
    let pinned = Tier { min_values: 3, max_values: 4, min_count: 2, max_count: 3 };
    let runs = draw_tier(pinned, &mut rng);
    assert_eq!(runs.len(), 3);
    assert!(runs.iter().all(|r| r.count == 2));
    let wide = Tier { min_values: 10, max_values: 20, min_count: 5, max_count: 50 };
    let mut sizes = Vec::new();
    let mut counts = Vec::new();
    for _ in 0..50 {
        let runs = draw_tier(wide, &mut rng);
        assert!((10..20).contains(&runs.len()));
        assert!(runs.iter().all(|r| (5..50).contains(&r.count)));
        sizes.push(runs.len());
        counts.extend(runs.iter().map(|r| r.count));
    }
    assert!(sizes.iter().any(|n| *n != 10));
    assert!(sizes.iter().any(|n| *n != sizes[0]));
    assert!(counts.iter().any(|c| *c != 5));
    assert!(counts.iter().any(|c| *c != counts[0]));
    let high = draw_tier(high_frequency_tier(), &mut rng);
    assert!((200..300).contains(&high.len()));
    assert!(high.iter().all(|r| (4_000..8_000).contains(&r.count)));
}

#[test]
fn write_tiered_block_writes_identities_and_runs() {
    let high = vec![Run { value: scalar(7), count: 3 }, Run { value: scalar(8), count: 1 }];
    let low = vec![Run { value: scalar(9), count: 2 }];
    let block = write_tiered_block(1 << 23, &high, &low).unwrap();
    assert_eq!(block.len(), 200_006);
    assert!(block[..150_000].iter().all(|s| s.limbs == [0, 0, 0, 0]));
    assert!(block[150_000..200_000].iter().all(|s| s.limbs == [1, 0, 0, 0]));
    assert_eq!(
        block[200_000..].to_vec(),
        vec![scalar(7), scalar(7), scalar(7), scalar(8), scalar(9), scalar(9)]
    );
    let exact = write_tiered_block(200_006, &high, &low).unwrap();
    assert_eq!(exact, block);
    let bare = write_tiered_block(200_000, &Vec::new(), &Vec::new()).unwrap();
    assert_eq!(bare.len(), 200_000);
}

#[test]
fn write_tiered_block_fails_when_the_tiers_do_not_fit() {
    let high = vec![Run { value: scalar(7), count: 3 }, Run { value: scalar(8), count: 1 }];
    let low = vec![Run { value: scalar(9), count: 2 }];
    assert_eq!(
        write_tiered_block(200_005, &high, &low).unwrap_err(),
        GenerateError::InvariantViolation
    );
    assert_eq!(
        write_tiered_block(200_003, &high, &low).unwrap_err(),
        GenerateError::InvariantViolation
    );
    assert_eq!(
        write_tiered_block(199_999, &Vec::new(), &Vec::new()).unwrap_err(),
        GenerateError::InvariantViolation
    );
    assert_eq!(write_tiered_block(0, &high, &low).unwrap_err(), GenerateError::InvariantViolation);
    let huge = vec![Run { value: scalar(1), count: usize::MAX }; 2];
    assert_eq!(
        write_tiered_block(1 << 23, &huge, &low).unwrap_err(),
        GenerateError::InvariantViolation
    );
    let worst_high = vec![Run { value: scalar(2), count: 7_999 }; 299];
    let worst_low = vec![Run { value: scalar(3), count: 399 }; 20_999];
    assert_eq!(
        write_tiered_block(1 << 23, &worst_high, &worst_low).unwrap_err(),
        GenerateError::InvariantViolation
    );
    assert_eq!(
        write_tiered_block(TIERED_LIMIT - 2, &worst_high, &worst_low).unwrap_err(),
        GenerateError::InvariantViolation
    );
    assert_eq!(
        write_tiered_block(TIERED_LIMIT - 1, &worst_high, &worst_low).unwrap().len(),
        10_970_302
    );
}
