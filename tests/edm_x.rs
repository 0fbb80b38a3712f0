use changepoint::{
    evaluate_permutations, permutation_test, BestCandidate, ChangePointDetector, Error, HeapNum,
    PermutationTestResult, TotalOrder, EDMX,
};
use mersenne_twister::MersenneTwister;
use rand::distributions::{IndependentSample, Normal};
use rand::SeedableRng;

/// A finite double with clipped arithmetic, as the library's callers use.
#[derive(Clone, Copy, Debug, PartialEq)]
struct Finite(f64);

fn clip(raw: f64) -> Finite {
    if raw.is_infinite() {
        if raw.is_sign_positive() {
            Finite(f64::MAX)
        } else {
            Finite(f64::MIN)
        }
    } else {
        Finite(raw)
    }
}

fn as_divisor(candidate: f64) -> f64 {
    if candidate == 0.0 {
        if candidate.is_sign_positive() {
            f64::MIN_POSITIVE
        } else {
            -f64::MIN_POSITIVE
        }
    } else {
        candidate
    }
}

// The order and arithmetic laws that the library's traits state are not checked for
// this type: only the executable operations are used at run time.
impl TotalOrder for Finite {
    fn spec_le(a: Self, b: Self) -> bool {
        a.0 <= b.0
    }

    fn lemma_reflexive(_a: Self) {}

    fn lemma_transitive(_a: Self, _b: Self, _c: Self) {}

    fn lemma_antisymmetric(_a: Self, _b: Self) {}

    fn lemma_total(_a: Self, _b: Self) {}

    fn le(&self, other: &Self) -> bool {
        Self::spec_le(*self, *other)
    }
}

impl HeapNum for Finite {
    fn spec_sum(a: Self, b: Self) -> Self {
        clip(a.0 + b.0)
    }

    fn spec_difference(a: Self, b: Self) -> Self {
        clip(a.0 + -b.0)
    }

    fn spec_product(a: Self, b: Self) -> Self {
        clip(a.0 * b.0)
    }

    fn spec_quotient(a: Self, b: Self) -> Self {
        clip(a.0 / as_divisor(b.0))
    }

    fn spec_zero() -> Self {
        Finite(0.0)
    }

    fn spec_one() -> Self {
        Finite(1.0)
    }

    fn spec_from_ratio(num: u128, den: u128) -> Self {
        Finite(num as f64 / den as f64)
    }

    fn sum(&self, other: &Self) -> Self {
        Self::spec_sum(*self, *other)
    }

    fn difference(&self, other: &Self) -> Self {
        Self::spec_difference(*self, *other)
    }

    fn product(&self, other: &Self) -> Self {
        Self::spec_product(*self, *other)
    }

    fn quotient(&self, other: &Self) -> Self {
        Self::spec_quotient(*self, *other)
    }

    fn zero() -> Self {
        Self::spec_zero()
    }

    fn one() -> Self {
        Self::spec_one()
    }

    fn from_ratio(num: u128, den: u128) -> Self {
        Self::spec_from_ratio(num, den)
    }
}

fn draws(rng: &mut MersenneTwister, parts: &[(usize, f64, f64)]) -> Vec<Finite> {
    let mut out = Vec::new();
    for &(count, mean, std) in parts {
        let dist = Normal::new(mean, std);
        for _ in 0..count {
            out.push(Finite(dist.ind_sample(rng)));
        }
    }
    out
}

fn p_value(result: &PermutationTestResult) -> f64 {
    result.exceeding_count as f64 / (result.permutation_count as f64 + 1.0)
}

#[test]
fn edm_x_on_central_tendency() {
    let before_change_count = 100;
    let after_change_count = 400;
    let delta = 10;
    let tolerance = 50;
    let mut rng: MersenneTwister = SeedableRng::from_seed(0x1234);
    let input = draws(
        &mut rng,
        &[(before_change_count, 10.0, 5.0), (after_change_count, 30.0, 5.0)],
    );
    let best_candidate = EDMX::new(delta).find_candidate(&input).unwrap();
    let abs_loc_diff = (best_candidate.location as i64 - before_change_count as i64).abs();
    assert!(abs_loc_diff < tolerance);
}

#[test]
fn edm_x_permutation_test_detects_if_change_occurred() {
    let mut rng: MersenneTwister = SeedableRng::from_seed(0x1234);
    let inputs = draws(&mut rng, &[(500, 10.0, 5.0), (200, 20.0, 5.0)]);
    let algorithm = EDMX::new(30);
    let full_test = permutation_test(&algorithm, rng, 10, &inputs).unwrap();
    assert!(p_value(&full_test) <= 0.1);
}

#[test]
fn edm_x_permutation_test_detects_no_change_occurred() {
    let mut rng: MersenneTwister = SeedableRng::from_seed(0x1234);
    let inputs = draws(&mut rng, &[(700, 10.0, 5.0)]);
    let algorithm = EDMX::new(30);
    let full_test = permutation_test(&algorithm, rng, 10, &inputs).unwrap();
    assert!(p_value(&full_test) > 0.1);
}

#[test]
fn shift_is_located_near_its_index() {
    let mut rng: MersenneTwister = SeedableRng::from_seed(0x1234);
    let inputs = draws(&mut rng, &[(500, 10.0, 5.0), (200, 20.0, 5.0)]);
    let algorithm = EDMX::new(30);
    let full_test = permutation_test(&algorithm, rng, 10, &inputs).unwrap();
    assert!((full_test.changepoint_index as i64 - 500).abs() < 50);
    assert_eq!(full_test.permutation_count, 10);
}

#[test]
fn find_candidate_twice_gives_the_same_result() {
    let mut rng: MersenneTwister = SeedableRng::from_seed(0x1234);
    let inputs = draws(&mut rng, &[(60, 10.0, 5.0), (40, 30.0, 5.0)]);
    let algorithm = EDMX::new(10);
    let first = algorithm.find_candidate(&inputs).unwrap();
    let second = algorithm.find_candidate(&inputs).unwrap();
    assert_eq!(first, second);
}

#[test]
fn too_short_sequence_is_refused() {
    let values: Vec<u64> = vec![1, 2, 3, 4, 5];
    let result = EDMX::new(3).find_candidate(&values);
    assert_eq!(result, Err(Error::NotEnoughValues(5, 3)));
    let empty: Vec<u64> = Vec::new();
    assert_eq!(EDMX::new(1).find_candidate(&empty), Err(Error::NotEnoughValues(0, 1)));
}

#[test]
fn exactly_twice_delta_is_refused() {
    let values: Vec<u64> = vec![1, 2, 3, 4];
    assert_eq!(EDMX::new(2).find_candidate(&values), Err(Error::NotEnoughValues(4, 2)));
}

#[test]
fn edm_x_scores_integer_sequences() {
    let z: Vec<u64> = vec![20, 20, 20, 20, 2, 2, 2, 2];
    assert_eq!(
        EDMX::new(2).find_candidate(&z),
        Ok(BestCandidate { statistic: 324, location: 2 })
    );
    let z: Vec<u64> = vec![9, 9, 9, 1, 1, 1, 1];
    assert_eq!(
        EDMX::new(1).find_candidate(&z),
        Ok(BestCandidate { statistic: 64, location: 2 })
    );
    let z: Vec<u64> = vec![7, 18, 17, 4, 11, 19, 15];
    assert_eq!(
        EDMX::new(1).find_candidate(&z),
        Ok(BestCandidate { statistic: 36, location: 2 })
    );
}

#[test]
fn equal_scores_prefer_the_smaller_location() {
    let z: Vec<u64> = vec![5, 5, 5, 5, 5];
    assert_eq!(
        EDMX::new(2).find_candidate(&z),
        Ok(BestCandidate { statistic: 0, location: 2 })
    );
}

#[test]
fn no_permutations_give_a_zero_count() {
    let rng: MersenneTwister = SeedableRng::from_seed(7);
    let z: Vec<u64> = vec![9, 9, 9, 1, 1, 1, 1];
    let result = permutation_test(&EDMX::new(1), rng, 0, &z).unwrap();
    assert_eq!(
        result,
        PermutationTestResult { exceeding_count: 0, permutation_count: 0, changepoint_index: 2 }
    );
    assert_eq!(p_value(&result), 0.0);
}

#[test]
fn permutation_test_passes_on_a_failed_true_scan() {
    let rng: MersenneTwister = SeedableRng::from_seed(7);
    let z: Vec<u64> = vec![1, 2];
    assert_eq!(
        permutation_test(&EDMX::new(1), rng, 5, &z),
        Err(Error::NotEnoughValues(2, 1))
    );
}

#[test]
fn given_permutations_are_counted_when_strictly_above() {
    let algorithm = EDMX::new(1);
    let truth = BestCandidate { statistic: 64u64, location: 2 };
    let perms: Vec<Vec<u64>> = vec![
        vec![9, 9, 9, 1, 1, 1, 1],
        vec![9, 9, 9, 9, 9, 1, 1],
        vec![1, 1, 1, 1, 9, 9, 9],
        vec![9, 9, 9, 9, 1, 1, 1],
    ];
    let mut expected = 0;
    for p in &perms {
        if algorithm.find_candidate(p).unwrap().statistic > 64 {
            expected += 1;
        }
    }
    let result = evaluate_permutations(&algorithm, truth, &perms).unwrap();
    assert_eq!(result.exceeding_count, expected);
    assert_eq!(result.permutation_count, 4);
    assert_eq!(result.changepoint_index, 2);
    assert!(result.exceeding_count <= result.permutation_count);
}

#[test]
fn scenario_shift_found_with_full_permutation_count() {
    let mut rng: MersenneTwister = SeedableRng::from_seed(0x1234);
    let inputs = draws(&mut rng, &[(500, 10.0, 5.0), (200, 20.0, 5.0)]);
    let full_test = permutation_test(&EDMX::new(30), rng, 199, &inputs).unwrap();
    assert!((full_test.changepoint_index as i64 - 500).abs() < 50);
    assert!(p_value(&full_test) <= 0.1);
    assert!(p_value(&full_test) >= 0.0 && p_value(&full_test) < 1.0);
}

#[test]
fn scenario_no_shift_with_full_permutation_count() {
    let mut rng: MersenneTwister = SeedableRng::from_seed(0x1234);
    let inputs = draws(&mut rng, &[(700, 10.0, 5.0)]);
    let full_test = permutation_test(&EDMX::new(30), rng, 199, &inputs).unwrap();
    assert_eq!(full_test.permutation_count, 199);
    assert!(p_value(&full_test) > 0.1);
    assert!(full_test.exceeding_count <= full_test.permutation_count);
}
