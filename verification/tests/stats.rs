use cmdbench::stats::{mean, std_deviation, OutOfRange};

const SECOND: u64 = 1_000_000_000;

fn seconds(values: &[f64]) -> Vec<u64> {
    values.iter().map(|value| (value * SECOND as f64) as u64).collect()
}

#[test]
fn test_std_deviation() {
    let data = vec![1.0, 2.0, 3.0, 4.0, 5.0];
    let result = std_deviation(&seconds(&data)).unwrap();
    assert!(result.is_some());
    let in_seconds = (result.unwrap() as f64 / SECOND as f64) as f32;
    assert_eq!(in_seconds, std::f32::consts::SQRT_2);
}

#[test]
fn deviation_of_one_to_five_is_the_root_of_two() {
    assert_eq!(std_deviation(&vec![1, 2, 3, 4, 5]), Ok(Some(1)));
    let samples: Vec<u64> = (1..=5).map(|value| value * SECOND).collect();
    assert_eq!(std_deviation(&samples), Ok(Some(1_414_213_562)));
}

#[test]
fn mean_of_one_to_five_is_three() {
    assert_eq!(mean(&vec![1, 2, 3, 4, 5]), Some(3));
    let samples: Vec<u64> = (1..=5).map(|value| value * SECOND).collect();
    assert_eq!(mean(&samples), Some(3 * SECOND));
}

#[test]
fn mean_is_the_average() {
    assert_eq!(mean(&vec![10, 20]), Some(15));
    assert_eq!(mean(&vec![2, 4, 4, 4, 5, 5, 7, 9]), Some(5));
    assert_eq!(mean(&vec![0, 0, 0]), Some(0));
    assert_eq!(mean(&vec![7, 7, 7, 7]), Some(7));
}

#[test]
fn mean_is_rounded_down() {
    assert_eq!(mean(&vec![1, 2]), Some(1));
    assert_eq!(mean(&vec![0, 0, 2]), Some(0));
    assert_eq!(mean(&vec![3, 3, 4]), Some(3));
    assert_eq!(mean(&vec![1, 1, 1, 2]), Some(1));
}

#[test]
fn mean_of_one_sample_is_that_sample() {
    for sample in [0, 1, 999, SECOND, u64::MAX] {
        assert_eq!(mean(&vec![sample]), Some(sample));
    }
}

#[test]
fn mean_of_nothing_is_none() {
    assert_eq!(mean(&Vec::new()), None);
}

#[test]
fn mean_of_the_largest_samples_fits() {
    assert_eq!(mean(&vec![u64::MAX; 3]), Some(u64::MAX));
    assert_eq!(mean(&vec![u64::MAX, u64::MAX - 1]), Some(u64::MAX - 1));
    assert_eq!(mean(&vec![u64::MAX, 0]), Some(u64::MAX / 2));
}

#[test]
fn deviation_of_nothing_is_not_applicable() {
    assert_eq!(std_deviation(&Vec::new()), Ok(None));
}

#[test]
fn deviation_of_one_sample_is_zero() {
    for sample in [0, 1, 999, SECOND, 4_000_000_000, u64::MAX] {
        assert_eq!(std_deviation(&vec![sample]), Ok(Some(0)));
    }
}

#[test]
fn deviation_of_equal_samples_is_zero() {
    assert_eq!(std_deviation(&vec![5, 5, 5, 5]), Ok(Some(0)));
    assert_eq!(std_deviation(&vec![0; 5]), Ok(Some(0)));
    assert_eq!(std_deviation(&vec![SECOND; 100]), Ok(Some(0)));
}

#[test]
fn deviation_divides_by_the_count() {
    assert_eq!(std_deviation(&vec![2, 4, 4, 4, 5, 5, 7, 9]), Ok(Some(2)));
    assert_eq!(std_deviation(&vec![0, 10]), Ok(Some(5)));
    assert_eq!(std_deviation(&vec![0, 6]), Ok(Some(3)));
    assert_eq!(std_deviation(&vec![10, 20, 30]), Ok(Some(8)));
    assert_eq!(std_deviation(&vec![1_000, 2_000, 3_000]), Ok(Some(816)));
}

#[test]
fn deviation_is_rounded_down() {
    assert_eq!(std_deviation(&vec![0, 1]), Ok(Some(0)));
    assert_eq!(std_deviation(&vec![0, 3]), Ok(Some(1)));
    assert_eq!(std_deviation(&vec![0, 0, 3]), Ok(Some(1)));
    assert_eq!(std_deviation(&vec![0, 100, 200, 300]), Ok(Some(111)));
}

#[test]
fn deviation_does_not_depend_on_the_order() {
    let sorted = vec![1 * SECOND, 2 * SECOND, 3 * SECOND, 5 * SECOND, 8 * SECOND];
    let mixed = vec![5 * SECOND, 1 * SECOND, 8 * SECOND, 3 * SECOND, 2 * SECOND];
    assert_eq!(std_deviation(&sorted), std_deviation(&mixed));
    assert_eq!(mean(&sorted), mean(&mixed));
    assert_eq!(std_deviation(&sorted), Ok(Some(2_481_934_729)));
}

#[test]
fn deviation_does_not_depend_on_a_common_offset() {
    let near = vec![1, 2, 3, 4, 5];
    let far: Vec<u64> = near.iter().map(|value| value + 3_600 * SECOND).collect();
    assert_eq!(std_deviation(&near), Ok(Some(1)));
    assert_eq!(std_deviation(&far), Ok(Some(1)));
}

#[test]
fn aggregating_twice_gives_the_same_numbers() {
    let samples = vec![1_203_004, 1_198_771, 1_250_000, 1_199_999, 1_201_002];
    assert_eq!(mean(&samples), mean(&samples));
    assert_eq!(std_deviation(&samples), std_deviation(&samples));
    assert_eq!(mean(&samples), Some(1_210_555));
    assert_eq!(std_deviation(&samples), Ok(Some(19_771)));
}

#[test]
fn days_of_samples_are_in_range() {
    let day = 86_400 * SECOND;
    let samples: Vec<u64> = (0..1_000).map(|index| day + index).collect();
    assert_eq!(mean(&samples), Some(day + 499));
    assert_eq!(std_deviation(&samples), Ok(Some(288)));
}

#[test]
fn samples_beyond_128_bits_are_out_of_range() {
    assert_eq!(std_deviation(&vec![u64::MAX, u64::MAX]), Err(OutOfRange));
    assert_eq!(std_deviation(&vec![u64::MAX, 0]), Err(OutOfRange));
    assert_eq!(std_deviation(&vec![1 << 63, 1 << 63, 0]), Err(OutOfRange));
}

#[test]
fn the_range_ends_where_128_bits_end() {
    assert_eq!(std_deviation(&vec![u64::MAX]), Ok(Some(0)));
    assert_eq!(std_deviation(&vec![1 << 63, 0]), Ok(Some(1 << 62)));
    assert_eq!(std_deviation(&vec![1 << 63, 1 << 63]), Err(OutOfRange));
    assert_eq!(std_deviation(&vec![(1 << 63) - 1, (1 << 63) - 1]), Ok(Some(0)));
}
