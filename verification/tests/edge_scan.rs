use prometheus_edge_detector::edge::last_edge;
use prometheus_edge_detector::response::Sample;

fn series(points: &[(u64, &str)]) -> Vec<Sample> {
    points.iter().map(|(time, value)| Sample { time: *time, value: value.to_string() }).collect()
}

fn numbers(points: &[(u64, u64)]) -> Vec<Sample> {
    points.iter().map(|(time, value)| Sample { time: *time, value: value.to_string() }).collect()
}

#[test]
fn rising_edge_is_the_last_from_side_sample() {
    let (from, to) = (5u64, 10u64);
    let samples = numbers(&[(100, from - 1), (200, from), (300, to + 1)]);
    assert_eq!(last_edge(&samples, from, to), Ok(Some(200)));
}

#[test]
fn rising_edge_at_the_smallest_thresholds() {
    let (from, to) = (1u64, 2u64);
    let samples = numbers(&[(100, from - 1), (200, from), (300, to + 1)]);
    assert_eq!(last_edge(&samples, from, to), Ok(Some(200)));
}

#[test]
fn falling_edge_mirrors_the_rising_one() {
    let (from, to) = (10u64, 5u64);
    let samples = numbers(&[(100, from + 1), (200, from), (300, to - 1)]);
    assert_eq!(last_edge(&samples, from, to), Ok(Some(200)));
}

#[test]
fn falling_query_flips_the_sides_of_a_rising_series() {
    // Rising: 4 and 5 are from-side, 11 is to-side.
    let samples = numbers(&[(100, 4), (200, 5), (300, 11)]);
    assert_eq!(last_edge(&samples, 5, 10), Ok(Some(200)));
    // Falling from 5: 5 and 11 are from-side, 4 is to-side, and the series ends
    // on the from-side.
    assert_eq!(last_edge(&samples, 5, 0), Ok(None));
}

#[test]
fn drop_from_one_to_zero() {
    let samples = numbers(&[(10, 1), (20, 1), (30, 1), (40, 0), (50, 0)]);
    assert_eq!(last_edge(&samples, 1, 0), Ok(Some(30)));
}

#[test]
fn series_that_never_crosses_has_no_edge() {
    let samples = numbers(&[(100, 1), (200, 5), (300, 3), (400, 0)]);
    assert_eq!(last_edge(&samples, 5, 10), Ok(None));
    let samples = numbers(&[(100, 10), (200, 11), (300, 99)]);
    assert_eq!(last_edge(&samples, 10, 5), Ok(None));
}

#[test]
fn series_without_a_from_side_sample_has_no_edge() {
    let samples = numbers(&[(100, 6), (200, 7), (300, 11)]);
    assert_eq!(last_edge(&samples, 5, 10), Ok(None));
}

#[test]
fn empty_series_has_no_edge() {
    assert_eq!(last_edge(&[], 5, 10), Ok(None));
    assert_eq!(last_edge(&[], 10, 5), Ok(None));
}

#[test]
fn series_that_ends_on_the_from_side_has_no_edge() {
    let samples = numbers(&[(100, 4), (200, 11), (300, 5)]);
    assert_eq!(last_edge(&samples, 5, 10), Ok(None));
}

#[test]
fn edge_is_the_last_sample_before_the_final_crossing() {
    let samples = numbers(&[(100, 4), (200, 11), (300, 4), (400, 11), (500, 12)]);
    assert_eq!(last_edge(&samples, 5, 10), Ok(Some(300)));
}

#[test]
fn equal_values_make_a_falling_query() {
    let samples = numbers(&[(100, 5), (200, 4)]);
    assert_eq!(last_edge(&samples, 5, 5), Ok(Some(100)));
    let samples = numbers(&[(100, 5), (200, 6)]);
    assert_eq!(last_edge(&samples, 5, 5), Ok(None));
}

#[test]
fn to_value_does_not_bound_the_to_side() {
    // 6 lies between from and to, and counts as having crossed.
    let samples = numbers(&[(100, 5), (200, 6)]);
    assert_eq!(last_edge(&samples, 5, 10), Ok(Some(100)));
    let samples = numbers(&[(100, 10), (200, 9)]);
    assert_eq!(last_edge(&samples, 10, 5), Ok(Some(100)));
}

#[test]
fn from_side_sample_at_time_zero_counts_as_unseen() {
    let samples = numbers(&[(0, 4), (300, 11)]);
    assert_eq!(last_edge(&samples, 5, 10), Ok(None));
}

#[test]
fn to_side_sample_must_be_later_in_time() {
    let samples = numbers(&[(300, 4), (100, 11)]);
    assert_eq!(last_edge(&samples, 5, 10), Ok(None));
    let samples = numbers(&[(300, 4), (300, 11)]);
    assert_eq!(last_edge(&samples, 5, 10), Ok(None));
    let samples = numbers(&[(300, 4), (301, 11)]);
    assert_eq!(last_edge(&samples, 5, 10), Ok(Some(300)));
}

#[test]
fn samples_are_taken_in_the_order_in_which_they_stand() {
    // The series ends on the from-side, but an earlier to-side sample carries a
    // later time.
    let samples = numbers(&[(500, 11), (100, 4)]);
    assert_eq!(last_edge(&samples, 5, 10), Ok(Some(100)));
}

#[test]
fn extreme_thresholds() {
    let samples = numbers(&[(100, 0), (200, 1)]);
    assert_eq!(last_edge(&samples, 0, 1), Ok(Some(100)));
    let samples = numbers(&[(100, u64::MAX), (200, u64::MAX - 1)]);
    assert_eq!(last_edge(&samples, u64::MAX, 0), Ok(Some(100)));
    // Rising from the largest value: nothing lies above it.
    let samples = numbers(&[(100, 0), (200, u64::MAX)]);
    assert_eq!(last_edge(&samples, u64::MAX, u64::MAX), Ok(None));
}

#[test]
fn values_with_a_plus_sign_or_leading_zeros_are_numbers() {
    let samples = series(&[(100, "+4"), (200, "005"), (300, "0011")]);
    assert_eq!(last_edge(&samples, 5, 10), Ok(Some(200)));
}

#[test]
fn non_numeric_value_fails_the_scan_wherever_it_stands() {
    let first = series(&[(100, "abc"), (200, "5"), (300, "11")]);
    assert_eq!(last_edge(&first, 5, 10), Err("abc".to_string()));
    let middle = series(&[(100, "4"), (200, "abc"), (300, "11")]);
    assert_eq!(last_edge(&middle, 5, 10), Err("abc".to_string()));
    let last = series(&[(100, "4"), (200, "5"), (300, "abc")]);
    assert_eq!(last_edge(&last, 5, 10), Err("abc".to_string()));
    let alone = series(&[(100, "abc")]);
    assert_eq!(last_edge(&alone, 10, 5), Err("abc".to_string()));
}

#[test]
fn scan_reports_the_first_non_numeric_value() {
    let samples = series(&[(100, "4"), (200, "x"), (300, "y")]);
    assert_eq!(last_edge(&samples, 5, 10), Err("x".to_string()));
}

#[test]
fn fractions_negatives_and_blanks_are_not_numbers() {
    for bad in ["1.5", "-1", "", " 1", "1e3", "NaN", "+Inf", "18446744073709551616"] {
        let samples = series(&[(100, "4"), (200, bad), (300, "11")]);
        assert_eq!(last_edge(&samples, 5, 10), Err(bad.to_string()));
    }
}

#[test]
fn scanning_twice_gives_the_same_result() {
    let samples = numbers(&[(100, 4), (200, 5), (300, 11)]);
    assert_eq!(last_edge(&samples, 5, 10), last_edge(&samples, 5, 10));
    assert_eq!(last_edge(&samples, 10, 5), last_edge(&samples, 10, 5));
    let broken = series(&[(100, "4"), (200, "?")]);
    assert_eq!(last_edge(&broken, 5, 10), last_edge(&broken, 5, 10));
    assert_eq!(last_edge(&[], 5, 10), last_edge(&[], 5, 10));
}
