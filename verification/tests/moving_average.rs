use signal_filters::moving_average_filter;
use signal_filters::FilterError;

#[test]
fn mavg_golden_fixture() {
    let data = vec![5, 3, 8, 9, 2, 7, 4, 6, 1, 0, 3, 5, 2];
    let out = moving_average_filter(&data, 3).unwrap();
    assert_eq!(out, vec![7, 10, 11, 11, 11, 9, 10, 8, 7, 6, 7, 8, 9]);
}

#[test]
fn mavg_zero_window_fails() {
    assert_eq!(
        moving_average_filter(&[1, 2, 3], 0),
        Err(FilterError::InvalidWindowLength)
    );
    assert_eq!(
        moving_average_filter(&[], 0),
        Err(FilterError::InvalidWindowLength)
    );
}

#[test]
fn mavg_empty_input() {
    for k in [1, 2, 3, 7, 100] {
        assert_eq!(moving_average_filter(&[], k), Ok(vec![]));
    }
}

#[test]
fn mavg_output_length_matches_input() {
    let data = vec![4, -1, 9, 0, 2, 2, 8, -5];
    for k in [1, 2, 3, 4, 5, 8, 16] {
        let out = moving_average_filter(&data, k).unwrap();
        if k / 2 <= data.len() {
            assert_eq!(out.len(), data.len());
        }
    }
}

#[test]
fn mavg_zero_input_stays_zero() {
    let data = vec![0; 9];
    for k in [1, 2, 3, 5, 9] {
        assert_eq!(moving_average_filter(&data, k).unwrap(), data);
    }
}

#[test]
fn mavg_monotone_input_stays_monotone() {
    let out = moving_average_filter(&[1, 2, 3, 4, 5], 3).unwrap();
    assert_eq!(out, vec![2, 3, 4, 5, 6]);
    for w in out.windows(2) {
        assert!(w[0] <= w[1]);
    }
}

#[test]
fn mavg_negative_values_divide_toward_zero() {
    // -23 / 3 truncates to -7, where flooring would give -8.
    let out = moving_average_filter(&[-5, -3, -8], 3).unwrap();
    assert_eq!(out, vec![-7, -10, -13]);
}

#[test]
fn mavg_even_window() {
    let out = moving_average_filter(&[1, 5, 1, 5], 2).unwrap();
    assert_eq!(out, vec![4, 4, 4, 6]);
}

#[test]
fn mavg_wide_accumulator_narrows_like_a_cast() {
    // The pre-filled accumulator still holds the initial replicas when the
    // first values are emitted, so a constant input at i32::MAX doubles and
    // the narrowing cast wraps it to -2.
    let out = moving_average_filter(&[i32::MAX, i32::MAX, i32::MAX], 1).unwrap();
    assert_eq!(out, vec![-2, -2, -2]);
}

#[test]
fn mavg_window_larger_than_input() {
    // One sample, window of four: no main-sweep emission, two boundary
    // emissions, so the output is longer than the input.
    let out = moving_average_filter(&[7], 4).unwrap();
    assert_eq!(out, vec![10, 12]);
}
