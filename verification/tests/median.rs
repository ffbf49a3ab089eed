use signal_filters::median_filter;
use signal_filters::FilterError;

#[test]
fn median_golden_fixture() {
    let data = vec![5, 3, 8, 9, 2, 7, 4, 6, 1, 0, 3, 5, 2];
    let out = median_filter(&data, 3).unwrap();
    assert_eq!(out, vec![5, 5, 8, 8, 7, 4, 6, 4, 1, 1, 3, 3, 2]);
}

#[test]
fn median_zero_window_fails() {
    assert_eq!(
        median_filter(&[1, 2, 3], 0),
        Err(FilterError::InvalidWindowLength)
    );
    assert_eq!(median_filter(&[], 0), Err(FilterError::InvalidWindowLength));
}

#[test]
fn median_empty_input() {
    for k in [1, 2, 3, 7, 100] {
        assert_eq!(median_filter(&[], k), Ok(vec![]));
    }
}

#[test]
fn median_output_length_matches_input() {
    let data = vec![4, -1, 9, 0, 2, 2, 8, -5];
    for k in [1, 2, 3, 4, 5, 8, 16] {
        let out = median_filter(&data, k).unwrap();
        if k / 2 <= data.len() {
            assert_eq!(out.len(), data.len());
        }
    }
}

#[test]
fn median_constant_input_unchanged() {
    let data = vec![7; 6];
    for k in [1, 2, 3, 4, 5] {
        assert_eq!(median_filter(&data, k).unwrap(), data);
    }
    let negative = vec![-3; 5];
    for k in [1, 3, 5] {
        assert_eq!(median_filter(&negative, k).unwrap(), negative);
    }
}

#[test]
fn median_even_window_takes_upper_middle() {
    // At the step that sees the window [1, 2, 3, 4] the two central values
    // are 2 and 3; the upper one, 3, must come out (rank 2 of the sorted
    // window).
    let out = median_filter(&[1, 2, 3, 4], 4).unwrap();
    assert_eq!(out[1], 3);
    assert_eq!(out, vec![2, 3, 4, 4]);
}

#[test]
fn median_two_wide_window_takes_newer_of_two() {
    // A window of two has its median at rank 1: the larger value.
    let out = median_filter(&[1, 5, 1, 5], 2).unwrap();
    assert_eq!(out, vec![5, 5, 5, 5]);
}

#[test]
fn median_window_larger_than_input() {
    // One sample, window of four: no main-sweep emission, two boundary
    // emissions, so the output is longer than the input.
    let out = median_filter(&[7], 4).unwrap();
    assert_eq!(out, vec![7, 7]);
}

#[test]
fn median_smooths_impulse() {
    let out = median_filter(&[0, 0, 100, 0, 0], 3).unwrap();
    assert_eq!(out, vec![0, 0, 0, 0, 0]);
}
