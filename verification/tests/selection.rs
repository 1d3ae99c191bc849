//! Tests of the verified selection layer on concrete distance codes.

use matrix_profile::aggregate::RunningProfile;
use matrix_profile::codes::{INF_CODE, MAX_FINITE_CODE, NAN_CODE};
use matrix_profile::profile::{
    full_matrix_select, naive_select, stomp_select, MatrixProfileError, ProfileParams,
};
use matrix_profile::select::{argmin_skip_nan, argmin_skip_zero, row_min_outside_zone};
use matrix_profile::zone::{exclusion_zone, in_zone_exec, mark_zone};

fn bits(xs: &[f32]) -> Vec<u32> {
    xs.iter().map(|x| x.to_bits()).collect()
}

#[test]
fn test_argmin() {
    let x = bits(&[0.0, 1.0, 2.0, 3.0, 4.0]);
    let idx = argmin_skip_zero(&x);
    assert_eq!(idx, 1);
    let x = bits(&[f32::NAN, 0.0, 2.0, 3.0, 4.0]);
    let idx = argmin_skip_zero(&x);
    assert_eq!(idx, 2);
}

#[test]
fn argmin_skip_zero_skips_negatives_and_defaults_to_zero() {
    // Negative values carry the sign bit, so their codes are skipped too.
    let x = bits(&[-1.0, -2.0, 5.0, 4.0]);
    assert_eq!(argmin_skip_zero(&x), 3);
    // Nothing qualifies: the starting index 0 is returned.
    let x = bits(&[0.0, f32::NAN, -1.0]);
    assert_eq!(argmin_skip_zero(&x), 0);
    // The running best starts at the largest finite code, which therefore
    // never displaces it.
    let x = vec![MAX_FINITE_CODE, INF_CODE];
    assert_eq!(argmin_skip_zero(&x), 0);
}

#[test]
fn exclusion_zone_is_ceil_of_quarter_window() {
    assert_eq!(exclusion_zone(2), 1);
    assert_eq!(exclusion_zone(4), 1);
    assert_eq!(exclusion_zone(5), 2);
    assert_eq!(exclusion_zone(8), 2);
    assert_eq!(exclusion_zone(10), 3);
}

#[test]
fn zone_membership_is_inclusive_and_clamped() {
    assert!(in_zone_exec(3, 2, 1));
    assert!(in_zone_exec(3, 3, 1));
    assert!(in_zone_exec(3, 4, 1));
    assert!(!in_zone_exec(3, 1, 1));
    assert!(!in_zone_exec(3, 5, 1));
    // Near the left edge the zone simply runs out of indices.
    assert!(in_zone_exec(0, 1, 2));
    assert!(!in_zone_exec(0, 3, 2));
}

#[test]
fn mark_zone_writes_sentinel_only_in_zone() {
    let row: Vec<u32> = vec![10, 20, 30, 40, 50];
    let marked = mark_zone(&row, 1, 1, NAN_CODE);
    assert_eq!(marked, vec![NAN_CODE, NAN_CODE, NAN_CODE, 40, 50]);
}

#[test]
fn row_min_prefers_first_of_equal_minima() {
    let row: Vec<u32> = vec![9, 9, 7, 7, 9];
    let r = row_min_outside_zone(&row, 0, 0);
    assert_eq!(r, Some((7, 2)));
    // The reference entry itself is skipped even when it is smallest.
    let row: Vec<u32> = vec![1, 9, 8, 9, 9];
    let r = row_min_outside_zone(&row, 0, 1);
    assert_eq!(r, Some((8, 2)));
    // Whole row in the zone: no candidate.
    let row: Vec<u32> = vec![1, 2, 3];
    assert_eq!(row_min_outside_zone(&row, 1, 2), None);
}

#[test]
fn argmin_skip_nan_skips_codes_above_infinity() {
    let row: Vec<u32> = vec![NAN_CODE, 5, NAN_CODE, 3, 3];
    assert_eq!(argmin_skip_nan(&row), Some((3, 3)));
    // Infinity itself is still a value, not a sentinel.
    let row: Vec<u32> = vec![NAN_CODE, INF_CODE];
    assert_eq!(argmin_skip_nan(&row), Some((INF_CODE, 1)));
    let row: Vec<u32> = vec![NAN_CODE, NAN_CODE];
    assert_eq!(argmin_skip_nan(&row), None);
}

#[test]
fn running_profile_keeps_first_writer_on_ties() {
    let mut state = RunningProfile::new(3);
    assert_eq!(state.codes, vec![INF_CODE, INF_CODE, INF_CODE]);
    assert_eq!(state.idxs, vec![0, 0, 0]);
    state.update(&vec![5, 7, INF_CODE], 0);
    assert_eq!(state.codes, vec![5, 7, INF_CODE]);
    assert_eq!(state.idxs, vec![0, 0, 0]);
    // An equal distance does not displace the earlier writer; a strictly
    // smaller one does.
    state.update(&vec![5, 6, 9], 1);
    assert_eq!(state.codes, vec![5, 6, 9]);
    assert_eq!(state.idxs, vec![0, 1, 1]);
}

#[test]
fn params_validate_window_and_derive_counts() {
    let p = ProfileParams::new(10, 4).unwrap();
    assert_eq!(p.n, 7);
    assert_eq!(p.exclusion_zone, 1);
    assert!(!p.degenerate());

    assert_eq!(ProfileParams::new(10, 1), Err(MatrixProfileError::InvalidWindowSize));
    assert_eq!(ProfileParams::new(10, 0), Err(MatrixProfileError::InvalidWindowSize));
    assert_eq!(ProfileParams::new(3, 4), Err(MatrixProfileError::InvalidWindowSize));
    assert_eq!(ProfileParams::new(0, 2), Err(MatrixProfileError::InvalidWindowSize));
}

#[test]
fn selections_agree_on_a_symmetric_matrix() {
    // A 4x4 symmetric matrix of finite codes with zone radius 0: both
    // pipelines and the full-matrix variant must pick the same profile.
    let rows: Vec<Vec<u32>> = vec![
        vec![0, 40, 10, 30],
        vec![40, 0, 20, 10],
        vec![10, 20, 0, 40],
        vec![30, 10, 40, 0],
    ];
    let (nc, ni) = naive_select(&rows, 0).unwrap();
    let (sc, si) = stomp_select(&rows, 0).unwrap();
    let (fc, fi, matrix) = full_matrix_select(&rows, 0).unwrap();
    assert_eq!(nc, vec![10, 10, 10, 10]);
    assert_eq!(ni, vec![2, 3, 0, 1]);
    assert_eq!(sc, nc);
    assert_eq!(si, ni);
    assert_eq!(fc, nc);
    assert_eq!(fi, ni);
    // The diagonal is the sentinel, everything else is kept.
    assert_eq!(matrix[0], vec![NAN_CODE, 40, 10, 30]);
    assert_eq!(matrix[2], vec![10, 20, NAN_CODE, 40]);
}

#[test]
fn degenerate_zone_is_rejected_by_all_paths() {
    // n = 3 with zone radius 1 leaves index 1 without candidates.
    let rows: Vec<Vec<u32>> = vec![vec![1, 2, 3], vec![2, 1, 3], vec![3, 3, 1]];
    assert_eq!(naive_select(&rows, 1), Err(MatrixProfileError::DegenerateExclusion));
    assert_eq!(stomp_select(&rows, 1), Err(MatrixProfileError::DegenerateExclusion));
    assert_eq!(full_matrix_select(&rows, 1), Err(MatrixProfileError::DegenerateExclusion));
}
