//! Parameter validation and the two selection pipelines.
//!
//! Both algorithms accept the same input domain: a window size of at least 2
//! that does not exceed the series length, and enough subsequences that every
//! reference index keeps at least one candidate outside its exclusion zone
//! (`n >= 2 * exclusion_zone + 2`). Anything else is rejected up front, so
//! the computation itself never fails and its result never contains an entry
//! chosen from inside an exclusion zone.

use vstd::prelude::*;

use crate::aggregate::{aggregate_rows, column_first_min, grid, RunningProfile};
use crate::codes::{INF_CODE, NAN_CODE};
use crate::select::{argmin_skip_nan, out_zone_first_min, row_min_outside_zone, skip_nan_first_min};
use crate::zone::{exclusion_zone, exclusion_zone_spec, in_zone, mark_zone, row_fully_zoned};

verus! {

/// Why a computation was refused before it started.
#[derive(Clone, Copy, Debug, PartialEq, Eq, Structural)]
pub enum MatrixProfileError {
    /// The window size is below 2 or exceeds the series length.
    InvalidWindowSize,
    /// Some reference index has no candidate neighbour outside its exclusion
    /// zone, so no meaningful profile entry exists for it (this happens
    /// exactly when `n < 2 * exclusion_zone + 2`).
    DegenerateExclusion,
}

/// The derived quantities both algorithms share, validated once.
#[derive(Clone, Copy, Debug, PartialEq, Eq, Structural)]
pub struct ProfileParams {
    /// Length of the time series.
    pub series_len: usize,
    /// Window size.
    pub window: usize,
    /// Number of subsequences: `series_len - window + 1`.
    pub n: usize,
    /// Radius of the exclusion zone: `ceil(window / 4)`.
    pub exclusion_zone: usize,
}

impl ProfileParams {
    /// The derived fields agree with the input fields.
    pub open spec fn wf(self) -> bool {
        &&& 2 <= self.window <= self.series_len
        &&& self.n == self.series_len - self.window + 1
        &&& self.exclusion_zone == exclusion_zone_spec(self.window as int)
    }

    /// Validates a window size against a series length and derives the
    /// subsequence count and exclusion-zone radius. Fails exactly when the
    /// window size is below 2 or exceeds the series length.
    pub fn new(series_len: usize, window: usize) -> (r: Result<ProfileParams, MatrixProfileError>)
        ensures
            match r {
                Ok(p) => {
                    &&& 2 <= window <= series_len
                    &&& p.wf()
                    &&& p.series_len == series_len
                    &&& p.window == window
                },
                Err(err) => {
                    &&& err == MatrixProfileError::InvalidWindowSize
                    &&& !(2 <= window <= series_len)
                },
            },
    {
        if window < 2 || window > series_len {
            return Err(MatrixProfileError::InvalidWindowSize);
        }
        let n = series_len - window + 1;
        let e = exclusion_zone(window);
        Ok(ProfileParams { series_len, window, n, exclusion_zone: e })
    }

    /// Whether some reference index would be left without any candidate
    /// outside its exclusion zone: true exactly when
    /// `n < 2 * exclusion_zone + 2`.
    pub fn degenerate(&self) -> (r: bool)
        ensures
            r == ((self.n as int) < 2 * (self.exclusion_zone as int) + 2),
    {
        (self.n as u128) < 2 * (self.exclusion_zone as u128) + 2
    }
}

/// Brute-force selection: entry `i` of the result is the smallest entry of
/// row `i` outside the exclusion zone of `i`, with the first target index
/// attaining it. Fails exactly when some row has its whole index range
/// inside the zone.
pub fn naive_select(rows: &Vec<Vec<u32>>, e: usize) -> (r: Result<
    (Vec<u32>, Vec<usize>),
    MatrixProfileError,
>)
    requires
        forall|i: int| 0 <= i < rows@.len() ==> rows@[i]@.len() == rows@.len(),
    ensures
        match r {
            Ok(out) => {
                &&& out.0@.len() == rows@.len()
                &&& out.1@.len() == rows@.len()
                &&& forall|i: int|
                    0 <= i < rows@.len() ==> out_zone_first_min(
                        grid(rows@)[i],
                        e as int,
                        i,
                        out.0@[i],
                        out.1@[i] as int,
                    )
            },
            Err(err) => {
                &&& err == MatrixProfileError::DegenerateExclusion
                &&& exists|i: int|
                    0 <= i < rows@.len() && #[trigger] row_fully_zoned(
                        rows@.len() as int,
                        i,
                        e as int,
                    )
            },
        },
{
    let n = rows.len();
    let mut codes: Vec<u32> = Vec::new();
    let mut idxs: Vec<usize> = Vec::new();
    let mut i: usize = 0;
    while i < n
        invariant
            i <= n,
            n == rows@.len(),
            forall|k: int| 0 <= k < n ==> rows@[k]@.len() == n,
            codes@.len() == i,
            idxs@.len() == i,
            forall|k: int|
                0 <= k < i ==> out_zone_first_min(
                    grid(rows@)[k],
                    e as int,
                    k,
                    codes@[k],
                    idxs@[k] as int,
                ),
        decreases n - i,
    {
        match row_min_outside_zone(&rows[i], i, e) {
            Some(p) => {
                codes.push(p.0);
                idxs.push(p.1);
                proof {
                    assert(grid(rows@)[i as int] == rows@[i as int]@);
                }
            },
            None => {
                proof {
                    assert(rows@[i as int]@.len() == n);
                    assert(row_fully_zoned(n as int, i as int, e as int));
                }
                return Err(MatrixProfileError::DegenerateExclusion);
            },
        }
        i = i + 1;
    }
    Ok((codes, idxs))
}

/// Incremental-path selection over a fully materialized matrix: each row is
/// masked with the exclusion zone of its reference index and folded into a
/// running element-wise minimum, so entry `j` of the result is the first
/// minimum of masked column `j`. Fails exactly when the matrix is non-empty
/// and too small for the zone (`n < 2 * e + 2`), the same domain on which
/// the brute-force path fails.
pub fn stomp_select(rows: &Vec<Vec<u32>>, e: usize) -> (r: Result<
    (Vec<u32>, Vec<usize>),
    MatrixProfileError,
>)
    requires
        forall|i: int| 0 <= i < rows@.len() ==> rows@[i]@.len() == rows@.len(),
    ensures
        match r {
            Ok(out) => {
                &&& rows@.len() == 0 || rows@.len() >= 2 * (e as int) + 2
                &&& out.0@.len() == rows@.len()
                &&& out.1@.len() == rows@.len()
                &&& forall|j: int|
                    0 <= j < rows@.len() ==> column_first_min(
                        grid(rows@),
                        e as int,
                        j,
                        out.0@[j],
                        out.1@[j] as int,
                    )
            },
            Err(err) => {
                &&& err == MatrixProfileError::DegenerateExclusion
                &&& 0 < rows@.len() < 2 * (e as int) + 2
            },
        },
{
    let n = rows.len();
    if n > 0 && (n as u128) < 2 * (e as u128) + 2 {
        return Err(MatrixProfileError::DegenerateExclusion);
    }
    let state: RunningProfile = aggregate_rows(rows, e);
    Ok((state.codes, state.idxs))
}

/// Whether row `i` of `m` offers the sentinel-skipping scan nothing: every
/// entry is either inside the exclusion zone of `i` or already above
/// `INF_CODE`. With honest distance rows (no codes above `INF_CODE`) this is
/// the fully zoned row of the degenerate case.
pub open spec fn row_all_sentinel(m: Seq<Seq<u32>>, e: int, i: int) -> bool {
    forall|j: int| 0 <= j < m.len() ==> in_zone(i, j, e) || m[i][j] > INF_CODE
}

/// Full-matrix selection: materializes the matrix with the excluded-entry
/// sentinel written over every exclusion zone, then scans each row for its
/// first minimum among the non-sentinel entries. Fails exactly when some
/// row keeps no entry at or below `INF_CODE` — with real distance rows that
/// is again the degenerate-zone case. The sentinel never leaks into the
/// profile: a chosen entry is by construction not a sentinel.
pub fn full_matrix_select(rows: &Vec<Vec<u32>>, e: usize) -> (r: Result<
    (Vec<u32>, Vec<usize>, Vec<Vec<u32>>),
    MatrixProfileError,
>)
    requires
        forall|i: int| 0 <= i < rows@.len() ==> rows@[i]@.len() == rows@.len(),
    ensures
        match r {
            Ok(out) => {
                &&& out.0@.len() == rows@.len()
                &&& out.1@.len() == rows@.len()
                &&& out.2@.len() == rows@.len()
                &&& forall|i: int| 0 <= i < rows@.len() ==> out.2@[i]@.len() == rows@.len()
                &&& forall|i: int, j: int|
                    0 <= i < rows@.len() && 0 <= j < rows@.len() ==> out.2@[i]@[j] == (
                    if in_zone(i, j, e as int) {
                        NAN_CODE
                    } else {
                        grid(rows@)[i][j]
                    })
                &&& forall|i: int|
                    0 <= i < rows@.len() ==> skip_nan_first_min(
                        out.2@[i]@,
                        out.0@[i],
                        out.1@[i] as int,
                    )
            },
            Err(err) => {
                &&& err == MatrixProfileError::DegenerateExclusion
                &&& exists|i: int|
                    0 <= i < rows@.len() && #[trigger] row_all_sentinel(grid(rows@), e as int, i)
            },
        },
{
    let n = rows.len();
    let mut matrix: Vec<Vec<u32>> = Vec::new();
    let mut i: usize = 0;
    while i < n
        invariant
            i <= n,
            n == rows@.len(),
            forall|k: int| 0 <= k < n ==> rows@[k]@.len() == n,
            matrix@.len() == i,
            forall|k: int| 0 <= k < i ==> matrix@[k]@.len() == n,
            forall|k: int, j: int|
                0 <= k < i && 0 <= j < n ==> matrix@[k]@[j] == (if in_zone(k, j, e as int) {
                    NAN_CODE
                } else {
                    grid(rows@)[k][j]
                }),
        decreases n - i,
    {
        let marked = mark_zone(&rows[i], i, e, NAN_CODE);
        matrix.push(marked);
        proof {
            assert(grid(rows@)[i as int] == rows@[i as int]@);
        }
        i = i + 1;
    }
    let mut codes: Vec<u32> = Vec::new();
    let mut idxs: Vec<usize> = Vec::new();
    let mut i: usize = 0;
    while i < n
        invariant
            i <= n,
            n == rows@.len(),
            matrix@.len() == n,
            codes@.len() == i,
            idxs@.len() == i,
            forall|k: int| 0 <= k < n ==> matrix@[k]@.len() == n,
            forall|k: int, j: int|
                0 <= k < n && 0 <= j < n ==> matrix@[k]@[j] == (if in_zone(k, j, e as int) {
                    NAN_CODE
                } else {
                    grid(rows@)[k][j]
                }),
            forall|k: int|
                0 <= k < i ==> skip_nan_first_min(matrix@[k]@, codes@[k], idxs@[k] as int),
        decreases n - i,
    {
        match argmin_skip_nan(&matrix[i]) {
            Some(p) => {
                codes.push(p.0);
                idxs.push(p.1);
            },
            None => {
                proof {
                    assert forall|j: int|
                        0 <= j < n implies in_zone(i as int, j, e as int) || grid(rows@)[i as int][j]
                        > INF_CODE by {
                        assert(matrix@[i as int]@[j] > INF_CODE);
                    }
                    assert(row_all_sentinel(grid(rows@), e as int, i as int));
                }
                return Err(MatrixProfileError::DegenerateExclusion);
            },
        }
        i = i + 1;
    }
    Ok((codes, idxs, matrix))
}

} // verus!
