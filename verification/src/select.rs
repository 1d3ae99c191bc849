//! Row-wise neighbour selection.
//!
//! The brute-force algorithm picks, for each reference index, the smallest
//! distance among the targets outside the exclusion zone; the full-matrix
//! variant first writes the sentinel over in-zone entries and then scans each
//! row skipping the sentinel. Ties always go to the earliest target index.

use vstd::prelude::*;

use crate::codes::{INF_CODE, MAX_FINITE_CODE};
use crate::zone::in_zone;
use crate::zone::in_zone_exec;

verus! {

/// `c` is the value at index `jx` of `row`, `jx` lies outside the exclusion
/// zone of `i`, no out-of-zone entry is smaller than `c`, and every
/// out-of-zone entry before `jx` is strictly larger — so `jx` is the first
/// out-of-zone index attaining the out-of-zone minimum.
pub open spec fn out_zone_first_min(row: Seq<u32>, e: int, i: int, c: u32, jx: int) -> bool {
    &&& 0 <= jx < row.len()
    &&& !in_zone(i, jx, e)
    &&& row[jx] == c
    &&& forall|j: int| 0 <= j < row.len() && !in_zone(i, j, e) ==> row[j] >= c
    &&& forall|j: int| 0 <= j < jx && !in_zone(i, j, e) ==> row[j] > c
}

/// `jx` is the first index attaining the minimum of `row` over the entries
/// that are not above `INF_CODE` (codes above it are the excluded-entry
/// sentinel), and `c` is that minimum.
pub open spec fn skip_nan_first_min(row: Seq<u32>, c: u32, jx: int) -> bool {
    &&& 0 <= jx < row.len()
    &&& row[jx] <= INF_CODE
    &&& row[jx] == c
    &&& forall|j: int| 0 <= j < row.len() && row[j] <= INF_CODE ==> row[j] >= c
    &&& forall|j: int| 0 <= j < jx && row[j] <= INF_CODE ==> row[j] > c
}

/// A code that the zero-skipping scan accepts as a candidate: non-zero and
/// numerically meaningful (not above `INF_CODE`, which also rules out every
/// code with the sign bit set).
pub open spec fn zero_skip_candidate(c: u32) -> bool {
    0 < c <= INF_CODE
}

/// Smallest out-of-zone entry of `row` and the first index attaining it.
/// Returns `None` exactly when every index of `row` lies in the zone.
pub fn row_min_outside_zone(row: &Vec<u32>, i: usize, e: usize) -> (r: Option<(u32, usize)>)
    ensures
        match r {
            Some(p) => out_zone_first_min(row@, e as int, i as int, p.0, p.1 as int),
            None => forall|j: int| 0 <= j < row@.len() ==> in_zone(i as int, j, e as int),
        },
{
    let n = row.len();
    let mut best: Option<(u32, usize)> = None;
    let mut j: usize = 0;
    while j < n
        invariant
            j <= n,
            n == row@.len(),
            match best {
                Some(p) => {
                    &&& (p.1 as int) < j
                    &&& !in_zone(i as int, p.1 as int, e as int)
                    &&& row@[p.1 as int] == p.0
                    &&& forall|k: int| 0 <= k < j && !in_zone(i as int, k, e as int) ==> row@[k] >= p.0
                    &&& forall|k: int|
                        0 <= k < p.1 && !in_zone(i as int, k, e as int) ==> row@[k] > p.0
                },
                None => forall|k: int| 0 <= k < j ==> in_zone(i as int, k, e as int),
            },
        decreases n - j,
    {
        if !in_zone_exec(i, j, e) {
            let c = row[j];
            match best {
                None => {
                    best = Some((c, j));
                },
                Some(p) => {
                    if c < p.0 {
                        best = Some((c, j));
                    }
                },
            }
        }
        j = j + 1;
    }
    best
}

/// Smallest entry of `row` among those not above `INF_CODE`, with the first
/// index attaining it. Returns `None` exactly when every entry is above
/// `INF_CODE`, that is when the whole row is the excluded-entry sentinel.
pub fn argmin_skip_nan(row: &Vec<u32>) -> (r: Option<(u32, usize)>)
    ensures
        match r {
            Some(p) => skip_nan_first_min(row@, p.0, p.1 as int),
            None => forall|j: int| 0 <= j < row@.len() ==> row@[j] > INF_CODE,
        },
{
    let n = row.len();
    let mut best: Option<(u32, usize)> = None;
    let mut j: usize = 0;
    while j < n
        invariant
            j <= n,
            n == row@.len(),
            match best {
                Some(p) => {
                    &&& (p.1 as int) < j
                    &&& row@[p.1 as int] <= INF_CODE
                    &&& row@[p.1 as int] == p.0
                    &&& forall|k: int| 0 <= k < j && row@[k] <= INF_CODE ==> row@[k] >= p.0
                    &&& forall|k: int| 0 <= k < p.1 && row@[k] <= INF_CODE ==> row@[k] > p.0
                },
                None => forall|k: int| 0 <= k < j ==> row@[k] > INF_CODE,
            },
        decreases n - j,
    {
        let c = row[j];
        if c <= INF_CODE {
            match best {
                None => {
                    best = Some((c, j));
                },
                Some(p) => {
                    if c < p.0 {
                        best = Some((c, j));
                    }
                },
            }
        }
        j = j + 1;
    }
    best
}

/// Index of the smallest candidate entry of `row`, where a candidate is a
/// non-zero code not above `INF_CODE` (zeroes, sentinel codes and codes with
/// the sign bit set are skipped). The running best starts at
/// `MAX_FINITE_CODE` with index 0 and only a strictly smaller candidate
/// displaces it, so the result is 0 when no candidate lies strictly below
/// `MAX_FINITE_CODE`, and otherwise the first index attaining the candidate
/// minimum.
pub fn argmin_skip_zero(row: &Vec<u32>) -> (jx: usize)
    ensures
        (forall|j: int|
            0 <= j < row@.len() && zero_skip_candidate(row@[j]) ==> row@[j] >= MAX_FINITE_CODE)
            ==> jx == 0,
        (exists|j: int|
            0 <= j < row@.len() && zero_skip_candidate(row@[j]) && row@[j] < MAX_FINITE_CODE) ==> {
            &&& (jx as int) < row@.len()
            &&& zero_skip_candidate(row@[jx as int])
            &&& forall|j: int|
                0 <= j < row@.len() && zero_skip_candidate(row@[j]) ==> row@[j] >= row@[jx as int]
            &&& forall|j: int|
                0 <= j < jx && zero_skip_candidate(row@[j]) ==> row@[j] > row@[jx as int]
        },
{
    let n = row.len();
    let mut best_idx: usize = 0;
    let mut best: u32 = MAX_FINITE_CODE;
    let mut j: usize = 0;
    while j < n
        invariant
            j <= n,
            n == row@.len(),
            best <= MAX_FINITE_CODE,
            forall|k: int| 0 <= k < j && zero_skip_candidate(row@[k]) ==> row@[k] >= best,
            if best == MAX_FINITE_CODE {
                best_idx == 0
            } else {
                &&& (best_idx as int) < j
                &&& zero_skip_candidate(row@[best_idx as int])
                &&& row@[best_idx as int] == best
                &&& forall|k: int|
                    0 <= k < best_idx && zero_skip_candidate(row@[k]) ==> row@[k] > best
            },
        decreases n - j,
    {
        let c = row[j];
        if c != 0 && c <= INF_CODE && best > c {
            best = c;
            best_idx = j;
        }
        j = j + 1;
    }
    best_idx
}

} // verus!
