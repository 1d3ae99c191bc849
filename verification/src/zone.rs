//! The exclusion zone.
//!
//! Subsequences that start near a reference index overlap it almost entirely,
//! so they would be chosen as trivially similar neighbours. A zone of radius
//! `ceil(window / 4)` around each reference index is therefore excluded from
//! the neighbour search, clamped to the valid index range at the ends of the
//! series.

use vstd::prelude::*;

use crate::codes::INF_CODE;

verus! {

/// Radius of the exclusion zone for a window of size `m`: `ceil(m / 4)`.
pub open spec fn exclusion_zone_spec(m: int) -> int {
    (m + 3) / 4
}

/// Whether target index `j` lies inside the exclusion zone of radius `e`
/// around reference index `i`, that is `|i - j| <= e`. The boundary is
/// inclusive on both sides; clamping at the ends of the series is implicit,
/// since indices outside `[0, n)` are never offered as targets.
pub open spec fn in_zone(i: int, j: int, e: int) -> bool {
    i - e <= j && j <= i + e
}

/// Whether the whole target range `[0, n)` lies inside the exclusion zone of
/// reference index `i` — the degenerate case in which `i` has no candidate
/// neighbour at all.
pub open spec fn row_fully_zoned(n: int, i: int, e: int) -> bool {
    forall|j: int| 0 <= j < n ==> in_zone(i, j, e)
}

/// Entry `(i, j)` of the matrix `m` with the exclusion zone masked out:
/// in-zone entries read as `INF_CODE`, the rest read unchanged.
pub open spec fn masked_at(m: Seq<Seq<u32>>, e: int, i: int, j: int) -> u32 {
    if in_zone(i, j, e) {
        INF_CODE
    } else {
        m[i][j]
    }
}

/// Computes the exclusion-zone radius `ceil(m / 4)`.
pub fn exclusion_zone(m: usize) -> (e: usize)
    ensures
        e == exclusion_zone_spec(m as int),
        e <= m / 4 + 1,
{
    let q: usize = m / 4;
    if m % 4 == 0 {
        q
    } else {
        q + 1
    }
}

/// Decides `in_zone(i, j, e)` without ever overflowing.
pub fn in_zone_exec(i: usize, j: usize, e: usize) -> (r: bool)
    ensures
        r == in_zone(i as int, j as int, e as int),
{
    if j >= i {
        j - i <= e
    } else {
        i - j <= e
    }
}

/// Copy of `row` with every entry in the exclusion zone of reference index
/// `i` overwritten by `sentinel`; entries outside the zone are kept.
pub fn mark_zone(row: &Vec<u32>, i: usize, e: usize, sentinel: u32) -> (out: Vec<u32>)
    ensures
        out@.len() == row@.len(),
        forall|j: int|
            0 <= j < row@.len() ==> out@[j] == (if in_zone(i as int, j, e as int) {
                sentinel
            } else {
                row@[j]
            }),
{
    let n = row.len();
    let mut out: Vec<u32> = Vec::new();
    let mut j: usize = 0;
    while j < n
        invariant
            j <= n,
            n == row@.len(),
            out@.len() == j,
            forall|k: int|
                0 <= k < j ==> out@[k] == (if in_zone(i as int, k, e as int) {
                    sentinel
                } else {
                    row@[k]
                }),
        decreases n - j,
    {
        if in_zone_exec(i, j, e) {
            out.push(sentinel);
        } else {
            out.push(row[j]);
        }
        j = j + 1;
    }
    out
}

} // verus!
