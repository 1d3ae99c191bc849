//! Laws relating the verified selection paths.
//!
//! The two algorithms and the two brute-force variants are tied together
//! here: on one and the same distance matrix the row scan of the brute-force
//! path, the sentinel-marking full-matrix path and the column aggregation of
//! the incremental path all choose the same profile. Each law is stated over
//! the same spec functions the executable contracts use, so it applies
//! directly to the results of `naive_select`, `full_matrix_select` and
//! `stomp_select`.

use vstd::prelude::*;

use crate::aggregate::column_first_min;
use crate::codes::{INF_CODE, NAN_CODE};
use crate::profile::row_all_sentinel;
use crate::select::{out_zone_first_min, skip_nan_first_min};
use crate::zone::{in_zone, masked_at, row_fully_zoned};

verus! {

/// Some reference index is left without any candidate outside its exclusion
/// zone exactly when the subsequence count is positive but below
/// `2 * e + 2`. This pins down the common rejection domain of the selection
/// paths.
pub proof fn lemma_degenerate_iff(n: int, e: int)
    requires
        n >= 0,
        e >= 0,
    ensures
        (exists|i: int| 0 <= i < n && #[trigger] row_fully_zoned(n, i, e)) <==> 0 < n < 2 * e + 2,
{
    if 0 < n < 2 * e + 2 {
        let i: int = if e < n - 1 {
            e
        } else {
            n - 1
        };
        assert(row_fully_zoned(n, i, e));
    }
    if exists|i: int| 0 <= i < n && #[trigger] row_fully_zoned(n, i, e) {
        let i = choose|i: int| 0 <= i < n && #[trigger] row_fully_zoned(n, i, e);
        assert(in_zone(i, 0, e));
        assert(in_zone(i, n - 1, e));
    }
}

/// All selection paths reject the same inputs: on a square matrix of honest
/// distance rows (out-of-zone entries strictly below `INF_CODE`), the
/// full-matrix path runs into an all-sentinel row exactly when some row is
/// fully zoned — which, by `lemma_degenerate_iff`, happens exactly when the
/// subsequence count is positive but below `2 * e + 2`, the domain on which
/// the other two paths fail as well.
pub proof fn lemma_rejection_domains_agree(m: Seq<Seq<u32>>, e: int)
    requires
        e >= 0,
        forall|k: int| 0 <= k < m.len() ==> (#[trigger] m[k]).len() == m.len(),
        forall|k: int, j: int|
            0 <= k < m.len() && 0 <= j < m.len() && !in_zone(k, j, e) ==> #[trigger] m[k][j]
                < INF_CODE,
    ensures
        (exists|i: int| 0 <= i < m.len() && #[trigger] row_all_sentinel(m, e, i)) <==> 0 < (
        m.len() as int) < 2 * e + 2,
{
    let n = m.len() as int;
    lemma_degenerate_iff(n, e);
    if exists|i: int| 0 <= i < n && #[trigger] row_all_sentinel(m, e, i) {
        let i = choose|i: int| 0 <= i < n && #[trigger] row_all_sentinel(m, e, i);
        assert forall|j: int| 0 <= j < n implies in_zone(i, j, e) by {
            if !in_zone(i, j, e) {
                assert(m[i][j] < INF_CODE);
            }
        }
        assert(row_fully_zoned(n, i, e));
    }
    if 0 < n < 2 * e + 2 {
        let i = choose|i: int| 0 <= i < n && #[trigger] row_fully_zoned(n, i, e);
        assert forall|j: int| 0 <= j < n implies in_zone(i, j, e) || m[i][j] > INF_CODE by {
            assert(in_zone(i, j, e));
        }
        assert(row_all_sentinel(m, e, i));
    }
}

/// Determinism of the row scan: any two distance/index pairs that both
/// satisfy the first-out-of-zone-minimum characterization of one row are
/// equal. Together with the determinism of the aggregation below, the
/// selected profile is a function of the distance matrix alone.
pub proof fn lemma_row_selection_unique(
    row: Seq<u32>,
    e: int,
    i: int,
    c1: u32,
    j1: int,
    c2: u32,
    j2: int,
)
    requires
        out_zone_first_min(row, e, i, c1, j1),
        out_zone_first_min(row, e, i, c2, j2),
    ensures
        c1 == c2,
        j1 == j2,
{
}

/// Determinism of the column aggregation: any two distance/index pairs that
/// both satisfy the first-column-minimum characterization of one target
/// index are equal.
pub proof fn lemma_column_selection_unique(
    m: Seq<Seq<u32>>,
    e: int,
    j: int,
    c1: u32,
    i1: int,
    c2: u32,
    i2: int,
)
    requires
        column_first_min(m, e, j, c1, i1),
        column_first_min(m, e, j, c2, i2),
    ensures
        c1 == c2,
        i1 == i2,
{
    if c1 < INF_CODE || c2 < INF_CODE {
        assert(masked_at(m, e, i1, j) >= c2);
        assert(masked_at(m, e, i2, j) >= c1);
    }
}

/// Self-consistency of the two brute-force variants, row by row: the scan
/// that skips the exclusion zone of reference index `i` and the scan of the
/// sentinel-marked row that skips codes above `INF_CODE` pick the same
/// distance and the same index, provided the row's out-of-zone entries are
/// honest distance codes (not above `INF_CODE`).
pub proof fn lemma_full_matrix_consistency(
    row: Seq<u32>,
    marked: Seq<u32>,
    e: int,
    i: int,
    c1: u32,
    j1: int,
    c2: u32,
    j2: int,
)
    requires
        marked.len() == row.len(),
        forall|j: int|
            0 <= j < row.len() ==> marked[j] == (if in_zone(i, j, e) {
                NAN_CODE
            } else {
                row[j]
            }),
        forall|j: int| 0 <= j < row.len() && !in_zone(i, j, e) ==> row[j] <= INF_CODE,
        out_zone_first_min(row, e, i, c1, j1),
        skip_nan_first_min(marked, c2, j2),
    ensures
        c1 == c2,
        j1 == j2,
{
    assert(!in_zone(i, j2, e));
    assert(marked[j1] == c1);
}

/// Agreement of the two algorithms, reference index by reference index: on
/// a symmetric distance matrix whose out-of-zone entries are finite codes,
/// the brute-force row scan of index `i` and the incremental column
/// aggregation at target `i` select the same distance and the same
/// neighbour index.
pub proof fn lemma_selection_agreement(
    m: Seq<Seq<u32>>,
    e: int,
    i: int,
    nc: u32,
    nj: int,
    sc: u32,
    si: int,
)
    requires
        forall|k: int| 0 <= k < m.len() ==> (#[trigger] m[k]).len() == m.len(),
        forall|k: int, j: int|
            0 <= k < m.len() && 0 <= j < m.len() ==> #[trigger] m[k][j] == m[j][k],
        forall|k: int, j: int|
            0 <= k < m.len() && 0 <= j < m.len() && !in_zone(k, j, e) ==> #[trigger] m[k][j]
                < INF_CODE,
        0 <= i < m.len(),
        out_zone_first_min(m[i], e, i, nc, nj),
        column_first_min(m, e, i, sc, si),
    ensures
        sc == nc,
        si == nj,
{
    // The row's winner, seen from the column side, bounds the aggregated
    // value below the infinite code.
    assert(m[nj][i] == nc);
    assert(!in_zone(nj, i, e));
    assert(masked_at(m, e, nj, i) == nc);
    assert(sc <= nc);
    assert(sc < INF_CODE);
    // The column's winner is an out-of-zone row entry, so the row scan
    // bounds it from below as well.
    assert(masked_at(m, e, si, i) == sc);
    assert(!in_zone(si, i, e));
    assert(!in_zone(i, si, e));
    assert(m[i].len() == m.len());
    assert(m[i][si] == sc);
    assert(m[i][si] >= nc);
    assert(nc <= sc);
    // First-winner tie-breaking on both sides forces the indices together.
    if si < nj {
        assert(m[i][si] > nc);
    }
    if nj < si {
        assert(masked_at(m, e, nj, i) > sc);
    }
}

/// The exclusion invariant of the incremental path: an aggregated entry that
/// went below `INF_CODE` was produced by a reference index outside the
/// exclusion zone of its target. With enough subsequences
/// (`n >= 2 * e + 2`) and finite out-of-zone distances, every entry does go
/// below `INF_CODE`, so no profile index ever lies in the zone.
pub proof fn lemma_exclusion_invariant(m: Seq<Seq<u32>>, e: int, j: int, c: u32, ix: int)
    requires
        forall|k: int, l: int|
            0 <= k < m.len() && 0 <= l < m.len() && !in_zone(k, l, e) ==> #[trigger] m[k][l]
                < INF_CODE,
        m.len() >= 2 * e + 2,
        e >= 0,
        0 <= j < m.len(),
        column_first_min(m, e, j, c, ix),
    ensures
        c < INF_CODE,
        !in_zone(ix, j, e),
{
    let witness: int = if j >= e + 1 {
        j - e - 1
    } else {
        j + e + 1
    };
    assert(!in_zone(witness, j, e));
    assert(masked_at(m, e, witness, j) == m[witness][j]);
    assert(masked_at(m, e, witness, j) >= c);
    assert(masked_at(m, e, ix, j) == c);
}

} // verus!
