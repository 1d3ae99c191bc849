//! The profile aggregator.
//!
//! The incremental algorithm produces one distance row per reference index,
//! in ascending order, and folds each row into a running element-wise
//! minimum: entry `j` of the running profile holds the smallest distance seen
//! so far from any reference window to target window `j`, together with the
//! reference index that produced it. Only a strictly smaller distance
//! displaces the current entry, so on ties the first writer — the smallest
//! reference index — wins.

use vstd::prelude::*;

use crate::codes::INF_CODE;
use crate::zone::{in_zone, masked_at};

verus! {

/// The matrix a sequence of rows stands for: entry `(i, j)` is element `j`
/// of row `i`.
pub open spec fn grid(rows: Seq<Vec<u32>>) -> Seq<Seq<u32>> {
    Seq::new(rows.len(), |i: int| rows[i]@)
}

/// Entry `j` of the running profile after folding in the exclusion-masked
/// rows `0 .. upto` of `m`: `c` is no larger than any masked entry of column
/// `j` seen so far (and never larger than `INF_CODE`, its starting value),
/// and `ix` is the first row index attaining `c` when some masked entry got
/// strictly below `INF_CODE`, and the starting index 0 otherwise.
pub open spec fn column_first_min_upto(
    m: Seq<Seq<u32>>,
    e: int,
    j: int,
    upto: int,
    c: u32,
    ix: int,
) -> bool {
    &&& c <= INF_CODE
    &&& forall|i: int| 0 <= i < upto ==> masked_at(m, e, i, j) >= c
    &&& (c == INF_CODE ==> ix == 0)
    &&& (c < INF_CODE ==> {
        &&& 0 <= ix < upto
        &&& masked_at(m, e, ix, j) == c
        &&& forall|i: int| 0 <= i < ix ==> masked_at(m, e, i, j) > c
    })
}

/// Entry `j` of the finished profile: `column_first_min_upto` over the whole
/// column.
pub open spec fn column_first_min(m: Seq<Seq<u32>>, e: int, j: int, c: u32, ix: int) -> bool {
    column_first_min_upto(m, e, j, m.len() as int, c, ix)
}

/// The running element-wise minimum over the distance rows seen so far:
/// `codes[j]` is the smallest distance code offered for target `j` (starting
/// at `INF_CODE`) and `idxs[j]` the reference index that offered it
/// (starting at 0).
pub struct RunningProfile {
    /// Smallest distance code seen per target index.
    pub codes: Vec<u32>,
    /// Reference index that produced each entry of `codes`.
    pub idxs: Vec<usize>,
}

impl RunningProfile {
    /// Both vectors cover the same targets.
    pub open spec fn wf(self) -> bool {
        self.codes@.len() == self.idxs@.len()
    }

    /// Number of target indices covered.
    pub open spec fn n(self) -> int {
        self.codes@.len() as int
    }

    /// A fresh profile over `n` targets: every distance starts at
    /// `INF_CODE`, every index at 0.
    pub fn new(n: usize) -> (r: RunningProfile)
        ensures
            r.wf(),
            r.n() == n,
            forall|j: int| 0 <= j < n ==> r.codes@[j] == INF_CODE,
            forall|j: int| 0 <= j < n ==> r.idxs@[j] == 0,
    {
        let mut codes: Vec<u32> = Vec::new();
        let mut idxs: Vec<usize> = Vec::new();
        let mut j: usize = 0;
        while j < n
            invariant
                j <= n,
                codes@.len() == j,
                idxs@.len() == j,
                forall|k: int| 0 <= k < j ==> codes@[k] == INF_CODE,
                forall|k: int| 0 <= k < j ==> idxs@[k] == 0,
            decreases n - j,
        {
            codes.push(INF_CODE);
            idxs.push(0);
            j = j + 1;
        }
        RunningProfile { codes, idxs }
    }

    /// Folds the distance row of reference index `i` into the running
    /// minimum: wherever the row is strictly smaller than the entry held so
    /// far, the entry and its index are overwritten; everywhere else both
    /// are kept.
    pub fn update(&mut self, row: &Vec<u32>, i: usize)
        requires
            old(self).wf(),
            row@.len() == old(self).n(),
        ensures
            final(self).wf(),
            final(self).n() == old(self).n(),
            forall|j: int|
                0 <= j < old(self).n() ==> {
                    if row@[j] < old(self).codes@[j] {
                        &&& final(self).codes@[j] == row@[j]
                        &&& final(self).idxs@[j] == i
                    } else {
                        &&& final(self).codes@[j] == old(self).codes@[j]
                        &&& final(self).idxs@[j] == old(self).idxs@[j]
                    }
                },
    {
        let n = self.codes.len();
        let mut j: usize = 0;
        while j < n
            invariant
                j <= n,
                n == old(self).n(),
                self.wf(),
                self.n() == old(self).n(),
                row@.len() == old(self).n(),
                forall|k: int|
                    0 <= k < j ==> {
                        if row@[k] < old(self).codes@[k] {
                            &&& self.codes@[k] == row@[k]
                            &&& self.idxs@[k] == i
                        } else {
                            &&& self.codes@[k] == old(self).codes@[k]
                            &&& self.idxs@[k] == old(self).idxs@[k]
                        }
                    },
                forall|k: int| j <= k < n ==> self.codes@[k] == old(self).codes@[k],
                forall|k: int| j <= k < n ==> self.idxs@[k] == old(self).idxs@[k],
            decreases n - j,
        {
            if row[j] < self.codes[j] {
                self.codes.set(j, row[j]);
                self.idxs.set(j, i);
            }
            j = j + 1;
        }
    }
}

/// Runs the whole aggregation over a square matrix of distance rows: each
/// row is masked with the exclusion zone of its reference index and folded
/// into the running minimum, in ascending reference order. Entry `j` of the
/// result is the first minimum of masked column `j`.
pub fn aggregate_rows(rows: &Vec<Vec<u32>>, e: usize) -> (r: RunningProfile)
    requires
        forall|i: int| 0 <= i < rows@.len() ==> rows@[i]@.len() == rows@.len(),
    ensures
        r.wf(),
        r.n() == rows@.len(),
        forall|j: int|
            0 <= j < rows@.len() ==> column_first_min(
                grid(rows@),
                e as int,
                j,
                r.codes@[j],
                r.idxs@[j] as int,
            ),
{
    let n = rows.len();
    let mut state = RunningProfile::new(n);
    let mut i: usize = 0;
    while i < n
        invariant
            i <= n,
            n == rows@.len(),
            forall|k: int| 0 <= k < n ==> rows@[k]@.len() == n,
            state.wf(),
            state.n() == n,
            forall|j: int|
                0 <= j < n ==> column_first_min_upto(
                    grid(rows@),
                    e as int,
                    j,
                    i as int,
                    state.codes@[j],
                    state.idxs@[j] as int,
                ),
        decreases n - i,
    {
        let masked = crate::zone::mark_zone(&rows[i], i, e, INF_CODE);
        let ghost pre = state;
        state.update(&masked, i);
        proof {
            assert forall|j: int| 0 <= j < n implies column_first_min_upto(
                grid(rows@),
                e as int,
                j,
                i + 1,
                state.codes@[j],
                state.idxs@[j] as int,
            ) by {
                assert(grid(rows@)[i as int] == rows@[i as int]@);
                assert(masked@[j] == masked_at(grid(rows@), e as int, i as int, j));
            }
        }
        i = i + 1;
    }
    state
}

} // verus!
