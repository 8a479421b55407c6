//! The assignment problem: where the overlaps are ambiguous, a solver has to
//! pick the pairs that maximise the total overlap. This module makes the cost
//! matrix that the solver gets and turns what it returns into pairs.
//!
//! The solver wants a square matrix and minimises the total cost. So the
//! costs are the negated overlaps, and the shorter side of the overlap matrix
//! is padded with zeros: a detection or track that the solver pairs with the
//! padding stays without a partner.

use vstd::prelude::*;
use crate::error::MotionTrackError;
use crate::ieee::neg;
use crate::ieee::neg_spec;
use crate::ieee::ZERO;
use crate::matrix::lemma_same_cells;
use crate::matrix::Matrix;
use crate::matrix::MatrixView;
use crate::pairs::is_matching;
use crate::pairs::pairs_within;
use crate::seqs::lemma_filter_nothing;
use crate::seqs::lemma_filter_step;
use crate::sort::Sort;
use crate::sparse::direct_candidates;
use crate::sparse::too_large;
use crate::sparse::unambiguous;

verus! {

/// What the solver of the assignment problem returned: the column that it
/// gave to each row, and the row that it gave to each column.
#[derive(Debug)]
pub struct Solution {
    pub rows: Vec<usize>,
    pub cols: Vec<usize>,
}

/// The side of the square cost matrix for `dets` detections and `tracks`
/// tracks: the larger of the two.
pub open spec fn square_side(dets: nat, tracks: nat) -> nat {
    if dets >= tracks {
        dets
    } else {
        tracks
    }
}

/// The cost matrix of the assignment problem for `iou`: square, with the
/// negated overlap where a detection meets a track, and `+0.0` in the rows
/// and columns that pad the shorter side.
pub open spec fn cost_view(iou: MatrixView) -> MatrixView {
    let n = square_side(iou.rows(), iou.cols);
    MatrixView {
        cells: Seq::new(
            n,
            |i: int|
                Seq::new(
                    n,
                    |j: int|
                        if i < iou.rows() && j < iou.cols {
                            neg_spec(iou.cells[i][j])
                        } else {
                            ZERO
                        },
                ),
        ),
        cols: n,
    }
}

/// Whether `x` and `y` solve an assignment problem of side `n`: `x` gives
/// the column of every row, `y` the row of every column, and each undoes
/// the other.
pub open spec fn solution_valid(n: nat, x: Seq<usize>, y: Seq<usize>) -> bool {
    &&& x.len() == n
    &&& y.len() == n
    &&& forall|r: int| 0 <= r < n ==> (#[trigger] x[r]) < n && y[x[r] as int] == r
}

/// Each row of a solution paired with its column.
pub open spec fn solution_rows(x: Seq<usize>) -> Seq<(usize, usize)> {
    Seq::new(x.len(), |r: int| (r as usize, x[r]))
}

/// The cells of a matrix with `dets` rows and `tracks` columns.
pub open spec fn inside(dets: nat, tracks: nat) -> spec_fn((usize, usize)) -> bool {
    |p: (usize, usize)| p.0 < dets && p.1 < tracks
}

/// The pairs of a solution that pair a detection with a track: those that
/// touch neither a padding row nor a padding column, in the order of the
/// rows.
pub open spec fn solved_pairs(dets: nat, tracks: nat, x: Seq<usize>) -> Seq<(usize, usize)> {
    solution_rows(x).filter(inside(dets, tracks))
}

fn negated_square(iou: &Matrix) -> (cost: Matrix)
    ensures
        cost@ == cost_view(iou@),
{
    let rows = iou.rows();
    let cols = iou.cols();
    let n = if rows >= cols {
        rows
    } else {
        cols
    };
    let mut cost = Matrix::zeros(n, n);
    let mut d: usize = 0;
    while d < rows
        invariant
            d <= rows,
            rows == iou@.rows(),
            cols == iou@.cols,
            n == square_side(rows as nat, cols as nat),
            cost.wf(),
            cost@.has_shape(n as nat, n as nat),
            forall|i: int, j: int|
                0 <= i < n && 0 <= j < n ==> #[trigger] cost@.cells[i][j] == (if i < d && j < cols {
                    neg_spec(iou@.cells[i][j])
                } else {
                    ZERO
                }),
        decreases rows - d,
    {
        let mut t: usize = 0;
        while t < cols
            invariant
                d < rows,
                t <= cols,
                rows == iou@.rows(),
                cols == iou@.cols,
                n == square_side(rows as nat, cols as nat),
                cost.wf(),
                cost@.has_shape(n as nat, n as nat),
                forall|i: int, j: int|
                    0 <= i < n && 0 <= j < n ==> #[trigger] cost@.cells[i][j] == (if (i < d && j
                        < cols) || (i == d && j < t) {
                        neg_spec(iou@.cells[i][j])
                    } else {
                        ZERO
                    }),
            decreases cols - t,
        {
            cost.set(d, t, neg(iou.get(d, t)));
            t += 1;
        }
        d += 1;
    }
    proof {
        lemma_same_cells(cost@, cost_view(iou@));
    }
    cost
}

impl Sort {
    /// The cost matrix to hand to the solver of the assignment problem,
    /// where one is needed: where the overlaps are not unambiguous. The
    /// solver is to minimise the total cost.
    ///
    /// Fails with `ShapeError` exactly if `iou` has more cells than an array
    /// can hold.
    pub fn assignment_costs(iou: &Matrix, threshold: u64) -> (r: Result<
        Option<Matrix>,
        MotionTrackError,
    >)
        ensures
            r is Err <==> too_large(iou@),
            r matches Err(e) ==> e == MotionTrackError::ShapeError,
            r matches Ok(None) ==> unambiguous(iou@, threshold),
            r matches Ok(Some(cost)) ==> !unambiguous(iou@, threshold) && cost@ == cost_view(iou@),
    {
        match direct_candidates(iou, threshold) {
            Err(e) => Err(e),
            Ok(Some(_)) => Ok(None),
            Ok(None) => Ok(Some(negated_square(iou))),
        }
    }

    /// Turns what the solver of the assignment problem returned for the
    /// square cost matrix of `dets` detections and `tracks` tracks into
    /// pairs of a detection and a track. `x` holds the column that the
    /// solver gave to each row and `y` the row that it gave to each column.
    /// A pair that touches the padding is left out.
    ///
    /// Fails with `LapJVError` unless both lists have the side of the square
    /// as their length and each undoes the other.
    pub fn linear_assignment(dets: usize, tracks: usize, x: &Vec<usize>, y: &Vec<usize>) -> (r:
        Result<Vec<(usize, usize)>, MotionTrackError>)
        ensures
            r is Ok <==> solution_valid(square_side(dets as nat, tracks as nat), x@, y@),
            r matches Ok(pairs) ==> {
                &&& pairs@ == solved_pairs(dets as nat, tracks as nat, x@)
                &&& pairs_within(pairs@, dets as nat, tracks as nat)
                &&& is_matching(pairs@)
            },
            r matches Err(e) ==> e == MotionTrackError::LapJVError,
    {
        let n = if dets >= tracks {
            dets
        } else {
            tracks
        };
        if x.len() != n || y.len() != n {
            return Err(MotionTrackError::LapJVError);
        }
        let ghost all = solution_rows(x@);
        let ghost keep = inside(dets as nat, tracks as nat);
        let mut pairs: Vec<(usize, usize)> = Vec::new();
        let mut r: usize = 0;
        proof {
            lemma_filter_nothing(all, keep);
        }
        while r < n
            invariant
                r <= n,
                x@.len() == n,
                y@.len() == n,
                all == solution_rows(x@),
                keep == inside(dets as nat, tracks as nat),
                forall|i: int| 0 <= i < r ==> (#[trigger] x@[i]) < n && y@[x@[i] as int] == i,
                pairs@ == all.take(r as int).filter(keep),
                pairs_within(pairs@, dets as nat, tracks as nat),
                forall|k: int|
                    0 <= k < pairs@.len() ==> {
                        &&& (#[trigger] pairs@[k]).0 < r
                        &&& pairs@[k].1 == x@[pairs@[k].0 as int]
                    },
                forall|i: int, j: int|
                    0 <= i < j < pairs@.len() ==> (#[trigger] pairs@[i]).0 < (
                    #[trigger] pairs@[j]).0,
            decreases n - r,
        {
            let i = x[r];
            if i >= n {
                return Err(MotionTrackError::LapJVError);
            }
            if y[i] != r {
                return Err(MotionTrackError::LapJVError);
            }
            proof {
                lemma_filter_step(all, r as int, keep);
            }
            if y[i] < dets && i < tracks {
                pairs.push((y[i], i));
            }
            r += 1;
        }
        proof {
            assert(all.take(n as int) =~= all);
            assert forall|i: int, j: int| 0 <= i < j < pairs@.len() implies (
            #[trigger] pairs@[i]).1 != (#[trigger] pairs@[j]).1 by {
                // the rows differ, and `y` leads from each column back to its row
                assert(y@[pairs@[i].1 as int] != y@[pairs@[j].1 as int]);
            }
        }
        Ok(pairs)
    }
}

} // verus!
