//! The cheap way to candidate pairs: where no detection overlaps two tracks
//! above the threshold and no track two detections, the pairs above the
//! threshold are the candidates, and no assignment problem has to be solved.

use vstd::prelude::*;
use crate::error::MotionTrackError;
use crate::ieee::gt_spec;
use crate::marks::axis_sums;
use crate::marks::binary_grid;
use crate::marks::column_of;
use crate::marks::indexed_cells;
use crate::marks::largest;
use crate::marks::mark_of;
use crate::marks::marks_rows;
use crate::marks::smallest;
use crate::marks::threshold_marks;
use crate::marks::thresholded;
use crate::marks::total;
use crate::marks::Marks;
use crate::matrix::Matrix;
use crate::matrix::MatrixView;
use crate::pairs::comes_before;
use crate::pairs::is_matching;
use crate::pairs::pairs_within;
use crate::seqs::lemma_filter_nothing;
use crate::seqs::lemma_filter_step;
use crate::sort::Sort;

verus! {

/// Whether the overlap of detection `d` and track `t` is above the
/// threshold.
pub open spec fn above(iou: MatrixView, threshold: u64, d: int, t: int) -> bool {
    gt_spec(iou.cells[d][t], threshold)
}

/// Detection `d` is above the threshold with at most one track.
pub open spec fn one_track_at_most(iou: MatrixView, threshold: u64, d: int) -> bool {
    forall|t1: int, t2: int|
        0 <= t1 < t2 < iou.cols && #[trigger] above(iou, threshold, d, t1)
            ==> !#[trigger] above(iou, threshold, d, t2)
}

/// Track `t` is above the threshold with at most one detection.
pub open spec fn one_detection_at_most(iou: MatrixView, threshold: u64, t: int) -> bool {
    forall|d1: int, d2: int|
        0 <= d1 < d2 < iou.rows() && #[trigger] above(iou, threshold, d1, t)
            ==> !#[trigger] above(iou, threshold, d2, t)
}

/// No detection is above the threshold with two tracks, and no track with
/// two detections.
pub open spec fn unambiguous(iou: MatrixView, threshold: u64) -> bool {
    &&& forall|d: int| 0 <= d < iou.rows() ==> #[trigger] one_track_at_most(iou, threshold, d)
    &&& forall|t: int| 0 <= t < iou.cols ==> #[trigger] one_detection_at_most(iou, threshold, t)
}

/// Whether `iou` has more cells than an array of `ndarray` can hold.
pub open spec fn too_large(iou: MatrixView) -> bool {
    iou.rows() > 0 && iou.cols > 0 && iou.rows() * iou.cols > isize::MAX
}

/// The cells of row `d` from left to right.
pub open spec fn row_cells(cols: nat, d: int) -> Seq<(usize, usize)> {
    Seq::new(cols, |t: int| (d as usize, t as usize))
}

/// The marked cells of the first `rows` rows of a matrix with `cols`
/// columns: row by row from the top, each row from left to right.
pub open spec fn listed(rows: nat, cols: nat, marked: spec_fn((usize, usize)) -> bool) -> Seq<
    (usize, usize),
>
    decreases rows,
{
    if rows == 0 {
        Seq::empty()
    } else {
        listed((rows - 1) as nat, cols, marked) + row_cells(cols, rows - 1).filter(marked)
    }
}

/// The cells of `iou` that are above the threshold.
pub open spec fn above_in(iou: MatrixView, threshold: u64) -> spec_fn((usize, usize)) -> bool {
    |p: (usize, usize)| above(iou, threshold, p.0 as int, p.1 as int)
}

/// The pairs above the threshold: row by row from the top, each row from
/// left to right.
pub open spec fn pairs_above(iou: MatrixView, threshold: u64) -> Seq<(usize, usize)> {
    listed(iou.rows(), iou.cols, above_in(iou, threshold))
}

/// The non-zero cells of a grid.
pub open spec fn nonzero_in(grid: Seq<Seq<u64>>) -> spec_fn((usize, usize)) -> bool {
    |p: (usize, usize)| grid[p.0 as int][p.1 as int] != 0
}

/// No row and no column of a grid sums to more than 1.
pub open spec fn sparse(grid: Seq<Seq<u64>>, cols: nat) -> bool {
    &&& forall|i: int| 0 <= i < grid.len() ==> total(#[trigger] grid[i]) <= 1
    &&& forall|j: int| 0 <= j < cols ==> total(#[trigger] column_of(grid, j)) <= 1
}

/// A sequence of zeros and ones sums to at most 1 exactly if it holds at
/// most one 1.
pub(crate) proof fn lemma_total_of_marks(s: Seq<u64>)
    requires
        forall|i: int| 0 <= i < s.len() ==> s[i] <= 1,
    ensures
        0 <= total(s),
        total(s) == 0 <==> (forall|i: int| 0 <= i < s.len() ==> s[i] == 0),
        total(s) <= 1 <==> (forall|i: int, j: int| 0 <= i < j < s.len() && s[i] == 1 ==> s[j] != 1),
    decreases s.len(),
{
    if s.len() > 0 {
        let front = s.drop_last();
        lemma_total_of_marks(front);
        assert(forall|i: int| 0 <= i < front.len() ==> front[i] == s[i]);
        if total(s) <= 1 {
            assert forall|i: int, j: int| 0 <= i < j < s.len() && s[i] == 1 implies s[j] != 1 by {}
        }
        if forall|i: int, j: int| 0 <= i < j < s.len() && s[i] == 1 ==> s[j] != 1 {
            assert forall|i: int, j: int|
                0 <= i < j < front.len() && front[i] == 1 implies front[j] != 1 by {}
            if s.last() == 1 {
                assert forall|i: int| 0 <= i < front.len() implies front[i] == 0 by {}
            }
        }
    }
}

/// The thresholded matrix is a grid of zeros and ones, and it is sparse
/// exactly if the overlaps are unambiguous.
pub(crate) proof fn lemma_sparse_is_unambiguous(iou: MatrixView, threshold: u64)
    requires
        iou.rectangular(),
    ensures
        binary_grid(thresholded(iou, threshold), iou.cols),
        sparse(thresholded(iou, threshold), iou.cols) <==> unambiguous(iou, threshold),
{
    let grid = thresholded(iou, threshold);
    assert forall|d: int| 0 <= d < iou.rows() implies (total(#[trigger] grid[d]) <= 1
        <==> one_track_at_most(iou, threshold, d)) by {
        let s = grid[d];
        lemma_total_of_marks(s);
        assert(forall|t: int| 0 <= t < iou.cols ==> (s[t] == 1 <==> above(iou, threshold, d, t)));
        if total(s) <= 1 {
            assert forall|t1: int, t2: int|
                0 <= t1 < t2 < iou.cols && #[trigger] above(iou, threshold, d, t1)
                implies !#[trigger] above(iou, threshold, d, t2) by {
                assert(s[t1] == 1);
                assert(s[t2] != 1);
            }
        }
    }
    assert forall|t: int| 0 <= t < iou.cols implies (total(#[trigger] column_of(grid, t)) <= 1
        <==> one_detection_at_most(iou, threshold, t)) by {
        let s = column_of(grid, t);
        lemma_total_of_marks(s);
        assert(forall|d: int| 0 <= d < iou.rows() ==> (s[d] == 1 <==> above(iou, threshold, d, t)));
        if total(s) <= 1 {
            assert forall|d1: int, d2: int|
                0 <= d1 < d2 < iou.rows() && #[trigger] above(iou, threshold, d1, t)
                implies !#[trigger] above(iou, threshold, d2, t) by {
                assert(s[d1] == 1);
                assert(s[d2] != 1);
            }
        }
    }
    if sparse(grid, iou.cols) {
        assert forall|d: int| 0 <= d < iou.rows() implies #[trigger] one_track_at_most(
            iou,
            threshold,
            d,
        ) by {
            assert(total(grid[d]) <= 1);
        }
        assert forall|t: int| 0 <= t < iou.cols implies #[trigger] one_detection_at_most(
            iou,
            threshold,
            t,
        ) by {
            assert(total(column_of(grid, t)) <= 1);
        }
    }
    if unambiguous(iou, threshold) {
        assert forall|d: int| 0 <= d < grid.len() implies total(#[trigger] grid[d]) <= 1 by {}
        assert forall|t: int| 0 <= t < iou.cols implies total(#[trigger] column_of(grid, t))
            <= 1 by {}
    }
}

/// Two ways of marking that agree on every cell of a matrix list the same
/// cells.
pub(crate) proof fn lemma_listed_agree(
    rows: nat,
    cols: nat,
    f: spec_fn((usize, usize)) -> bool,
    g: spec_fn((usize, usize)) -> bool,
)
    requires
        rows <= usize::MAX,
        cols <= usize::MAX,
        forall|p: (usize, usize)| p.0 < rows && p.1 < cols ==> #[trigger] f(p) == g(p),
    ensures
        listed(rows, cols, f) == listed(rows, cols, g),
    decreases rows,
{
    if rows > 0 {
        lemma_listed_agree((rows - 1) as nat, cols, f, g);
        let cells = row_cells(cols, rows - 1);
        lemma_take_filter_agree(cells, cols as int, f, g);
        assert(cells.take(cols as int) =~= cells);
    }
}

proof fn lemma_take_filter_agree<A>(s: Seq<A>, n: int, f: spec_fn(A) -> bool, g: spec_fn(A) -> bool)
    requires
        0 <= n <= s.len(),
        forall|i: int| 0 <= i < s.len() ==> f(s[i]) == g(s[i]),
    ensures
        s.take(n).filter(f) == s.take(n).filter(g),
    decreases n,
{
    if n > 0 {
        lemma_take_filter_agree(s, n - 1, f, g);
        lemma_filter_step(s, n - 1, f);
        lemma_filter_step(s, n - 1, g);
    } else {
        lemma_filter_nothing(s, f);
        lemma_filter_nothing(s, g);
    }
}

/// A matrix without cells lists no pairs.
pub(crate) proof fn lemma_listed_nothing(rows: nat, cols: nat, marked: spec_fn((usize, usize)) -> bool)
    requires
        rows == 0 || cols == 0,
    ensures
        listed(rows, cols, marked) == Seq::<(usize, usize)>::empty(),
    decreases rows,
{
    if rows > 0 {
        lemma_listed_nothing((rows - 1) as nat, cols, marked);
        lemma_filter_nothing(row_cells(cols, rows - 1), marked);
    }
}

impl Sort {
    /// The non-zero cells of the array: row by row from the top, each row
    /// from left to right.
    pub(crate) fn stack_nonzero(marks: &Marks) -> (pairs: Vec<(usize, usize)>)
        requires
            marks_rows(*marks).len() > 0,
            marks_rows(*marks)[0].len() > 0,
            binary_grid(marks_rows(*marks), marks_rows(*marks)[0].len()),
        ensures
            pairs@ == listed(
                marks_rows(*marks).len(),
                marks_rows(*marks)[0].len(),
                nonzero_in(marks_rows(*marks)),
            ),
            pairs_within(pairs@, marks_rows(*marks).len(), marks_rows(*marks)[0].len()),
            forall|k: int|
                0 <= k < pairs@.len() ==> nonzero_in(marks_rows(*marks))(#[trigger] pairs@[k]),
            forall|i: int, j: int|
                0 <= i < j < pairs@.len() ==> comes_before(
                    #[trigger] pairs@[i],
                    #[trigger] pairs@[j],
                ),
    {
        let ghost grid = marks_rows(*marks);
        let ghost rows = grid.len();
        let ghost cols = grid[0].len();
        let ghost marked = nonzero_in(grid);
        let cells = indexed_cells(marks);
        let mut pairs: Vec<(usize, usize)> = Vec::new();
        let mut k: usize = 0;
        proof {
            lemma_filter_nothing(row_cells(cols, 0), marked);
        }
        while k < cells.len()
            invariant
                grid == marks_rows(*marks),
                rows == grid.len(),
                cols == grid[0].len(),
                rows > 0,
                cols > 0,
                marked == nonzero_in(grid),
                binary_grid(grid, cols),
                cells@.len() == rows * cols,
                forall|d: int, t: int|
                    0 <= d < rows && 0 <= t < cols ==> #[trigger] cells@[d * cols + t] == (
                        (d as usize, t as usize),
                        grid[d][t],
                    ),
                k <= cells@.len(),
                pairs@ == listed(((k as int) / (cols as int)) as nat, cols, marked) + row_cells(
                    cols,
                    (k as int) / (cols as int),
                ).take((k as int) % (cols as int)).filter(marked),
                pairs_within(pairs@, rows, cols),
                forall|i: int| 0 <= i < pairs@.len() ==> marked(#[trigger] pairs@[i]),
                forall|i: int|
                    0 <= i < pairs@.len() ==> (#[trigger] pairs@[i]).0 * cols + pairs@[i].1 < k,
                forall|i: int, j: int|
                    0 <= i < j < pairs@.len() ==> comes_before(
                        #[trigger] pairs@[i],
                        #[trigger] pairs@[j],
                    ),
            decreases cells@.len() - k,
        {
            let ghost d: int = (k as int) / (cols as int);
            let ghost t: int = (k as int) % (cols as int);
            proof {
                vstd::arithmetic::div_mod::lemma_fundamental_div_mod(k as int, cols as int);
                vstd::arithmetic::div_mod::lemma_mod_pos_bound(k as int, cols as int);
                vstd::arithmetic::div_mod::lemma_multiply_divide_lt(
                    k as int,
                    cols as int,
                    rows as int,
                );
                vstd::arithmetic::div_mod::lemma_div_pos_is_pos(k as int, cols as int);
                assert(cols * d == d * cols) by (nonlinear_arith);
            }
            let (index, value) = cells[k];
            let ghost before = pairs@;
            if value != 0 {
                proof {
                    assert forall|i: int| 0 <= i < before.len() implies comes_before(
                        #[trigger] before[i],
                        index,
                    ) by {
                        let p = before[i];
                        if p.0 > d {
                            assert(p.0 * cols >= (d + 1) * cols) by (nonlinear_arith)
                                requires
                                    p.0 >= d + 1,
                                    cols > 0,
                            ;
                            assert((d + 1) * cols == d * cols + cols) by (nonlinear_arith);
                        }
                    }
                }
                pairs.push(index);
            }
            proof {
                let row = row_cells(cols, d);
                lemma_filter_step(row, t, marked);
                let next = k + 1;
                if t + 1 < cols {
                    vstd::arithmetic::div_mod::lemma_fundamental_div_mod_converse(
                        next as int,
                        cols as int,
                        d,
                        t + 1,
                    );
                } else {
                    assert(next == (d + 1) * cols + 0) by (nonlinear_arith)
                        requires
                            next == d * cols + t + 1,
                            t + 1 == cols,
                    ;
                    vstd::arithmetic::div_mod::lemma_fundamental_div_mod_converse(
                        next as int,
                        cols as int,
                        d + 1,
                        0,
                    );
                    assert(row.take(cols as int) =~= row);
                    lemma_filter_nothing(row_cells(cols, d + 1), marked);
                    assert(listed((d + 1) as nat, cols, marked) == listed(d as nat, cols, marked)
                        + row.filter(marked));
                    assert(pairs@ =~= listed((d + 1) as nat, cols, marked) + row_cells(
                        cols,
                        d + 1,
                    ).take(0).filter(marked));
                }
                assert forall|i: int| 0 <= i < pairs@.len() implies (#[trigger] pairs@[i]).0
                    * cols + pairs@[i].1 < k + 1 by {}
            }
            k += 1;
        }
        proof {
            vstd::arithmetic::div_mod::lemma_fundamental_div_mod_converse(
                k as int,
                cols as int,
                rows as int,
                0,
            );
            lemma_filter_nothing(row_cells(cols, rows as int), marked);
        }
        pairs
    }
}

fn has_cells(rows: usize, cols: usize) -> (r: bool)
    ensures
        r == (rows > 0 && cols > 0),
{
    let mut shape: Vec<usize> = Vec::new();
    shape.push(rows);
    shape.push(cols);
    assert(shape@[0] == rows && shape@[1] == cols);
    match smallest(&shape) {
        Some(least) => least > 0,
        None => false,
    }
}

fn is_sparse(marks: &Marks) -> (r: bool)
    requires
        marks_rows(*marks).len() > 0,
        marks_rows(*marks)[0].len() > 0,
        binary_grid(marks_rows(*marks), marks_rows(*marks)[0].len()),
    ensures
        r == sparse(marks_rows(*marks), marks_rows(*marks)[0].len()),
{
    let row_sums = axis_sums(marks, 1);
    let col_sums = axis_sums(marks, 0);
    let ghost grid = marks_rows(*marks);
    match (largest(&row_sums), largest(&col_sums)) {
        (Some(most_in_row), Some(most_in_col)) => {
            proof {
                if most_in_row <= 1 && most_in_col <= 1 {
                    assert forall|i: int| 0 <= i < grid.len() implies total(#[trigger] grid[i])
                        <= 1 by {
                        assert(row_sums@[i] <= most_in_row);
                    }
                    assert forall|j: int| 0 <= j < grid[0].len() implies total(
                        #[trigger] column_of(grid, j),
                    ) <= 1 by {
                        assert(col_sums@[j] <= most_in_col);
                    }
                }
            }
            most_in_row <= 1 && most_in_col <= 1
        },
        _ => true,
    }
}

/// The candidate pairs that the thresholded matrix gives by itself, where
/// the overlaps are unambiguous; nothing where they are not.
///
/// Fails with `ShapeError` exactly if `iou` has more cells than an array
/// can hold.
pub(crate) fn direct_candidates(iou: &Matrix, threshold: u64) -> (r: Result<
    Option<Vec<(usize, usize)>>,
    MotionTrackError,
>)
    ensures
        r is Err <==> too_large(iou@),
        r matches Err(e) ==> e == MotionTrackError::ShapeError,
        r matches Ok(None) ==> !unambiguous(iou@, threshold),
        r matches Ok(Some(pairs)) ==> {
            &&& unambiguous(iou@, threshold)
            &&& pairs@ == pairs_above(iou@, threshold)
            &&& pairs_within(pairs@, iou@.rows(), iou@.cols)
            &&& is_matching(pairs@)
        },
{
    let rows = iou.rows();
    let cols = iou.cols();
    if !has_cells(rows, cols) {
        proof {
            lemma_listed_nothing(rows as nat, cols as nat, above_in(iou@, threshold));
        }
        return Ok(Some(Vec::new()));
    }
    let fits = match rows.checked_mul(cols) {
        Some(count) => count <= isize::MAX as usize,
        None => false,
    };
    if !fits {
        return Err(MotionTrackError::ShapeError);
    }
    let marks = threshold_marks(iou, threshold);
    let ghost grid = thresholded(iou@, threshold);
    proof {
        lemma_sparse_is_unambiguous(iou@, threshold);
    }
    if is_sparse(&marks) {
        let pairs = Sort::stack_nonzero(&marks);
        proof {
            assert forall|p: (usize, usize)| p.0 < rows && p.1 < cols implies #[trigger] nonzero_in(
                grid,
            )(p) == above_in(iou@, threshold)(p) by {
                assert(grid[p.0 as int][p.1 as int] == mark_of(
                    iou@.cells[p.0 as int][p.1 as int],
                    threshold,
                ));
            }
            lemma_listed_agree(
                rows as nat,
                cols as nat,
                nonzero_in(grid),
                above_in(iou@, threshold),
            );
            assert forall|i: int, j: int| 0 <= i < j < pairs@.len() implies {
                &&& (#[trigger] pairs@[i]).0 != (#[trigger] pairs@[j]).0
                &&& pairs@[i].1 != pairs@[j].1
            } by {
                let a = pairs@[i];
                assert(one_track_at_most(iou@, threshold, a.0 as int));
                assert(one_detection_at_most(iou@, threshold, a.1 as int));
            }
        }
        Ok(Some(pairs))
    } else {
        Ok(None)
    }
}

} // verus!
