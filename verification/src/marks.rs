//! The thresholded overlap matrix: one cell per detection and track, 1 where
//! the overlap is above the threshold and 0 elsewhere. It is held in a
//! two-dimensional array of the `ndarray` crate, which sums it along its axes
//! and walks its cells.

use vstd::prelude::*;
use crate::ieee::gt;
use crate::ieee::gt_spec;
use crate::matrix::Matrix;
use crate::matrix::MatrixView;

verus! {

/// A two-dimensional array of `ndarray` with at least one row and at least
/// one column, every cell 0 or 1.
#[verifier::external_body]
pub struct Marks {
    inner: ndarray::Array2<u64>,
}

/// The rows of the array from top to bottom.
pub uninterp spec fn marks_rows(m: Marks) -> Seq<Seq<u64>>;

/// The mark of one overlap: 1 if it is above the threshold as a binary64
/// value, else 0.
pub open spec fn mark_of(overlap: u64, threshold: u64) -> u64 {
    if gt_spec(overlap, threshold) {
        1
    } else {
        0
    }
}

/// The rows of the thresholded matrix of `iou`.
pub open spec fn thresholded(iou: MatrixView, threshold: u64) -> Seq<Seq<u64>> {
    Seq::new(
        iou.rows(),
        |d: int| Seq::new(iou.cols, |t: int| mark_of(iou.cells[d][t], threshold)),
    )
}

/// The sum of a sequence.
pub open spec fn total(s: Seq<u64>) -> int
    decreases s.len(),
{
    if s.len() == 0 {
        0
    } else {
        total(s.drop_last()) + s.last()
    }
}

/// Column `j` of a matrix given by its rows.
pub open spec fn column_of(rows: Seq<Seq<u64>>, j: int) -> Seq<u64> {
    Seq::new(rows.len(), |i: int| rows[i][j])
}

/// Every row has `cols` cells and every cell is 0 or 1.
pub open spec fn binary_grid(rows: Seq<Seq<u64>>, cols: nat) -> bool {
    forall|i: int|
        0 <= i < rows.len() ==> {
            &&& (#[trigger] rows[i]).len() == cols
            &&& forall|j: int| 0 <= j < cols ==> #[trigger] rows[i][j] <= 1
        }
}

/// The mark of the cell in row `d` and column `t` of `iou`.
pub(crate) fn mark_at(iou: &Matrix, threshold: u64, d: usize, t: usize) -> (r: u64)
    requires
        d < iou@.rows(),
        t < iou@.cols,
    ensures
        r == mark_of(iou@.cells[d as int][t as int], threshold),
{
    if gt(iou.get(d, t), threshold) {
        1
    } else {
        0
    }
}

/// Calls `ndarray::Array2::from_shape_fn` with the shape of `iou` and a
/// function that marks one cell. The contract claims that the array then
/// holds, at every index, what that function returns for the index. The
/// outside function panics if the number of cells exceeds `isize::MAX`, and
/// the array is only used with at least one row and one column.
#[verifier::external_body]
pub(crate) fn threshold_marks(iou: &Matrix, threshold: u64) -> (m: Marks)
    requires
        iou@.rows() > 0,
        iou@.cols > 0,
        iou@.rows() * iou@.cols <= isize::MAX,
    ensures
        marks_rows(m) == thresholded(iou@, threshold),
{
    let shape = (iou.rows(), iou.cols());
    Marks { inner: ndarray::Array2::from_shape_fn(shape, |(d, t)| mark_at(iou, threshold, d, t)) }
}

/// Calls `sum_axis` of `ndarray` and copies the sums out. The contract
/// claims that summing along axis 1 gives the sum of each row, and along
/// axis 0 the sum of each column. With cells that are 0 or 1 no sum can
/// overflow.
#[verifier::external_body]
pub(crate) fn axis_sums(m: &Marks, axis: usize) -> (sums: Vec<u64>)
    requires
        axis < 2,
        marks_rows(*m).len() > 0,
        marks_rows(*m)[0].len() > 0,
        binary_grid(marks_rows(*m), marks_rows(*m)[0].len()),
    ensures
        axis == 1 ==> {
            &&& sums@.len() == marks_rows(*m).len()
            &&& forall|i: int|
                0 <= i < sums@.len() ==> #[trigger] sums@[i] == total(marks_rows(*m)[i])
        },
        axis == 0 ==> {
            &&& sums@.len() == marks_rows(*m)[0].len()
            &&& forall|j: int|
                0 <= j < sums@.len() ==> #[trigger] sums@[j] == total(column_of(marks_rows(*m), j))
        },
{
    m.inner.sum_axis(ndarray::Axis(axis)).to_vec()
}

/// Calls `indexed_iter` of `ndarray` and copies out each index with its
/// cell. The contract claims that the cells come row by row, each row from
/// left to right.
#[verifier::external_body]
pub(crate) fn indexed_cells(m: &Marks) -> (cells: Vec<((usize, usize), u64)>)
    requires
        marks_rows(*m).len() > 0,
        marks_rows(*m)[0].len() > 0,
        binary_grid(marks_rows(*m), marks_rows(*m)[0].len()),
    ensures
        cells@.len() == marks_rows(*m).len() * marks_rows(*m)[0].len(),
        forall|d: int, t: int|
            0 <= d < marks_rows(*m).len() && 0 <= t < marks_rows(*m)[0].len()
                ==> #[trigger] cells@[d * marks_rows(*m)[0].len() + t] == (
                (d as usize, t as usize),
                marks_rows(*m)[d][t],
            ),
{
    m.inner.indexed_iter().map(|(index, cell)| (index, *cell)).collect()
}

/// Calls `itertools::max`. The contract claims that it returns nothing for
/// an empty list and else an item of the list that no other exceeds.
#[verifier::external_body]
pub(crate) fn largest(values: &Vec<u64>) -> (r: Option<u64>)
    ensures
        values@.len() == 0 <==> r is None,
        r matches Some(m) ==> values@.contains(m) && forall|i: int|
            0 <= i < values@.len() ==> values@[i] <= m,
{
    itertools::max(values.iter().copied())
}

/// Calls `itertools::min`. The contract claims that it returns nothing for
/// an empty list and else an item of the list that exceeds no other.
#[verifier::external_body]
pub(crate) fn smallest(values: &Vec<usize>) -> (r: Option<usize>)
    ensures
        values@.len() == 0 <==> r is None,
        r matches Some(m) ==> values@.contains(m) && forall|i: int|
            0 <= i < values@.len() ==> m <= values@[i],
{
    itertools::min(values.iter().copied())
}

} // verus!
