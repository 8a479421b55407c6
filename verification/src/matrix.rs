//! A dense matrix of binary64 bit patterns with a fixed shape.

use vstd::prelude::*;
use crate::ieee::{ONE, ZERO};

verus! {

fn copy_cells(cells: &Vec<u64>) -> (r: Vec<u64>)
    ensures
        r@ == cells@,
{
    let mut out: Vec<u64> = Vec::new();
    let mut i: usize = 0;
    while i < cells.len()
        invariant
            i <= cells@.len(),
            out@ == cells@.take(i as int),
        decreases cells@.len() - i,
    {
        out.push(cells[i]);
        i += 1;
    }
    out
}

/// What a matrix is: its rows from top to bottom, and its number of
/// columns, which a matrix without rows still has.
pub struct MatrixView {
    pub cells: Seq<Seq<u64>>,
    pub cols: nat,
}

impl MatrixView {
    /// The number of rows.
    pub open spec fn rows(self) -> nat {
        self.cells.len()
    }

    /// Whether the shape is `rows` by `cols`.
    pub open spec fn has_shape(self, rows: nat, cols: nat) -> bool {
        self.rows() == rows && self.cols == cols
    }

    /// Every row has `cols` cells.
    pub open spec fn rectangular(self) -> bool {
        forall|i: int| 0 <= i < self.cells.len() ==> (#[trigger] self.cells[i]).len() == self.cols
    }

    /// The matrix of the given shape whose every cell is `value`.
    pub open spec fn filled(rows: nat, cols: nat, value: u64) -> MatrixView {
        MatrixView { cells: Seq::new(rows, |i: int| Seq::new(cols, |j: int| value)), cols }
    }

    /// The square matrix with `diagonal` on the main diagonal and `rest`
    /// everywhere else.
    pub open spec fn diagonal(n: nat, diagonal: u64, rest: u64) -> MatrixView {
        MatrixView {
            cells: Seq::new(
                n,
                |i: int| Seq::new(n, |j: int| if i == j { diagonal } else { rest }),
            ),
            cols: n,
        }
    }

    /// The same matrix with the cell in row `i` and column `j` replaced.
    pub open spec fn with_cell(self, i: int, j: int, value: u64) -> MatrixView {
        MatrixView { cells: self.cells.update(i, self.cells[i].update(j, value)), cols: self.cols }
    }
}

/// A matrix with a fixed number of rows and columns. Each cell holds the bit
/// pattern of a binary64 value.
#[derive(Debug, PartialEq, Eq)]
pub struct Matrix {
    cells: Vec<Vec<u64>>,
    cols: usize,
}

impl View for Matrix {
    type V = MatrixView;

    closed spec fn view(&self) -> MatrixView {
        MatrixView {
            cells: Seq::new(self.cells@.len(), |i: int| self.cells@[i]@),
            cols: self.cols as nat,
        }
    }
}

impl Clone for Matrix {
    fn clone(&self) -> (m: Matrix)
        ensures
            m@ == self@,
            m.wf(),
    {
        proof {
            use_type_invariant(self);
        }
        let cells = self.to_rows();
        let m = Matrix { cells, cols: self.cols };
        assert(m@.cells =~= self@.cells);
        m
    }
}

impl Matrix {
    #[verifier::type_invariant]
    spec fn rows_are_full(self) -> bool {
        forall|i: int|
            0 <= i < self.cells@.len() ==> (#[trigger] self.cells@[i])@.len() == self.cols
    }

    /// Every row has as many cells as the matrix has columns. This holds of
    /// every matrix: the functions that read one say so.
    pub open spec fn wf(&self) -> bool {
        self@.rectangular() && self@.cols <= usize::MAX
    }

    /// The matrix of the given shape whose every cell is `value`.
    pub fn filled(rows: usize, cols: usize, value: u64) -> (m: Matrix)
        ensures
            m.wf(),
            m@ == MatrixView::filled(rows as nat, cols as nat, value),
    {
        let mut cells: Vec<Vec<u64>> = Vec::new();
        let mut i: usize = 0;
        while i < rows
            invariant
                i <= rows,
                cells@.len() == i,
                forall|k: int|
                    0 <= k < i ==> (#[trigger] cells@[k])@ == Seq::new(cols as nat, |j: int| value),
            decreases rows - i,
        {
            let mut row: Vec<u64> = Vec::new();
            let mut j: usize = 0;
            while j < cols
                invariant
                    j <= cols,
                    row@.len() == j,
                    forall|k: int| 0 <= k < j ==> row@[k] == value,
                decreases cols - j,
            {
                row.push(value);
                j += 1;
            }
            cells.push(row);
            i += 1;
        }
        let m = Matrix { cells, cols };
        assert(m@.cells =~= MatrixView::filled(rows as nat, cols as nat, value).cells);
        m
    }

    /// The matrix of the given shape whose every cell is `+0.0`.
    pub fn zeros(rows: usize, cols: usize) -> (m: Matrix)
        ensures
            m.wf(),
            m@ == MatrixView::filled(rows as nat, cols as nat, ZERO),
    {
        Matrix::filled(rows, cols, ZERO)
    }

    /// The matrix of the given shape whose every cell is `1.0`.
    pub fn ones(rows: usize, cols: usize) -> (m: Matrix)
        ensures
            m.wf(),
            m@ == MatrixView::filled(rows as nat, cols as nat, ONE),
    {
        Matrix::filled(rows, cols, ONE)
    }

    /// The square matrix with `diagonal` on the main diagonal and `rest`
    /// everywhere else.
    pub fn diagonal(n: usize, diagonal: u64, rest: u64) -> (m: Matrix)
        ensures
            m.wf(),
            m@ == MatrixView::diagonal(n as nat, diagonal, rest),
    {
        let mut m = Matrix::filled(n, n, rest);
        let mut i: usize = 0;
        while i < n
            invariant
                i <= n,
                m.wf(),
                m@.has_shape(n as nat, n as nat),
                forall|r: int, c: int|
                    0 <= r < n && 0 <= c < n ==> #[trigger] m@.cells[r][c] == (if r == c && r < i {
                        diagonal
                    } else {
                        rest
                    }),
            decreases n - i,
        {
            m.set(i, i, diagonal);
            i += 1;
        }
        proof {
            let want = MatrixView::diagonal(n as nat, diagonal, rest);
            assert forall|r: int| 0 <= r < n implies #[trigger] m@.cells[r] =~= want.cells[r] by {
                assert forall|c: int| 0 <= c < n implies m@.cells[r][c] == want.cells[r][c] by {}
            }
            assert(m@.cells =~= want.cells);
        }
        m
    }

    /// The identity matrix of size `n`.
    pub fn eye(n: usize) -> (m: Matrix)
        ensures
            m.wf(),
            m@ == MatrixView::diagonal(n as nat, ONE, ZERO),
    {
        Matrix::diagonal(n, ONE, ZERO)
    }

    /// The matrix with the given rows, each of which must have `cols` cells;
    /// `None` if one of them has not.
    pub fn from_rows(cols: usize, cells: Vec<Vec<u64>>) -> (r: Option<Matrix>)
        ensures
            r is Some <==> (forall|i: int|
                0 <= i < cells@.len() ==> (#[trigger] cells@[i])@.len() == cols),
            r matches Some(m) ==> {
                &&& m.wf()
                &&& m@.cols == cols
                &&& m@.cells == Seq::new(cells@.len(), |i: int| cells@[i]@)
            },
    {
        let mut i: usize = 0;
        while i < cells.len()
            invariant
                i <= cells@.len(),
                forall|k: int| 0 <= k < i ==> (#[trigger] cells@[k])@.len() == cols,
            decreases cells@.len() - i,
        {
            if cells[i].len() != cols {
                return None;
            }
            i += 1;
        }
        Some(Matrix { cells, cols })
    }

    /// The column vector with the given cells from top to bottom.
    pub fn column(values: &Vec<u64>) -> (m: Matrix)
        ensures
            m.wf(),
            m@.has_shape(values@.len(), 1),
            forall|i: int| 0 <= i < values@.len() ==> #[trigger] m@.cells[i] == seq![values@[i]],
    {
        let mut cells: Vec<Vec<u64>> = Vec::new();
        let mut i: usize = 0;
        while i < values.len()
            invariant
                i <= values@.len(),
                cells@.len() == i,
                forall|k: int| 0 <= k < i ==> (#[trigger] cells@[k])@ == seq![values@[k]],
            decreases values@.len() - i,
        {
            let mut row: Vec<u64> = Vec::new();
            row.push(values[i]);
            cells.push(row);
            i += 1;
        }
        Matrix { cells, cols: 1 }
    }

    /// The rows from top to bottom.
    pub fn to_rows(&self) -> (r: Vec<Vec<u64>>)
        ensures
            r@.len() == self@.rows(),
            forall|i: int| 0 <= i < r@.len() ==> (#[trigger] r@[i])@ == self@.cells[i],
            self.wf(),
    {
        proof {
            use_type_invariant(self);
        }
        let mut out: Vec<Vec<u64>> = Vec::new();
        let mut i: usize = 0;
        while i < self.cells.len()
            invariant
                i <= self.cells@.len(),
                out@.len() == i,
                forall|k: int| 0 <= k < i ==> (#[trigger] out@[k])@ == self.cells@[k]@,
            decreases self.cells@.len() - i,
        {
            let row = copy_cells(&self.cells[i]);
            out.push(row);
            i += 1;
        }
        out
    }

    /// Whether the shape is `rows` by `cols`.
    pub fn has_shape(&self, rows: usize, cols: usize) -> (r: bool)
        ensures
            r == self@.has_shape(rows as nat, cols as nat),
            self.wf(),
    {
        proof {
            use_type_invariant(self);
        }
        self.cells.len() == rows && self.cols == cols
    }

    /// The number of rows.
    pub fn rows(&self) -> (r: usize)
        ensures
            r == self@.rows(),
            self.wf(),
    {
        proof {
            use_type_invariant(self);
        }
        self.cells.len()
    }

    /// The number of columns.
    pub fn cols(&self) -> (r: usize)
        ensures
            r == self@.cols,
            self.wf(),
    {
        proof {
            use_type_invariant(self);
        }
        self.cols
    }

    /// The cell in row `i` and column `j`.
    pub fn get(&self, i: usize, j: usize) -> (r: u64)
        requires
            i < self@.rows(),
            j < self@.cols,
        ensures
            r == self@.cells[i as int][j as int],
            self.wf(),
    {
        proof {
            use_type_invariant(self);
        }
        self.cells[i][j]
    }

    /// Replaces the cell in row `i` and column `j`.
    pub fn set(&mut self, i: usize, j: usize, value: u64)
        requires
            i < old(self)@.rows(),
            j < old(self)@.cols,
        ensures
            final(self).wf(),
            final(self)@ == old(self)@.with_cell(i as int, j as int, value),
    {
        proof {
            use_type_invariant(&*self);
        }
        let mut cells: Vec<Vec<u64>> = Vec::new();
        std::mem::swap(&mut cells, &mut self.cells);
        cells[i][j] = value;
        self.cells = cells;
        assert(forall|k: int|
            0 <= k < self.cells@.len() ==> #[trigger] self@.cells[k] == self.cells@[k]@);
        assert(forall|k: int|
            0 <= k < self.cells@.len() ==> #[trigger] old(self)@.cells[k] == old(self).cells@[k]@);
        assert(self@.cells =~= old(self)@.with_cell(i as int, j as int, value).cells);
    }
}

/// Two matrices of one shape with the same cell at every place are the same
/// matrix.
pub(crate) proof fn lemma_same_cells(a: MatrixView, b: MatrixView)
    requires
        a.rectangular(),
        b.rectangular(),
        b.has_shape(a.rows(), a.cols),
        forall|i: int, j: int|
            0 <= i < a.rows() && 0 <= j < a.cols ==> #[trigger] a.cells[i][j] == b.cells[i][j],
    ensures
        a == b,
{
    assert forall|i: int| 0 <= i < a.rows() implies #[trigger] a.cells[i] =~= b.cells[i] by {
        assert forall|j: int| 0 <= j < a.cols implies a.cells[i][j] == b.cells[i][j] by {}
    }
    assert(a.cells =~= b.cells);
}

} // verus!
