//! An axis-aligned bounding box in corner form.

use vstd::prelude::*;
use crate::error::MotionTrackError;
use crate::ieee::eq;
use crate::ieee::eq_spec;
use crate::ieee::is_nan;
use crate::ieee::is_nan_spec;
use crate::matrix::Matrix;

verus! {

/// Whether one of the coordinates is a NaN.
pub open spec fn nan_in(coordinates: Seq<u64>) -> bool {
    exists|i: int| 0 <= i < coordinates.len() && is_nan_spec(#[trigger] coordinates[i])
}

/// A box given by two opposite corners `(x1, y1)` and `(x2, y2)`, each
/// coordinate a binary64 bit pattern.
#[derive(Clone, Copy, Debug)]
pub struct BBox {
    x1: u64,
    y1: u64,
    x2: u64,
    y2: u64,
}

impl View for BBox {
    type V = Seq<u64>;

    /// The four coordinates in the order `x1`, `y1`, `x2`, `y2`.
    closed spec fn view(&self) -> Seq<u64> {
        seq![self.x1, self.y1, self.x2, self.y2]
    }
}

impl PartialEq for BBox {
    /// Whether each coordinate equals its counterpart as a binary64 value:
    /// a NaN equals nothing, and the two zeros are equal.
    fn eq(&self, other: &BBox) -> (r: bool) {
        let r = eq(self.x1, other.x1) && eq(self.y1, other.y1) && eq(self.x2, other.x2) && eq(
            self.y2,
            other.y2,
        );
        proof {
            assert(self@[0] == self.x1 && self@[1] == self.y1 && self@[2] == self.x2 && self@[3]
                == self.y2);
            assert(other@[0] == other.x1 && other@[1] == other.y1 && other@[2] == other.x2
                && other@[3] == other.y2);
        }
        r
    }
}

impl vstd::std_specs::cmp::PartialEqSpecImpl for BBox {
    open spec fn obeys_eq_spec() -> bool {
        true
    }

    open spec fn eq_spec(&self, other: &BBox) -> bool {
        forall|i: int| 0 <= i < 4 ==> eq_spec(#[trigger] self@[i], other@[i])
    }
}

impl BBox {
    /// A box always has four coordinates.
    pub proof fn lemma_four_coordinates(&self)
        ensures
            self@.len() == 4,
    {
    }

    /// Whether a coordinate is a NaN.
    pub open spec fn has_nan_spec(&self) -> bool {
        nan_in(self@)
    }

    /// The box with the corners `(x1, y1)` and `(x2, y2)`.
    pub fn new(x1: u64, y1: u64, x2: u64, y2: u64) -> (b: BBox)
        ensures
            b@ == seq![x1, y1, x2, y2],
    {
        BBox { x1, y1, x2, y2 }
    }

    /// Coordinate `i` in the order `x1`, `y1`, `x2`, `y2`.
    pub fn get(&self, i: usize) -> (r: u64)
        requires
            i < 4,
        ensures
            r == self@[i as int],
    {
        if i == 0 {
            self.x1
        } else if i == 1 {
            self.y1
        } else if i == 2 {
            self.x2
        } else {
            self.y2
        }
    }

    /// The coordinates as a column: a matrix with four rows and one column.
    pub fn as_mat(&self) -> (m: Matrix)
        ensures
            m@.has_shape(4, 1),
            forall|i: int| 0 <= i < 4 ==> #[trigger] m@.cells[i] == seq![self@[i]],
    {
        let flat = self.coordinates();
        Matrix::column(&flat)
    }

    /// The coordinates as a list of four.
    pub fn as_mat1(&self) -> (r: Result<Vec<u64>, MotionTrackError>)
        ensures
            r matches Ok(flat) && flat@ == self@,
    {
        Ok(self.coordinates())
    }

    /// The box whose coordinates are the four items of `a`.
    ///
    /// Fails with `ShapeError` exactly if `a` does not hold four items.
    pub fn from_mat1(a: Vec<u64>) -> (r: Result<BBox, MotionTrackError>)
        ensures
            r is Ok <==> a@.len() == 4,
            r matches Ok(b) ==> b@ == a@,
            r matches Err(e) ==> e == MotionTrackError::ShapeError,
    {
        if a.len() != 4 {
            return Err(MotionTrackError::ShapeError);
        }
        let b = BBox { x1: a[0], y1: a[1], x2: a[2], y2: a[3] };
        Ok(b)
    }

    /// Whether a coordinate is a NaN.
    pub fn has_nan(&self) -> (r: bool)
        ensures
            r == self.has_nan_spec(),
    {
        let r = is_nan(self.x1) || is_nan(self.y1) || is_nan(self.x2) || is_nan(self.y2);
        proof {
            assert(self@[0] == self.x1 && self@[1] == self.y1 && self@[2] == self.x2 && self@[3]
                == self.y2);
        }
        r
    }

    fn coordinates(&self) -> (flat: Vec<u64>)
        ensures
            flat@ == self@,
    {
        let mut flat: Vec<u64> = Vec::new();
        flat.push(self.x1);
        flat.push(self.y1);
        flat.push(self.x2);
        flat.push(self.y2);
        flat
    }
}

} // verus!
