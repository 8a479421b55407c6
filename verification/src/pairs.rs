//! Lists of pairs, each a detection (a row of the overlap matrix) and a
//! track (a column).

use vstd::prelude::*;

verus! {

/// Every pair lies inside a matrix with `rows` rows and `cols` columns.
pub open spec fn pairs_within(pairs: Seq<(usize, usize)>, rows: nat, cols: nat) -> bool {
    forall|k: int| 0 <= k < pairs.len() ==> (#[trigger] pairs[k]).0 < rows && pairs[k].1 < cols
}

/// No detection and no track occurs in two pairs.
pub open spec fn is_matching(pairs: Seq<(usize, usize)>) -> bool {
    forall|i: int, j: int|
        0 <= i < j < pairs.len() ==> {
            &&& (#[trigger] pairs[i]).0 != (#[trigger] pairs[j]).0
            &&& pairs[i].1 != pairs[j].1
        }
}

/// The detections of a list of pairs.
pub open spec fn dets_of(pairs: Seq<(usize, usize)>) -> Seq<usize> {
    pairs.map_values(|p: (usize, usize)| p.0)
}

/// The tracks of a list of pairs.
pub open spec fn tracks_of(pairs: Seq<(usize, usize)>) -> Seq<usize> {
    pairs.map_values(|p: (usize, usize)| p.1)
}

/// Whether cell `a` comes before cell `b` when the rows are read from the
/// top and each row from the left.
pub open spec fn comes_before(a: (usize, usize), b: (usize, usize)) -> bool {
    a.0 < b.0 || (a.0 == b.0 && a.1 < b.1)
}

} // verus!
