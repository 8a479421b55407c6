//! Which detection belongs to which track: from the matrix of overlaps
//! between the detections of a frame and the predicted boxes of the tracks
//! to the matched pairs and to the detections and tracks left over.

use vstd::prelude::*;
use crate::assignment::solution_valid;
use crate::assignment::solved_pairs;
use crate::assignment::square_side;
use crate::assignment::Solution;
use crate::error::MotionTrackError;
use crate::ieee::lt;
use crate::ieee::lt_spec;
use crate::matrix::Matrix;
use crate::matrix::MatrixView;
use crate::pairs::dets_of;
use crate::pairs::is_matching;
use crate::pairs::pairs_within;
use crate::pairs::tracks_of;
use crate::seqs::lemma_filter_members;
use crate::seqs::lemma_filter_no_duplicates;
use crate::seqs::lemma_filter_nothing;
use crate::seqs::lemma_filter_step;
use crate::seqs::lemma_map_members;
use crate::sort::Sort;
use crate::sparse::direct_candidates;
use crate::sparse::pairs_above;
use crate::sparse::too_large;
use crate::sparse::unambiguous;

verus! {

/// Whether the overlap of detection `d` and track `t` is below the
/// threshold.
pub open spec fn below(iou: MatrixView, threshold: u64, d: int, t: int) -> bool {
    lt_spec(iou.cells[d][t], threshold)
}

/// Whether the overlap of detection `d` with every track is below the
/// threshold.
pub open spec fn below_every_track(iou: MatrixView, threshold: u64, d: int) -> bool {
    forall|t: int| 0 <= t < iou.cols ==> #[trigger] below(iou, threshold, d, t)
}

/// The outcome of matching the detections of a frame with the tracks.
#[derive(Debug)]
pub struct Association {
    /// The matched pairs, each a detection and a track.
    pub matches: Vec<(usize, usize)>,
    /// The detections that no track was matched with.
    pub unmatched_dets: Vec<usize>,
    /// The tracks that no detection was matched with.
    pub unmatched_tracks: Vec<usize>,
}

/// Whether a usable solution came with the overlaps.
pub open spec fn solution_usable(iou: MatrixView, solution: Option<Solution>) -> bool {
    solution matches Some(s) && solution_valid(square_side(iou.rows(), iou.cols), s.rows@, s.cols@)
}

/// The candidate pairs. Where the overlaps are unambiguous they are the
/// cells above the threshold; elsewhere they are the pairs of the solution.
pub open spec fn candidates(iou: MatrixView, threshold: u64, solution: Option<Solution>) -> Seq<
    (usize, usize),
> {
    if unambiguous(iou, threshold) {
        pairs_above(iou, threshold)
    } else {
        match solution {
            Some(s) => solved_pairs(iou.rows(), iou.cols, s.rows@),
            None => Seq::empty(),
        }
    }
}

/// The pairs whose overlap is below the threshold.
pub open spec fn rejected_in(iou: MatrixView, threshold: u64) -> spec_fn((usize, usize)) -> bool {
    |p: (usize, usize)| below(iou, threshold, p.0 as int, p.1 as int)
}

/// The pairs whose overlap is not below the threshold.
pub open spec fn kept_in(iou: MatrixView, threshold: u64) -> spec_fn((usize, usize)) -> bool {
    |p: (usize, usize)| !below(iou, threshold, p.0 as int, p.1 as int)
}

/// The matches: the candidates whose overlap is not below the threshold, in
/// the order of the candidates.
pub open spec fn matches_of(iou: MatrixView, threshold: u64, cand: Seq<(usize, usize)>) -> Seq<
    (usize, usize),
> {
    cand.filter(kept_in(iou, threshold))
}

/// The unmatched detections: first those of no candidate, in rising order,
/// then those of the rejected candidates, in the order of the candidates.
pub open spec fn unmatched_dets_of(
    iou: MatrixView,
    threshold: u64,
    cand: Seq<(usize, usize)>,
) -> Seq<usize> {
    indices(iou.rows()).filter(free_of(dets_of(cand))) + dets_of(
        cand.filter(rejected_in(iou, threshold)),
    )
}

/// The unmatched tracks: first those of no candidate, in rising order, then
/// those of the rejected candidates, in the order of the candidates.
pub open spec fn unmatched_tracks_of(
    iou: MatrixView,
    threshold: u64,
    cand: Seq<(usize, usize)>,
) -> Seq<usize> {
    indices(iou.cols).filter(free_of(tracks_of(cand))) + tracks_of(
        cand.filter(rejected_in(iou, threshold)),
    )
}

impl Association {
    /// Every detection below `dets` is either matched once or unmatched
    /// once, and so is every track below `tracks`.
    pub open spec fn splits(&self, dets: nat, tracks: nat) -> bool {
        splits(self.matches@, self.unmatched_dets@, self.unmatched_tracks@, dets, tracks)
    }
}

fn firsts(pairs: &Vec<(usize, usize)>) -> (out: Vec<usize>)
    ensures
        out@ == dets_of(pairs@),
{
    let mut out: Vec<usize> = Vec::new();
    let mut k: usize = 0;
    while k < pairs.len()
        invariant
            k <= pairs@.len(),
            out@ == dets_of(pairs@.take(k as int)),
        decreases pairs@.len() - k,
    {
        out.push(pairs[k].0);
        assert(dets_of(pairs@.take(k + 1)) =~= dets_of(pairs@.take(k as int)).push(
            pairs@[k as int].0,
        ));
        k += 1;
    }
    out
}

fn seconds(pairs: &Vec<(usize, usize)>) -> (out: Vec<usize>)
    ensures
        out@ == tracks_of(pairs@),
{
    let mut out: Vec<usize> = Vec::new();
    let mut k: usize = 0;
    while k < pairs.len()
        invariant
            k <= pairs@.len(),
            out@ == tracks_of(pairs@.take(k as int)),
        decreases pairs@.len() - k,
    {
        out.push(pairs[k].1);
        assert(tracks_of(pairs@.take(k + 1)) =~= tracks_of(pairs@.take(k as int)).push(
            pairs@[k as int].1,
        ));
        k += 1;
    }
    out
}

/// The numbers from 0 up to `count`, `count` left out.
pub open spec fn indices(count: nat) -> Seq<usize> {
    Seq::new(count, |i: int| i as usize)
}

/// The numbers that `claimed` does not hold.
pub open spec fn free_of(claimed: Seq<usize>) -> spec_fn(usize) -> bool {
    |i: usize| !claimed.contains(i)
}

fn holds(list: &Vec<usize>, wanted: usize) -> (r: bool)
    ensures
        r == list@.contains(wanted),
{
    let mut k: usize = 0;
    while k < list.len()
        invariant
            k <= list@.len(),
            forall|i: int| 0 <= i < k ==> list@[i] != wanted,
        decreases list@.len() - k,
    {
        if list[k] == wanted {
            return true;
        }
        k += 1;
    }
    false
}

/// The numbers below `count` that `claimed` does not hold, in rising order.
fn unclaimed(count: usize, claimed: &Vec<usize>) -> (out: Vec<usize>)
    ensures
        out@ == indices(count as nat).filter(free_of(claimed@)),
        forall|k: int|
            0 <= k < out@.len() ==> (#[trigger] out@[k]) < count && !claimed@.contains(out@[k]),
        forall|i: int, j: int| 0 <= i < j < out@.len() ==> out@[i] < out@[j],
        forall|i: usize| i < count && !claimed@.contains(i) ==> out@.contains(i),
{
    let ghost all = indices(count as nat);
    let ghost keep = free_of(claimed@);
    let mut out: Vec<usize> = Vec::new();
    let mut i: usize = 0;
    proof {
        lemma_filter_nothing(all, keep);
    }
    while i < count
        invariant
            i <= count,
            all == indices(count as nat),
            keep == free_of(claimed@),
            out@ == all.take(i as int).filter(keep),
            forall|k: int|
                0 <= k < out@.len() ==> (#[trigger] out@[k]) < i && !claimed@.contains(out@[k]),
            forall|a: int, b: int| 0 <= a < b < out@.len() ==> out@[a] < out@[b],
            forall|j: usize| j < i && !claimed@.contains(j) ==> out@.contains(j),
        decreases count - i,
    {
        proof {
            lemma_filter_step(all, i as int, keep);
        }
        let ghost before = out@;
        if !holds(claimed, i) {
            out.push(i);
            proof {
                assert(out@[before.len() as int] == i);
                assert forall|j: usize| j < i + 1 && !claimed@.contains(j) implies out@.contains(
                    j,
                ) by {
                    if j < i {
                        let k = choose|k: int| 0 <= k < before.len() && before[k] == j;
                        assert(out@[k] == j);
                    }
                }
            }
        }
        i += 1;
    }
    assert(all.take(count as int) =~= all);
    out
}

/// What is left over on one side of the candidates and what is taken are
/// two halves: nothing occurs twice among the left-over, and a number is
/// left over exactly if it is in range and not taken.
proof fn lemma_leftover(
    cand: Seq<(usize, usize)>,
    side: spec_fn((usize, usize)) -> usize,
    count: nat,
    kept: spec_fn((usize, usize)) -> bool,
    rejected: spec_fn((usize, usize)) -> bool,
)
    requires
        count <= usize::MAX,
        forall|k: int| 0 <= k < cand.len() ==> side(#[trigger] cand[k]) < count,
        forall|i: int, j: int|
            0 <= i < j < cand.len() ==> side(#[trigger] cand[i]) != side(#[trigger] cand[j]),
        forall|p: (usize, usize)| #[trigger] rejected(p) == !kept(p),
    ensures
        ({
            let left = indices(count).filter(free_of(cand.map_values(side))) + cand.filter(
                rejected,
            ).map_values(side);
            let taken = cand.filter(kept).map_values(side);
            &&& left.no_duplicates()
            &&& taken.no_duplicates()
            &&& forall|d: usize| #[trigger] left.contains(d) <==> d < count && !taken.contains(d)
        }),
{
    let claimed = cand.map_values(side);
    let all = indices(count);
    let free = all.filter(free_of(claimed));
    let turned = cand.filter(rejected);
    let held = cand.filter(kept);
    let turned_side = turned.map_values(side);
    let taken = held.map_values(side);
    let left = free + turned_side;
    lemma_filter_members(all, free_of(claimed));
    lemma_filter_members(cand, rejected);
    lemma_filter_members(cand, kept);
    lemma_map_members(cand, side);
    lemma_map_members(turned, side);
    lemma_map_members(held, side);
    lemma_filter_no_duplicates(all, free_of(claimed));
    lemma_filter_no_duplicates(cand, rejected);
    lemma_filter_no_duplicates(cand, kept);
    // two items of the candidates with the same side are one item
    assert forall|p: (usize, usize), q: (usize, usize)|
        cand.contains(p) && cand.contains(q) && side(p) == side(q) implies p == q by {}
    assert forall|i: int, j: int| 0 <= i < j < turned_side.len() implies turned_side[i]
        != turned_side[j] by {
        assert(turned.contains(turned[i]) && turned.contains(turned[j]));
    }
    assert forall|i: int, j: int| 0 <= i < j < taken.len() implies taken[i] != taken[j] by {
        assert(held.contains(held[i]) && held.contains(held[j]));
    }
    assert forall|i: int, j: int| 0 <= i < free.len() && 0 <= j < turned_side.len() implies free[i]
        != turned_side[j] by {
        assert(turned.contains(turned[j]));
    }
    vstd::seq_lib::lemma_no_dup_in_concat(free, turned_side);
    assert forall|d: usize| #[trigger] left.contains(d) <==> d < count && !taken.contains(d) by {
        if left.contains(d) {
            let i = choose|i: int| 0 <= i < left.len() && left[i] == d;
            if i < free.len() {
                assert(free.contains(d));
                if taken.contains(d) {
                    let h = choose|h: int| 0 <= h < held.len() && side(held[h]) == d;
                    assert(held.contains(held[h]));
                }
            } else {
                let j = i - free.len();
                assert(turned.contains(turned[j]));
                if taken.contains(d) {
                    let h = choose|h: int| 0 <= h < held.len() && side(held[h]) == d;
                    assert(held.contains(held[h]));
                }
            }
        }
        if d < count && !taken.contains(d) {
            if claimed.contains(d) {
                let k = choose|k: int| 0 <= k < cand.len() && side(cand[k]) == d;
                if kept(cand[k]) {
                    assert(held.contains(cand[k]));
                }
                assert(turned.contains(cand[k]));
                let j = choose|j: int| 0 <= j < turned.len() && turned[j] == cand[k];
                assert(left[free.len() + j] == d);
            } else {
                assert(all[d as int] == d);
                assert(free.contains(d));
                let i = choose|i: int| 0 <= i < free.len() && free[i] == d;
                assert(left[i] == d);
            }
        }
    }
}

/// Whether three lists split the detections below `dets` and the tracks
/// below `tracks`: the matches pair no detection and no track twice, and a
/// detection or track is unmatched exactly if it is in range and in no
/// match; nothing is listed twice.
pub open spec fn splits(
    matches: Seq<(usize, usize)>,
    unmatched_dets: Seq<usize>,
    unmatched_tracks: Seq<usize>,
    dets: nat,
    tracks: nat,
) -> bool {
    &&& pairs_within(matches, dets, tracks)
    &&& is_matching(matches)
    &&& unmatched_dets.no_duplicates()
    &&& unmatched_tracks.no_duplicates()
    &&& forall|d: usize| #[trigger]
        unmatched_dets.contains(d) <==> d < dets && !dets_of(matches).contains(d)
    &&& forall|t: usize| #[trigger]
        unmatched_tracks.contains(t) <==> t < tracks && !tracks_of(matches).contains(t)
}

/// Whatever the candidates, as long as they lie inside the matrix and pair
/// nothing twice: every detection ends up in exactly one place, matched or
/// unmatched, and so does every track.
pub proof fn lemma_association_splits(iou: MatrixView, threshold: u64, cand: Seq<(usize, usize)>)
    requires
        iou.rows() <= usize::MAX,
        iou.cols <= usize::MAX,
        pairs_within(cand, iou.rows(), iou.cols),
        is_matching(cand),
    ensures
        splits(
            matches_of(iou, threshold, cand),
            unmatched_dets_of(iou, threshold, cand),
            unmatched_tracks_of(iou, threshold, cand),
            iou.rows(),
            iou.cols,
        ),
        forall|k: int|
            0 <= k < matches_of(iou, threshold, cand).len() ==> !below(
                iou,
                threshold,
                (#[trigger] matches_of(iou, threshold, cand)[k]).0 as int,
                matches_of(iou, threshold, cand)[k].1 as int,
            ),
{
    let kept = kept_in(iou, threshold);
    let rejected = rejected_in(iou, threshold);
    let matches = matches_of(iou, threshold, cand);
    let det_side = |p: (usize, usize)| p.0;
    let track_side = |p: (usize, usize)| p.1;
    lemma_leftover(cand, det_side, iou.rows(), kept, rejected);
    lemma_leftover(cand, track_side, iou.cols, kept, rejected);
    lemma_filter_members(cand, kept);
    assert forall|k: int| 0 <= k < matches.len() implies {
        &&& (#[trigger] matches[k]).0 < iou.rows()
        &&& matches[k].1 < iou.cols
        &&& kept(matches[k])
    } by {
        assert(matches.contains(matches[k]));
    }
    assert forall|i: int, j: int| 0 <= i < j < matches.len() implies {
        &&& (#[trigger] matches[i]).0 != (#[trigger] matches[j]).0
        &&& matches[i].1 != matches[j].1
    } by {
        assert(dets_of(matches)[i] != dets_of(matches)[j]);
        assert(tracks_of(matches)[i] != tracks_of(matches)[j]);
    }
}

/// A detection whose overlap with every track is below the threshold is
/// unmatched, whatever the candidates and whatever else is matched.
pub proof fn lemma_low_overlap_is_unmatched(
    iou: MatrixView,
    threshold: u64,
    cand: Seq<(usize, usize)>,
)
    requires
        iou.rows() <= usize::MAX,
        pairs_within(cand, iou.rows(), iou.cols),
    ensures
        forall|d: usize|
            d < iou.rows() && below_every_track(iou, threshold, d as int)
                ==> #[trigger] unmatched_dets_of(iou, threshold, cand).contains(d),
{
    let rejected = rejected_in(iou, threshold);
    let all = indices(iou.rows());
    let claimed = dets_of(cand);
    let free = all.filter(free_of(claimed));
    let turned = cand.filter(rejected);
    let left = unmatched_dets_of(iou, threshold, cand);
    lemma_filter_members(all, free_of(claimed));
    lemma_filter_members(cand, rejected);
    assert forall|du: usize|
        du < iou.rows() && below_every_track(iou, threshold, du as int)
        implies #[trigger] left.contains(du) by {
        let d = du as int;
        if claimed.contains(du) {
            let k = choose|k: int| 0 <= k < claimed.len() && claimed[k] == du;
            let p = cand[k];
            assert(turned.contains(p));
            let j = choose|j: int| 0 <= j < turned.len() && turned[j] == p;
            assert(left[free.len() + j] == du);
        } else {
            assert(all[d] == du);
            assert(free.contains(du));
            let i = choose|i: int| 0 <= i < free.len() && free[i] == du;
            assert(left[i] == du);
        }
    }
}

impl Sort {
    /// Matches the detections of a frame with the tracks. `iou` holds the
    /// overlap of every detection (a row) with every track (a column).
    ///
    /// Where no detection is above the threshold with two tracks and no track
    /// with two detections, the pairs above the threshold are the candidates.
    /// Elsewhere the candidates are the pairs of `solution`, which the caller
    /// got from a solver for the cost matrix of `assignment_costs`. A candidate
    /// whose overlap is below the threshold is rejected: its detection and its
    /// track are unmatched, as are those of no candidate.
    ///
    /// Fails with `ShapeError` if `iou` has more cells than an array can hold,
    /// and with `LapJVError` if a solution is needed and none that is usable
    /// came.
    pub fn associate_dets(iou: &Matrix, threshold: u64, solution: Option<Solution>) -> (r: Result<
        Association,
        MotionTrackError,
    >)
        ensures
            r is Err <==> too_large(iou@) || (!unambiguous(iou@, threshold) && !solution_usable(
                iou@,
                solution,
            )),
            r matches Err(e) ==> e == (if too_large(iou@) {
                MotionTrackError::ShapeError
            } else {
                MotionTrackError::LapJVError
            }),
            r matches Ok(a) ==> {
                &&& a.matches@ == matches_of(iou@, threshold, candidates(iou@, threshold, solution))
                &&& a.unmatched_dets@ == unmatched_dets_of(
                    iou@,
                    threshold,
                    candidates(iou@, threshold, solution),
                )
                &&& a.unmatched_tracks@ == unmatched_tracks_of(
                    iou@,
                    threshold,
                    candidates(iou@, threshold, solution),
                )
                &&& a.splits(iou@.rows(), iou@.cols)
                &&& forall|k: int|
                    0 <= k < a.matches@.len() ==> !below(
                        iou@,
                        threshold,
                        (#[trigger] a.matches@[k]).0 as int,
                        a.matches@[k].1 as int,
                    )
                &&& forall|d: usize|
                    d < iou@.rows() && below_every_track(iou@, threshold, d as int)
                        ==> #[trigger] a.unmatched_dets@.contains(d)
            },
    {
        let rows = iou.rows();
        let cols = iou.cols();
        let cand = match direct_candidates(iou, threshold) {
            Err(e) => {
                return Err(e);
            },
            Ok(Some(pairs)) => pairs,
            Ok(None) => match &solution {
                None => {
                    return Err(MotionTrackError::LapJVError);
                },
                Some(s) => match Sort::linear_assignment(rows, cols, &s.rows, &s.cols) {
                    Err(e) => {
                        return Err(e);
                    },
                    Ok(pairs) => pairs,
                },
            },
        };
        let ghost kept = kept_in(iou@, threshold);
        let ghost rejected = rejected_in(iou@, threshold);
        let cand_dets = firsts(&cand);
        let cand_tracks = seconds(&cand);
        let mut unmatched_dets = unclaimed(rows, &cand_dets);
        let mut unmatched_tracks = unclaimed(cols, &cand_tracks);
        let ghost free_dets = unmatched_dets@;
        let ghost free_tracks = unmatched_tracks@;
        let mut matches: Vec<(usize, usize)> = Vec::new();
        let mut k: usize = 0;
        proof {
            lemma_filter_nothing(cand@, kept);
            lemma_filter_nothing(cand@, rejected);
        }
        while k < cand.len()
            invariant
                k <= cand@.len(),
                rows == iou@.rows(),
                cols == iou@.cols,
                pairs_within(cand@, rows as nat, cols as nat),
                kept == kept_in(iou@, threshold),
                rejected == rejected_in(iou@, threshold),
                matches@ == cand@.take(k as int).filter(kept),
                unmatched_dets@ == free_dets + dets_of(cand@.take(k as int).filter(rejected)),
                unmatched_tracks@ == free_tracks + tracks_of(cand@.take(k as int).filter(rejected)),
            decreases cand@.len() - k,
        {
            let (d, t) = cand[k];
            proof {
                lemma_filter_step(cand@, k as int, kept);
                lemma_filter_step(cand@, k as int, rejected);
            }
            if lt(iou.get(d, t), threshold) {
                unmatched_dets.push(d);
                unmatched_tracks.push(t);
            } else {
                matches.push((d, t));
            }
            k += 1;
        }
        proof {
            assert(cand@.take(cand@.len() as int) =~= cand@);
            lemma_association_splits(iou@, threshold, cand@);
            lemma_low_overlap_is_unmatched(iou@, threshold, cand@);
        }
        Ok(Association { matches, unmatched_dets, unmatched_tracks })
    }
}

} // verus!
