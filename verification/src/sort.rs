//! The registry of tracks and the steps of a frame.
//!
//! A frame goes through these steps in this order. The arithmetic between
//! them is the caller's.
//!
//! 1. `clamp` keeps the area of every track from going negative.
//! 2. `predict` counts the frame, takes in the prediction of every track and
//!    drops the tracks whose predicted box holds a NaN. It returns the boxes
//!    of the tracks that stay.
//! 3. `associate_dets` matches the detections with those boxes by their
//!    overlaps; `assignment_costs` says beforehand whether it needs a
//!    solution of the assignment problem.
//! 4. `apply_matches` takes in the matches.
//! 5. `spawn` makes a track for every unmatched detection.
//! 6. `report` lists the confirmed tracks and drops the stale ones.

use vstd::prelude::*;
use crate::bbox::nan_in;
use crate::bbox::BBox;
use crate::error::KalmanError;
use crate::error::MotionTrackError;
use crate::ieee::THREE_TENTHS;
use crate::ieee::ZERO;
use crate::ieee::le;
use crate::ieee::le_spec;
use crate::ieee::ONE;
use crate::kalman::Correction;
use crate::kalman::Innovation;
use crate::kalman::Prediction;
use crate::matrix::Matrix;
use crate::matrix::MatrixView;
use crate::seqs::lemma_filter_keeps_order;
use crate::seqs::lemma_filter_nothing;
use crate::seqs::lemma_filter_step;
use crate::tracker::initial_filter;
use crate::tracker::KalmanBoxTracker;
use crate::tracker::TrackView;

verus! {

/// The tracker: the tracks that are alive, the counters of frames and of
/// identities, and the three settings.
#[derive(Debug)]
pub struct Sort {
    max_age: u32,
    min_hits: u32,
    iou_threshold: u64,
    trackers: Vec<KalmanBoxTracker>,
    frame_count: u32,
    id_ctr: u32,
}

/// What a tracker is.
pub struct SortView {
    /// The frames that a track may go unmatched before it is dropped.
    pub max_age: u32,
    /// The matches in a row that a track needs to be reported once the
    /// first frames are over.
    pub min_hits: u32,
    /// The overlap that a match needs at least, a binary64 bit pattern.
    pub iou_threshold: u64,
    /// The tracks in the order in which they were made.
    pub trackers: Seq<TrackView>,
    /// The frames so far.
    pub frame_count: u32,
    /// The identity of the next track.
    pub id_ctr: u32,
}

impl View for Sort {
    type V = SortView;

    closed spec fn view(&self) -> SortView {
        SortView {
            max_age: self.max_age,
            min_hits: self.min_hits,
            iou_threshold: self.iou_threshold,
            trackers: Seq::new(self.trackers@.len(), |i: int| self.trackers@[i]@),
            frame_count: self.frame_count,
            id_ctr: self.id_ctr,
        }
    }
}

/// The prediction of one track: the state and covariance that the caller
/// predicted from the track's filter, and the box of that state.
#[derive(Debug)]
pub struct TrackPrediction {
    pub step: Prediction,
    pub bbox: BBox,
}

/// The match of one track: the measurement of the matched detection and
/// what the caller computed from it and the track's filter.
#[derive(Debug)]
pub struct TrackUpdate {
    pub z: Matrix,
    pub innovation: Innovation,
    pub correction: Option<Correction>,
}

/// Whether a prediction fits a track: a state of seven with its covariance.
pub open spec fn prediction_fits(p: TrackPrediction) -> bool {
    p.step.x@.has_shape(7, 1) && p.step.P@.has_shape(7, 7)
}

/// Whether there is one prediction for each of `count` tracks and each
/// fits.
pub open spec fn predictions_fit(steps: Seq<TrackPrediction>, count: nat) -> bool {
    &&& steps.len() == count
    &&& forall|i: int| 0 <= i < steps.len() ==> prediction_fits(#[trigger] steps[i])
}

/// Each track after a frame went by with its prediction.
pub open spec fn advanced(tracks: Seq<TrackView>, steps: Seq<TrackPrediction>) -> Seq<TrackView> {
    Seq::new(
        tracks.len(),
        |i: int| tracks[i].predicted(steps[i].step.x@, steps[i].step.P@, steps[i].bbox@),
    )
}

/// The tracks whose latest predicted box holds no NaN.
pub open spec fn usable() -> spec_fn(TrackView) -> bool {
    |t: TrackView| !nan_in(t.history.last())
}

/// The latest predicted box of each track.
pub open spec fn latest_boxes(tracks: Seq<TrackView>) -> Seq<Seq<u64>> {
    Seq::new(tracks.len(), |i: int| tracks[i].history.last())
}

/// Whether the results of a match fit a track.
pub open spec fn update_fits(u: TrackUpdate) -> bool {
    KalmanBoxTracker::fits(u.z@, u.innovation, u.correction)
}

/// Whether a list of matches can be taken in: there is one update for each
/// match and each fits, each matched track exists and has not been matched
/// since its last prediction, and no track is matched twice.
pub open spec fn matches_fit(
    tracks: Seq<TrackView>,
    matches: Seq<(usize, usize)>,
    updates: Seq<TrackUpdate>,
) -> bool {
    &&& updates.len() == matches.len()
    &&& forall|k: int|
        0 <= k < matches.len() ==> {
            &&& (#[trigger] matches[k]).1 < tracks.len()
            &&& tracks[matches[k].1 as int].time_since_update >= 1
            &&& update_fits(updates[k])
        }
    &&& forall|i: int, j: int|
        0 <= i < j < matches.len() ==> (#[trigger] matches[i]).1 != (#[trigger] matches[j]).1
}

/// Whether one of the first `count` matches is with track `t`.
pub open spec fn matched_among(matches: Seq<(usize, usize)>, count: int, t: int) -> bool {
    exists|j: int| 0 <= j < count && (#[trigger] matches[j]).1 == t
}

/// A track after it took a match in.
pub open spec fn after_match(track: TrackView, u: TrackUpdate) -> TrackView {
    track.updated(u.z@, u.innovation, u.correction)
}

/// Whether `after` holds the tracks of `before` once the first `count`
/// matches were taken in: each matched track took its match in, and every
/// other track is as it was.
pub open spec fn took_matches(
    before: Seq<TrackView>,
    after: Seq<TrackView>,
    matches: Seq<(usize, usize)>,
    updates: Seq<TrackUpdate>,
    count: int,
) -> bool {
    &&& after.len() == before.len()
    &&& forall|k: int|
        0 <= k < count ==> after[(#[trigger] matches[k]).1 as int] == after_match(
            before[matches[k].1 as int],
            updates[k],
        )
    &&& forall|t: int|
        0 <= t < before.len() && !matched_among(matches, count, t) ==> #[trigger] after[t]
            == before[t]
}

/// Whether every update comes with its correction.
pub open spec fn all_corrected(updates: Seq<TrackUpdate>) -> bool {
    forall|k: int| 0 <= k < updates.len() ==> (#[trigger] updates[k]).correction is Some
}

/// A confirmed track with its state.
#[derive(Debug)]
pub struct Reported {
    /// The state of the track, from which its box is derived.
    pub state: Matrix,
    /// The identity of the track.
    pub id: u32,
}

/// Whether a track is reported: it was matched in this frame, and either
/// its streak is long enough or the tracker is still in its first frames.
pub open spec fn confirmed(t: TrackView, min_hits: u32, frame_count: u32) -> bool {
    t.time_since_update < 1 && (t.hit_streak >= min_hits || frame_count <= min_hits)
}

/// The tracks that went unmatched for no more than `max_age` frames.
pub open spec fn alive(max_age: u32) -> spec_fn(TrackView) -> bool {
    |t: TrackView| !(t.time_since_update > max_age)
}

/// The state and identity of each confirmed track, the latest track first.
pub open spec fn reported_rows(tracks: Seq<TrackView>, min_hits: u32, frame_count: u32) -> Seq<
    (MatrixView, u32),
>
    decreases tracks.len(),
{
    if tracks.len() == 0 {
        Seq::empty()
    } else {
        let later = reported_rows(tracks.skip(1), min_hits, frame_count);
        if confirmed(tracks[0], min_hits, frame_count) {
            later.push((tracks[0].filter.x, tracks[0].id))
        } else {
            later
        }
    }
}

/// What a list of reports says: the state and identity of each.
pub open spec fn rows_of(reports: Seq<Reported>) -> Seq<(MatrixView, u32)> {
    Seq::new(reports.len(), |i: int| (reports[i].state@, reports[i].id))
}

/// The measurements as sequences.
pub open spec fn given(measurements: Seq<[u64; 4]>) -> Seq<Seq<u64>> {
    Seq::new(measurements.len(), |k: int| measurements[k]@)
}

/// A new track with the identity `id` for the measurement `z`.
pub open spec fn new_track(id: u32, z: Seq<u64>) -> TrackView {
    TrackView {
        filter: initial_filter(z),
        time_since_update: 0,
        history: Seq::empty(),
        hits: 0,
        hit_streak: 0,
        age: 0,
        id,
    }
}

impl SortView {
    /// The tracker after a track was made for each measurement, in their
    /// order: the first with the next identity, each further one with the
    /// one after.
    pub open spec fn spawned(self, measurements: Seq<Seq<u64>>) -> SortView {
        SortView {
            trackers: self.trackers + Seq::new(
                measurements.len(),
                |k: int| new_track((self.id_ctr + k) as u32, measurements[k]),
            ),
            id_ctr: (self.id_ctr + measurements.len()) as u32,
            ..self
        }
    }

    /// What holds of every tracker: each track is well formed and no older
    /// than the tracker, and the identities rise along the tracks and stay
    /// below the next one to give out, so no two tracks share one.
    pub open spec fn wf(self) -> bool {
        &&& forall|i: int|
            0 <= i < self.trackers.len() ==> {
                &&& (#[trigger] self.trackers[i]).wf()
                &&& self.trackers[i].age <= self.frame_count
                &&& self.trackers[i].id < self.id_ctr
            }
        &&& forall|i: int, j: int|
            0 <= i < j < self.trackers.len() ==> (#[trigger] self.trackers[i]).id < (
            #[trigger] self.trackers[j]).id
    }
}

impl Sort {
    /// Whether the tracker is well formed.
    pub open spec fn wf(&self) -> bool {
        self@.wf()
    }

    /// A tracker without tracks, with the usual settings: a track may go
    /// unmatched for 1 frame, needs 3 matches in a row, and a match needs an
    /// overlap of 0.3.
    pub fn new() -> (sort: Sort)
        ensures
            sort.wf(),
            sort@ == (SortView {
                max_age: 1,
                min_hits: 3,
                iou_threshold: THREE_TENTHS,
                trackers: Seq::empty(),
                frame_count: 0,
                id_ctr: 0,
            }),
    {
        let sort = Sort {
            id_ctr: 0,
            max_age: 1,
            min_hits: 3,
            iou_threshold: THREE_TENTHS,
            trackers: Vec::new(),
            frame_count: 0,
        };
        assert(sort@.trackers =~= Seq::<TrackView>::empty());
        sort
    }

    /// A tracker without tracks with the given settings. A track may go
    /// unmatched for `max_age` frames, needs `min_hits` matches in a row to
    /// be reported once the first `min_hits` frames are over, and a match
    /// needs an overlap of `iou_threshold`, a binary64 bit pattern.
    ///
    /// Returns nothing exactly if the threshold is not between 0 and 1.
    pub fn with_settings(max_age: u32, min_hits: u32, iou_threshold: u64) -> (r: Option<Sort>)
        ensures
            r is Some <==> le_spec(ZERO, iou_threshold) && le_spec(iou_threshold, ONE),
            r matches Some(sort) ==> sort.wf() && sort@ == (SortView {
                max_age,
                min_hits,
                iou_threshold,
                trackers: Seq::empty(),
                frame_count: 0,
                id_ctr: 0,
            }),
    {
        if !(le(ZERO, iou_threshold) && le(iou_threshold, ONE)) {
            return None;
        }
        let sort = Sort {
            id_ctr: 0,
            max_age,
            min_hits,
            iou_threshold,
            trackers: Vec::new(),
            frame_count: 0,
        };
        assert(sort@.trackers =~= Seq::<TrackView>::empty());
        Some(sort)
    }

    /// The frames that a track may go unmatched before it is dropped.
    pub fn max_age(&self) -> (r: u32)
        ensures
            r == self@.max_age,
    {
        self.max_age
    }

    /// The matches in a row that a track needs to be reported.
    pub fn min_hits(&self) -> (r: u32)
        ensures
            r == self@.min_hits,
    {
        self.min_hits
    }

    /// The overlap that a match needs at least.
    pub fn iou_threshold(&self) -> (r: u64)
        ensures
            r == self@.iou_threshold,
    {
        self.iou_threshold
    }

    /// The frames so far.
    pub fn frame_count(&self) -> (r: u32)
        ensures
            r == self@.frame_count,
    {
        self.frame_count
    }

    /// The identity that the next new track gets.
    pub fn id_ctr(&self) -> (r: u32)
        ensures
            r == self@.id_ctr,
    {
        self.id_ctr
    }

    /// The number of tracks.
    pub fn len(&self) -> (r: usize)
        ensures
            r == self@.trackers.len(),
    {
        self.trackers.len()
    }

    /// Track `i`.
    pub fn tracker(&self, i: usize) -> (r: &KalmanBoxTracker)
        requires
            i < self@.trackers.len(),
        ensures
            r@ == self@.trackers[i as int],
    {
        &self.trackers[i]
    }

    /// Makes a track for each measurement, in their order: the first gets
    /// the next identity, each further one the one after. The tracks join
    /// the registry at its end. The measurements are those of the unmatched
    /// detections of the frame.
    ///
    /// The identities must not run out.
    pub fn spawn(&mut self, measurements: &Vec<[u64; 4]>)
        requires
            old(self).wf(),
            old(self)@.id_ctr + measurements@.len() <= u32::MAX,
        ensures
            final(self).wf(),
            final(self)@ == old(self)@.spawned(given(measurements@)),
    {
        let mut k: usize = 0;
        let ghost before = self@;
        while k < measurements.len()
            invariant
                k <= measurements@.len(),
                before == old(self)@,
                before.wf(),
                before.id_ctr + measurements@.len() <= u32::MAX,
                self@.wf(),
                self@ == (SortView {
                    trackers: before.trackers + Seq::new(
                        k as nat,
                        |j: int| new_track((before.id_ctr + j) as u32, measurements@[j]@),
                    ),
                    id_ctr: (before.id_ctr + k) as u32,
                    ..before
                }),
            decreases measurements@.len() - k,
        {
            let ghost mid = self@;
            let id = self.id_ctr;
            let track = KalmanBoxTracker::new(id, measurements[k]);
            self.trackers.push(track);
            self.id_ctr += 1;
            proof {
                let made = Seq::new(
                    k as nat,
                    |j: int| new_track((before.id_ctr + j) as u32, measurements@[j]@),
                );
                let made_next = Seq::new(
                    (k + 1) as nat,
                    |j: int| new_track((before.id_ctr + j) as u32, measurements@[j]@),
                );
                assert(self@.trackers =~= mid.trackers.push(track@));
                assert(made_next =~= made.push(track@));
            }
            k += 1;
        }
        proof {
            assert(self@.trackers =~= before.spawned(given(measurements@)).trackers);
        }
    }
}

fn copy_prediction(p: &Prediction) -> (r: Prediction)
    ensures
        r.x@ == p.x@,
        r.P@ == p.P@,
{
    Prediction { x: p.x.clone(), P: p.P.clone() }
}

impl Sort {
    /// Keeps the area of every track from going negative in the coming
    /// prediction. `sums` holds, for each track in order, the area plus its
    /// velocity, which the caller added up. Where a sum is not above zero the
    /// velocity of that track's area is set to zero.
    ///
    /// Fails with `ShapeError`, and changes nothing, exactly if there is not
    /// one sum for each track.
    pub fn clamp(&mut self, sums: &Vec<u64>) -> (r: Result<(), MotionTrackError>)
        requires
            old(self).wf(),
        ensures
            final(self).wf(),
            r is Ok <==> sums@.len() == old(self)@.trackers.len(),
            r matches Err(e) ==> e == MotionTrackError::ShapeError && final(self)@ == old(self)@,
            r is Ok ==> final(self)@ == (SortView {
                trackers: Seq::new(
                    sums@.len(),
                    |i: int| old(self)@.trackers[i].clamped(sums@[i]),
                ),
                ..old(self)@
            }),
    {
        if sums.len() != self.trackers.len() {
            return Err(MotionTrackError::ShapeError);
        }
        let ghost before = self@;
        let mut i: usize = 0;
        while i < sums.len()
            invariant
                i <= sums@.len(),
                before == old(self)@,
                before.wf(),
                sums@.len() == before.trackers.len(),
                self@.trackers.len() == before.trackers.len(),
                self@ == (SortView { trackers: self@.trackers, ..before }),
                forall|k: int|
                    0 <= k < i ==> #[trigger] self@.trackers[k] == before.trackers[k].clamped(
                        sums@[k],
                    ),
                forall|k: int|
                    i <= k < sums@.len() ==> #[trigger] self@.trackers[k] == before.trackers[k],
            decreases sums@.len() - i,
        {
            let ghost mid = self@;
            assert(mid.trackers[i as int].wf());
            self.trackers[i].clamp_scale_velocity(sums[i]);
            proof {
                assert forall|k: int| 0 <= k < mid.trackers.len() && k != i implies
                    #[trigger] self@.trackers[k] == mid.trackers[k] by {}
            }
            i += 1;
        }
        proof {
            let want = Seq::new(sums@.len(), |i: int| before.trackers[i].clamped(sums@[i]));
            assert(self@.trackers =~= want);
            assert forall|k: int| 0 <= k < want.len() implies {
                &&& (#[trigger] want[k]).wf()
                &&& want[k].age <= before.frame_count
                &&& want[k].id == before.trackers[k].id
            } by {}
        }
        Ok(())
    }

    /// Counts the frame and lets it go by for every track. `steps` holds the
    /// prediction of each track in order. Each track takes its prediction
    /// in. A track whose predicted box holds a NaN is dropped at once, so
    /// that it takes no part in the matching. Returns the predicted boxes
    /// of the tracks that stay, one row of four for each in order.
    ///
    /// Fails with `ShapeError`, and changes nothing, exactly if there is not
    /// one prediction for each track or one does not fit.
    ///
    /// The counter of frames must not run out.
    pub fn predict(&mut self, steps: &Vec<TrackPrediction>) -> (r: Result<Matrix, MotionTrackError>)
        requires
            old(self).wf(),
            old(self)@.frame_count < u32::MAX,
        ensures
            final(self).wf(),
            r is Ok <==> predictions_fit(steps@, old(self)@.trackers.len()),
            r matches Err(e) ==> e == MotionTrackError::ShapeError && final(self)@ == old(self)@,
            r matches Ok(boxes) ==> {
                &&& final(self)@ == (SortView {
                    trackers: advanced(old(self)@.trackers, steps@).filter(usable()),
                    frame_count: (old(self)@.frame_count + 1) as u32,
                    ..old(self)@
                })
                &&& boxes@.cols == 4
                &&& boxes@.cells == latest_boxes(final(self)@.trackers)
            },
    {
        let n = self.trackers.len();
        if steps.len() != n {
            return Err(MotionTrackError::ShapeError);
        }
        let mut i: usize = 0;
        while i < n
            invariant
                i <= n,
                n == steps@.len(),
                self@ == old(self)@,
                old(self).wf(),
                forall|k: int| 0 <= k < i ==> prediction_fits(#[trigger] steps@[k]),
            decreases n - i,
        {
            let p = &steps[i];
            if !(p.step.x.has_shape(7, 1) && p.step.P.has_shape(7, 7)) {
                return Err(MotionTrackError::ShapeError);
            }
            i += 1;
        }
        let ghost before = self@;
        let ghost moved = advanced(before.trackers, steps@);
        self.frame_count += 1;
        let mut i: usize = 0;
        while i < n
            invariant
                i <= n,
                n == steps@.len(),
                before == old(self)@,
                before.wf(),
                before.frame_count < u32::MAX,
                predictions_fit(steps@, before.trackers.len()),
                moved == advanced(before.trackers, steps@),
                self@.trackers.len() == n,
                self@ == (SortView {
                    trackers: self@.trackers,
                    frame_count: (before.frame_count + 1) as u32,
                    ..before
                }),
                forall|k: int| 0 <= k < i ==> #[trigger] self@.trackers[k] == moved[k],
                forall|k: int| i <= k < n ==> #[trigger] self@.trackers[k] == before.trackers[k],
            decreases n - i,
        {
            let ghost mid = self@;
            assert(mid.trackers[i as int].wf());
            let step = copy_prediction(&steps[i].step);
            let outcome = self.trackers[i].predict(step, steps[i].bbox);
            proof {
                assert(outcome is Ok);
                assert forall|k: int| 0 <= k < mid.trackers.len() && k != i implies
                    #[trigger] self@.trackers[k] == mid.trackers[k] by {}
            }
            i += 1;
        }
        proof {
            assert forall|k: int| 0 <= k < moved.len() implies {
                &&& (#[trigger] moved[k]).wf()
                &&& moved[k].age <= before.frame_count + 1
                &&& moved[k].id == before.trackers[k].id
                &&& moved[k].history.len() > 0
                &&& moved[k].history.last().len() == 4
            } by {
                steps@[k].bbox.lemma_four_coordinates();
            }
            lemma_filter_nothing(moved, usable());
        }
        // drop the tracks whose predicted box holds a NaN
        let mut kept: usize = 0;
        let ghost mut seen: int = 0;
        while kept < self.trackers.len()
            invariant
                before == old(self)@,
                before.frame_count < u32::MAX,
                moved == advanced(before.trackers, steps@),
                n == moved.len(),
                0 <= seen <= n,
                kept <= self@.trackers.len(),
                self@.trackers.len() - kept == n - seen,
                self@ == (SortView {
                    trackers: self@.trackers,
                    frame_count: (before.frame_count + 1) as u32,
                    ..before
                }),
                self@.trackers.take(kept as int) == moved.take(seen).filter(usable()),
                self@.trackers.skip(kept as int) == moved.skip(seen),
                forall|k: int| 0 <= k < moved.len() ==> (#[trigger] moved[k]).history.len() > 0,
            decreases self@.trackers.len() - kept,
        {
            let ghost mid = self@.trackers;
            assert(mid[kept as int] == mid.skip(kept as int)[0]);
            proof {
                lemma_filter_step(moved, seen, usable());
            }
            let hist = self.trackers[kept].history();
            let bad = hist[hist.len() - 1].has_nan();
            if bad {
                self.trackers.remove(kept);
                proof {
                    assert(self@.trackers.skip(kept as int) =~= mid.skip(kept as int).skip(1));
                }
            } else {
                proof {
                    assert(mid.skip(kept + 1) =~= mid.skip(kept as int).skip(1));
                }
                kept += 1;
            }
            proof {
                seen = seen + 1;
            }
        }
        proof {
            assert(self@.trackers.take(kept as int) =~= self@.trackers);
            assert(moved.take(n as int) =~= moved);
            lemma_survivors_wf(before, moved);
        }
        // the boxes of the tracks that stay
        let mut rows: Vec<Vec<u64>> = Vec::new();
        let mut t: usize = 0;
        while t < self.trackers.len()
            invariant
                t <= self@.trackers.len(),
                rows@.len() == t,
                forall|k: int| 0 <= k < self@.trackers.len() ==> {
                    &&& (#[trigger] self@.trackers[k]).history.len() > 0
                    &&& self@.trackers[k].history.last().len() == 4
                },
                forall|k: int|
                    0 <= k < t ==> (#[trigger] rows@[k])@ == self@.trackers[k].history.last(),
            decreases self@.trackers.len() - t,
        {
            let hist = self.trackers[t].history();
            assert(self@.trackers[t as int].history.len() > 0);
            let last = &hist[hist.len() - 1];
            let row = match last.as_mat1() {
                Ok(flat) => flat,
                Err(_) => Vec::new(),
            };
            rows.push(row);
            t += 1;
        }
        match Matrix::from_rows(4, rows) {
            Some(boxes) => Ok(boxes),
            None => {
                // every row is a box of four
                assert(false);
                Err(MotionTrackError::ShapeError)
            },
        }
    }
}

/// Dropping tracks keeps a tracker well formed.
proof fn lemma_survivors_wf(before: SortView, moved: Seq<TrackView>)
    requires
        before.wf(),
        before.frame_count < u32::MAX,
        moved.len() == before.trackers.len(),
        forall|k: int|
            0 <= k < moved.len() ==> {
                &&& (#[trigger] moved[k]).wf()
                &&& moved[k].age <= before.frame_count + 1
                &&& moved[k].id == before.trackers[k].id
                &&& moved[k].history.len() > 0
                &&& moved[k].history.last().len() == 4
            },
    ensures
        (SortView {
            trackers: moved.filter(usable()),
            frame_count: (before.frame_count + 1) as u32,
            ..before
        }).wf(),
        forall|k: int|
            0 <= k < moved.filter(usable()).len() ==> {
                &&& (#[trigger] moved.filter(usable())[k]).history.len() > 0
                &&& moved.filter(usable())[k].history.last().len() == 4
            },
{
    let left = moved.filter(usable());
    lemma_filter_keeps_order(moved, usable());
    let from = choose|from: Seq<int>|
        {
            &&& from.len() == left.len()
            &&& forall|k: int|
                0 <= k < from.len() ==> 0 <= #[trigger] from[k] < moved.len() && left[k]
                    == moved[from[k]]
            &&& forall|i: int, j: int| 0 <= i < j < from.len() ==> from[i] < from[j]
        };
    assert forall|k: int| 0 <= k < left.len() implies {
        &&& (#[trigger] left[k]).wf()
        &&& left[k].age <= before.frame_count + 1
        &&& left[k].id < before.id_ctr
        &&& left[k].history.len() > 0
        &&& left[k].history.last().len() == 4
    } by {
        assert(left[k] == moved[from[k]]);
    }
    assert forall|i: int, j: int| 0 <= i < j < left.len() implies (#[trigger] left[i]).id < (
    #[trigger] left[j]).id by {
        assert(left[i] == moved[from[i]]);
        assert(left[j] == moved[from[j]]);
    }
}

fn copy_innovation(p: &Innovation) -> (r: Innovation)
    ensures
        r.y@ == p.y@,
        r.S@ == p.S@,
{
    Innovation { y: p.y.clone(), S: p.S.clone() }
}

fn copy_correction(p: &Correction) -> (r: Correction)
    ensures
        r.SI@ == p.SI@,
        r.K@ == p.K@,
        r.x@ == p.x@,
        r.P@ == p.P@,
{
    Correction { SI: p.SI.clone(), K: p.K.clone(), x: p.x.clone(), P: p.P.clone() }
}

impl Sort {
    fn matches_are_fit(&self, matches: &Vec<(usize, usize)>, updates: &Vec<TrackUpdate>) -> (r:
        bool)
        ensures
            r == matches_fit(self@.trackers, matches@, updates@),
    {
        let n = self.trackers.len();
        if updates.len() != matches.len() {
            return false;
        }
        let mut taken: Vec<bool> = Vec::new();
        let mut i: usize = 0;
        while i < n
            invariant
                i <= n,
                taken@.len() == i,
                forall|t: int| 0 <= t < i ==> !taken@[t],
            decreases n - i,
        {
            taken.push(false);
            i += 1;
        }
        let mut k: usize = 0;
        while k < matches.len()
            invariant
                k <= matches@.len(),
                n == self@.trackers.len(),
                updates@.len() == matches@.len(),
                taken@.len() == n,
                forall|t: int|
                    0 <= t < n ==> #[trigger] taken@[t] == matched_among(matches@, k as int, t),
                forall|j: int|
                    0 <= j < k ==> {
                        &&& (#[trigger] matches@[j]).1 < n
                        &&& self@.trackers[matches@[j].1 as int].time_since_update >= 1
                        &&& update_fits(updates@[j])
                    },
                forall|i: int, j: int|
                    0 <= i < j < k ==> (#[trigger] matches@[i]).1 != (#[trigger] matches@[j]).1,
            decreases matches@.len() - k,
        {
            let t = matches[k].1;
            if t >= n {
                return false;
            }
            if taken[t] {
                return false;
            }
            if self.trackers[t].time_since_update() < 1 {
                return false;
            }
            let u = &updates[k];
            if !KalmanBoxTracker::results_fit(&u.z, &u.innovation, &u.correction) {
                return false;
            }
            taken.set(t, true);
            proof {
                assert forall|u: int| 0 <= u < n implies #[trigger] taken@[u] == matched_among(
                    matches@,
                    k + 1,
                    u,
                ) by {
                    lemma_matched_among_next(matches@, k as int, u);
                }
                assert forall|i: int, j: int| 0 <= i < j < k + 1 implies (#[trigger] matches@[i]).1
                    != (#[trigger] matches@[j]).1 by {}
            }
            k += 1;
        }
        true
    }

    /// Takes in the matches of the frame. `matches` pairs detections with
    /// tracks, and `updates` holds for each pair, in the same order, what
    /// the caller computed for the track from the detection. Each matched
    /// track takes its match in; the others stay as they are.
    ///
    /// Fails with `ShapeError` exactly if the matches do not fit: there is
    /// not one update for each match, an update has not the shapes of a
    /// track, a matched track does not exist or was matched before in this
    /// frame, or a track is matched twice. Else fails with the filter's
    /// `LinAlg` exactly if an update lacks its correction. Either failure
    /// changes nothing.
    pub fn apply_matches(
        &mut self,
        matches: &Vec<(usize, usize)>,
        updates: &Vec<TrackUpdate>,
    ) -> (r: Result<(), MotionTrackError>)
        requires
            old(self).wf(),
        ensures
            final(self).wf(),
            r is Ok <==> matches_fit(old(self)@.trackers, matches@, updates@) && all_corrected(
                updates@,
            ),
            r matches Err(e) ==> final(self)@ == old(self)@ && e == (if matches_fit(
                old(self)@.trackers,
                matches@,
                updates@,
            ) {
                MotionTrackError::KalmanError { source: KalmanError::LinAlg }
            } else {
                MotionTrackError::ShapeError
            }),
            r is Ok ==> {
                &&& final(self)@ == (SortView { trackers: final(self)@.trackers, ..old(self)@ })
                &&& took_matches(
                    old(self)@.trackers,
                    final(self)@.trackers,
                    matches@,
                    updates@,
                    matches@.len() as int,
                )
            },
    {
        if !self.matches_are_fit(matches, updates) {
            return Err(MotionTrackError::ShapeError);
        }
        let mut k: usize = 0;
        while k < updates.len()
            invariant
                k <= updates@.len(),
                self@ == old(self)@,
                old(self).wf(),
                matches_fit(old(self)@.trackers, matches@, updates@),
                forall|j: int| 0 <= j < k ==> (#[trigger] updates@[j]).correction is Some,
            decreases updates@.len() - k,
        {
            if updates[k].correction.is_none() {
                return Err(MotionTrackError::KalmanError { source: KalmanError::LinAlg });
            }
            k += 1;
        }
        let ghost before = self@;
        let mut k: usize = 0;
        while k < matches.len()
            invariant
                k <= matches@.len(),
                before == old(self)@,
                before.wf(),
                matches_fit(before.trackers, matches@, updates@),
                all_corrected(updates@),
                self@ == (SortView { trackers: self@.trackers, ..before }),
                took_matches(before.trackers, self@.trackers, matches@, updates@, k as int),
            decreases matches@.len() - k,
        {
            let ghost mid = self@;
            let t = matches[k].1;
            let u = &updates[k];
            proof {
                assert(mid.trackers[t as int] == before.trackers[t as int]);
            }
            let innovation = copy_innovation(&u.innovation);
            let correction = match &u.correction {
                Some(c) => Some(copy_correction(c)),
                None => None,
            };
            let outcome = self.trackers[t].update(&u.z, innovation, correction);
            proof {
                assert(outcome is Ok);
                assert(self@.trackers[t as int] == after_match(
                    before.trackers[t as int],
                    updates@[k as int],
                ));
                assert forall|i: int| 0 <= i < mid.trackers.len() && i != t implies
                    #[trigger] self@.trackers[i] == mid.trackers[i] by {}
                assert forall|j: int| 0 <= j < k + 1 implies self@.trackers[(
                #[trigger] matches@[j]).1 as int] == after_match(
                    before.trackers[matches@[j].1 as int],
                    updates@[j],
                ) by {}
                assert forall|i: int|
                    0 <= i < before.trackers.len() && !matched_among(
                        matches@,
                        k + 1,
                        i,
                    ) implies #[trigger] self@.trackers[i] == before.trackers[i] by {
                    lemma_matched_among_next(matches@, k as int, i);
                }
            }
            k += 1;
        }
        proof {
            assert forall|i: int| 0 <= i < self@.trackers.len() implies {
                &&& (#[trigger] self@.trackers[i]).wf()
                &&& self@.trackers[i].age == before.trackers[i].age
                &&& self@.trackers[i].id == before.trackers[i].id
            } by {
                if matched_among(matches@, matches@.len() as int, i) {
                    let j = choose|j: int|
                        0 <= j < matches@.len() && (#[trigger] matches@[j]).1 == i;
                    assert(self@.trackers[matches@[j].1 as int] == after_match(
                        before.trackers[matches@[j].1 as int],
                        updates@[j],
                    ));
                }
            }
        }
        Ok(())
    }
}

/// One more match is with track `t`, or one of those before it was.
proof fn lemma_matched_among_next(matches: Seq<(usize, usize)>, k: int, t: int)
    requires
        0 <= k < matches.len(),
    ensures
        matched_among(matches, k + 1, t) <==> matched_among(matches, k, t) || matches[k].1 == t,
{
}

/// Dropping tracks from a well-formed tracker leaves it well formed.
proof fn lemma_filter_wf(v: SortView, keep: spec_fn(TrackView) -> bool)
    requires
        v.wf(),
    ensures
        (SortView { trackers: v.trackers.filter(keep), ..v }).wf(),
{
    let left = v.trackers.filter(keep);
    lemma_filter_keeps_order(v.trackers, keep);
    let from = choose|from: Seq<int>|
        {
            &&& from.len() == left.len()
            &&& forall|k: int|
                0 <= k < from.len() ==> 0 <= #[trigger] from[k] < v.trackers.len() && left[k]
                    == v.trackers[from[k]]
            &&& forall|i: int, j: int| 0 <= i < j < from.len() ==> from[i] < from[j]
        };
    assert forall|k: int| 0 <= k < left.len() implies {
        &&& (#[trigger] left[k]).wf()
        &&& left[k].age <= v.frame_count
        &&& left[k].id < v.id_ctr
    } by {
        assert(left[k] == v.trackers[from[k]]);
    }
    assert forall|i: int, j: int| 0 <= i < j < left.len() implies (#[trigger] left[i]).id < (
    #[trigger] left[j]).id by {
        assert(left[i] == v.trackers[from[i]]);
        assert(left[j] == v.trackers[from[j]]);
    }
}

impl Sort {
    /// Ends the frame. Lists the confirmed tracks, the latest track first,
    /// each with its state and identity: a track is confirmed if it was
    /// matched in this frame and either its streak has reached `min_hits`
    /// or no more than `min_hits` frames have gone by in all. Then drops
    /// every track that has gone unmatched for more than `max_age` frames.
    pub fn report(&mut self) -> (out: Vec<Reported>)
        requires
            old(self).wf(),
        ensures
            final(self).wf(),
            rows_of(out@) == reported_rows(
                old(self)@.trackers,
                old(self)@.min_hits,
                old(self)@.frame_count,
            ),
            final(self)@ == (SortView {
                trackers: old(self)@.trackers.filter(alive(old(self)@.max_age)),
                ..old(self)@
            }),
    {
        let ghost before = self@;
        let mut out: Vec<Reported> = Vec::new();
        let mut i: usize = self.trackers.len();
        proof {
            assert(rows_of(out@) =~= reported_rows(
                before.trackers.skip(i as int),
                before.min_hits,
                before.frame_count,
            ));
        }
        while i > 0
            invariant
                i <= self@.trackers.len(),
                self@ == before,
                rows_of(out@) == reported_rows(
                    before.trackers.skip(i as int),
                    before.min_hits,
                    before.frame_count,
                ),
            decreases i,
        {
            i -= 1;
            let ghost rest = before.trackers.skip(i as int);
            let ghost listed = rows_of(out@);
            proof {
                assert(rest.skip(1) =~= before.trackers.skip(i + 1));
            }
            let trk = &self.trackers[i];
            if trk.time_since_update() < 1 && (trk.hit_streak() >= self.min_hits || self.frame_count
                <= self.min_hits) {
                let row = Reported { state: trk.state(), id: trk.id() };
                out.push(row);
                proof {
                    assert(rows_of(out@) =~= listed.push(
                        (before.trackers[i as int].filter.x, before.trackers[i as int].id),
                    ));
                }
            }
        }
        proof {
            assert(before.trackers.skip(0) =~= before.trackers);
            lemma_filter_nothing(before.trackers, alive(before.max_age));
        }
        let mut kept: usize = 0;
        let ghost mut seen: int = 0;
        let ghost n = before.trackers.len() as int;
        while kept < self.trackers.len()
            invariant
                before == old(self)@,
                n == before.trackers.len(),
                0 <= seen <= n,
                kept <= self@.trackers.len(),
                self@.trackers.len() - kept == n - seen,
                self@ == (SortView { trackers: self@.trackers, ..before }),
                self@.trackers.take(kept as int) == before.trackers.take(seen).filter(
                    alive(before.max_age),
                ),
                self@.trackers.skip(kept as int) == before.trackers.skip(seen),
            decreases self@.trackers.len() - kept,
        {
            let ghost mid = self@.trackers;
            assert(mid[kept as int] == mid.skip(kept as int)[0]);
            proof {
                lemma_filter_step(before.trackers, seen, alive(before.max_age));
            }
            if self.trackers[kept].time_since_update() > self.max_age {
                self.trackers.remove(kept);
                proof {
                    assert(self@.trackers.skip(kept as int) =~= mid.skip(kept as int).skip(1));
                }
            } else {
                proof {
                    assert(mid.skip(kept + 1) =~= mid.skip(kept as int).skip(1));
                }
                kept += 1;
            }
            proof {
                seen = seen + 1;
            }
        }
        proof {
            assert(self@.trackers.take(kept as int) =~= self@.trackers);
            lemma_filter_wf(before, alive(before.max_age));
        }
        out
    }
}

/// New tracks get identities that no track has or had: each is at least the
/// counter of identities, which is above the identity of every track so
/// far, and each further one is greater by one. The tracks from before keep
/// their place and their identity.
pub proof fn lemma_spawned_identities_are_fresh(before: SortView, measurements: Seq<Seq<u64>>)
    requires
        before.wf(),
        before.id_ctr + measurements.len() <= u32::MAX,
    ensures
        before.spawned(measurements).wf(),
        before.spawned(measurements).trackers.len() == before.trackers.len() + measurements.len(),
        forall|i: int|
            0 <= i < before.trackers.len() ==> #[trigger] before.spawned(measurements).trackers[i]
                == before.trackers[i],
        forall|k: int|
            0 <= k < measurements.len() ==> (#[trigger] before.spawned(
                measurements,
            ).trackers[before.trackers.len() + k]).id == before.id_ctr + k,
        forall|i: int, k: int|
            0 <= i < before.trackers.len() && 0 <= k < measurements.len() ==> (
            #[trigger] before.trackers[i]).id < (#[trigger] before.spawned(
                measurements,
            ).trackers[before.trackers.len() + k]).id,
{
    let after = before.spawned(measurements);
    let n = before.trackers.len() as int;
    assert forall|i: int| 0 <= i < after.trackers.len() implies {
        &&& (#[trigger] after.trackers[i]).wf()
        &&& after.trackers[i].age <= after.frame_count
        &&& after.trackers[i].id < after.id_ctr
    } by {
        if i >= n {
            assert(after.trackers[i] == new_track(
                (before.id_ctr + (i - n)) as u32,
                measurements[i - n],
            ));
        }
    }
    assert forall|i: int, j: int| 0 <= i < j < after.trackers.len() implies (
    #[trigger] after.trackers[i]).id < (#[trigger] after.trackers[j]).id by {}
}

} // verus!
