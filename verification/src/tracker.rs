//! One tracked object: a Kalman filter over a box that moves with constant
//! velocity, and the counters that decide when the object is reported and
//! when it is dropped.
//!
//! The state has seven components: the centre `x` and `y`, the area `s`,
//! the aspect ratio `r`, and the velocities of `x`, `y` and `s`. A
//! measurement has the first four.

use vstd::prelude::*;
use crate::bbox::BBox;
use crate::error::KalmanError;
use crate::error::MotionTrackError;
use crate::ieee::le;
use crate::ieee::le_spec;
use crate::ieee::HUNDREDTH;
use crate::ieee::ONE;
use crate::ieee::TEN;
use crate::ieee::ZERO;
use crate::kalman::Correction;
use crate::kalman::Innovation;
use crate::kalman::KalmanFilter;
use crate::kalman::KalmanView;
use crate::kalman::Prediction;
use crate::matrix::Matrix;
use crate::matrix::MatrixView;
use crate::matrix::lemma_same_cells;

verus! {

/// The dimension of the state.
pub const STATE_DIM: usize = 7;

/// The dimension of a measurement.
pub const MEASUREMENT_DIM: usize = 4;

/// The row of the area in the state.
pub const SCALE: usize = 2;

/// The row of the velocity of the area in the state.
pub const SCALE_VELOCITY: usize = 6;

/// The transition of the constant-velocity model: each of the centre and
/// the area moves by its velocity, everything else stays.
pub open spec fn constant_velocity() -> MatrixView {
    MatrixView {
        cells: Seq::new(
            7,
            |i: int|
                Seq::new(
                    7,
                    |j: int|
                        if i == j || (i < 3 && j == i + 4) {
                            ONE
                        } else {
                            ZERO
                        },
                ),
        ),
        cols: 7,
    }
}

/// The measurement function: a measurement is the first four components of
/// the state.
pub open spec fn measures_box() -> MatrixView {
    MatrixView {
        cells: Seq::new(
            4,
            |i: int|
                Seq::new(
                    7,
                    |j: int|
                        if i == j {
                            ONE
                        } else {
                            ZERO
                        },
                ),
        ),
        cols: 7,
    }
}

/// The measurement noise: diagonal, 1 for the centre and 10 for the area
/// and the aspect ratio.
pub open spec fn measurement_noise() -> MatrixView {
    MatrixView {
        cells: Seq::new(
            4,
            |i: int|
                Seq::new(
                    4,
                    |j: int|
                        if i != j {
                            ZERO
                        } else if i >= 2 {
                            TEN
                        } else {
                            ONE
                        },
                ),
        ),
        cols: 4,
    }
}

/// The process noise: the identity for the measured components, 0.01
/// throughout the block of the velocities.
pub open spec fn process_noise() -> MatrixView {
    MatrixView {
        cells: Seq::new(
            7,
            |i: int|
                Seq::new(
                    7,
                    |j: int|
                        if i >= 4 && j >= 4 {
                            HUNDREDTH
                        } else if i == j {
                            ONE
                        } else {
                            ZERO
                        },
                ),
        ),
        cols: 7,
    }
}

/// The state of a new track: the measurement, with every velocity zero.
pub open spec fn initial_state(z: Seq<u64>) -> MatrixView {
    MatrixView {
        cells: Seq::new(
            7,
            |i: int|
                seq![
                    if i < 4 {
                        z[i]
                    } else {
                        ZERO
                    },
                ],
        ),
        cols: 1,
    }
}

/// The filter of a new track for the measurement `z`.
pub open spec fn initial_filter(z: Seq<u64>) -> KalmanView {
    KalmanView {
        x: initial_state(z),
        P: MatrixView::filled(7, 7, TEN),
        Q: process_noise(),
        R: measurement_noise(),
        F: constant_velocity(),
        H: measures_box(),
        ..KalmanView::initial(7, 4)
    }
}

/// A tracked object.
#[derive(Debug)]
pub struct KalmanBoxTracker {
    filter: KalmanFilter,
    time_since_update: u32,
    history: Vec<BBox>,
    hits: u32,
    hit_streak: u32,
    age: u32,
    id: u32,
}

/// What a track is.
pub struct TrackView {
    /// The filter.
    pub filter: KalmanView,
    /// The frames since the last match.
    pub time_since_update: u32,
    /// The boxes predicted since the last match, oldest first.
    pub history: Seq<Seq<u64>>,
    /// The matches so far.
    pub hits: u32,
    /// The matches in a row up to now.
    pub hit_streak: u32,
    /// The frames since the track was made.
    pub age: u32,
    /// The identity.
    pub id: u32,
}

impl View for KalmanBoxTracker {
    type V = TrackView;

    closed spec fn view(&self) -> TrackView {
        TrackView {
            filter: self.filter@,
            time_since_update: self.time_since_update,
            history: Seq::new(self.history@.len(), |i: int| self.history@[i]@),
            hits: self.hits,
            hit_streak: self.hit_streak,
            age: self.age,
            id: self.id,
        }
    }
}

impl TrackView {
    /// What holds of every track: the state is a column of seven, one box
    /// was predicted for each frame since the last match, a streak is no
    /// longer than the matches are many, and matches and misses together are
    /// no more than the frames.
    pub open spec fn wf(self) -> bool {
        &&& self.filter.x.has_shape(7, 1)
        &&& self.history.len() == self.time_since_update
        &&& self.hit_streak <= self.hits
        &&& self.hits + self.time_since_update <= self.age
    }

    /// The track after a frame went by with the predicted state and box
    /// handed in.
    pub open spec fn predicted(self, x: MatrixView, p: MatrixView, bbox: Seq<u64>) -> TrackView {
        TrackView {
            filter: KalmanView { x: x, P: p, x_prior: x, P_prior: p, ..self.filter },
            time_since_update: (self.time_since_update + 1) as u32,
            history: self.history.push(bbox),
            hit_streak: if self.time_since_update + 1 > 1 {
                0
            } else {
                self.hit_streak
            },
            age: (self.age + 1) as u32,
            ..self
        }
    }

    /// The track after the velocity of its area was clamped for the sum
    /// `sum` of the area and that velocity: set to zero where the sum is not
    /// above zero.
    pub open spec fn clamped(self, sum: u64) -> TrackView {
        if le_spec(sum, ZERO) {
            TrackView {
                filter: KalmanView { x: self.filter.x.with_cell(6, 0, ZERO), ..self.filter },
                ..self
            }
        } else {
            self
        }
    }

    /// The track after a match whose results the filter took in.
    pub open spec fn updated(
        self,
        z: MatrixView,
        innovation: Innovation,
        correction: Option<Correction>,
    ) -> TrackView {
        TrackView {
            filter: match correction {
                Some(c) => KalmanView {
                    y: innovation.y@,
                    S: innovation.S@,
                    SI: c.SI@,
                    K: c.K@,
                    x: c.x@,
                    P: c.P@,
                    z: Some(z),
                    x_post: c.x@,
                    P_post: c.P@,
                    ..self.filter
                },
                None => KalmanView { y: innovation.y@, S: innovation.S@, ..self.filter },
            },
            ..self.hit()
        }
    }

    /// The track after a match, before the filter took the measurement in.
    pub open spec fn hit(self) -> TrackView {
        TrackView {
            time_since_update: 0,
            history: Seq::empty(),
            hits: (self.hits + 1) as u32,
            hit_streak: (self.hit_streak + 1) as u32,
            ..self
        }
    }
}

fn transition_matrix() -> (f: Matrix)
    ensures
        f@ == constant_velocity(),
{
    let mut f = Matrix::eye(STATE_DIM);
    f.set(0, 4, ONE);
    f.set(1, 5, ONE);
    f.set(2, 6, ONE);
    proof {
        lemma_same_cells(f@, constant_velocity());
    }
    f
}

fn measurement_matrix() -> (h: Matrix)
    ensures
        h@ == measures_box(),
{
    let mut h = Matrix::zeros(MEASUREMENT_DIM, STATE_DIM);
    h.set(0, 0, ONE);
    h.set(1, 1, ONE);
    h.set(2, 2, ONE);
    h.set(3, 3, ONE);
    proof {
        lemma_same_cells(h@, measures_box());
    }
    h
}

fn measurement_noise_matrix() -> (r: Matrix)
    ensures
        r@ == measurement_noise(),
{
    let mut r = Matrix::eye(MEASUREMENT_DIM);
    r.set(2, 2, TEN);
    r.set(3, 3, TEN);
    proof {
        lemma_same_cells(r@, measurement_noise());
    }
    r
}

fn process_noise_matrix() -> (q: Matrix)
    ensures
        q@ == process_noise(),
{
    let mut q = Matrix::eye(STATE_DIM);
    let mut i: usize = 4;
    while i < STATE_DIM
        invariant
            4 <= i <= 7,
            q.wf(),
            q@.has_shape(7, 7),
            forall|r: int, c: int|
                0 <= r < 7 && 0 <= c < 7 ==> #[trigger] q@.cells[r][c] == (if 4 <= r < i && c >= 4 {
                    HUNDREDTH
                } else if r == c {
                    ONE
                } else {
                    ZERO
                }),
        decreases 7 - i,
    {
        q.set(i, 4, HUNDREDTH);
        q.set(i, 5, HUNDREDTH);
        q.set(i, 6, HUNDREDTH);
        i += 1;
    }
    proof {
        lemma_same_cells(q@, process_noise());
    }
    q
}

fn state_of(z: &[u64; 4]) -> (x: Matrix)
    ensures
        x@ == initial_state(z@),
{
    let mut x = Matrix::zeros(STATE_DIM, 1);
    x.set(0, 0, z[0]);
    x.set(1, 0, z[1]);
    x.set(2, 0, z[2]);
    x.set(3, 0, z[3]);
    proof {
        let want = initial_state(z@);
        assert forall|i: int, j: int| 0 <= i < 7 && 0 <= j < 1 implies #[trigger] x@.cells[i][j]
            == want.cells[i][j] by {}
        lemma_same_cells(x@, want);
    }
    x
}

impl KalmanBoxTracker {
    /// A track with the identity `id` for an object that was measured as
    /// `z`: centre `x`, centre `y`, area and aspect ratio. The object stands
    /// still until the filter learns otherwise, and no counter has counted
    /// yet.
    pub fn new(id: u32, z: [u64; 4]) -> (track: KalmanBoxTracker)
        ensures
            track@.wf(),
            track@ == (TrackView {
                filter: initial_filter(z@),
                time_since_update: 0,
                history: Seq::empty(),
                hits: 0,
                hit_streak: 0,
                age: 0,
                id,
            }),
    {
        let mut filter = KalmanFilter::new(STATE_DIM, MEASUREMENT_DIM);
        filter.F = transition_matrix();
        filter.H = measurement_matrix();
        filter.R = measurement_noise_matrix();
        filter.P = Matrix::filled(STATE_DIM, STATE_DIM, TEN);
        filter.Q = process_noise_matrix();
        filter.x = state_of(&z);
        let track = KalmanBoxTracker {
            filter,
            time_since_update: 0,
            history: Vec::new(),
            hits: 0,
            hit_streak: 0,
            age: 0,
            id,
        };
        assert(track@.history =~= Seq::<Seq<u64>>::empty());
        track
    }

    /// The identity.
    pub fn id(&self) -> (r: u32)
        ensures
            r == self@.id,
    {
        self.id
    }

    /// The frames since the last match.
    pub fn time_since_update(&self) -> (r: u32)
        ensures
            r == self@.time_since_update,
    {
        self.time_since_update
    }

    /// The matches so far.
    pub fn hits(&self) -> (r: u32)
        ensures
            r == self@.hits,
    {
        self.hits
    }

    /// The matches in a row up to now.
    pub fn hit_streak(&self) -> (r: u32)
        ensures
            r == self@.hit_streak,
    {
        self.hit_streak
    }

    /// The frames since the track was made.
    pub fn age(&self) -> (r: u32)
        ensures
            r == self@.age,
    {
        self.age
    }

    /// The filter.
    pub fn filter(&self) -> (r: &KalmanFilter)
        ensures
            r@ == self@.filter,
    {
        &self.filter
    }

    /// The boxes predicted since the last match, oldest first.
    pub fn history(&self) -> (r: &Vec<BBox>)
        ensures
            r@.len() == self@.history.len(),
            forall|i: int| 0 <= i < r@.len() ==> (#[trigger] r@[i])@ == self@.history[i],
    {
        &self.history
    }

    /// The current state: centre `x`, centre `y`, area, aspect ratio and the
    /// three velocities, as a column. The box of the track is derived from
    /// it.
    pub fn state(&self) -> (x: Matrix)
        ensures
            x@ == self@.filter.x,
    {
        self.filter.x.clone()
    }

    /// Keeps the area from going negative in the coming prediction. `sum` is
    /// the area plus its velocity, which the caller added up. Where it is
    /// not above zero the velocity of the area is set to zero; else nothing
    /// changes.
    pub fn clamp_scale_velocity(&mut self, sum: u64)
        requires
            old(self)@.wf(),
        ensures
            final(self)@.wf(),
            final(self)@ == old(self)@.clamped(sum),
    {
        if le(sum, ZERO) {
            self.filter.x.set(SCALE_VELOCITY, 0, ZERO);
        }
    }

    /// Lets one frame go by. `step` holds the state and covariance that the
    /// caller predicted from the filter, and `bbox` the box of that state.
    /// The filter takes the prediction in, the age and the time since the
    /// last match grow by one, a second frame in a row without a match ends
    /// the streak, and the box joins the history. Returns the box.
    ///
    /// Fails with `ShapeError`, and changes nothing, exactly if the state is
    /// no column of seven or the covariance not seven by seven.
    pub fn predict(&mut self, step: Prediction, bbox: BBox) -> (r: Result<BBox, MotionTrackError>)
        requires
            old(self)@.wf(),
            old(self)@.age < u32::MAX,
        ensures
            r is Ok <==> step.x@.has_shape(7, 1) && step.P@.has_shape(7, 7),
            r matches Err(e) ==> e == MotionTrackError::ShapeError && final(self)@ == old(self)@,
            r matches Ok(b) ==> b@ == bbox@ && final(self)@ == old(self)@.predicted(
                step.x@,
                step.P@,
                bbox@,
            ),
            final(self)@.wf(),
    {
        if !(step.x.has_shape(STATE_DIM, 1) && step.P.has_shape(STATE_DIM, STATE_DIM)) {
            return Err(MotionTrackError::ShapeError);
        }
        match self.filter.predict(step) {
            Err(_) => Err(MotionTrackError::ShapeError),
            Ok(()) => {
                self.age += 1;
                self.time_since_update += 1;
                if self.time_since_update > 1 {
                    self.hit_streak = 0;
                }
                self.history.push(bbox);
                assert(self@.history =~= old(self)@.history.push(bbox@));
                Ok(bbox)
            },
        }
    }

    /// Whether the results of an update fit a track: a measurement of four,
    /// a state of seven.
    pub open spec fn fits(
        z: MatrixView,
        innovation: Innovation,
        correction: Option<Correction>,
    ) -> bool {
        &&& z.has_shape(4, 1)
        &&& innovation.y@.has_shape(4, 1)
        &&& innovation.S@.has_shape(4, 4)
        &&& (correction matches Some(c) ==> {
            &&& c.x@.has_shape(7, 1)
            &&& c.P@.has_shape(7, 7)
            &&& c.K@.has_shape(7, 4)
            &&& c.SI@.has_shape(4, 4)
        })
    }

    /// Whether the results of an update fit a track.
    pub fn results_fit(z: &Matrix, innovation: &Innovation, correction: &Option<Correction>) -> (r:
        bool)
        ensures
            r == Self::fits(z@, *innovation, *correction),
    {
        let m = MEASUREMENT_DIM;
        let n = STATE_DIM;
        let first_fit = z.has_shape(m, 1) && innovation.y.has_shape(m, 1) && innovation.S.has_shape(
            m,
            m,
        );
        let rest_fit = match correction {
            Some(c) => c.x.has_shape(n, 1) && c.P.has_shape(n, n) && c.K.has_shape(n, m)
                && c.SI.has_shape(m, m),
            None => true,
        };
        first_fit && rest_fit
    }

    /// Takes a match in. `z` is the measurement of the matched detection,
    /// and `innovation` and `correction` are what the caller computed from it
    /// and the filter. The time since the last match goes back to zero, the
    /// history is cleared, the matches and the streak grow by one, and the
    /// filter takes the results in.
    ///
    /// A track is matched at most once in a frame: since its last match a
    /// prediction must have gone by.
    ///
    /// Fails with `ShapeError`, and changes nothing, exactly if the results
    /// do not fit a track. Else fails with the filter's `LinAlg` exactly if
    /// no correction came; the counters have then counted the match, and the
    /// filter holds the innovation and its covariance.
    pub fn update(
        &mut self,
        z: &Matrix,
        innovation: Innovation,
        correction: Option<Correction>,
    ) -> (r: Result<(), MotionTrackError>)
        requires
            old(self)@.wf(),
            old(self)@.time_since_update >= 1,
        ensures
            r is Ok <==> Self::fits(z@, innovation, correction) && correction is Some,
            r matches Err(e) ==> e == (if Self::fits(z@, innovation, correction) {
                MotionTrackError::KalmanError { source: KalmanError::LinAlg }
            } else {
                MotionTrackError::ShapeError
            }),
            !Self::fits(z@, innovation, correction) ==> final(self)@ == old(self)@,
            Self::fits(z@, innovation, correction) ==> final(self)@ == old(self)@.updated(
                z@,
                innovation,
                correction,
            ),
            final(self)@.wf(),
    {
        if !Self::results_fit(z, &innovation, &correction) {
            return Err(MotionTrackError::ShapeError);
        }
        self.time_since_update = 0;
        self.history = Vec::new();
        self.hits += 1;
        self.hit_streak += 1;
        assert(self@.history =~= Seq::<Seq<u64>>::empty());
        match self.filter.update(z, innovation, correction) {
            Ok(()) => Ok(()),
            Err(source) => Err(MotionTrackError::KalmanError { source }),
        }
    }
}

/// Where the area plus its velocity is not above zero, clamping leaves the
/// velocity of the area at zero and every other component of the state as
/// it was; where the sum is above zero, or no number, nothing changes.
pub proof fn lemma_clamp_stops_the_area(track: TrackView, sum: u64)
    requires
        track.wf(),
        track.filter.x.rectangular(),
    ensures
        track.clamped(sum).wf(),
        le_spec(sum, ZERO) ==> track.clamped(sum).filter.x.cells[6][0] == ZERO,
        !le_spec(sum, ZERO) ==> track.clamped(sum) == track,
        forall|i: int|
            0 <= i < 6 ==> #[trigger] track.clamped(sum).filter.x.cells[i] == track.filter.x.cells[i],
{
}

} // verus!
