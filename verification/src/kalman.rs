//! The state of a linear Kalman filter and the two steps that change it.
//!
//! The filter estimates a state `x` of dimension `n` with covariance `P`
//! from measurements of dimension `m`. A prediction replaces `x` by `F x`
//! (plus `B u` where a control input is given; `'` is the transpose) and `P` by
//! `alpha_sq F P F' + Q`. An update with a measurement `z` computes the
//! innovation `y = z - H x` and its covariance `S = H P H' + R`, the gain
//! `K = P H' inv(S)`, and replaces `x` by `x + K y` and `P` by
//! `(I - K H) P (I - K H)' + K R K'`.
//!
//! This module holds the matrices, chooses and checks the operands of each
//! step, and takes the results in: it checks their shapes, stores them, and
//! keeps the snapshots after each step. The arithmetic in between is the
//! caller's.

use vstd::prelude::*;
use crate::error::KalmanError;
use crate::ieee::ONE;
use crate::ieee::ZERO;
use crate::matrix::Matrix;
use crate::matrix::MatrixView;

verus! {

/// A linear Kalman filter.
#[allow(non_snake_case)]
#[derive(Debug)]
pub struct KalmanFilter {
    /// The state estimate, `n` by 1.
    pub x: Matrix,
    /// The covariance of the state estimate, `n` by `n`.
    pub P: Matrix,
    /// The state as the last prediction left it.
    pub x_prior: Matrix,
    /// The covariance as the last prediction left it.
    pub P_prior: Matrix,
    /// The state as the last update left it.
    pub x_post: Matrix,
    /// The covariance as the last update left it.
    pub P_post: Matrix,
    /// The last measurement, if there was one.
    pub z: Option<Matrix>,
    /// The measurement noise, `m` by `m`.
    pub R: Matrix,
    /// The process noise, `n` by `n`.
    pub Q: Matrix,
    /// The control matrix, if there is one.
    pub B: Option<Matrix>,
    /// The state transition, `n` by `n`.
    pub F: Matrix,
    /// The measurement function, `m` by `n`.
    pub H: Matrix,
    /// The innovation of the last update, `m` by 1.
    pub y: Matrix,
    /// The gain of the last update, `n` by `m`.
    pub K: Matrix,
    /// The innovation covariance of the last update, `m` by `m`.
    pub S: Matrix,
    /// The inverse of the innovation covariance of the last update.
    pub SI: Matrix,
    /// The fading-memory factor that inflates the predicted covariance.
    pub alpha_sq: u64,
}

/// What a filter is: the view of each of its matrices.
#[allow(non_snake_case)]
pub struct KalmanView {
    pub x: MatrixView,
    pub P: MatrixView,
    pub x_prior: MatrixView,
    pub P_prior: MatrixView,
    pub x_post: MatrixView,
    pub P_post: MatrixView,
    pub z: Option<MatrixView>,
    pub R: MatrixView,
    pub Q: MatrixView,
    pub B: Option<MatrixView>,
    pub F: MatrixView,
    pub H: MatrixView,
    pub y: MatrixView,
    pub K: MatrixView,
    pub S: MatrixView,
    pub SI: MatrixView,
    pub alpha_sq: u64,
}

/// The view of a matrix that may be absent.
pub open spec fn view_of(m: Option<Matrix>) -> Option<MatrixView> {
    match m {
        Some(m) => Some(m@),
        None => None,
    }
}

impl View for KalmanFilter {
    type V = KalmanView;

    open spec fn view(&self) -> KalmanView {
        KalmanView {
            x: self.x@,
            P: self.P@,
            x_prior: self.x_prior@,
            P_prior: self.P_prior@,
            x_post: self.x_post@,
            P_post: self.P_post@,
            z: view_of(self.z),
            R: self.R@,
            Q: self.Q@,
            B: view_of(self.B),
            F: self.F@,
            H: self.H@,
            y: self.y@,
            K: self.K@,
            S: self.S@,
            SI: self.SI@,
            alpha_sq: self.alpha_sq,
        }
    }
}

impl KalmanView {
    /// The filter for a state of dimension `n` and measurements of
    /// dimension `m` as it is made: state zero, unit covariances and
    /// transition, no measurement yet.
    pub open spec fn initial(n: nat, m: nat) -> KalmanView {
        KalmanView {
            x: MatrixView::filled(n, 1, ZERO),
            P: MatrixView::diagonal(n, ONE, ZERO),
            x_prior: MatrixView::filled(n, 1, ZERO),
            P_prior: MatrixView::diagonal(n, ONE, ZERO),
            x_post: MatrixView::filled(n, 1, ZERO),
            P_post: MatrixView::diagonal(n, ONE, ZERO),
            z: None,
            R: MatrixView::diagonal(m, ONE, ZERO),
            Q: MatrixView::diagonal(n, ONE, ZERO),
            B: None,
            F: MatrixView::diagonal(n, ONE, ZERO),
            H: MatrixView::filled(m, n, ZERO),
            y: MatrixView::filled(m, 1, ONE),
            K: MatrixView::filled(n, m, ZERO),
            S: MatrixView::filled(m, m, ZERO),
            SI: MatrixView::filled(m, m, ZERO),
            alpha_sq: ONE,
        }
    }
}

impl KalmanFilter {
    /// A filter for a state of dimension `xdim` and measurements of
    /// dimension `zdim`.
    pub fn new(xdim: usize, zdim: usize) -> (filter: KalmanFilter)
        ensures
            filter@ == KalmanView::initial(xdim as nat, zdim as nat),
    {
        let x = Matrix::zeros(xdim, 1);
        let p = Matrix::eye(xdim);
        let q = Matrix::eye(xdim);
        let f = Matrix::eye(xdim);
        let h = Matrix::zeros(zdim, xdim);
        let r = Matrix::eye(zdim);
        let alpha_sq: u64 = ONE;
        let k = Matrix::zeros(xdim, zdim);
        let y = Matrix::ones(zdim, 1);
        let s = Matrix::zeros(zdim, zdim);
        let si = Matrix::zeros(zdim, zdim);
        let x_prior = x.clone();
        let x_post = x.clone();
        let p_prior = p.clone();
        let p_post = p.clone();
        KalmanFilter {
            x,
            P: p,
            x_prior,
            P_prior: p_prior,
            x_post,
            P_post: p_post,
            z: None,
            R: r,
            Q: q,
            B: None,
            F: f,
            H: h,
            y,
            K: k,
            S: s,
            SI: si,
            alpha_sq,
        }
    }
}

/// The operands of a prediction: the transition and the process noise to
/// use, and the control matrix with the control input where both are there.
#[allow(non_snake_case)]
#[derive(Debug)]
pub struct PredictInputs {
    pub F: Matrix,
    pub Q: Matrix,
    pub control: Option<(Matrix, Matrix)>,
}

/// The result of the arithmetic of a prediction: the new state and its
/// covariance.
#[allow(non_snake_case)]
#[derive(Debug)]
pub struct Prediction {
    pub x: Matrix,
    pub P: Matrix,
}

/// The operands of an update: the measurement noise and the measurement
/// function to use.
#[allow(non_snake_case)]
#[derive(Debug)]
pub struct UpdateInputs {
    pub R: Matrix,
    pub H: Matrix,
}

/// The first results of the arithmetic of an update: the innovation and its
/// covariance.
#[allow(non_snake_case)]
#[derive(Debug)]
pub struct Innovation {
    pub y: Matrix,
    pub S: Matrix,
}

/// The further results of the arithmetic of an update, which exist where
/// the innovation covariance has an inverse: that inverse, the gain, and the
/// new state and its covariance.
#[allow(non_snake_case)]
#[derive(Debug)]
pub struct Correction {
    pub SI: Matrix,
    pub K: Matrix,
    pub x: Matrix,
    pub P: Matrix,
}

/// The matrix to use where a call may override the filter's own.
pub open spec fn chosen(given: Option<&Matrix>, own: Matrix) -> Matrix {
    match given {
        Some(m) => *m,
        None => own,
    }
}

/// The control matrix to use, if any: the one given, else the filter's own.
pub open spec fn chosen_control(given: Option<&Matrix>, own: Option<Matrix>) -> Option<Matrix> {
    match given {
        Some(m) => Some(*m),
        None => own,
    }
}

/// Whether the operands of a prediction fit a state of dimension `n`.
#[allow(non_snake_case)]
pub open spec fn predict_fits(
    x: MatrixView,
    P: MatrixView,
    F: MatrixView,
    Q: MatrixView,
    control: Option<(MatrixView, MatrixView)>,
) -> bool {
    let n = x.rows();
    &&& x.cols == 1
    &&& P.has_shape(n, n)
    &&& F.has_shape(n, n)
    &&& Q.has_shape(n, n)
    &&& (control matches Some((B, u)) ==> B.rows() == n && u.rows() == B.cols && u.cols == 1)
}

/// Whether the operands of an update fit a state of dimension `n` and a
/// measurement `z`.
#[allow(non_snake_case)]
pub open spec fn update_fits(
    x: MatrixView,
    P: MatrixView,
    z: MatrixView,
    R: MatrixView,
    H: MatrixView,
) -> bool {
    let n = x.rows();
    let m = z.rows();
    &&& x.cols == 1
    &&& P.has_shape(n, n)
    &&& z.cols == 1
    &&& H.has_shape(m, n)
    &&& R.has_shape(m, m)
}

fn copy_of(given: Option<&Matrix>, own: &Matrix) -> (m: Matrix)
    ensures
        m@ == chosen(given, *own)@,
{
    match given {
        Some(g) => g.clone(),
        None => own.clone(),
    }
}

#[allow(non_snake_case)]
impl KalmanFilter {
    /// Chooses the operands of a prediction and checks their shapes. A
    /// matrix that the call gives overrides the filter's own. The control
    /// input takes part only where there is a control matrix too.
    ///
    /// Fails with `ShapeError` exactly if the chosen operands do not fit
    /// the state.
    pub fn predict_inputs(
        &self,
        u: Option<&Matrix>,
        B: Option<&Matrix>,
        F: Option<&Matrix>,
        Q: Option<&Matrix>,
    ) -> (r: Result<PredictInputs, KalmanError>)
        ensures
            r is Ok <==> predict_fits(
                self.x@,
                self.P@,
                chosen(F, self.F)@,
                chosen(Q, self.Q)@,
                match (chosen_control(B, self.B), u) {
                    (Some(b), Some(u)) => Some((b@, u@)),
                    _ => None,
                },
            ),
            r matches Err(e) ==> e == KalmanError::ShapeError,
            r matches Ok(inputs) ==> {
                &&& inputs.F@ == chosen(F, self.F)@
                &&& inputs.Q@ == chosen(Q, self.Q)@
                &&& match (chosen_control(B, self.B), u) {
                    (Some(b), Some(u)) => inputs.control matches Some(c) && c.0@ == b@ && c.1@
                        == u@,
                    _ => inputs.control is None,
                }
            },
    {
        let n = self.x.rows();
        let f = copy_of(F, &self.F);
        let q = copy_of(Q, &self.Q);
        let b: Option<&Matrix> = match B {
            Some(b) => Some(b),
            None => self.B.as_ref(),
        };
        let control = match (b, u) {
            (Some(b), Some(u)) => Some((b.clone(), u.clone())),
            _ => None,
        };
        let states_fit = self.x.cols() == 1 && self.P.has_shape(n, n) && f.has_shape(n, n)
            && q.has_shape(n, n);
        let control_fits = match &control {
            Some(c) => c.0.rows() == n && c.1.rows() == c.0.cols() && c.1.cols() == 1,
            None => true,
        };
        if states_fit && control_fits {
            Ok(PredictInputs { F: f, Q: q, control })
        } else {
            Err(KalmanError::ShapeError)
        }
    }

    /// Takes in the result of a prediction: the new state and covariance
    /// become the filter's, and the snapshot of the prediction.
    ///
    /// Fails with `ShapeError`, and changes nothing, exactly if the new state
    /// is no column or the new covariance is not square of the same size.
    pub fn predict(&mut self, step: Prediction) -> (r: Result<(), KalmanError>)
        ensures
            r is Ok <==> step.x@.cols == 1 && step.P@.has_shape(step.x@.rows(), step.x@.rows()),
            r matches Err(e) ==> e == KalmanError::ShapeError && *final(self) == *old(self),
            r is Ok ==> final(self)@ == (KalmanView {
                x: step.x@,
                P: step.P@,
                x_prior: step.x@,
                P_prior: step.P@,
                ..old(self)@
            }),
    {
        let n = step.x.rows();
        if !(step.x.cols() == 1 && step.P.has_shape(n, n)) {
            return Err(KalmanError::ShapeError);
        }
        self.x_prior = step.x.clone();
        self.P_prior = step.P.clone();
        self.x = step.x;
        self.P = step.P;
        Ok(())
    }

    /// Chooses the operands of an update with the measurement `z` and
    /// checks their shapes. A matrix that the call gives overrides the
    /// filter's own.
    ///
    /// Fails with `ShapeError` exactly if the chosen operands do not fit
    /// the state and the measurement.
    pub fn update_inputs(&self, z: &Matrix, R: Option<&Matrix>, H: Option<&Matrix>) -> (r: Result<
        UpdateInputs,
        KalmanError,
    >)
        ensures
            r is Ok <==> update_fits(self.x@, self.P@, z@, chosen(R, self.R)@, chosen(H, self.H)@),
            r matches Err(e) ==> e == KalmanError::ShapeError,
            r matches Ok(inputs) ==> inputs.R@ == chosen(R, self.R)@ && inputs.H@ == chosen(
                H,
                self.H,
            )@,
    {
        let n = self.x.rows();
        let m = z.rows();
        let r = copy_of(R, &self.R);
        let h = copy_of(H, &self.H);
        if self.x.cols() == 1 && self.P.has_shape(n, n) && z.cols() == 1 && h.has_shape(m, n)
            && r.has_shape(m, m) {
            Ok(UpdateInputs { R: r, H: h })
        } else {
            Err(KalmanError::ShapeError)
        }
    }

    /// Whether the results of an update fit a state of dimension `n` and
    /// the measurement.
    pub open spec fn results_fit(
        z: MatrixView,
        innovation: Innovation,
        correction: Option<Correction>,
    ) -> bool {
        let m = z.rows();
        &&& z.cols == 1
        &&& innovation.y@.has_shape(m, 1)
        &&& innovation.S@.has_shape(m, m)
        &&& (correction matches Some(c) ==> {
            let n = c.x@.rows();
            &&& c.x@.cols == 1
            &&& c.P@.has_shape(n, n)
            &&& c.K@.has_shape(n, m)
            &&& c.SI@.has_shape(m, m)
        })
    }

    /// Takes in the results of an update with the measurement `z`. The
    /// innovation and its covariance become the filter's. Where the
    /// covariance had an inverse, so do the inverse, the gain, the new state
    /// and its covariance, the measurement, and the snapshot of the update.
    ///
    /// Fails with `ShapeError`, and changes nothing, exactly if a result has
    /// not the shape that the measurement and the new state ask for. Else
    /// fails with `LinAlg` exactly if no correction came: the innovation
    /// covariance had no inverse.
    pub fn update(
        &mut self,
        z: &Matrix,
        innovation: Innovation,
        correction: Option<Correction>,
    ) -> (r: Result<(), KalmanError>)
        ensures
            r is Ok <==> Self::results_fit(z@, innovation, correction) && correction is Some,
            r matches Err(e) ==> e == (if Self::results_fit(z@, innovation, correction) {
                KalmanError::LinAlg
            } else {
                KalmanError::ShapeError
            }),
            !Self::results_fit(z@, innovation, correction) ==> *final(self) == *old(self),
            Self::results_fit(z@, innovation, correction) ==> final(self)@ == (match correction {
                Some(c) => KalmanView {
                    y: innovation.y@,
                    S: innovation.S@,
                    SI: c.SI@,
                    K: c.K@,
                    x: c.x@,
                    P: c.P@,
                    z: Some(z@),
                    x_post: c.x@,
                    P_post: c.P@,
                    ..old(self)@
                },
                None => KalmanView { y: innovation.y@, S: innovation.S@, ..old(self)@ },
            }),
    {
        let m = z.rows();
        let first_fit = z.cols() == 1 && innovation.y.has_shape(m, 1) && innovation.S.has_shape(
            m,
            m,
        );
        let rest_fit = match &correction {
            Some(c) => {
                let n = c.x.rows();
                c.x.cols() == 1 && c.P.has_shape(n, n) && c.K.has_shape(n, m) && c.SI.has_shape(
                    m,
                    m,
                )
            },
            None => true,
        };
        if !(first_fit && rest_fit) {
            return Err(KalmanError::ShapeError);
        }
        self.y = innovation.y;
        self.S = innovation.S;
        match correction {
            None => Err(KalmanError::LinAlg),
            Some(c) => {
                self.SI = c.SI;
                self.K = c.K;
                self.x_post = c.x.clone();
                self.P_post = c.P.clone();
                self.x = c.x;
                self.P = c.P;
                self.z = Some(z.clone());
                Ok(())
            },
        }
    }
}

} // verus!
