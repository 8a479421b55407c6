//! The failures that the filter and the tracker report.

use vstd::prelude::*;

verus! {

/// Why a step of the Kalman filter was refused.
#[derive(Debug, Clone, Copy, PartialEq, Eq, Structural)]
pub enum KalmanError {
    /// A matrix does not have the shape that the step needs.
    ShapeError,
    /// The innovation covariance has no inverse.
    LinAlg,
}

/// Why a step of the tracker was refused.
#[derive(Debug, Clone, Copy, PartialEq, Eq, Structural)]
pub enum MotionTrackError {
    /// The filter of a track refused a step.
    KalmanError { source: KalmanError },
    /// A matrix or a list does not have the shape that the step needs.
    ShapeError,
    /// No usable solution of the assignment problem was handed in.
    LapJVError,
}

} // verus!
