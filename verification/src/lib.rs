//! Multi-object tracking of bounding boxes: a registry of tracks, each with
//! the state of a linear Kalman filter, matched frame by frame against
//! detections by overlap.
//!
//! Every number that crosses this library is an IEEE 754 binary64 value
//! carried as its 64-bit pattern. The library compares and stores such
//! values; it never does arithmetic on them. The caller does the arithmetic
//! of a frame and hands the results in; the library checks their shapes,
//! keeps the books of every track and decides which detection belongs to
//! which track, which tracks are born, reported and dropped.
//!
//! - `ieee`: the order of binary64 values on their bit patterns.
//! - `matrix`: matrices of bit patterns.
//! - `bbox`: boxes in corner form.
//! - `kalman`: the state of a Kalman filter and its two steps.
//! - `tracker`: one track, its filter and its counters.
//! - `sparse`, `assignment`, `association`: from overlaps to matches.
//! - `sort`: the registry and the steps of a frame.
//! - `photon_serde`: the decoder of the vision pipeline's records.

pub mod assignment;
pub mod association;
pub mod bbox;
pub mod error;
pub mod ieee;
pub mod kalman;
pub mod marks;
pub mod matrix;
pub mod pairs;
pub mod photon_serde;
mod seqs;
pub mod sort;
pub mod sparse;
pub mod tracker;
