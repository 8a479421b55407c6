//! The steps of a frame, each by itself, with made-up numbers.

use sort_track::bbox::BBox;
use sort_track::error::KalmanError;
use sort_track::error::MotionTrackError;
use sort_track::kalman::Correction;
use sort_track::kalman::Innovation;
use sort_track::kalman::Prediction;
use sort_track::matrix::Matrix;
use sort_track::sort::Sort;
use sort_track::sort::TrackPrediction;
use sort_track::sort::TrackUpdate;

fn z(fill: f64) -> [u64; 4] {
    [fill.to_bits(); 4]
}

fn bbox(fill: f64) -> BBox {
    BBox::new(fill.to_bits(), fill.to_bits(), (fill + 1.0).to_bits(), (fill + 2.0).to_bits())
}

fn going(fill: f64) -> TrackPrediction {
    TrackPrediction {
        step: Prediction {
            x: Matrix::filled(7, 1, fill.to_bits()),
            P: Matrix::filled(7, 7, fill.to_bits()),
        },
        bbox: bbox(fill),
    }
}

fn hit(fill: u64) -> TrackUpdate {
    TrackUpdate {
        z: Matrix::filled(4, 1, fill),
        innovation: Innovation { y: Matrix::filled(4, 1, fill), S: Matrix::filled(4, 4, fill) },
        correction: Some(Correction {
            SI: Matrix::filled(4, 4, fill),
            K: Matrix::filled(7, 4, fill),
            x: Matrix::filled(7, 1, fill),
            P: Matrix::filled(7, 7, fill),
        }),
    }
}

fn with_tracks(n: usize) -> Sort {
    let mut sort = Sort::new();
    let births: Vec<[u64; 4]> = (0..n).map(|k| z(k as f64)).collect();
    sort.spawn(&births);
    sort
}

fn ids(sort: &Sort) -> Vec<u32> {
    (0..sort.len()).map(|i| sort.tracker(i).id()).collect()
}

fn all_going(sort: &Sort) -> Vec<TrackPrediction> {
    (0..sort.len()).map(|i| going(i as f64)).collect()
}

#[test]
fn new_tracker_has_the_usual_settings() {
    let sort = Sort::new();
    assert_eq!(sort.max_age(), 1);
    assert_eq!(sort.min_hits(), 3);
    assert_eq!(f64::from_bits(sort.iou_threshold()), 0.3);
    assert_eq!(sort.frame_count(), 0);
    assert_eq!(sort.id_ctr(), 0);
    assert_eq!(sort.len(), 0);
}

#[test]
fn settings_are_taken_as_given() {
    let sort = Sort::with_settings(5, 0, 0.75f64.to_bits()).unwrap();
    assert_eq!(sort.max_age(), 5);
    assert_eq!(sort.min_hits(), 0);
    assert_eq!(f64::from_bits(sort.iou_threshold()), 0.75);
    assert_eq!(sort.len(), 0);
    assert!(Sort::with_settings(0, 0, 0.0f64.to_bits()).is_some());
    assert!(Sort::with_settings(0, 0, 1.0f64.to_bits()).is_some());
}

#[test]
fn threshold_must_lie_between_zero_and_one() {
    for bad in [-0.1, 1.0000000000000002, f64::NAN, f64::INFINITY, -1.0] {
        assert!(Sort::with_settings(1, 3, bad.to_bits()).is_none(), "{:?}", bad);
    }
}

#[test]
fn spawn_gives_rising_identities() {
    let mut sort = Sort::new();
    sort.spawn(&vec![z(1.0), z(2.0)]);
    assert_eq!(ids(&sort), vec![0, 1]);
    assert_eq!(sort.id_ctr(), 2);
    sort.spawn(&vec![]);
    assert_eq!(sort.id_ctr(), 2);
    sort.spawn(&vec![z(3.0)]);
    assert_eq!(ids(&sort), vec![0, 1, 2]);
    assert_eq!(sort.id_ctr(), 3);
    assert_eq!(f64::from_bits(sort.tracker(2).state().get(0, 0)), 3.0);
    assert_eq!(f64::from_bits(sort.tracker(2).state().get(4, 0)), 0.0);
    assert_eq!(sort.frame_count(), 0);
}

#[test]
fn clamp_wants_one_sum_for_each_track() {
    let mut sort = with_tracks(2);
    assert_eq!(sort.clamp(&vec![0]).unwrap_err(), MotionTrackError::ShapeError);
    assert_eq!(sort.clamp(&vec![0, 0, 0]).unwrap_err(), MotionTrackError::ShapeError);
    assert!(sort.clamp(&vec![0, 0]).is_ok());
    assert!(Sort::new().clamp(&vec![]).is_ok());
}

#[test]
fn clamp_touches_the_tracks_that_need_it() {
    let mut sort = with_tracks(3);
    let mut steps = all_going(&sort);
    for s in steps.iter_mut() {
        s.step.x.set(6, 0, (-4.0f64).to_bits());
    }
    sort.predict(&steps).unwrap();
    sort.clamp(&vec![1.0f64.to_bits(), (-1.0f64).to_bits(), 0.0f64.to_bits()]).unwrap();
    assert_eq!(f64::from_bits(sort.tracker(0).state().get(6, 0)), -4.0);
    assert_eq!(sort.tracker(1).state().get(6, 0), 0);
    assert_eq!(sort.tracker(2).state().get(6, 0), 0);
    for i in 0..3 {
        assert_eq!(f64::from_bits(sort.tracker(i).state().get(2, 0)), i as f64);
    }
}

#[test]
fn predict_counts_the_frame_for_every_track() {
    let mut sort = with_tracks(2);
    let boxes = sort.predict(&all_going(&sort)).unwrap();
    assert_eq!(sort.frame_count(), 1);
    assert!(boxes.has_shape(2, 4));
    assert_eq!(boxes.to_rows()[0], bbox(0.0).as_mat1().unwrap());
    assert_eq!(boxes.to_rows()[1], bbox(1.0).as_mat1().unwrap());
    for i in 0..2 {
        assert_eq!(sort.tracker(i).age(), 1);
        assert_eq!(sort.tracker(i).time_since_update(), 1);
        assert_eq!(sort.tracker(i).history().len(), 1);
    }
}

#[test]
fn predict_without_tracks() {
    let mut sort = Sort::new();
    let boxes = sort.predict(&vec![]).unwrap();
    assert!(boxes.has_shape(0, 4));
    assert_eq!(sort.frame_count(), 1);
}

#[test]
fn predict_drops_tracks_whose_box_has_a_nan() {
    let mut sort = with_tracks(4);
    let mut steps = all_going(&sort);
    steps[0].bbox = BBox::new(0, 0, f64::NAN.to_bits(), 0);
    steps[2].bbox = BBox::new(f64::NAN.to_bits(), 0, 0, 0);
    let boxes = sort.predict(&steps).unwrap();
    assert_eq!(ids(&sort), vec![1, 3]);
    assert!(boxes.has_shape(2, 4));
    assert_eq!(boxes.to_rows()[0], bbox(1.0).as_mat1().unwrap());
    assert_eq!(boxes.to_rows()[1], bbox(3.0).as_mat1().unwrap());
    // the dropped identities are not given again
    sort.spawn(&vec![z(0.0)]);
    assert_eq!(ids(&sort), vec![1, 3, 4]);
}

#[test]
fn predict_refuses_what_does_not_fit() {
    let mut sort = with_tracks(2);
    assert_eq!(sort.predict(&vec![going(0.0)]).unwrap_err(), MotionTrackError::ShapeError);
    let mut steps = all_going(&sort);
    steps[1].step.x = Matrix::zeros(4, 1);
    assert_eq!(sort.predict(&steps).unwrap_err(), MotionTrackError::ShapeError);
    let mut steps = all_going(&sort);
    steps[0].step.P = Matrix::zeros(7, 1);
    assert_eq!(sort.predict(&steps).unwrap_err(), MotionTrackError::ShapeError);
    // nothing was counted
    assert_eq!(sort.frame_count(), 0);
    assert_eq!(sort.tracker(0).age(), 0);
    assert_eq!(sort.tracker(1).age(), 0);
}

#[test]
fn matches_update_their_tracks_only() {
    let mut sort = with_tracks(3);
    sort.predict(&all_going(&sort)).unwrap();
    sort.apply_matches(&vec![(5, 2), (0, 0)], &vec![hit(22), hit(33)]).unwrap();
    assert_eq!(sort.tracker(0).hits(), 1);
    assert_eq!(sort.tracker(0).time_since_update(), 0);
    assert_eq!(sort.tracker(0).state(), Matrix::filled(7, 1, 33));
    assert_eq!(sort.tracker(1).hits(), 0);
    assert_eq!(sort.tracker(1).time_since_update(), 1);
    assert_eq!(sort.tracker(1).state(), Matrix::filled(7, 1, 1.0f64.to_bits()));
    assert_eq!(sort.tracker(2).hits(), 1);
    assert_eq!(sort.tracker(2).state(), Matrix::filled(7, 1, 22));
    assert_eq!(sort.tracker(2).filter().z, Some(Matrix::filled(4, 1, 22)));
}

#[test]
fn matches_that_do_not_fit_are_refused() {
    let fresh = || {
        let mut sort = with_tracks(2);
        sort.predict(&all_going(&sort)).unwrap();
        sort
    };
    // a track that does not exist
    let mut sort = fresh();
    assert_eq!(
        sort.apply_matches(&vec![(0, 2)], &vec![hit(1)]).unwrap_err(),
        MotionTrackError::ShapeError
    );
    // a track matched twice
    assert_eq!(
        sort.apply_matches(&vec![(0, 1), (1, 1)], &vec![hit(1), hit(2)]).unwrap_err(),
        MotionTrackError::ShapeError
    );
    // not one update for each match
    assert_eq!(
        sort.apply_matches(&vec![(0, 1)], &vec![]).unwrap_err(),
        MotionTrackError::ShapeError
    );
    // an update of the wrong shape
    let mut bad = hit(1);
    bad.z = Matrix::zeros(5, 1);
    assert_eq!(
        sort.apply_matches(&vec![(0, 1)], &vec![bad]).unwrap_err(),
        MotionTrackError::ShapeError
    );
    for i in 0..2 {
        assert_eq!(sort.tracker(i).hits(), 0);
        assert_eq!(sort.tracker(i).time_since_update(), 1);
    }
    // a track that was matched in this frame already
    sort.apply_matches(&vec![(0, 1)], &vec![hit(1)]).unwrap();
    assert_eq!(
        sort.apply_matches(&vec![(0, 1)], &vec![hit(2)]).unwrap_err(),
        MotionTrackError::ShapeError
    );
    assert_eq!(sort.tracker(1).hits(), 1);
    // a track that no prediction has gone by for
    let mut sort = with_tracks(1);
    assert_eq!(
        sort.apply_matches(&vec![(0, 0)], &vec![hit(1)]).unwrap_err(),
        MotionTrackError::ShapeError
    );
}

#[test]
fn a_missing_inverse_fails_the_whole_step() {
    let mut sort = with_tracks(2);
    sort.predict(&all_going(&sort)).unwrap();
    let mut singular = hit(2);
    singular.correction = None;
    assert_eq!(
        sort.apply_matches(&vec![(0, 0), (1, 1)], &vec![hit(1), singular]).unwrap_err(),
        MotionTrackError::KalmanError { source: KalmanError::LinAlg }
    );
    for i in 0..2 {
        assert_eq!(sort.tracker(i).hits(), 0);
        assert_eq!(sort.tracker(i).time_since_update(), 1);
        assert_eq!(sort.tracker(i).filter().y, Matrix::ones(4, 1));
    }
}

#[test]
fn report_lists_the_latest_track_first() {
    let mut sort = with_tracks(3);
    sort.predict(&all_going(&sort)).unwrap();
    sort.apply_matches(&vec![(0, 0), (1, 2)], &vec![hit(10), hit(12)]).unwrap();
    let out = sort.report();
    // frame 1 is within the first three frames: a match is enough
    assert_eq!(out.iter().map(|r| r.id).collect::<Vec<u32>>(), vec![2, 0]);
    assert_eq!(out[0].state, Matrix::filled(7, 1, 12));
    assert_eq!(out[1].state, Matrix::filled(7, 1, 10));
    // one frame unmatched is within max_age
    assert_eq!(ids(&sort), vec![0, 1, 2]);
}

#[test]
fn report_right_after_birth_lists_the_newborn() {
    let mut sort = Sort::new();
    sort.predict(&vec![]).unwrap();
    sort.spawn(&vec![z(1.0), z(2.0)]);
    let out = sort.report();
    assert_eq!(out.iter().map(|r| r.id).collect::<Vec<u32>>(), vec![1, 0]);
    assert_eq!(f64::from_bits(out[0].state.get(0, 0)), 2.0);
}

#[test]
fn report_drops_stale_tracks() {
    let mut sort = with_tracks(3);
    for frame in 0..2 {
        sort.predict(&all_going(&sort)).unwrap();
        // track 1 is matched in both frames, track 2 in the first
        let matches = if frame == 0 { vec![(0, 1), (1, 2)] } else { vec![(0, 1)] };
        let updates = matches.iter().map(|_| hit(1)).collect();
        sort.apply_matches(&matches, &updates).unwrap();
        let out = sort.report();
        if frame == 0 {
            assert_eq!(out.iter().map(|r| r.id).collect::<Vec<u32>>(), vec![2, 1]);
            assert_eq!(ids(&sort), vec![0, 1, 2]);
        } else {
            assert_eq!(out.iter().map(|r| r.id).collect::<Vec<u32>>(), vec![1]);
            // track 0 went unmatched for two frames, track 2 for one
            assert_eq!(ids(&sort), vec![1, 2]);
        }
    }
}

#[test]
fn after_the_first_frames_a_streak_is_needed() {
    let mut sort = Sort::with_settings(1, 2, 0.3f64.to_bits()).unwrap();
    let mut listed = Vec::new();
    for frame in 0..5 {
        sort.predict(&all_going(&sort)).unwrap();
        if frame == 2 {
            sort.spawn(&vec![z(0.0)]);
        } else if frame > 2 {
            sort.apply_matches(&vec![(0, 0)], &vec![hit(1)]).unwrap();
        }
        listed.push(sort.report().len());
    }
    // born in frame 3, beyond the first two: listed once its streak is 2
    assert_eq!(listed, vec![0, 0, 0, 0, 1]);
}

#[test]
fn without_min_hits_a_match_is_enough() {
    let mut sort = Sort::with_settings(0, 0, 0.3f64.to_bits()).unwrap();
    for _ in 0..4 {
        sort.predict(&all_going(&sort)).unwrap();
        sort.report();
    }
    sort.predict(&vec![]).unwrap();
    sort.spawn(&vec![z(0.0)]);
    assert_eq!(sort.report().len(), 1);
    // max_age 0: one frame without a match and the track is gone
    sort.predict(&all_going(&sort)).unwrap();
    assert_eq!(sort.len(), 1);
    assert!(sort.report().is_empty());
    assert_eq!(sort.len(), 0);
}

#[test]
fn longer_max_age_keeps_a_track_through_misses() {
    let mut sort = Sort::with_settings(3, 3, 0.3f64.to_bits()).unwrap();
    sort.spawn(&vec![z(0.0)]);
    let mut alive = Vec::new();
    for _ in 0..5 {
        sort.predict(&all_going(&sort)).unwrap();
        sort.report();
        alive.push(sort.len());
    }
    assert_eq!(alive, vec![1, 1, 1, 0, 0]);
}
