//! One track: its filter and its counters.

use sort_track::bbox::BBox;
use sort_track::error::KalmanError;
use sort_track::error::MotionTrackError;
use sort_track::kalman::Correction;
use sort_track::kalman::Innovation;
use sort_track::kalman::Prediction;
use sort_track::matrix::Matrix;
use sort_track::tracker::KalmanBoxTracker;
use sort_track::tracker::MEASUREMENT_DIM;
use sort_track::tracker::SCALE;
use sort_track::tracker::SCALE_VELOCITY;
use sort_track::tracker::STATE_DIM;

fn values(m: &Matrix) -> Vec<Vec<f64>> {
    m.to_rows().iter().map(|r| r.iter().map(|b| f64::from_bits(*b)).collect()).collect()
}

fn z() -> [u64; 4] {
    [5.0f64.to_bits(), 6.0f64.to_bits(), 100.0f64.to_bits(), 1.5f64.to_bits()]
}

fn step(fill: f64) -> Prediction {
    Prediction { x: Matrix::filled(7, 1, fill.to_bits()), P: Matrix::filled(7, 7, fill.to_bits()) }
}

fn bbox(fill: f64) -> BBox {
    BBox::new(fill.to_bits(), fill.to_bits(), (fill + 1.0).to_bits(), (fill + 2.0).to_bits())
}

fn innovation() -> Innovation {
    Innovation { y: Matrix::filled(4, 1, 1), S: Matrix::filled(4, 4, 2) }
}

fn correction() -> Correction {
    Correction {
        SI: Matrix::filled(4, 4, 3),
        K: Matrix::filled(7, 4, 4),
        x: Matrix::filled(7, 1, 5),
        P: Matrix::filled(7, 7, 6),
    }
}

#[test]
fn dimensions_of_the_model() {
    assert_eq!(STATE_DIM, 7);
    assert_eq!(MEASUREMENT_DIM, 4);
    assert_eq!(SCALE, 2);
    assert_eq!(SCALE_VELOCITY, 6);
}

#[test]
fn new_track_starts_at_the_measurement_and_stands_still() {
    let t = KalmanBoxTracker::new(9, z());
    assert_eq!(t.id(), 9);
    assert_eq!(t.age(), 0);
    assert_eq!(t.hits(), 0);
    assert_eq!(t.hit_streak(), 0);
    assert_eq!(t.time_since_update(), 0);
    assert!(t.history().is_empty());
    assert_eq!(
        values(&t.state()),
        vec![vec![5.0], vec![6.0], vec![100.0], vec![1.5], vec![0.0], vec![0.0], vec![0.0]]
    );
    assert_eq!(t.state(), t.filter().x);
}

#[test]
fn new_track_has_the_constant_velocity_model() {
    let t = KalmanBoxTracker::new(0, z());
    let f = t.filter();
    assert_eq!(
        values(&f.F),
        vec![
            vec![1., 0., 0., 0., 1., 0., 0.],
            vec![0., 1., 0., 0., 0., 1., 0.],
            vec![0., 0., 1., 0., 0., 0., 1.],
            vec![0., 0., 0., 1., 0., 0., 0.],
            vec![0., 0., 0., 0., 1., 0., 0.],
            vec![0., 0., 0., 0., 0., 1., 0.],
            vec![0., 0., 0., 0., 0., 0., 1.],
        ]
    );
    assert_eq!(
        values(&f.H),
        vec![
            vec![1., 0., 0., 0., 0., 0., 0.],
            vec![0., 1., 0., 0., 0., 0., 0.],
            vec![0., 0., 1., 0., 0., 0., 0.],
            vec![0., 0., 0., 1., 0., 0., 0.],
        ]
    );
}

#[test]
fn new_track_has_the_documented_noise() {
    let t = KalmanBoxTracker::new(0, z());
    let f = t.filter();
    assert_eq!(
        values(&f.R),
        vec![
            vec![1., 0., 0., 0.],
            vec![0., 1., 0., 0.],
            vec![0., 0., 10., 0.],
            vec![0., 0., 0., 10.],
        ]
    );
    assert_eq!(values(&f.P), vec![vec![10.0; 7]; 7]);
    assert_eq!(
        values(&f.Q),
        vec![
            vec![1., 0., 0., 0., 0., 0., 0.],
            vec![0., 1., 0., 0., 0., 0., 0.],
            vec![0., 0., 1., 0., 0., 0., 0.],
            vec![0., 0., 0., 1., 0., 0., 0.],
            vec![0., 0., 0., 0., 0.01, 0.01, 0.01],
            vec![0., 0., 0., 0., 0.01, 0.01, 0.01],
            vec![0., 0., 0., 0., 0.01, 0.01, 0.01],
        ]
    );
    // what the filter was made with stays
    assert_eq!(f.K, Matrix::zeros(7, 4));
    assert_eq!(f.y, Matrix::ones(4, 1));
    assert_eq!(f.z, None);
    assert_eq!(f64::from_bits(f.alpha_sq), 1.0);
}

#[test]
fn clamp_zeroes_the_velocity_of_the_area() {
    for sum in [0.0, -0.0, -1.0, -1e-300, f64::NEG_INFINITY] {
        let mut t = KalmanBoxTracker::new(0, z());
        let mut moved = step(3.0);
        moved.x.set(6, 0, (-7.0f64).to_bits());
        t.predict(moved, bbox(0.0)).unwrap();
        t.clamp_scale_velocity(sum.to_bits());
        let x = values(&t.state());
        assert_eq!(x[6][0].to_bits(), 0.0f64.to_bits(), "{:?}", sum);
        for i in 0..6 {
            assert_eq!(x[i][0], 3.0);
        }
    }
}

#[test]
fn clamp_leaves_a_positive_area_alone() {
    for sum in [1.0, 5e-324, f64::INFINITY, f64::NAN] {
        let mut t = KalmanBoxTracker::new(0, z());
        let mut moved = step(3.0);
        moved.x.set(6, 0, (-7.0f64).to_bits());
        t.predict(moved, bbox(0.0)).unwrap();
        t.clamp_scale_velocity(sum.to_bits());
        assert_eq!(values(&t.state())[6][0], -7.0, "{:?}", sum);
    }
}

#[test]
fn predict_counts_the_frame() {
    let mut t = KalmanBoxTracker::new(0, z());
    let b = t.predict(step(1.0), bbox(1.0)).unwrap();
    assert_eq!(b, bbox(1.0));
    assert_eq!(t.age(), 1);
    assert_eq!(t.time_since_update(), 1);
    assert_eq!(t.history().len(), 1);
    assert_eq!(t.history()[0], bbox(1.0));
    assert_eq!(t.filter().x, Matrix::filled(7, 1, 1.0f64.to_bits()));
    assert_eq!(t.filter().P, Matrix::filled(7, 7, 1.0f64.to_bits()));
    assert_eq!(t.filter().x_prior, t.filter().x);
    assert_eq!(t.filter().P_prior, t.filter().P);
    t.predict(step(2.0), bbox(2.0)).unwrap();
    assert_eq!(t.age(), 2);
    assert_eq!(t.time_since_update(), 2);
    assert_eq!(t.history().len(), 2);
    assert_eq!(t.history()[0], bbox(1.0));
    assert_eq!(t.history()[1], bbox(2.0));
}

#[test]
fn track_predict_refuses_wrong_shapes() {
    let mut t = KalmanBoxTracker::new(0, z());
    let bad = [
        Prediction { x: Matrix::zeros(6, 1), P: Matrix::zeros(6, 6) },
        Prediction { x: Matrix::zeros(7, 2), P: Matrix::zeros(7, 7) },
        Prediction { x: Matrix::zeros(7, 1), P: Matrix::zeros(7, 6) },
    ];
    for s in bad {
        assert_eq!(t.predict(s, bbox(0.0)).unwrap_err(), MotionTrackError::ShapeError);
        assert_eq!(t.age(), 0);
        assert_eq!(t.time_since_update(), 0);
        assert!(t.history().is_empty());
    }
}

#[test]
fn update_counts_the_match() {
    let mut t = KalmanBoxTracker::new(0, z());
    t.predict(step(1.0), bbox(1.0)).unwrap();
    let z = Matrix::filled(4, 1, 9);
    t.update(&z, innovation(), Some(correction())).unwrap();
    assert_eq!(t.hits(), 1);
    assert_eq!(t.hit_streak(), 1);
    assert_eq!(t.time_since_update(), 0);
    assert_eq!(t.age(), 1);
    assert!(t.history().is_empty());
    assert_eq!(t.filter().x, Matrix::filled(7, 1, 5));
    assert_eq!(t.filter().P, Matrix::filled(7, 7, 6));
    assert_eq!(t.filter().K, Matrix::filled(7, 4, 4));
    assert_eq!(t.filter().SI, Matrix::filled(4, 4, 3));
    assert_eq!(t.filter().y, Matrix::filled(4, 1, 1));
    assert_eq!(t.filter().S, Matrix::filled(4, 4, 2));
    assert_eq!(t.filter().z, Some(z));
    assert_eq!(t.filter().x_post, t.filter().x);
}

#[test]
fn one_miss_keeps_the_streak_and_two_end_it() {
    let mut t = KalmanBoxTracker::new(0, z());
    let z = Matrix::filled(4, 1, 9);
    for _ in 0..3 {
        t.predict(step(1.0), bbox(1.0)).unwrap();
        t.update(&z, innovation(), Some(correction())).unwrap();
    }
    assert_eq!(t.hit_streak(), 3);
    // the prediction of the next frame: the streak stands until the frame
    // ends without a match
    t.predict(step(1.0), bbox(1.0)).unwrap();
    assert_eq!(t.hit_streak(), 3);
    assert_eq!(t.time_since_update(), 1);
    t.predict(step(1.0), bbox(1.0)).unwrap();
    assert_eq!(t.hit_streak(), 0);
    assert_eq!(t.time_since_update(), 2);
    assert_eq!(t.hits(), 3);
    assert_eq!(t.age(), 5);
    t.update(&z, innovation(), Some(correction())).unwrap();
    assert_eq!(t.hit_streak(), 1);
    assert_eq!(t.hits(), 4);
    assert_eq!(t.time_since_update(), 0);
}

#[test]
fn update_without_inverse_counts_and_fails() {
    let mut t = KalmanBoxTracker::new(0, z());
    t.predict(step(1.0), bbox(1.0)).unwrap();
    let z = Matrix::filled(4, 1, 9);
    assert_eq!(
        t.update(&z, innovation(), None).unwrap_err(),
        MotionTrackError::KalmanError { source: KalmanError::LinAlg }
    );
    assert_eq!(t.hits(), 1);
    assert_eq!(t.hit_streak(), 1);
    assert_eq!(t.time_since_update(), 0);
    assert!(t.history().is_empty());
    assert_eq!(t.filter().y, Matrix::filled(4, 1, 1));
    assert_eq!(t.filter().S, Matrix::filled(4, 4, 2));
    assert_eq!(t.filter().x, Matrix::filled(7, 1, 1.0f64.to_bits()));
    assert_eq!(t.filter().z, None);
}

#[test]
fn track_update_refuses_wrong_shapes_and_changes_nothing() {
    let good_z = Matrix::filled(4, 1, 9);
    let cases: Vec<(Matrix, Innovation, Option<Correction>)> = vec![
        (Matrix::zeros(3, 1), innovation(), Some(correction())),
        (good_z.clone(), Innovation { y: Matrix::zeros(4, 1), S: Matrix::zeros(3, 3) }, None),
        (
            good_z.clone(),
            innovation(),
            Some(Correction {
                SI: Matrix::zeros(4, 4),
                K: Matrix::zeros(7, 4),
                x: Matrix::zeros(6, 1),
                P: Matrix::zeros(6, 6),
            }),
        ),
        (
            good_z.clone(),
            innovation(),
            Some(Correction {
                SI: Matrix::zeros(4, 4),
                K: Matrix::zeros(4, 7),
                x: Matrix::zeros(7, 1),
                P: Matrix::zeros(7, 7),
            }),
        ),
    ];
    for (z_in, i, c) in cases {
        let mut t = KalmanBoxTracker::new(0, z());
        t.predict(step(1.0), bbox(1.0)).unwrap();
        assert_eq!(t.update(&z_in, i, c).unwrap_err(), MotionTrackError::ShapeError);
        assert_eq!(t.hits(), 0);
        assert_eq!(t.hit_streak(), 0);
        assert_eq!(t.time_since_update(), 1);
        assert_eq!(t.history().len(), 1);
        assert_eq!(t.filter().y, Matrix::ones(4, 1));
    }
}
