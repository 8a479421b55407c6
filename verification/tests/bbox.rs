//! Boxes in corner form.

use sort_track::bbox::BBox;
use sort_track::error::MotionTrackError;

fn bits(v: [f64; 4]) -> [u64; 4] {
    [v[0].to_bits(), v[1].to_bits(), v[2].to_bits(), v[3].to_bits()]
}

fn boxed(v: [f64; 4]) -> BBox {
    let b = bits(v);
    BBox::new(b[0], b[1], b[2], b[3])
}

#[test]
fn new_keeps_the_corners_in_order() {
    let b = boxed([1.0, 2.0, 3.0, 4.0]);
    for i in 0..4 {
        assert_eq!(f64::from_bits(b.get(i)), (i + 1) as f64);
    }
}

#[test]
fn as_mat_is_a_column_of_four() {
    let b = boxed([1.0, 2.0, 3.0, 4.0]);
    let m = b.as_mat();
    assert!(m.has_shape(4, 1));
    let want = bits([1.0, 2.0, 3.0, 4.0]);
    assert_eq!(
        m.to_rows(),
        vec![vec![want[0]], vec![want[1]], vec![want[2]], vec![want[3]]]
    );
}

#[test]
fn flat_form_and_back() {
    let b = boxed([0.5, -2.0, 30.25, 4.0]);
    let flat = b.as_mat1().unwrap();
    assert_eq!(flat, bits([0.5, -2.0, 30.25, 4.0]).to_vec());
    let back = BBox::from_mat1(flat).unwrap();
    assert_eq!(back, b);
    for i in 0..4 {
        assert_eq!(back.get(i), b.get(i));
    }
}

#[test]
fn from_mat1_wants_four_items() {
    assert_eq!(BBox::from_mat1(vec![]).unwrap_err(), MotionTrackError::ShapeError);
    assert_eq!(BBox::from_mat1(vec![1, 2, 3]).unwrap_err(), MotionTrackError::ShapeError);
    assert_eq!(BBox::from_mat1(vec![1, 2, 3, 4, 5]).unwrap_err(), MotionTrackError::ShapeError);
    assert!(BBox::from_mat1(vec![1, 2, 3, 4]).is_ok());
}

#[test]
fn has_nan_looks_at_every_corner() {
    assert!(!boxed([0.0, 0.0, 10.0, 10.0]).has_nan());
    assert!(!boxed([f64::INFINITY, 0.0, f64::NEG_INFINITY, 10.0]).has_nan());
    for i in 0..4 {
        let mut v = [0.0, 0.0, 10.0, 10.0];
        v[i] = f64::NAN;
        assert!(boxed(v).has_nan());
    }
}

#[test]
fn equality_is_that_of_the_values() {
    assert_eq!(boxed([0.0, 1.0, 2.0, 3.0]), boxed([-0.0, 1.0, 2.0, 3.0]));
    assert_ne!(boxed([0.0, 1.0, 2.0, 3.0]), boxed([0.0, 1.0, 2.0, 3.5]));
    let nan = boxed([f64::NAN, 1.0, 2.0, 3.0]);
    assert_ne!(nan, nan);
}
