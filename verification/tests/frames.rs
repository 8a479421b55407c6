//! Whole frames: the tests here do the arithmetic that the library leaves
//! to its caller, in plain binary64, and run the steps of a frame in order.

use sort_track::association::Association;
use sort_track::assignment::Solution;
use sort_track::bbox::BBox;
use sort_track::error::KalmanError;
use sort_track::error::MotionTrackError;
use sort_track::kalman::Correction;
use sort_track::kalman::Innovation;
use sort_track::kalman::KalmanFilter;
use sort_track::kalman::Prediction;
use sort_track::matrix::Matrix;
use sort_track::sort::Sort;
use sort_track::sort::TrackPrediction;
use sort_track::sort::TrackUpdate;

type Numbers = Vec<Vec<f64>>;

fn numbers(m: &Matrix) -> Numbers {
    m.to_rows().iter().map(|row| row.iter().map(|bits| f64::from_bits(*bits)).collect()).collect()
}

fn patterns(m: &Numbers, cols: usize) -> Matrix {
    let rows = m.iter().map(|row| row.iter().map(|v| v.to_bits()).collect()).collect();
    Matrix::from_rows(cols, rows).unwrap()
}

fn times(a: &Numbers, b: &Numbers) -> Numbers {
    let inner = b.len();
    let cols = if inner == 0 { 0 } else { b[0].len() };
    a.iter()
        .map(|row| (0..cols).map(|j| (0..inner).map(|k| row[k] * b[k][j]).sum()).collect())
        .collect()
}

fn plus(a: &Numbers, b: &Numbers) -> Numbers {
    a.iter().zip(b).map(|(r, s)| r.iter().zip(s).map(|(x, y)| x + y).collect()).collect()
}

fn minus(a: &Numbers, b: &Numbers) -> Numbers {
    a.iter().zip(b).map(|(r, s)| r.iter().zip(s).map(|(x, y)| x - y).collect()).collect()
}

fn scaled(a: &Numbers, by: f64) -> Numbers {
    a.iter().map(|r| r.iter().map(|x| x * by).collect()).collect()
}

fn transposed(a: &Numbers, cols: usize) -> Numbers {
    (0..cols).map(|j| a.iter().map(|row| row[j]).collect()).collect()
}

fn identity(n: usize) -> Numbers {
    (0..n).map(|i| (0..n).map(|j| if i == j { 1.0 } else { 0.0 }).collect()).collect()
}

fn inverse(a: &Numbers) -> Option<Numbers> {
    let n = a.len();
    let mut left = a.clone();
    let mut right = identity(n);
    for col in 0..n {
        let mut pivot = col;
        for row in col + 1..n {
            if left[row][col].abs() > left[pivot][col].abs() {
                pivot = row;
            }
        }
        if left[pivot][col].abs() < 1e-12 {
            return None;
        }
        left.swap(col, pivot);
        right.swap(col, pivot);
        let lead = left[col][col];
        for j in 0..n {
            left[col][j] /= lead;
            right[col][j] /= lead;
        }
        for row in 0..n {
            if row != col {
                let factor = left[row][col];
                for j in 0..n {
                    left[row][j] -= factor * left[col][j];
                    right[row][j] -= factor * right[col][j];
                }
            }
        }
    }
    Some(right)
}

fn to_z(b: [f64; 4]) -> [f64; 4] {
    let w = b[2] - b[0];
    let h = b[3] - b[1];
    [b[0] + w / 2.0, b[1] + h / 2.0, w * h, w / h]
}

fn from_x(x: &Numbers) -> [f64; 4] {
    let w = (x[2][0] * x[3][0]).sqrt();
    let h = x[2][0] / w;
    [x[0][0] - w / 2.0, x[1][0] - h / 2.0, x[0][0] + w / 2.0, x[1][0] + h / 2.0]
}

fn iou(a: [f64; 4], b: [f64; 4]) -> f64 {
    let w = (a[2].min(b[2]) - a[0].max(b[0])).max(0.0);
    let h = (a[3].min(b[3]) - a[1].max(b[1])).max(0.0);
    let wh = w * h;
    wh / ((a[2] - a[0]) * (a[3] - a[1]) + (b[2] - b[0]) * (b[3] - b[1]) - wh)
}

fn boxed(b: [f64; 4]) -> BBox {
    BBox::new(b[0].to_bits(), b[1].to_bits(), b[2].to_bits(), b[3].to_bits())
}

fn measured(b: [f64; 4]) -> [u64; 4] {
    let z = to_z(b);
    [z[0].to_bits(), z[1].to_bits(), z[2].to_bits(), z[3].to_bits()]
}

fn column(z: [u64; 4]) -> Matrix {
    Matrix::column(&z.to_vec())
}

fn predicted(filter: &KalmanFilter) -> Result<(Numbers, Numbers), KalmanError> {
    let inputs = filter.predict_inputs(None, None, None, None)?;
    let f = numbers(&inputs.F);
    let n = f.len();
    let x = times(&f, &numbers(&filter.x));
    let fpf = times(&times(&f, &numbers(&filter.P)), &transposed(&f, n));
    let p = plus(&scaled(&fpf, f64::from_bits(filter.alpha_sq)), &numbers(&inputs.Q));
    Ok((x, p))
}

fn corrected(filter: &KalmanFilter, z: &Matrix) -> Result<TrackUpdate, KalmanError> {
    let inputs = filter.update_inputs(z, None, None)?;
    let h = numbers(&inputs.H);
    let r = numbers(&inputs.R);
    let x = numbers(&filter.x);
    let p = numbers(&filter.P);
    let n = x.len();
    let m = h.len();
    let y = minus(&numbers(z), &times(&h, &x));
    let pht = times(&p, &transposed(&h, n));
    let s = plus(&times(&h, &pht), &r);
    let innovation = Innovation { y: patterns(&y, 1), S: patterns(&s, m) };
    let correction = inverse(&s).map(|si| {
        let k = times(&pht, &si);
        let x = plus(&x, &times(&k, &y));
        let i_kh = minus(&identity(n), &times(&k, &h));
        let p = plus(
            &times(&times(&i_kh, &p), &transposed(&i_kh, n)),
            &times(&times(&k, &r), &transposed(&k, m)),
        );
        Correction { SI: patterns(&si, m), K: patterns(&k, m), x: patterns(&x, 1), P: patterns(&p, n) }
    });
    Ok(TrackUpdate { z: z.clone(), innovation, correction })
}

fn solve(cost: &Matrix) -> Option<Solution> {
    let n = cost.rows();
    let flat: Vec<f64> = numbers(cost).into_iter().flatten().collect();
    let costs = lapjv::Matrix::from_shape_vec((n, n), flat).unwrap();
    lapjv::lapjv(&costs).ok().map(|(rows, cols)| Solution { rows, cols })
}

fn overlaps(dets: &[[f64; 4]], tracks: &Matrix) -> Matrix {
    let tracks = numbers(tracks);
    let rows = dets
        .iter()
        .map(|d| tracks.iter().map(|t| iou(*d, [t[0], t[1], t[2], t[3]]).to_bits()).collect())
        .collect();
    Matrix::from_rows(tracks.len(), rows).unwrap()
}

fn associate(dets: &[[f64; 4]], tracks: &Matrix, threshold: u64) -> Result<Association, MotionTrackError> {
    let iou = overlaps(dets, tracks);
    let solution = match Sort::assignment_costs(&iou, threshold)? {
        Some(cost) => solve(&cost),
        None => None,
    };
    Sort::associate_dets(&iou, threshold, solution)
}

fn frame(sort: &mut Sort, dets: &[[f64; 4]]) -> Result<Vec<([f64; 4], u32)>, MotionTrackError> {
    let mut sums = Vec::new();
    for i in 0..sort.len() {
        let x = numbers(&sort.tracker(i).filter().x);
        sums.push((x[6][0] + x[2][0]).to_bits());
    }
    sort.clamp(&sums)?;
    let mut steps = Vec::new();
    for i in 0..sort.len() {
        let (x, p) = predicted(sort.tracker(i).filter())
            .map_err(|source| MotionTrackError::KalmanError { source })?;
        let bbox = boxed(from_x(&x));
        steps.push(TrackPrediction { step: Prediction { x: patterns(&x, 1), P: patterns(&p, 7) }, bbox });
    }
    assert!(sort.frame_count() < u32::MAX);
    let tracks = sort.predict(&steps)?;
    let found = associate(dets, &tracks, sort.iou_threshold())?;
    let mut updates = Vec::new();
    for (d, t) in found.matches.iter() {
        let z = column(measured(dets[*d]));
        let update = corrected(sort.tracker(*t).filter(), &z)
            .map_err(|source| MotionTrackError::KalmanError { source })?;
        updates.push(update);
    }
    sort.apply_matches(&found.matches, &updates)?;
    let births: Vec<[u64; 4]> = found.unmatched_dets.iter().map(|d| measured(dets[*d])).collect();
    assert!(births.len() as u64 + sort.id_ctr() as u64 <= u32::MAX as u64);
    sort.spawn(&births);
    Ok(sort.report().iter().map(|r| (from_x(&numbers(&r.state)), r.id)).collect())
}

fn close(a: [f64; 4], b: [f64; 4]) -> bool {
    (0..4).all(|i| (a[i] - b[i]).abs() < 1e-6)
}

#[test]
fn track_lifecycle_with_defaults() {
    let mut sort = Sort::new();
    let det = [0.0, 0.0, 10.0, 10.0];

    // frames 1 to 3: reported in the first frames, whatever the streak
    for n in 1..=3u32 {
        let out = frame(&mut sort, &[det]).unwrap();
        assert_eq!(out.len(), 1);
        assert!(close(out[0].0, det));
        assert_eq!(out[0].1, 0);
        assert_eq!(sort.frame_count(), n);
        assert_eq!(sort.len(), 1);
    }
    assert_eq!(sort.tracker(0).hit_streak(), 2);

    // frame 4: reported for its streak
    let out = frame(&mut sort, &[det]).unwrap();
    assert_eq!(out.len(), 1);
    assert!(close(out[0].0, det));
    assert_eq!(out[0].1, 0);
    assert_eq!(sort.tracker(0).hit_streak(), 3);
    assert_eq!(sort.tracker(0).time_since_update(), 0);

    // frame 5: no detection; not reported, not yet dropped
    let out = frame(&mut sort, &[]).unwrap();
    assert!(out.is_empty());
    assert_eq!(sort.len(), 1);
    assert_eq!(sort.tracker(0).time_since_update(), 1);
    assert_eq!(sort.tracker(0).hit_streak(), 3);

    // frame 6: no detection again; dropped
    let out = frame(&mut sort, &[]).unwrap();
    assert!(out.is_empty());
    assert_eq!(sort.len(), 0);
    assert_eq!(sort.frame_count(), 6);
    assert_eq!(sort.id_ctr(), 1);
}

#[test]
fn far_detection_spawns_a_track_beside_a_match() {
    let mut sort = Sort::new();
    let near = [0.0, 0.0, 10.0, 10.0];
    let far = [100.0, 100.0, 120.0, 130.0];
    let out = frame(&mut sort, &[near]).unwrap();
    assert_eq!(out.len(), 1);
    let out = frame(&mut sort, &[near, far]).unwrap();
    // the latest track is listed first
    assert_eq!(out.len(), 2);
    assert_eq!(out[0].1, 1);
    assert!(close(out[0].0, far));
    assert_eq!(out[1].1, 0);
    assert!(close(out[1].0, near));
    assert_eq!(sort.len(), 2);
    assert_eq!(sort.tracker(0).id(), 0);
    assert_eq!(sort.tracker(0).hits(), 1);
    assert_eq!(sort.tracker(1).id(), 1);
    assert_eq!(sort.tracker(1).hits(), 0);
    assert_eq!(sort.id_ctr(), 2);
}

#[test]
fn identities_are_never_given_twice() {
    let mut sort = Sort::new();
    let a = [0.0, 0.0, 10.0, 10.0];
    let b = [50.0, 50.0, 60.0, 60.0];
    frame(&mut sort, &[a]).unwrap();
    frame(&mut sort, &[]).unwrap();
    frame(&mut sort, &[]).unwrap();
    assert_eq!(sort.len(), 0);
    // the first track is gone; the next one still gets a new identity
    let out = frame(&mut sort, &[b]).unwrap();
    assert_eq!(sort.len(), 1);
    assert_eq!(sort.tracker(0).id(), 1);
    // the first frames are over and the streak is short: not reported
    assert!(out.is_empty());
}

#[test]
fn late_track_waits_for_its_streak() {
    let mut sort = Sort::new();
    let a = [0.0, 0.0, 10.0, 10.0];
    let b = [50.0, 50.0, 60.0, 60.0];
    for _ in 0..3 {
        frame(&mut sort, &[a]).unwrap();
    }
    // frame 4: b appears; frames 5 to 7: it is matched
    let mut seen = Vec::new();
    for _ in 0..4 {
        let out = frame(&mut sort, &[a, b]).unwrap();
        seen.push(out.iter().any(|row| row.1 == 1));
    }
    assert_eq!(seen, vec![false, false, false, true]);
    assert_eq!(sort.tracker(1).hit_streak(), 3);
}

#[test]
fn assignment_maximises_the_total_overlap() {
    // track 0 overlaps most with detection 1, which is all that track 1
    // overlaps with
    let tracks = patterns(&vec![vec![0.0, 0.0, 10.0, 10.0], vec![4.0, 0.0, 14.0, 10.0]], 4);
    let dets = [[-3.0, 0.0, 7.0, 10.0], [2.0, 0.0, 12.0, 10.0]];
    let table = numbers(&overlaps(&dets, &tracks));
    assert!(table[1][0] > table[0][0] && table[0][0] > 0.3);
    assert!(table[1][1] > 0.3 && table[0][1] < 0.3);
    assert!(table[0][0] + table[1][1] > table[1][0] + table[0][1]);

    let found = associate(&dets, &tracks, 0.3f64.to_bits()).unwrap();
    assert_eq!(found.matches, vec![(0, 0), (1, 1)]);
    assert!(found.unmatched_dets.is_empty());
    assert!(found.unmatched_tracks.is_empty());
}

#[test]
fn assignment_with_more_detections_than_tracks() {
    let tracks = patterns(&vec![vec![0.0, 0.0, 10.0, 10.0]], 4);
    let dets = [[1.0, 0.0, 11.0, 10.0], [0.0, 0.0, 10.0, 10.0], [40.0, 40.0, 50.0, 50.0]];
    let found = associate(&dets, &tracks, 0.3f64.to_bits()).unwrap();
    // both of the first two detections are above the threshold: the solver
    // picks the one that overlaps most
    assert_eq!(found.matches, vec![(1, 0)]);
    assert_eq!(found.unmatched_dets, vec![0, 2]);
    assert!(found.unmatched_tracks.is_empty());
}

#[test]
fn filter_follows_a_still_object() {
    let mut sort = Sort::new();
    let det = [2.0, 3.0, 12.0, 23.0];
    for _ in 0..20 {
        frame(&mut sort, &[det]).unwrap();
    }
    let filter = sort.tracker(0).filter();
    let x = numbers(&filter.x);
    let z = to_z(det);
    for i in 0..4 {
        assert!((x[i][0] - z[i]).abs() < 1e-6);
    }
    for i in 4..7 {
        assert!(x[i][0].abs() < 1e-6);
    }
    // the snapshots are those of the last steps
    assert_eq!(filter.x_post, filter.x);
    assert_eq!(filter.P_post, filter.P);
    assert_eq!(filter.z, Some(column(measured(det))));
}

#[test]
fn shrinking_object_never_gets_a_negative_area() {
    let mut sort = Sort::new();
    let mut size = 40.0;
    for _ in 0..6 {
        frame(&mut sort, &[[0.0, 0.0, size, size]]).unwrap();
        size /= 3.0;
    }
    // the object is gone; the track coasts on with its shrinking velocity
    for _ in 0..3 {
        let before = sort.len();
        frame(&mut sort, &[]).unwrap();
        for i in 0..sort.len() {
            let x = numbers(&sort.tracker(i).filter().x);
            assert!(x[2][0] >= 0.0);
            for b in sort.tracker(i).history() {
                let w = f64::from_bits(b.get(2)) - f64::from_bits(b.get(0));
                let h = f64::from_bits(b.get(3)) - f64::from_bits(b.get(1));
                assert!(w >= 0.0 && h >= 0.0);
            }
        }
        assert!(sort.len() <= before);
    }
}
