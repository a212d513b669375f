//! Input-validation behaviour of `solve` and `reproject_points`.

use resection::types::{Correspondence, Point3, Pose, CameraIntrinsics, ReprojectRequest, SolveRequest, SolveError};
use resection::{solve, reproject_points};

const F: f64 = 4294967296.0;

fn fx(v: f64) -> i128 {
    (v * F).round() as i128
}

fn corr(id: &str, px: f64, py: f64, wx: f64, wy: f64, wz: f64) -> Correspondence {
    Correspondence {
        id: id.to_string(),
        pixel_x: fx(px),
        pixel_y: fx(py),
        weight: fx(1.0),
        world_x: fx(wx),
        world_y: fx(wy),
        world_z: fx(wz),
    }
}

fn good_request() -> SolveRequest {
    let corrs = vec![
        corr("a", 810.0, 640.0, -30.0, 200.0, 80.0),
        corr("b", 1141.0, 449.0, 40.0, 220.0, 120.0),
        corr("c", 904.0, 317.0, -10.0, 180.0, 140.0),
        corr("d", 1056.0, 693.0, 25.0, 260.0, 60.0),
        corr("e", 772.0, 331.0, -45.0, 240.0, 150.0),
        corr("f", 993.0, 556.0, 10.0, 300.0, 95.0),
    ];
    SolveRequest {
        image_width: fx(1920.0),
        image_height: fx(1080.0),
        anchor_lat: fx(37.0),
        anchor_lon: fx(-122.0),
        correspondences: corrs,
        focal_prior_px: Some(fx(1000.0)),
        refine_intrinsics: true,
    }
}

#[test]
fn too_few_correspondences_rejected() {
    let mut req = good_request();
    req.correspondences.pop();
    let err = solve(&req).unwrap_err();
    assert_eq!(err, SolveError::TooFewCorrespondences);
}

#[test]
fn collinear_world_points_rejected() {
    let mut req = good_request();
    req.correspondences = (0..6)
        .map(|i| corr(&format!("p{i}"), 900.0 + i as f64, 500.0, 10.0 * i as f64, 200.0 + 20.0 * i as f64, 50.0 + 5.0 * i as f64))
        .collect();
    let err = solve(&req).unwrap_err();
    assert_eq!(err, SolveError::CollinearWorldPoints);
}

#[test]
fn coincident_world_points_rejected_as_collinear() {
    let mut req = good_request();
    let c = corr("same", 900.0, 500.0, 10.0, 200.0, 50.0);
    req.correspondences = (0..6)
        .map(|i| {
            let mut x = corr(&format!("p{i}"), 900.0, 500.0, 10.0, 200.0, 50.0);
            x.id = format!("{}{i}", c.id);
            x
        })
        .collect();
    let err = solve(&req).unwrap_err();
    assert_eq!(err, SolveError::CollinearWorldPoints);
}

#[test]
fn non_positive_image_rejected() {
    let mut req = good_request();
    req.image_width = fx(0.0);
    assert_eq!(solve(&req).unwrap_err(), SolveError::InvalidImageSize);
}

#[test]
fn polar_anchor_rejected() {
    let mut req = good_request();
    req.anchor_lat = fx(89.5);
    assert_eq!(solve(&req).unwrap_err(), SolveError::InvalidAnchor);
}

#[test]
fn non_positive_focal_prior_rejected() {
    let mut req = good_request();
    req.focal_prior_px = Some(fx(-5.0));
    assert_eq!(solve(&req).unwrap_err(), SolveError::InvalidFocalPrior);
}

#[test]
fn negative_weight_rejected() {
    let mut req = good_request();
    req.correspondences[3].weight = fx(-1.0);
    assert_eq!(solve(&req).unwrap_err(), SolveError::InvalidWeight);
}

#[test]
fn out_of_range_value_rejected() {
    let mut req = good_request();
    req.correspondences[0].world_x = i128::MAX / 2;
    assert_eq!(solve(&req).unwrap_err(), SolveError::ValueOutOfRange);
}

#[test]
fn too_many_correspondences_rejected() {
    let mut req = good_request();
    let mut v = Vec::with_capacity(65537);
    for i in 0..65537u32 {
        let a = (i % 100) as f64;
        let b = ((i / 100) % 100) as f64;
        v.push(corr(&format!("p{i}"), 900.0 + a, 500.0 + b, a, 200.0 + b, 50.0 + (a + b) % 37.0));
    }
    req.correspondences = v;
    assert_eq!(solve(&req).unwrap_err(), SolveError::TooManyCorrespondences);
}

#[test]
fn reproject_rejects_bad_focal() {
    let req = ReprojectRequest {
        anchor_lat: fx(37.0),
        anchor_lon: fx(-122.0),
        pose: Pose {
            lat: fx(37.0),
            lon: fx(-122.0),
            alt: fx(100.0),
            yaw_deg: 0,
            pitch_deg: 0,
            roll_deg: 0,
        },
        intrinsics: CameraIntrinsics { focal_px: 0, cx: fx(960.0), cy: fx(540.0) },
        points: vec![Point3 { x: 0, y: fx(200.0), z: 0 }],
    };
    assert_eq!(reproject_points(&req).unwrap_err(), SolveError::InvalidFocalPrior);
}

#[test]
fn reproject_rejects_out_of_range_pose() {
    let req = ReprojectRequest {
        anchor_lat: fx(37.0),
        anchor_lon: fx(-122.0),
        pose: Pose {
            lat: i128::MAX / 2,
            lon: fx(-122.0),
            alt: fx(100.0),
            yaw_deg: 0,
            pitch_deg: 0,
            roll_deg: 0,
        },
        intrinsics: CameraIntrinsics { focal_px: fx(1000.0), cx: fx(960.0), cy: fx(540.0) },
        points: vec![],
    };
    assert_eq!(reproject_points(&req).unwrap_err(), SolveError::ValueOutOfRange);
}
