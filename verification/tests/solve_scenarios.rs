//! End-to-end scenarios for the resection solver.

use resection::types::{Correspondence, Point3, Pose, CameraIntrinsics, ReprojectRequest, SolveRequest, SolveError, Warning};
use resection::{solve, reproject_points};

const F: f64 = 4294967296.0;

fn fx(v: f64) -> i128 {
    (v * F).round() as i128
}

fn fl(v: i128) -> f64 {
    v as f64 / F
}

const LAT0: f64 = 37.0;
const LON0: f64 = -122.0;

fn true_pose() -> Pose {
    Pose {
        lat: fx(37.0),
        lon: fx(-122.0),
        alt: fx(100.0),
        yaw_deg: fx(0.0),
        pitch_deg: fx(0.0),
        roll_deg: fx(0.0),
    }
}

fn true_intr() -> CameraIntrinsics {
    CameraIntrinsics { focal_px: fx(1000.0), cx: fx(960.0), cy: fx(540.0) }
}

fn world_points_six() -> Vec<(f64, f64, f64)> {
    vec![
        (-30.0, 200.0, 80.0),
        (40.0, 220.0, 120.0),
        (-10.0, 180.0, 140.0),
        (25.0, 260.0, 60.0),
        (-45.0, 240.0, 150.0),
        (10.0, 300.0, 95.0),
    ]
}

/// Projects world points through a pose with the library itself and pairs
/// them into correspondences.
fn make_correspondences(pose: &Pose, intr: &CameraIntrinsics, pts: &[(f64, f64, f64)]) -> Vec<Correspondence> {
    let req = ReprojectRequest {
        anchor_lat: fx(LAT0),
        anchor_lon: fx(LON0),
        pose: *pose,
        intrinsics: *intr,
        points: pts.iter().map(|p| Point3 { x: fx(p.0), y: fx(p.1), z: fx(p.2) }).collect(),
    };
    let resp = reproject_points(&req).expect("reprojection of the truth must validate");
    let mut out = Vec::new();
    for (i, (p, px)) in pts.iter().zip(resp.pixels.iter()).enumerate() {
        let pixel = px.expect("all truth points are in front of the camera");
        out.push(Correspondence {
            id: format!("pt{i}"),
            pixel_x: pixel.x,
            pixel_y: pixel.y,
            weight: fx(1.0),
            world_x: fx(p.0),
            world_y: fx(p.1),
            world_z: fx(p.2),
        });
    }
    out
}

fn base_request(corrs: Vec<Correspondence>) -> SolveRequest {
    SolveRequest {
        image_width: fx(1920.0),
        image_height: fx(1080.0),
        anchor_lat: fx(LAT0),
        anchor_lon: fx(LON0),
        correspondences: corrs,
        focal_prior_px: Some(fx(1000.0)),
        refine_intrinsics: true,
    }
}

#[test]
fn projection_matches_hand_computed_pixel() {
    // Camera at altitude 100 looking north; a point 200 m north, 30 m west,
    // 20 m below the camera maps to (1000 * -30/200 + 960, 1000 * 20/200 + 540).
    let req = ReprojectRequest {
        anchor_lat: fx(LAT0),
        anchor_lon: fx(LON0),
        pose: true_pose(),
        intrinsics: true_intr(),
        points: vec![Point3 { x: fx(-30.0), y: fx(200.0), z: fx(80.0) }],
    };
    let resp = reproject_points(&req).unwrap();
    let px = resp.pixels[0].unwrap();
    assert!((fl(px.x) - 810.0).abs() < 1e-6, "u = {}", fl(px.x));
    assert!((fl(px.y) - 640.0).abs() < 1e-6, "v = {}", fl(px.y));
    assert!(resp.warnings.is_empty());
}

#[test]
fn reproject_flags_point_behind_camera() {
    let req = ReprojectRequest {
        anchor_lat: fx(LAT0),
        anchor_lon: fx(LON0),
        pose: true_pose(),
        intrinsics: true_intr(),
        points: vec![
            Point3 { x: fx(0.0), y: fx(-50.0), z: fx(100.0) },
            Point3 { x: fx(0.0), y: fx(200.0), z: fx(100.0) },
        ],
    };
    let resp = reproject_points(&req).unwrap();
    assert!(resp.pixels[0].is_none());
    assert!(resp.pixels[1].is_some());
    assert_eq!(resp.warnings.len(), 1);
    assert_eq!(resp.warnings[0], Warning::UnprojectablePoint);
}

#[test]
fn well_conditioned_scenario_recovers_known_pose() {
    let corrs = make_correspondences(&true_pose(), &true_intr(), &world_points_six());
    let resp = solve(&base_request(corrs)).expect("valid request");
    assert!((fl(resp.pose.lat) - 37.0).abs() < 1e-6, "lat {}", fl(resp.pose.lat));
    assert!((fl(resp.pose.lon) + 122.0).abs() < 1e-6, "lon {}", fl(resp.pose.lon));
    assert!((fl(resp.pose.alt) - 100.0).abs() < 1e-6, "alt {}", fl(resp.pose.alt));
    assert!(fl(resp.pose.yaw_deg).abs() < 1e-6, "yaw {}", fl(resp.pose.yaw_deg));
    assert!(fl(resp.pose.pitch_deg).abs() < 1e-6, "pitch {}", fl(resp.pose.pitch_deg));
    assert!(fl(resp.pose.roll_deg).abs() < 1e-6, "roll {}", fl(resp.pose.roll_deg));
    assert!((fl(resp.intrinsics.focal_px) - 1000.0).abs() < 1e-6, "f {}", fl(resp.intrinsics.focal_px));
    assert!((fl(resp.intrinsics.cx) - 960.0).abs() < 1e-6);
    assert!((fl(resp.intrinsics.cy) - 540.0).abs() < 1e-6);
    assert!(fl(resp.diagnostics.rmse_px) < 1e-6, "rmse {}", fl(resp.diagnostics.rmse_px));
    assert_eq!(resp.diagnostics.inlier_ratio, fx(1.0));
    assert!(resp.diagnostics.warnings.is_empty(), "warnings {:?}", resp.diagnostics.warnings);
    assert_eq!(resp.diagnostics.residuals_px.len(), 6);
    assert_eq!(resp.diagnostics.inlier_ids.len(), 6);
}

#[test]
fn solve_is_deterministic() {
    let corrs = make_correspondences(&true_pose(), &true_intr(), &world_points_six());
    let a = solve(&base_request(clone_corrs(&corrs))).unwrap();
    let b = solve(&base_request(clone_corrs(&corrs))).unwrap();
    assert_eq!(a.pose, b.pose);
    assert_eq!(a.intrinsics, b.intrinsics);
    assert_eq!(a.diagnostics.residuals_px, b.diagnostics.residuals_px);
}

fn clone_corrs(v: &[Correspondence]) -> Vec<Correspondence> {
    v.iter()
        .map(|c| Correspondence {
            id: c.id.clone(),
            pixel_x: c.pixel_x,
            pixel_y: c.pixel_y,
            weight: c.weight,
            world_x: c.world_x,
            world_y: c.world_y,
            world_z: c.world_z,
        })
        .collect()
}

#[test]
fn zero_noise_general_pose_recovered() {
    let pose = Pose {
        lat: fx(37.001),
        lon: fx(-122.002),
        alt: fx(150.0),
        yaw_deg: fx(20.0),
        pitch_deg: fx(-5.0),
        roll_deg: fx(3.0),
    };
    let intr = CameraIntrinsics { focal_px: fx(1200.0), cx: fx(950.0), cy: fx(530.0) };
    // Points spread in front of a camera heading 20 degrees east of north.
    let pts = vec![
        (80.0, 250.0, 120.0),
        (160.0, 300.0, 180.0),
        (30.0, 200.0, 140.0),
        (200.0, 380.0, 100.0),
        (120.0, 330.0, 210.0),
        (60.0, 280.0, 90.0),
        (140.0, 260.0, 160.0),
        (100.0, 400.0, 130.0),
    ];
    let corrs = make_correspondences(&pose, &intr, &pts);
    let mut req = base_request(corrs);
    req.focal_prior_px = Some(fx(1200.0));
    let resp = solve(&req).expect("valid request");
    assert!((fl(resp.pose.lat) - 37.001).abs() < 1e-5, "lat {}", fl(resp.pose.lat));
    assert!((fl(resp.pose.lon) + 122.002).abs() < 1e-5, "lon {}", fl(resp.pose.lon));
    assert!((fl(resp.pose.alt) - 150.0).abs() < 1e-3, "alt {}", fl(resp.pose.alt));
    assert!((fl(resp.pose.yaw_deg) - 20.0).abs() < 1e-3, "yaw {}", fl(resp.pose.yaw_deg));
    assert!((fl(resp.pose.pitch_deg) + 5.0).abs() < 1e-3, "pitch {}", fl(resp.pose.pitch_deg));
    assert!((fl(resp.pose.roll_deg) - 3.0).abs() < 1e-3, "roll {}", fl(resp.pose.roll_deg));
    assert!(fl(resp.diagnostics.rmse_px) < 5e-3, "rmse {} warnings {:?}", fl(resp.diagnostics.rmse_px), resp.diagnostics.warnings);
    assert_eq!(resp.diagnostics.inlier_ratio, fx(1.0));
}

#[test]
fn reprojection_reproduces_observations_within_rmse() {
    let corrs = make_correspondences(&true_pose(), &true_intr(), &world_points_six());
    let obs: Vec<(f64, f64)> = corrs.iter().map(|c| (fl(c.pixel_x), fl(c.pixel_y))).collect();
    let resp = solve(&base_request(corrs)).unwrap();
    let rr = ReprojectRequest {
        anchor_lat: fx(LAT0),
        anchor_lon: fx(LON0),
        pose: resp.pose,
        intrinsics: resp.intrinsics,
        points: world_points_six().iter().map(|p| Point3 { x: fx(p.0), y: fx(p.1), z: fx(p.2) }).collect(),
    };
    let rp = reproject_points(&rr).unwrap();
    let bound = fl(resp.diagnostics.rmse_px).max(1e-7) * 6.0_f64.sqrt() + 1e-7;
    for (px, ob) in rp.pixels.iter().zip(obs.iter()) {
        let p = px.unwrap();
        let du = fl(p.x) - ob.0;
        let dv = fl(p.y) - ob.1;
        assert!((du * du + dv * dv).sqrt() <= bound, "gap {} bound {}", (du * du + dv * dv).sqrt(), bound);
    }
}

#[test]
fn one_outlier_is_excluded_without_warning() {
    let mut corrs = make_correspondences(&true_pose(), &true_intr(), &world_points_six());
    corrs[2].pixel_x += fx(50.0);
    let resp = solve(&base_request(corrs)).expect("valid request");
    assert!(!resp.diagnostics.inlier_ids.contains(&"pt2".to_string()), "ids {:?}", resp.diagnostics.inlier_ids);
    for id in ["pt0", "pt1", "pt3", "pt4", "pt5"] {
        assert!(resp.diagnostics.inlier_ids.contains(&id.to_string()), "missing {id}: {:?}", resp.diagnostics.inlier_ids);
    }
    // 5 of 6 inliers, truncated fixed-point ratio.
    let expected = (5i128 * 4294967296i128) / 6;
    assert_eq!(resp.diagnostics.inlier_ratio, expected);
    assert!(!resp.diagnostics.warnings.contains(&Warning::SearchExhausted), "warnings {:?}", resp.diagnostics.warnings);
}

#[test]
fn outlier_fraction_reflected_in_ratio() {
    let pts = vec![
        (-30.0, 200.0, 80.0),
        (40.0, 220.0, 120.0),
        (-10.0, 180.0, 140.0),
        (25.0, 260.0, 60.0),
        (-45.0, 240.0, 150.0),
        (10.0, 300.0, 95.0),
        (55.0, 210.0, 70.0),
        (-20.0, 270.0, 130.0),
        (35.0, 190.0, 155.0),
        (-55.0, 310.0, 85.0),
        (5.0, 230.0, 110.0),
        (65.0, 290.0, 145.0),
    ];
    let mut corrs = make_correspondences(&true_pose(), &true_intr(), &pts);
    for i in [3usize, 7, 11] {
        corrs[i].pixel_y += fx(80.0);
    }
    let resp = solve(&base_request(corrs)).expect("valid request");
    let expected = (9i128 * 4294967296i128) / 12;
    assert_eq!(resp.diagnostics.inlier_ratio, expected, "ids {:?}", resp.diagnostics.inlier_ids);
    for i in [3usize, 7, 11] {
        assert!(!resp.diagnostics.inlier_ids.contains(&format!("pt{i}")));
    }
    assert_eq!(resp.diagnostics.residuals_px.len(), 12);
    // Residuals stay in input order: the perturbed entries stand out.
    for i in [3usize, 7, 11] {
        assert!(fl(resp.diagnostics.residuals_px[i]) > 50.0);
    }
    for i in [0usize, 1, 2, 4, 5, 6, 8, 9, 10] {
        assert!(fl(resp.diagnostics.residuals_px[i]) < 3.0);
    }
}

#[test]
fn covariance_is_symmetric_positive_semidefinite_or_flagged() {
    let corrs = make_correspondences(&true_pose(), &true_intr(), &world_points_six());
    let resp = solve(&base_request(corrs)).unwrap();
    let labels: Vec<&str> = resp.covariance.labels.iter().map(|s| s.as_str()).collect();
    assert_eq!(labels, vec!["x", "y", "z", "yaw", "pitch", "roll", "focal", "cx", "cy"]);
    if resp.covariance.matrix.is_empty() {
        assert!(resp.diagnostics.warnings.contains(&Warning::SingularCovariance));
    } else {
        assert!(!resp.diagnostics.warnings.contains(&Warning::SingularCovariance));
        let m = &resp.covariance.matrix;
        assert_eq!(m.len(), 9);
        for i in 0..9 {
            assert_eq!(m[i].len(), 9);
            for j in 0..9 {
                assert_eq!(m[i][j], m[j][i], "symmetry at {i},{j}");
            }
        }
        // Positive semidefinite within fixed-point rounding: all eigenvalues
        // of the f64 image are at least a tiny negative tolerance, checked by
        // a tolerant LDL factorization.
        let mut a = [[0f64; 9]; 9];
        for i in 0..9 {
            for j in 0..9 {
                a[i][j] = fl(m[i][j]);
            }
        }
        let mut l = [[0f64; 9]; 9];
        let mut d = [0f64; 9];
        for j in 0..9 {
            let mut dj = a[j][j];
            for k in 0..j {
                dj -= l[j][k] * l[j][k] * d[k];
            }
            assert!(dj > -1e-6, "pivot {j} is {dj}");
            d[j] = if dj < 0.0 { 0.0 } else { dj };
            for i in (j + 1)..9 {
                let mut v = a[i][j];
                for k in 0..j {
                    v -= l[i][k] * l[j][k] * d[k];
                }
                l[i][j] = if d[j] == 0.0 { 0.0 } else { v / d[j] };
            }
        }
    }
}

#[test]
fn residuals_px_preserve_input_order_with_unprojectable_point() {
    let mut corrs = make_correspondences(&true_pose(), &true_intr(), &world_points_six());
    // A seventh correspondence behind the camera: maximal residual, order kept.
    corrs.push(Correspondence {
        id: "behind".to_string(),
        pixel_x: fx(900.0),
        pixel_y: fx(500.0),
        weight: fx(1.0),
        world_x: fx(0.0),
        world_y: fx(-80.0),
        world_z: fx(100.0),
    });
    let resp = solve(&base_request(corrs)).expect("valid request");
    assert_eq!(resp.diagnostics.residuals_px.len(), 7);
    assert!(fl(resp.diagnostics.residuals_px[6]) > 1e6);
    for i in 0..6 {
        assert!(fl(resp.diagnostics.residuals_px[i]) < 3.0, "residual {i} = {}", fl(resp.diagnostics.residuals_px[i]));
    }
    assert!(!resp.diagnostics.inlier_ids.contains(&"behind".to_string()));
    assert!(resp.diagnostics.warnings.contains(&Warning::UnprojectablePoint));
}

#[test]
fn error_messages_are_stable() {
    assert!(SolveError::TooFewCorrespondences.text().contains("six"));
    assert!(Warning::SingularCovariance.text().contains("covariance"));
}

#[test]
fn fixed_intrinsics_mode_keeps_prior_and_recovers_pose() {
    let corrs = make_correspondences(&true_pose(), &true_intr(), &world_points_six());
    let mut req = base_request(corrs);
    req.refine_intrinsics = false;
    let resp = solve(&req).expect("valid request");
    // Intrinsics stay exactly at the prior (focal) and image centre.
    assert_eq!(resp.intrinsics.focal_px, fx(1000.0));
    assert_eq!(resp.intrinsics.cx, fx(960.0));
    assert_eq!(resp.intrinsics.cy, fx(540.0));
    assert!((fl(resp.pose.lat) - 37.0).abs() < 1e-6, "lat {}", fl(resp.pose.lat));
    assert!((fl(resp.pose.lon) + 122.0).abs() < 1e-6, "lon {}", fl(resp.pose.lon));
    assert!((fl(resp.pose.alt) - 100.0).abs() < 1e-6, "alt {}", fl(resp.pose.alt));
    assert_eq!(resp.diagnostics.inlier_ratio, fx(1.0));
    // With intrinsics held fixed their covariance rows and columns are zero.
    if !resp.covariance.matrix.is_empty() {
        for i in 6..9 {
            for j in 0..9 {
                assert_eq!(resp.covariance.matrix[i][j], 0);
                assert_eq!(resp.covariance.matrix[j][i], 0);
            }
        }
    }
}

