//! Data model of the resection module.
//!
//! Every numeric field is a 64.32 fixed-point value (see `fx`): pixels for
//! image quantities, metres for local east/north/up coordinates, degrees for
//! latitude, longitude and orientation angles.  World coordinates live in a
//! local tangent frame anchored at a caller-chosen geodetic reference
//! (`anchor_lat`, `anchor_lon`); poses are reported in geodetic form against
//! that same anchor.

use vstd::prelude::*;
use crate::fx::fx_wf;

verus! {

/// One matched observation: a pixel measurement of a known world point,
/// sharing a single identifier.
#[derive(Debug)]
pub struct Correspondence {
    /// Identifier linking the observation, the world point and diagnostics.
    pub id: String,
    /// Observed pixel column, fixed-point pixels.
    pub pixel_x: i128,
    /// Observed pixel row, fixed-point pixels.
    pub pixel_y: i128,
    /// Non-negative measurement weight.
    pub weight: i128,
    /// World position, fixed-point metres east of the anchor.
    pub world_x: i128,
    /// World position, fixed-point metres north of the anchor.
    pub world_y: i128,
    /// World position, fixed-point metres above the anchor ellipsoid height.
    pub world_z: i128,
}

/// A 3D point in the local east/north/up frame.
#[derive(Clone, Copy, Debug, PartialEq, Eq, Structural)]
pub struct Point3 {
    pub x: i128,
    pub y: i128,
    pub z: i128,
}

/// A projected pixel.
#[derive(Clone, Copy, Debug, PartialEq, Eq, Structural)]
pub struct Pixel {
    pub x: i128,
    pub y: i128,
}

/// Camera pose: geodetic position and yaw/pitch/roll in degrees, the
/// camera-to-world orientation at the module boundary.
#[derive(Clone, Copy, Debug, PartialEq, Eq, Structural)]
pub struct Pose {
    pub lat: i128,
    pub lon: i128,
    pub alt: i128,
    pub yaw_deg: i128,
    pub pitch_deg: i128,
    pub roll_deg: i128,
}

/// Pinhole intrinsics: focal length and principal point, in pixels.
#[derive(Clone, Copy, Debug, PartialEq, Eq, Structural)]
pub struct CameraIntrinsics {
    pub focal_px: i128,
    pub cx: i128,
    pub cy: i128,
}

/// Parameter covariance over the fixed label ordering
/// `x, y, z, yaw, pitch, roll, focal, cx, cy`; empty when the information
/// matrix was singular or the estimate failed a positivity check.
#[derive(Debug)]
pub struct Covariance {
    /// Row-major `labels.len() x labels.len()` matrix; empty when degenerate.
    pub matrix: Vec<Vec<i128>>,
    /// Parameter labels for the rows and columns of `matrix`.
    pub labels: Vec<String>,
}

/// A structured warning raised by one of the solver stages.
#[derive(Clone, Copy, Debug, PartialEq, Eq, Structural)]
pub enum Warning {
    /// A correspondence projected behind the camera or out of numeric range.
    UnprojectablePoint,
    /// The consensus search spent its budget without majority support.
    SearchExhausted,
    /// The refiner stopped on divergence or a singular system and kept the
    /// last stable iterate.
    RefinerDiverged,
    /// The information matrix was singular or not positive semi-definite;
    /// the covariance is reported empty.
    SingularCovariance,
    /// A minimal sample was degenerate and was skipped.
    DegenerateSample,
}

impl Warning {
    /// Human-readable description of the condition.
    pub fn text(&self) -> &'static str {
        match self {
            Warning::UnprojectablePoint => "a correspondence was unprojectable under the estimated pose",
            Warning::SearchExhausted => "consensus search exhausted its budget without majority support",
            Warning::RefinerDiverged => "refinement stopped early; last stable iterate kept",
            Warning::SingularCovariance => "information matrix singular or indefinite; covariance omitted",
            Warning::DegenerateSample => "a degenerate minimal sample was skipped",
        }
    }
}

/// An input-validation failure: the only hard failure of a solve.
#[derive(Clone, Copy, Debug, PartialEq, Eq, Structural)]
pub enum SolveError {
    /// A numeric field exceeds the representable fixed-point range.
    ValueOutOfRange,
    /// Image dimensions must be positive.
    InvalidImageSize,
    /// The anchor latitude must lie strictly between the poles.
    InvalidAnchor,
    /// A supplied focal prior must be positive.
    InvalidFocalPrior,
    /// Weights must be non-negative.
    InvalidWeight,
    /// Fewer correspondences than the minimal method needs (six).
    TooFewCorrespondences,
    /// More correspondences than the per-call budget admits.
    TooManyCorrespondences,
    /// All world points are collinear: the pose is unobservable.
    CollinearWorldPoints,
}

impl SolveError {
    /// Human-readable description of the failure.
    pub fn text(&self) -> &'static str {
        match self {
            SolveError::ValueOutOfRange => "a numeric field is outside the representable range",
            SolveError::InvalidImageSize => "image width and height must be positive",
            SolveError::InvalidAnchor => "anchor latitude must lie strictly between the poles",
            SolveError::InvalidFocalPrior => "focal prior must be positive",
            SolveError::InvalidWeight => "weights must be non-negative",
            SolveError::TooFewCorrespondences => "at least six correspondences are required",
            SolveError::TooManyCorrespondences => "too many correspondences for one call",
            SolveError::CollinearWorldPoints => "world points are collinear; pose unobservable",
        }
    }
}

/// Fit diagnostics for one solve.
#[derive(Debug)]
pub struct Diagnostics {
    /// Root-mean-square inlier residual, fixed-point pixels.
    pub rmse_px: i128,
    /// Inliers over all correspondences, fixed point in `[0, 1]`.
    pub inlier_ratio: i128,
    /// One residual magnitude per input correspondence, in input order.
    pub residuals_px: Vec<i128>,
    /// Identifiers of the correspondences classified as inliers.
    pub inlier_ids: Vec<String>,
    /// Warnings accumulated across all stages.
    pub warnings: Vec<Warning>,
}

/// The result of one solve: produced atomically, no state is retained.
#[derive(Debug)]
pub struct SolveResponse {
    pub pose: Pose,
    pub intrinsics: CameraIntrinsics,
    pub covariance: Covariance,
    pub diagnostics: Diagnostics,
}

/// A resection request.
#[derive(Debug)]
pub struct SolveRequest {
    /// Image width in fixed-point pixels.
    pub image_width: i128,
    /// Image height in fixed-point pixels.
    pub image_height: i128,
    /// Geodetic latitude of the local-frame anchor, fixed-point degrees.
    pub anchor_lat: i128,
    /// Geodetic longitude of the local-frame anchor, fixed-point degrees.
    pub anchor_lon: i128,
    /// The matched 2D-3D correspondences.
    pub correspondences: Vec<Correspondence>,
    /// Optional initial guess for the focal length, fixed-point pixels.
    pub focal_prior_px: Option<i128>,
    /// Whether intrinsics are refined jointly with the pose; when false they
    /// stay at their initial guess.
    pub refine_intrinsics: bool,
}

/// A forward-projection request.
#[derive(Debug)]
pub struct ReprojectRequest {
    pub anchor_lat: i128,
    pub anchor_lon: i128,
    pub pose: Pose,
    pub intrinsics: CameraIntrinsics,
    pub points: Vec<Point3>,
}

/// Projected pixels aligned with the request's points; `None` marks an
/// unprojectable point, each of which also raises a warning.
#[derive(Debug)]
pub struct ReprojectResponse {
    pub pixels: Vec<Option<Pixel>>,
    pub warnings: Vec<Warning>,
}

/// Well-formedness of a pose: every field within fixed-point range.
pub open spec fn pose_wf(p: Pose) -> bool {
    fx_wf(p.lat as int) && fx_wf(p.lon as int) && fx_wf(p.alt as int) && fx_wf(p.yaw_deg as int)
        && fx_wf(p.pitch_deg as int) && fx_wf(p.roll_deg as int)
}

/// Well-formedness of intrinsics: in range, with a positive focal length.
pub open spec fn intr_wf(k: CameraIntrinsics) -> bool {
    fx_wf(k.focal_px as int) && fx_wf(k.cx as int) && fx_wf(k.cy as int) && k.focal_px > 0
}

/// Well-formedness of one correspondence's numeric fields.
pub open spec fn corr_wf(c: Correspondence) -> bool {
    fx_wf(c.pixel_x as int) && fx_wf(c.pixel_y as int) && fx_wf(c.weight as int) && fx_wf(
        c.world_x as int,
    ) && fx_wf(c.world_y as int) && fx_wf(c.world_z as int)
}

/// Well-formedness of a 3D point.
pub open spec fn point_wf(p: Point3) -> bool {
    fx_wf(p.x as int) && fx_wf(p.y as int) && fx_wf(p.z as int)
}

} // verus!
