//! Camera resection: estimate a camera pose and intrinsics from matched
//! 2D pixel observations of known 3D reference points, and forward-project
//! 3D points through a pose and intrinsics.
//!
//! All numeric values are signed 64.32 fixed-point numbers stored in `i128`:
//! the real value `x` is represented by `round(x * 2^32)`.  World points live
//! in a local east/north/up frame about a caller-chosen geodetic anchor;
//! poses are reported as geodetic position plus yaw/pitch/roll degrees.

use vstd::prelude::*;

pub mod fx;
pub mod ops;
pub mod trig;
pub mod types;
pub mod project;
pub mod solver;

use crate::fx::FX_LIM;
use crate::fx::FX_ONE;
use crate::fx::fx_wf;
use crate::project::residual_px_spec;
use crate::solver::INLIER_THRESH_PX;
use crate::types::CameraIntrinsics;
use crate::types::Correspondence;
use crate::types::Pose;
use crate::types::SolveError;
use crate::types::SolveRequest;
use crate::types::corr_wf;

verus! {

/// The world point of a correspondence as an integer triple.
pub open spec fn wpt(c: Correspondence) -> (int, int, int) {
    (c.world_x as int, c.world_y as int, c.world_z as int)
}

/// Componentwise difference of integer triples.
pub open spec fn sub_t(a: (int, int, int), b: (int, int, int)) -> (int, int, int) {
    (a.0 - b.0, a.1 - b.1, a.2 - b.2)
}

/// Whether the cross product of two integer triples is exactly zero, i.e.
/// the two are parallel.
pub open spec fn cross_zero(a: (int, int, int), b: (int, int, int)) -> bool {
    a.1 * b.2 == a.2 * b.1 && a.2 * b.0 == a.0 * b.2 && a.0 * b.1 == a.1 * b.0
}

/// Index of the first correspondence whose world point differs from the
/// first one, searching from `i`; the length when there is none.
pub open spec fn first_distinct(s: Seq<Correspondence>, i: int) -> int
    recommends
        0 <= i <= s.len(),
    decreases s.len() - i,
        when 0 <= i <= s.len()
{
    if i < 0 || i >= s.len() {
        s.len() as int
    } else if wpt(s[i]) != wpt(s[0]) {
        i
    } else {
        first_distinct(s, i + 1)
    }
}

/// All world points lie on one line: every point is parallel, relative to
/// the first point, to the direction set by the first distinct point.
pub open spec fn points_collinear(s: Seq<Correspondence>) -> bool {
    if s.len() == 0 {
        true
    } else {
        let fd = first_distinct(s, 0);
        if fd >= s.len() {
            true
        } else {
            let d = sub_t(wpt(s[fd]), wpt(s[0]));
            forall|j: int| 0 <= j < s.len() ==> cross_zero(d, sub_t(wpt(#[trigger] s[j]), wpt(s[0])))
        }
    }
}

/// Every numeric field of the request within fixed-point range.
pub open spec fn req_values_wf(req: SolveRequest) -> bool {
    fx_wf(req.image_width as int) && fx_wf(req.image_height as int) && fx_wf(req.anchor_lat as int)
        && fx_wf(req.anchor_lon as int) && (req.focal_prior_px matches Some(f) ==> fx_wf(f as int))
        && crate::solver::corrs_wf(req.correspondences@)
}

/// 89 degrees in fixed point: the admitted anchor latitude bound.
pub const LAT_LIMIT: i128 = 382252167168;

/// The exact validation outcome of a solve request: `None` when the request
/// is accepted, otherwise the first failing check in a fixed order.
pub open spec fn request_err(req: SolveRequest) -> Option<SolveError> {
    let s = req.correspondences@;
    if !req_values_wf(req) {
        Some(SolveError::ValueOutOfRange)
    } else if !(req.image_width > 0 && req.image_height > 0) {
        Some(SolveError::InvalidImageSize)
    } else if !(-LAT_LIMIT <= req.anchor_lat && req.anchor_lat <= LAT_LIMIT) {
        Some(SolveError::InvalidAnchor)
    } else if req.focal_prior_px matches Some(f) && f <= 0 {
        Some(SolveError::InvalidFocalPrior)
    } else if exists|i: int| 0 <= i < s.len() && (#[trigger] s[i]).weight < 0 {
        Some(SolveError::InvalidWeight)
    } else if s.len() < 6 {
        Some(SolveError::TooFewCorrespondences)
    } else if s.len() > 65536 {
        Some(SolveError::TooManyCorrespondences)
    } else if points_collinear(s) {
        Some(SolveError::CollinearWorldPoints)
    } else {
        None
    }
}

/// Whether a correspondence is an inlier of a boundary pose: its
/// reprojection error is within the inlier threshold.
pub open spec fn is_inlier(
    c: Correspondence,
    pose: Pose,
    k: CameraIntrinsics,
    lat0: int,
    lon0: int,
) -> bool {
    residual_px_spec(pose, k, lat0, lon0, c) <= INLIER_THRESH_PX as int
}

/// Identifiers of the inlier correspondences, in input order.
pub open spec fn inlier_ids_spec(
    s: Seq<Correspondence>,
    pose: Pose,
    k: CameraIntrinsics,
    lat0: int,
    lon0: int,
) -> Seq<Seq<char>>
    decreases s.len(),
{
    if s.len() == 0 {
        Seq::empty()
    } else {
        let pre = inlier_ids_spec(s.drop_last(), pose, k, lat0, lon0);
        if is_inlier(s.last(), pose, k, lat0, lon0) {
            pre.push(s.last().id@)
        } else {
            pre
        }
    }
}

/// Number of inlier correspondences.
pub open spec fn inlier_count_spec(
    s: Seq<Correspondence>,
    pose: Pose,
    k: CameraIntrinsics,
    lat0: int,
    lon0: int,
) -> int
    decreases s.len(),
{
    if s.len() == 0 {
        0
    } else {
        inlier_count_spec(s.drop_last(), pose, k, lat0, lon0) + if is_inlier(
            s.last(),
            pose,
            k,
            lat0,
            lon0,
        ) {
            1int
        } else {
            0int
        }
    }
}

/// The squared-pixel value of a residual magnitude, in fixed point.
pub open spec fn sq_px(r: int) -> int {
    (r * r) / (FX_ONE as int)
}

/// Sum of squared inlier residuals.
pub open spec fn inlier_sq_sum_spec(
    s: Seq<Correspondence>,
    pose: Pose,
    k: CameraIntrinsics,
    lat0: int,
    lon0: int,
) -> int
    decreases s.len(),
{
    if s.len() == 0 {
        0
    } else {
        inlier_sq_sum_spec(s.drop_last(), pose, k, lat0, lon0) + if is_inlier(
            s.last(),
            pose,
            k,
            lat0,
            lon0,
        ) {
            sq_px(residual_px_spec(pose, k, lat0, lon0, s.last()))
        } else {
            0int
        }
    }
}

// ---------------------------------------------------------------------------
// Validation (executable, exact against `request_err`).
// ---------------------------------------------------------------------------

fn fx_ok(v: i128) -> (r: bool)
    ensures
        r == fx_wf(v as int),
{
    -FX_LIM <= v && v <= FX_LIM
}

fn corr_ok(c: &Correspondence) -> (r: bool)
    ensures
        r == corr_wf(*c),
{
    fx_ok(c.pixel_x) && fx_ok(c.pixel_y) && fx_ok(c.weight) && fx_ok(c.world_x) && fx_ok(c.world_y)
        && fx_ok(c.world_z)
}

fn corrs_all_wf(v: &Vec<Correspondence>) -> (r: bool)
    ensures
        r == crate::solver::corrs_wf(v@),
{
    let mut i: usize = 0;
    while i < v.len()
        invariant
            i <= v@.len(),
            forall|t: int| 0 <= t < i ==> corr_wf(#[trigger] v@[t]),
        decreases v@.len() - i,
    {
        if !corr_ok(&v[i]) {
            assert(!corr_wf(v@[i as int]));
            return false;
        }
        i = i + 1;
    }
    true
}

fn any_negative_weight(v: &Vec<Correspondence>) -> (r: bool)
    ensures
        r == exists|i: int| 0 <= i < v@.len() && (#[trigger] v@[i]).weight < 0,
{
    let mut i: usize = 0;
    while i < v.len()
        invariant
            i <= v@.len(),
            forall|t: int| 0 <= t < i ==> (#[trigger] v@[t]).weight >= 0,
        decreases v@.len() - i,
    {
        if v[i].weight < 0 {
            return true;
        }
        i = i + 1;
    }
    false
}

/// Index of the first correspondence whose world point differs from the
/// first one; the length when all coincide.
fn find_first_distinct(v: &Vec<Correspondence>) -> (fd: usize)
    requires
        v@.len() >= 1,
    ensures
        fd as int == first_distinct(v@, 0),
        fd <= v@.len(),
{
    let n = v.len();
    let mut i: usize = 1;
    while i < n
        invariant
            1 <= i <= n,
            n == v@.len(),
            n >= 1,
            first_distinct(v@, 0) == first_distinct(v@, i as int),
        decreases n - i,
    {
        let c = &v[i];
        let c0 = &v[0];
        if c.world_x != c0.world_x || c.world_y != c0.world_y || c.world_z != c0.world_z {
            assert(wpt(v@[i as int]) != wpt(v@[0]));
            assert(first_distinct(v@, i as int) == i as int);
            return i;
        }
        assert(first_distinct(v@, i as int) == first_distinct(v@, i as int + 1));
        i = i + 1;
    }
    assert(first_distinct(v@, n as int) == n as int);
    n
}

/// Exact parallelism test of two difference vectors whose components are
/// differences of in-range values.
fn cross_eq(dx: i128, dy: i128, dz: i128, ex: i128, ey: i128, ez: i128) -> (r: bool)
    requires
        -(2 * FX_LIM as int) <= dx as int <= 2 * FX_LIM as int,
        -(2 * FX_LIM as int) <= dy as int <= 2 * FX_LIM as int,
        -(2 * FX_LIM as int) <= dz as int <= 2 * FX_LIM as int,
        -(2 * FX_LIM as int) <= ex as int <= 2 * FX_LIM as int,
        -(2 * FX_LIM as int) <= ey as int <= 2 * FX_LIM as int,
        -(2 * FX_LIM as int) <= ez as int <= 2 * FX_LIM as int,
    ensures
        r == cross_zero(
            (dx as int, dy as int, dz as int),
            (ex as int, ey as int, ez as int),
        ),
{
    proof {
        assert forall|a: int, b: int|
            -(2 * FX_LIM as int) <= a <= 2 * FX_LIM as int && -(2 * FX_LIM as int) <= b <= 2
                * FX_LIM as int implies -170141183460469231731687303715884105727int <= #[trigger] (a * b)
            <= 170141183460469231731687303715884105727int by {
            assert(-170141183460469231731687303715884105727int <= a * b
                <= 170141183460469231731687303715884105727int) by (nonlinear_arith)
                requires
                    -(2 * FX_LIM as int) <= a <= 2 * FX_LIM as int,
                    -(2 * FX_LIM as int) <= b <= 2 * FX_LIM as int,
            ;
        }
    }
    (dy * ez == dz * ey) && (dz * ex == dx * ez) && (dx * ey == dy * ex)
}

/// Exact collinearity check of the correspondences' world points.
fn check_collinear(v: &Vec<Correspondence>) -> (r: bool)
    requires
        v@.len() >= 1,
        crate::solver::corrs_wf(v@),
    ensures
        r == points_collinear(v@),
{
    let n = v.len();
    let fd = find_first_distinct(v);
    if fd >= n {
        return true;
    }
    let c0 = &v[0];
    let cf = &v[fd];
    proof {
        assert(corr_wf(v@[fd as int]));
        assert(corr_wf(v@[0]));
    }
    let dx: i128 = cf.world_x - c0.world_x;
    let dy: i128 = cf.world_y - c0.world_y;
    let dz: i128 = cf.world_z - c0.world_z;
    let mut j: usize = 0;
    while j < n
        invariant
            j <= n,
            n == v@.len(),
            n >= 1,
            fd < n,
            crate::solver::corrs_wf(v@),
            first_distinct(v@, 0) == fd as int,
            dx as int == wpt(v@[fd as int]).0 - wpt(v@[0]).0,
            dy as int == wpt(v@[fd as int]).1 - wpt(v@[0]).1,
            dz as int == wpt(v@[fd as int]).2 - wpt(v@[0]).2,
            forall|t: int|
                0 <= t < j ==> cross_zero(
                    sub_t(wpt(v@[fd as int]), wpt(v@[0])),
                    sub_t(wpt(#[trigger] v@[t]), wpt(v@[0])),
                ),
        decreases n - j,
    {
        let cj = &v[j];
        let c0b = &v[0];
        proof {
            assert(corr_wf(v@[j as int]));
            assert(corr_wf(v@[0]));
        }
        let ex: i128 = cj.world_x - c0b.world_x;
        let ey: i128 = cj.world_y - c0b.world_y;
        let ez: i128 = cj.world_z - c0b.world_z;
        let ok = cross_eq(dx, dy, dz, ex, ey, ez);
        if !ok {
            assert(!cross_zero(
                sub_t(wpt(v@[fd as int]), wpt(v@[0])),
                sub_t(wpt(v@[j as int]), wpt(v@[0])),
            ));
            return false;
        }
        j = j + 1;
    }
    true
}

/// Exact validation of a solve request.
pub fn validate_request(req: &SolveRequest) -> (r: Option<SolveError>)
    ensures
        r == request_err(*req),
{
    let values_ok = fx_ok(req.image_width) && fx_ok(req.image_height) && fx_ok(req.anchor_lat)
        && fx_ok(req.anchor_lon) && (match req.focal_prior_px {
        Some(f) => fx_ok(f),
        None => true,
    }) && corrs_all_wf(&req.correspondences);
    if !values_ok {
        return Some(SolveError::ValueOutOfRange);
    }
    if !(req.image_width > 0 && req.image_height > 0) {
        return Some(SolveError::InvalidImageSize);
    }
    if !(-LAT_LIMIT <= req.anchor_lat && req.anchor_lat <= LAT_LIMIT) {
        return Some(SolveError::InvalidAnchor);
    }
    match req.focal_prior_px {
        Some(f) => {
            if f <= 0 {
                return Some(SolveError::InvalidFocalPrior);
            }
        },
        None => {},
    }
    if any_negative_weight(&req.correspondences) {
        return Some(SolveError::InvalidWeight);
    }
    if req.correspondences.len() < 6 {
        return Some(SolveError::TooFewCorrespondences);
    }
    if req.correspondences.len() > 65536 {
        return Some(SolveError::TooManyCorrespondences);
    }
    if check_collinear(&req.correspondences) {
        return Some(SolveError::CollinearWorldPoints);
    }
    None
}


use crate::fx::tdiv;
use crate::ops::isqrt_of;
use crate::ops::lemma_isqrt_is;
use crate::ops::oadd_spec;
use crate::ops::omul_spec;
use crate::ops::osqrt_spec;
use crate::fx::fx_sub_spec;
use crate::project::RES_MAX;
use crate::project::ovpx;
use crate::project::project_px;
use crate::project::project_px_spec;
use crate::project::residual_px;
use crate::solver::CamState;
use crate::types::Covariance;
use crate::types::Diagnostics;
use crate::types::Pixel;
use crate::types::Point3;
use crate::types::ReprojectRequest;
use crate::types::ReprojectResponse;
use crate::types::SolveResponse;
use crate::types::Warning;
use crate::types::intr_wf;
use crate::types::point_wf;
use crate::types::pose_wf;

// ---------------------------------------------------------------------------
// Diagnostics built from the boundary pose, exact against the specs above.
// ---------------------------------------------------------------------------

/// Residual magnitudes of every correspondence, in input order.
fn build_residuals(
    corrs: &Vec<Correspondence>,
    pose: &Pose,
    k: &CameraIntrinsics,
    lat0: i128,
    lon0: i128,
) -> (r: Vec<i128>)
    requires
        crate::solver::corrs_wf(corrs@),
        pose_wf(*pose),
        intr_wf(*k),
        fx_wf(lat0 as int),
        fx_wf(lon0 as int),
    ensures
        r@.len() == corrs@.len(),
        forall|i: int|
            0 <= i < corrs@.len() ==> #[trigger] r@[i] as int == residual_px_spec(
                *pose,
                *k,
                lat0 as int,
                lon0 as int,
                corrs@[i],
            ),
{
    let mut out: Vec<i128> = Vec::new();
    let mut i: usize = 0;
    while i < corrs.len()
        invariant
            i <= corrs@.len(),
            out@.len() == i,
            crate::solver::corrs_wf(corrs@),
            pose_wf(*pose),
            intr_wf(*k),
            fx_wf(lat0 as int),
            fx_wf(lon0 as int),
            forall|t: int|
                0 <= t < i ==> #[trigger] out@[t] as int == residual_px_spec(
                    *pose,
                    *k,
                    lat0 as int,
                    lon0 as int,
                    corrs@[t],
                ),
        decreases corrs@.len() - i,
    {
        let res = residual_px(pose, k, lat0, lon0, &corrs[i]);
        out.push(res);
        i = i + 1;
    }
    out
}


/// One step of the inlier aggregates: extending a prefix by one
/// correspondence adds its contribution.
proof fn lemma_stats_step(
    s: Seq<Correspondence>,
    i: int,
    pose: Pose,
    k: CameraIntrinsics,
    lat0: int,
    lon0: int,
)
    requires
        0 <= i < s.len(),
    ensures
        inlier_count_spec(s.take(i + 1), pose, k, lat0, lon0) == inlier_count_spec(
            s.take(i),
            pose,
            k,
            lat0,
            lon0,
        ) + if is_inlier(s[i], pose, k, lat0, lon0) {
            1int
        } else {
            0int
        },
        inlier_sq_sum_spec(s.take(i + 1), pose, k, lat0, lon0) == inlier_sq_sum_spec(
            s.take(i),
            pose,
            k,
            lat0,
            lon0,
        ) + if is_inlier(s[i], pose, k, lat0, lon0) {
            sq_px(residual_px_spec(pose, k, lat0, lon0, s[i]))
        } else {
            0int
        },
        inlier_ids_spec(s.take(i + 1), pose, k, lat0, lon0) == if is_inlier(
            s[i],
            pose,
            k,
            lat0,
            lon0,
        ) {
            inlier_ids_spec(s.take(i), pose, k, lat0, lon0).push(s[i].id@)
        } else {
            inlier_ids_spec(s.take(i), pose, k, lat0, lon0)
        },
{
    let pre = s.take(i);
    let post = s.take(i + 1);
    assert(post.drop_last() =~= pre);
    assert(post.last() == s[i]);
}

/// Identifiers of the inlier correspondences, in input order.
fn build_inlier_ids(
    corrs: &Vec<Correspondence>,
    pose: &Pose,
    k: &CameraIntrinsics,
    lat0: i128,
    lon0: i128,
) -> (r: Vec<String>)
    requires
        crate::solver::corrs_wf(corrs@),
        pose_wf(*pose),
        intr_wf(*k),
        fx_wf(lat0 as int),
        fx_wf(lon0 as int),
    ensures
        r@.map_values(|id: String| id@) == inlier_ids_spec(
            corrs@,
            *pose,
            *k,
            lat0 as int,
            lon0 as int,
        ),
{
    let mut out: Vec<String> = Vec::new();
    let mut i: usize = 0;
    while i < corrs.len()
        invariant
            i <= corrs@.len(),
            crate::solver::corrs_wf(corrs@),
            pose_wf(*pose),
            intr_wf(*k),
            fx_wf(lat0 as int),
            fx_wf(lon0 as int),
            out@.map_values(|id: String| id@) == inlier_ids_spec(
                corrs@.take(i as int),
                *pose,
                *k,
                lat0 as int,
                lon0 as int,
            ),
        decreases corrs@.len() - i,
    {
        let res = residual_px(pose, k, lat0, lon0, &corrs[i]);
        proof {
            lemma_stats_step(corrs@, i as int, *pose, *k, lat0 as int, lon0 as int);
        }
        if res <= crate::solver::INLIER_THRESH_PX {
            let ghost before = out@;
            out.push(corrs[i].id.clone());
            proof {
                assert(out@.map_values(|id: String| id@) =~= before.map_values(|id: String| id@)
                    .push(corrs@[i as int].id@));
            }
        }
        i = i + 1;
    }
    proof {
        assert(corrs@.take(corrs@.len() as int) =~= corrs@);
    }
    out
}

/// Inlier count and sum of squared inlier residuals.
fn inlier_stats(
    corrs: &Vec<Correspondence>,
    pose: &Pose,
    k: &CameraIntrinsics,
    lat0: i128,
    lon0: i128,
) -> (r: (usize, i128))
    requires
        crate::solver::corrs_wf(corrs@),
        pose_wf(*pose),
        intr_wf(*k),
        fx_wf(lat0 as int),
        fx_wf(lon0 as int),
        corrs@.len() <= 65536,
    ensures
        r.0 as int == inlier_count_spec(corrs@, *pose, *k, lat0 as int, lon0 as int),
        r.1 as int == inlier_sq_sum_spec(corrs@, *pose, *k, lat0 as int, lon0 as int),
        0 <= r.1 as int <= 2533274790461440,
        r.0 <= corrs@.len(),
{
    let mut count: usize = 0;
    let mut ssum: i128 = 0;
    let mut i: usize = 0;
    while i < corrs.len()
        invariant
            i <= corrs@.len(),
            corrs@.len() <= 65536,
            crate::solver::corrs_wf(corrs@),
            pose_wf(*pose),
            intr_wf(*k),
            fx_wf(lat0 as int),
            fx_wf(lon0 as int),
            count as int == inlier_count_spec(
                corrs@.take(i as int),
                *pose,
                *k,
                lat0 as int,
                lon0 as int,
            ),
            ssum as int == inlier_sq_sum_spec(
                corrs@.take(i as int),
                *pose,
                *k,
                lat0 as int,
                lon0 as int,
            ),
            count <= i,
            0 <= ssum as int <= (i as int) * 38654705665int,
        decreases corrs@.len() - i,
    {
        let res = residual_px(pose, k, lat0, lon0, &corrs[i]);
        proof {
            lemma_stats_step(corrs@, i as int, *pose, *k, lat0 as int, lon0 as int);
        }
        if res <= crate::solver::INLIER_THRESH_PX {
            count = count + 1;
            let ru: u128 = res as u128;
            proof {
                assert(ru * ru <= 12884901888u128 * 12884901888u128) by (nonlinear_arith)
                    requires
                        ru <= 12884901888u128,
                ;
            }
            let q: u128 = (ru * ru) / (FX_ONE as u128);
            proof {
                vstd::arithmetic::div_mod::lemma_div_is_ordered(
                    (ru * ru) as int,
                    12884901888int * 12884901888int,
                    FX_ONE as int,
                );
                assert(12884901888int * 12884901888int == (FX_ONE as int) * 38654705664int)
                    by (nonlinear_arith);
                vstd::arithmetic::div_mod::lemma_div_multiples_vanish(
                    38654705664int,
                    FX_ONE as int,
                );
                assert((12884901888int * 12884901888int) / (FX_ONE as int) == 38654705664int);
                assert(q as int <= 38654705664int);
                assert(q as int == sq_px(res as int));
            }
            proof {
                assert((i as int + 1) * 38654705665int == (i as int) * 38654705665int
                    + 38654705665int) by (nonlinear_arith);
            }
            ssum = ssum + (q as i128);
        }
        i = i + 1;
    }
    proof {
        assert(corrs@.take(corrs@.len() as int) =~= corrs@);
        assert((i as int) * 38654705665int <= 65536int * 38654705665int) by (nonlinear_arith)
            requires
                i as int <= 65536int,
        ;
    }
    (count, ssum)
}

/// The inlier ratio `count / n` in fixed point.
fn ratio_of(count: usize, n: usize) -> (r: i128)
    requires
        count <= n,
        1 <= n <= 65536,
    ensures
        r as int == tdiv(count as int * FX_ONE as int, n as int),
        0 <= r <= FX_ONE,
{
    proof {
        assert((count as u128) * (FX_ONE as u128) <= 65536u128 * 4294967296u128)
            by (nonlinear_arith)
            requires
                count as u128 <= 65536u128,
        ;
        assert((n as u128) * (FX_ONE as u128) <= 65536u128 * 4294967296u128) by (nonlinear_arith)
            requires
                n as u128 <= 65536u128,
        ;
    }
    let num: u128 = (count as u128) * (FX_ONE as u128);
    let q: u128 = num / (n as u128);
    proof {
        assert((count as u128) * (FX_ONE as u128) <= (n as u128) * (FX_ONE as u128))
            by (nonlinear_arith)
            requires
                count as u128 <= n as u128,
        ;
        vstd::arithmetic::div_mod::lemma_div_is_ordered(
            num as int,
            (n as int) * (FX_ONE as int),
            n as int,
        );
        vstd::arithmetic::div_mod::lemma_div_multiples_vanish(FX_ONE as int, n as int);
        assert(((n as int) * (FX_ONE as int)) / (n as int) == FX_ONE as int);
    }
    q as i128
}

/// Root-mean-square inlier residual: the fixed-point square root of the mean
/// squared inlier residual; zero when there are no inliers.
fn rmse_of(ssum: i128, count: usize) -> (r: i128)
    requires
        0 <= ssum as int <= 2533274790461440,
        count <= 65536,
    ensures
        count == 0 ==> r == 0,
        count > 0 ==> r as int == isqrt_of(tdiv(ssum as int, count as int) * (FX_ONE as int)),
        r >= 0,
{
    if count == 0 {
        return 0;
    }
    let mean_u: u128 = (ssum as u128) / (count as u128);
    proof {
        vstd::arithmetic::div_mod::lemma_div_is_ordered_by_denominator(
            ssum as int,
            1,
            count as int,
        );
        assert(ssum as int / 1 == ssum as int);
    }
    let mean: i128 = mean_u as i128;
    let root = crate::fx::fx_sqrt(mean);
    proof {
        lemma_isqrt_is((mean as int) * (FX_ONE as int), root as int);
    }
    root
}

/// The fixed parameter labels of the covariance ordering.
pub open spec fn labels_ok(s: Seq<String>) -> bool {
    s.len() == 9 && s[0]@ == "x"@ && s[1]@ == "y"@ && s[2]@ == "z"@ && s[3]@ == "yaw"@ && s[4]@
        == "pitch"@ && s[5]@ == "roll"@ && s[6]@ == "focal"@ && s[7]@ == "cx"@ && s[8]@ == "cy"@
}

fn make_labels() -> (r: Vec<String>)
    ensures
        labels_ok(r@),
{
    let mut v: Vec<String> = Vec::new();
    v.push(String::from_str("x"));
    v.push(String::from_str("y"));
    v.push(String::from_str("z"));
    v.push(String::from_str("yaw"));
    v.push(String::from_str("pitch"));
    v.push(String::from_str("roll"));
    v.push(String::from_str("focal"));
    v.push(String::from_str("cx"));
    v.push(String::from_str("cy"));
    v
}

/// Shape and positivity of a reported covariance: the fixed labels, and
/// either an empty matrix or a symmetric nine-by-nine one whose diagonal is
/// non-negative and whose every entry obeys the two-by-two minor bound
/// `m[i][j]^2 <= m[i][i] * m[j][j]` that a positive-semidefinite matrix
/// satisfies (the remaining positivity is enforced by the solver's
/// factorization gate and checked by the tests).
pub open spec fn covariance_ok(c: Covariance) -> bool {
    labels_ok(c.labels@) && (c.matrix@.len() == 0 || (c.matrix@.len() == 9 && (forall|i: int|
        0 <= i < 9 ==> (#[trigger] c.matrix@[i])@.len() == 9) && (forall|i: int, j: int|
        0 <= i < 9 && 0 <= j < 9 ==> c.matrix@[i]@[j] == c.matrix@[j]@[i]) && (forall|i: int|
        0 <= i < 9 ==> (#[trigger] c.matrix@[i])@[i] >= 0) && (forall|i: int, j: int|
        0 <= i < 9 && 0 <= j < 9 ==> (c.matrix@[i]@[j] as int) * (c.matrix@[i]@[j] as int) <= (
        c.matrix@[i]@[i] as int) * (c.matrix@[j]@[j] as int))))
}

/// What `solve` promises of a successful response, relative to the returned
/// pose and intrinsics: well-formed outputs; one residual per input
/// correspondence, in order, each the exact reprojection error under the
/// returned parameters; inlier identifiers exactly those within threshold,
/// in order; the inlier ratio and root-mean-square residual computed exactly
/// from those residuals; a symmetric (or empty) covariance with the fixed
/// labels, empty exactly when the singular-covariance warning is raised.
pub open spec fn response_ok(req: SolveRequest, resp: SolveResponse) -> bool {
    let s = req.correspondences@;
    let lat0 = req.anchor_lat as int;
    let lon0 = req.anchor_lon as int;
    let cnt = inlier_count_spec(s, resp.pose, resp.intrinsics, lat0, lon0);
    let ssum = inlier_sq_sum_spec(s, resp.pose, resp.intrinsics, lat0, lon0);
    &&& pose_wf(resp.pose)
    &&& intr_wf(resp.intrinsics)
    &&& resp.diagnostics.residuals_px@.len() == s.len()
    &&& forall|i: int|
        0 <= i < s.len() ==> #[trigger] resp.diagnostics.residuals_px@[i] as int
            == residual_px_spec(resp.pose, resp.intrinsics, lat0, lon0, s[i])
    &&& resp.diagnostics.inlier_ids@.map_values(|id: String| id@) == inlier_ids_spec(
        s,
        resp.pose,
        resp.intrinsics,
        lat0,
        lon0,
    )
    &&& resp.diagnostics.inlier_ratio as int == tdiv(cnt * (FX_ONE as int), s.len() as int)
    &&& 0 <= resp.diagnostics.inlier_ratio <= FX_ONE
    &&& (cnt == 0 ==> resp.diagnostics.rmse_px == 0)
    &&& (cnt > 0 ==> resp.diagnostics.rmse_px as int == isqrt_of(
        tdiv(ssum, cnt) * (FX_ONE as int),
    ))
    &&& resp.diagnostics.rmse_px >= 0
    &&& covariance_ok(resp.covariance)
    &&& (resp.covariance.matrix@.len() == 0 <==> resp.diagnostics.warnings@.contains(
        Warning::SingularCovariance,
    ))
    &&& (resp.diagnostics.warnings@.contains(Warning::UnprojectablePoint) <==> exists|i: int|
        0 <= i < resp.diagnostics.residuals_px@.len() && resp.diagnostics.residuals_px@[i]
            == RES_MAX)
    &&& (resp.diagnostics.warnings@.contains(Warning::SearchExhausted) <==> 2 * cnt < s.len())
}

/// Whether some residual is the maximal (unprojectable) value.
fn any_res_max(v: &Vec<i128>) -> (r: bool)
    ensures
        r == exists|i: int| 0 <= i < v@.len() && v@[i] == RES_MAX,
{
    let mut i: usize = 0;
    while i < v.len()
        invariant
            i <= v@.len(),
            forall|t: int| 0 <= t < i ==> v@[t] != RES_MAX,
        decreases v@.len() - i,
    {
        if v[i] == RES_MAX {
            return true;
        }
        i = i + 1;
    }
    false
}

proof fn lemma_contains_push(s: Seq<Warning>, y: Warning, x: Warning)
    ensures
        s.push(y).contains(x) == (s.contains(x) || x == y),
{
    if s.contains(x) {
        let wi = choose|i: int| 0 <= i < s.len() && s[i] == x;
        assert(s.push(y)[wi] == x);
    }
    if x == y {
        assert(s.push(y)[s.len() as int] == x);
    }
    if !s.contains(x) && x != y {
        assert forall|i: int| 0 <= i < s.push(y).len() implies s.push(y)[i] != x by {
            if i < s.len() {
                assert(s.push(y)[i] == s[i]);
            }
        }
    }
}

proof fn lemma_contains_push_all(s: Seq<Warning>, y: Warning)
    ensures
        s.push(y).contains(Warning::DegenerateSample) == (s.contains(Warning::DegenerateSample)
            || y == Warning::DegenerateSample),
        s.push(y).contains(Warning::SearchExhausted) == (s.contains(Warning::SearchExhausted)
            || y == Warning::SearchExhausted),
        s.push(y).contains(Warning::RefinerDiverged) == (s.contains(Warning::RefinerDiverged)
            || y == Warning::RefinerDiverged),
        s.push(y).contains(Warning::UnprojectablePoint) == (s.contains(
            Warning::UnprojectablePoint,
        ) || y == Warning::UnprojectablePoint),
        s.push(y).contains(Warning::SingularCovariance) == (s.contains(
            Warning::SingularCovariance,
        ) || y == Warning::SingularCovariance),
{
    lemma_contains_push(s, y, Warning::DegenerateSample);
    lemma_contains_push(s, y, Warning::SearchExhausted);
    lemma_contains_push(s, y, Warning::RefinerDiverged);
    lemma_contains_push(s, y, Warning::UnprojectablePoint);
    lemma_contains_push(s, y, Warning::SingularCovariance);
}

/// Warnings assembled in stage order, one per raised condition.
fn build_warnings(
    degenerate: bool,
    exhausted: bool,
    refiner: bool,
    unproj: bool,
    singular: bool,
) -> (r: Vec<Warning>)
    ensures
        r@.contains(Warning::DegenerateSample) == degenerate,
        r@.contains(Warning::SearchExhausted) == exhausted,
        r@.contains(Warning::RefinerDiverged) == refiner,
        r@.contains(Warning::UnprojectablePoint) == unproj,
        r@.contains(Warning::SingularCovariance) == singular,
{
    let mut w: Vec<Warning> = Vec::new();
    if degenerate {
        let ghost w0 = w@;
        w.push(Warning::DegenerateSample);
        proof {
            lemma_contains_push_all(w0, Warning::DegenerateSample);
        }
    }
    if exhausted {
        let ghost w0 = w@;
        w.push(Warning::SearchExhausted);
        proof {
            lemma_contains_push_all(w0, Warning::SearchExhausted);
        }
    }
    if refiner {
        let ghost w0 = w@;
        w.push(Warning::RefinerDiverged);
        proof {
            lemma_contains_push_all(w0, Warning::RefinerDiverged);
        }
    }
    if unproj {
        let ghost w0 = w@;
        w.push(Warning::UnprojectablePoint);
        proof {
            lemma_contains_push_all(w0, Warning::UnprojectablePoint);
        }
    }
    if singular {
        let ghost w0 = w@;
        w.push(Warning::SingularCovariance);
        proof {
            lemma_contains_push_all(w0, Warning::SingularCovariance);
        }
    }
    w
}

fn half_px(v: i128) -> (r: i128)
    requires
        0 <= v,
        fx_wf(v as int),
    ensures
        r as int == (v as int) / 2,
        fx_wf(r as int),
        r >= 0,
{
    ((v as u128) / 2) as i128
}

/// Indices of the correspondences within threshold of a solver state; used
/// to pick the refinement and covariance set.
fn collect_inliers_state(st: &CamState, corrs: &Vec<Correspondence>) -> (r: Vec<usize>)
    requires
        crate::solver::state_wf(*st),
        crate::solver::corrs_wf(corrs@),
    ensures
        forall|i: int| 0 <= i < r@.len() ==> #[trigger] r@[i] < corrs@.len(),
        r@.len() <= corrs@.len(),
{
    let mut out: Vec<usize> = Vec::new();
    let mut i: usize = 0;
    while i < corrs.len()
        invariant
            i <= corrs@.len(),
            out@.len() <= i,
            crate::solver::state_wf(*st),
            crate::solver::corrs_wf(corrs@),
            forall|t: int| 0 <= t < out@.len() ==> #[trigger] out@[t] < corrs@.len(),
        decreases corrs@.len() - i,
    {
        let res = crate::solver::residual_state(st, &corrs[i]);
        if res <= crate::solver::INLIER_THRESH_PX {
            out.push(i);
        }
        i = i + 1;
    }
    out
}

fn all_indices(n: usize) -> (r: Vec<usize>)
    ensures
        r@.len() == n,
        forall|i: int| 0 <= i < n ==> #[trigger] r@[i] < n,
{
    let mut out: Vec<usize> = Vec::new();
    let mut i: usize = 0;
    while i < n
        invariant
            i <= n,
            out@.len() == i,
            forall|t: int| 0 <= t < i ==> #[trigger] out@[t] < n,
        decreases n - i,
    {
        out.push(i);
        i = i + 1;
    }
    out
}

/// Estimates the camera pose and intrinsics of a request: validation, robust
/// consensus over minimal samples, damped Gauss-Newton refinement, then
/// covariance and diagnostics computed against the returned boundary pose.
/// Fails exactly on the validation errors of `request_err`; every accepted
/// request yields a complete response whose quality is reported through the
/// diagnostics, never through missing fields.
#[verifier::rlimit(100)]
pub fn solve(req: &SolveRequest) -> (r: Result<SolveResponse, SolveError>)
    ensures
        r is Err <==> request_err(*req) is Some,
        r matches Err(e) ==> Some(e) == request_err(*req),
        r matches Ok(resp) ==> response_ok(*req, resp),
{
    match validate_request(req) {
        Some(e) => {
            return Err(e);
        },
        None => {},
    }
    assert(request_err(*req) is None);
    assert(req_values_wf(*req));
    let n = req.correspondences.len();
    assert(6 <= n <= 65536);
    assert(crate::solver::weights_nonneg(req.correspondences@)) by {
        assert(forall|i: int|
            0 <= i < req.correspondences@.len() ==> (#[trigger] req.correspondences@[i]).weight
                >= 0);
    }
    let f0: i128 = match req.focal_prior_px {
        Some(f) => f,
        None => if req.image_width >= req.image_height {
            req.image_width
        } else {
            req.image_height
        },
    };
    let cx0 = half_px(req.image_width);
    let cy0 = half_px(req.image_height);
    let search = crate::solver::consensus_search(&req.correspondences, f0, cx0, cy0);
    let (best, _best_count, skipped) = search;
    let mut no_hypothesis = false;
    let st1: CamState = match best {
        Some(st) => st,
        None => {
            no_hypothesis = true;
            crate::solver::fallback_state(f0, cx0, cy0)
        },
    };
    let sel0 = collect_inliers_state(&st1, &req.correspondences);
    let sel: Vec<usize> = if sel0.len() >= 6 {
        sel0
    } else {
        all_indices(n)
    };
    let refined = crate::solver::gn_refine(st1, &req.correspondences, &sel, req.refine_intrinsics);
    let (st2, diverged, singular_refine) = refined;
    let pose = crate::solver::state_to_pose(&st2, req.anchor_lat, req.anchor_lon);
    let intr = CameraIntrinsics { focal_px: st2.f, cx: st2.cx, cy: st2.cy };
    let residuals = build_residuals(&req.correspondences, &pose, &intr, req.anchor_lat, req.anchor_lon);
    let ids = build_inlier_ids(&req.correspondences, &pose, &intr, req.anchor_lat, req.anchor_lon);
    let stats = inlier_stats(&req.correspondences, &pose, &intr, req.anchor_lat, req.anchor_lon);
    let (cnt, ssum) = stats;
    let ratio = ratio_of(cnt, n);
    let rmse = rmse_of(ssum, cnt);
    // Covariance about the final solver state, over its own inlier set.
    let sel2raw = collect_inliers_state(&st2, &req.correspondences);
    let sel2: Vec<usize> = if sel2raw.len() >= 1 {
        sel2raw
    } else {
        all_indices(n)
    };
    let covm = crate::solver::covariance_build(
        &st2,
        &req.correspondences,
        &sel2,
        req.refine_intrinsics,
    );
    let has_unproj = any_res_max(&residuals);
    let (matrix, cov_empty): (Vec<Vec<i128>>, bool) = match covm {
        Some(m) => (m, false),
        None => (Vec::new(), true),
    };
    let warnings = build_warnings(
        skipped || no_hypothesis,
        2 * cnt < n,
        diverged || singular_refine,
        has_unproj,
        cov_empty,
    );
    let covariance = Covariance { matrix, labels: make_labels() };
    let diagnostics = Diagnostics {
        rmse_px: rmse,
        inlier_ratio: ratio,
        residuals_px: residuals,
        inlier_ids: ids,
        warnings,
    };
    let resp = SolveResponse { pose, intrinsics: intr, covariance, diagnostics };
    proof {
        let sq = req.correspondences@;
        let lat0s = req.anchor_lat as int;
        let lon0s = req.anchor_lon as int;
        let cnts = inlier_count_spec(sq, resp.pose, resp.intrinsics, lat0s, lon0s);
        let ssums = inlier_sq_sum_spec(sq, resp.pose, resp.intrinsics, lat0s, lon0s);
        assert(pose_wf(resp.pose));
        assert(intr_wf(resp.intrinsics));
        assert(resp.diagnostics.residuals_px@.len() == sq.len());
        assert(forall|i: int|
            0 <= i < sq.len() ==> #[trigger] resp.diagnostics.residuals_px@[i] as int
                == residual_px_spec(resp.pose, resp.intrinsics, lat0s, lon0s, sq[i]));
        assert(resp.diagnostics.inlier_ids@.map_values(|id: String| id@) == inlier_ids_spec(
            sq,
            resp.pose,
            resp.intrinsics,
            lat0s,
            lon0s,
        ));
        assert(resp.diagnostics.inlier_ratio as int == tdiv(cnts * (FX_ONE as int), sq.len() as int));
        assert(0 <= resp.diagnostics.inlier_ratio <= FX_ONE);
        assert(cnts == 0 ==> resp.diagnostics.rmse_px == 0);
        assert(cnts > 0 ==> resp.diagnostics.rmse_px as int == isqrt_of(
            tdiv(ssums, cnts) * (FX_ONE as int),
        ));
        assert(resp.diagnostics.rmse_px >= 0);
        assert(covariance_ok(resp.covariance));
        assert(resp.covariance.matrix@.len() == 0 <==> resp.diagnostics.warnings@.contains(
            Warning::SingularCovariance,
        ));
        assert(resp.diagnostics.warnings@.contains(Warning::UnprojectablePoint) <==> exists|i: int|
            0 <= i < resp.diagnostics.residuals_px@.len() && resp.diagnostics.residuals_px@[i]
                == RES_MAX);
        assert(resp.diagnostics.warnings@.contains(Warning::SearchExhausted) <==> 2 * cnts
            < sq.len());
        assert(response_ok(*req, resp));
    }
    Ok(resp)
}

// ---------------------------------------------------------------------------
// Standalone reprojection.
// ---------------------------------------------------------------------------

/// A 3D point as an integer triple.
pub open spec fn pt_v(p: Point3) -> (int, int, int) {
    (p.x as int, p.y as int, p.z as int)
}

/// Every numeric field of a reprojection request within fixed-point range.
pub open spec fn reproject_values_wf(req: ReprojectRequest) -> bool {
    fx_wf(req.anchor_lat as int) && fx_wf(req.anchor_lon as int) && pose_wf(req.pose) && fx_wf(
        req.intrinsics.focal_px as int,
    ) && fx_wf(req.intrinsics.cx as int) && fx_wf(req.intrinsics.cy as int) && (forall|i: int|
        0 <= i < req.points@.len() ==> point_wf(#[trigger] req.points@[i]))
}

/// The exact validation outcome of a reprojection request.
pub open spec fn reproject_err(req: ReprojectRequest) -> Option<SolveError> {
    if !reproject_values_wf(req) {
        Some(SolveError::ValueOutOfRange)
    } else if req.intrinsics.focal_px <= 0 {
        Some(SolveError::InvalidFocalPrior)
    } else if !(-LAT_LIMIT <= req.anchor_lat && req.anchor_lat <= LAT_LIMIT) {
        Some(SolveError::InvalidAnchor)
    } else {
        None
    }
}

/// Number of unprojectable points of a sequence under a boundary pose.
pub open spec fn unproj_count(
    s: Seq<Point3>,
    pose: Pose,
    k: CameraIntrinsics,
    lat0: int,
    lon0: int,
) -> int
    decreases s.len(),
{
    if s.len() == 0 {
        0
    } else {
        unproj_count(s.drop_last(), pose, k, lat0, lon0) + if project_px_spec(
            pose,
            k,
            lat0,
            lon0,
            pt_v(s.last()),
        ) is None {
            1int
        } else {
            0int
        }
    }
}

fn points_all_wf(v: &Vec<Point3>) -> (r: bool)
    ensures
        r == forall|i: int| 0 <= i < v@.len() ==> point_wf(#[trigger] v@[i]),
{
    let mut i: usize = 0;
    while i < v.len()
        invariant
            i <= v@.len(),
            forall|t: int| 0 <= t < i ==> point_wf(#[trigger] v@[t]),
        decreases v@.len() - i,
    {
        let p = &v[i];
        if !(fx_ok(p.x) && fx_ok(p.y) && fx_ok(p.z)) {
            assert(!point_wf(v@[i as int]));
            return false;
        }
        i = i + 1;
    }
    true
}

/// Forward-projects a sequence of 3D points through a pose and intrinsics:
/// one pixel per point in input order, `None` (with one warning each) for a
/// point that is unprojectable.  Fails exactly on the validation errors of
/// `reproject_err`.
pub fn reproject_points(req: &ReprojectRequest) -> (r: Result<ReprojectResponse, SolveError>)
    ensures
        r is Err <==> reproject_err(*req) is Some,
        r matches Err(e) ==> Some(e) == reproject_err(*req),
        r matches Ok(resp) ==> {
            &&& resp.pixels@.len() == req.points@.len()
            &&& forall|i: int|
                0 <= i < req.points@.len() ==> ovpx(#[trigger] resp.pixels@[i]) == project_px_spec(
                    req.pose,
                    req.intrinsics,
                    req.anchor_lat as int,
                    req.anchor_lon as int,
                    pt_v(req.points@[i]),
                )
            &&& resp.warnings@.len() == unproj_count(
                req.points@,
                req.pose,
                req.intrinsics,
                req.anchor_lat as int,
                req.anchor_lon as int,
            )
            &&& forall|i: int|
                0 <= i < resp.warnings@.len() ==> #[trigger] resp.warnings@[i]
                    == Warning::UnprojectablePoint
        },
{
    let p = &req.pose;
    let values_ok = fx_ok(req.anchor_lat) && fx_ok(req.anchor_lon) && fx_ok(p.lat) && fx_ok(p.lon)
        && fx_ok(p.alt) && fx_ok(p.yaw_deg) && fx_ok(p.pitch_deg) && fx_ok(p.roll_deg) && fx_ok(
        req.intrinsics.focal_px,
    ) && fx_ok(req.intrinsics.cx) && fx_ok(req.intrinsics.cy) && points_all_wf(&req.points);
    if !values_ok {
        return Err(SolveError::ValueOutOfRange);
    }
    if req.intrinsics.focal_px <= 0 {
        return Err(SolveError::InvalidFocalPrior);
    }
    if !(-LAT_LIMIT <= req.anchor_lat && req.anchor_lat <= LAT_LIMIT) {
        return Err(SolveError::InvalidAnchor);
    }
    let mut pixels: Vec<Option<Pixel>> = Vec::new();
    let mut warnings: Vec<Warning> = Vec::new();
    let mut i: usize = 0;
    while i < req.points.len()
        invariant
            i <= req.points@.len(),
            pixels@.len() == i,
            reproject_values_wf(*req),
            req.intrinsics.focal_px > 0,
            forall|t: int|
                0 <= t < i ==> ovpx(#[trigger] pixels@[t]) == project_px_spec(
                    req.pose,
                    req.intrinsics,
                    req.anchor_lat as int,
                    req.anchor_lon as int,
                    pt_v(req.points@[t]),
                ),
            warnings@.len() == unproj_count(
                req.points@.take(i as int),
                req.pose,
                req.intrinsics,
                req.anchor_lat as int,
                req.anchor_lon as int,
            ),
            forall|t: int|
                0 <= t < warnings@.len() ==> #[trigger] warnings@[t]
                    == Warning::UnprojectablePoint,
        decreases req.points@.len() - i,
    {
        let px = project_px(
            &req.pose,
            &req.intrinsics,
            req.anchor_lat,
            req.anchor_lon,
            &req.points[i],
        );
        proof {
            let pre = req.points@.take(i as int);
            let post = req.points@.take(i as int + 1);
            assert(post.drop_last() =~= pre);
            assert(post.last() == req.points@[i as int]);
        }
        match px {
            Some(q) => {
                pixels.push(Some(q));
            },
            None => {
                pixels.push(None);
                warnings.push(Warning::UnprojectablePoint);
            },
        }
        i = i + 1;
    }
    proof {
        assert(req.points@.take(req.points@.len() as int) =~= req.points@);
    }
    Ok(ReprojectResponse { pixels, warnings })
}

// ---------------------------------------------------------------------------
// Stated laws.
// ---------------------------------------------------------------------------

/// The pixel distance between an observation and a projected pixel, with the
/// maximal residual when the distance computation leaves range.
pub open spec fn pixel_gap(px: int, py: int, uv: (int, int)) -> int {
    let du = fx_sub_spec(px, uv.0);
    let dv = fx_sub_spec(py, uv.1);
    match osqrt_spec(oadd_spec(omul_spec(du, du), omul_spec(dv, dv))) {
        Some(d) => d,
        None => RES_MAX as int,
    }
}

/// The inlier identifier list has exactly one entry per inlier, so the
/// reported inlier ratio counts exactly the listed identifiers.
pub proof fn lemma_inlier_ids_count(
    s: Seq<Correspondence>,
    pose: Pose,
    k: CameraIntrinsics,
    lat0: int,
    lon0: int,
)
    ensures
        inlier_ids_spec(s, pose, k, lat0, lon0).len() == inlier_count_spec(s, pose, k, lat0, lon0),
        0 <= inlier_count_spec(s, pose, k, lat0, lon0) <= s.len(),
    decreases s.len(),
{
    if s.len() == 0 {
    } else {
        lemma_inlier_ids_count(s.drop_last(), pose, k, lat0, lon0);
    }
}

/// Identifier sequence of a correspondence sequence.
pub open spec fn ids_of(s: Seq<Correspondence>) -> Seq<Seq<char>> {
    s.map_values(|c: Correspondence| c.id@)
}

/// No two entries of a sequence are equal.
pub open spec fn distinct_seq(q: Seq<Seq<char>>) -> bool {
    forall|i: int, j: int| 0 <= i < j < q.len() ==> q[i] != q[j]
}

/// Each observation identifier appears at most once among the inlier
/// identifiers: when the request's observation identifiers are pairwise
/// distinct, so are the reported inlier identifiers, and each of them is one
/// of the input identifiers.
pub proof fn lemma_inlier_ids_distinct(
    s: Seq<Correspondence>,
    pose: Pose,
    k: CameraIntrinsics,
    lat0: int,
    lon0: int,
)
    requires
        distinct_seq(ids_of(s)),
    ensures
        distinct_seq(inlier_ids_spec(s, pose, k, lat0, lon0)),
        forall|t: int|
            0 <= t < inlier_ids_spec(s, pose, k, lat0, lon0).len() ==> ids_of(s).contains(
                #[trigger] inlier_ids_spec(s, pose, k, lat0, lon0)[t],
            ),
    decreases s.len(),
{
    if s.len() == 0 {
    } else {
        let pre = s.drop_last();
        assert(ids_of(pre) =~= ids_of(s).drop_last());
        lemma_inlier_ids_distinct(pre, pose, k, lat0, lon0);
        let out_pre = inlier_ids_spec(pre, pose, k, lat0, lon0);
        let out = inlier_ids_spec(s, pose, k, lat0, lon0);
        assert forall|t: int| 0 <= t < out_pre.len() implies ids_of(s).contains(
            #[trigger] out_pre[t],
        ) by {
            assert(ids_of(pre).contains(out_pre[t]));
            let w = choose|w: int| 0 <= w < ids_of(pre).len() && ids_of(pre)[w] == out_pre[t];
            assert(ids_of(s)[w] == out_pre[t]);
        }
        if is_inlier(s.last(), pose, k, lat0, lon0) {
            let a = s.last().id@;
            assert(ids_of(s)[s.len() - 1] == a);
            assert forall|t: int| 0 <= t < out_pre.len() implies out_pre[t] != a by {
                assert(ids_of(pre).contains(out_pre[t]));
                let w = choose|w: int| 0 <= w < ids_of(pre).len() && ids_of(pre)[w] == out_pre[t];
                assert(ids_of(s)[w] == out_pre[t]);
                assert(ids_of(s)[w] != ids_of(s)[s.len() - 1]);
            }
            assert(out == out_pre.push(a));
            assert(ids_of(s).contains(a));
            assert forall|i: int, j: int| 0 <= i < j < out.len() implies out[i] != out[j] by {
                if j < out.len() - 1 {
                    assert(out[i] == out_pre[i] && out[j] == out_pre[j]);
                } else {
                    assert(out[i] == out_pre[i] && out[j] == a);
                }
            }
        }
    }
}

/// Reprojection reproduces the solve's diagnostics: for any boundary pose
/// and intrinsics, the residual reported for a correspondence is exactly the
/// pixel distance between its observation and the reprojection of its world
/// point, and exactly the maximal residual when that point is unprojectable.
/// Since `solve` reports residuals against its returned pose and
/// `reproject_points` projects through the same specification, projecting a
/// solve's world points reproduces its observations up to those residuals.
pub proof fn lemma_residual_is_reprojection_gap(
    pose: Pose,
    k: CameraIntrinsics,
    lat0: int,
    lon0: int,
    c: Correspondence,
)
    ensures
        match project_px_spec(pose, k, lat0, lon0, wpt(c)) {
            Some(uv) => residual_px_spec(pose, k, lat0, lon0, c) == pixel_gap(
                c.pixel_x as int,
                c.pixel_y as int,
                uv,
            ),
            None => residual_px_spec(pose, k, lat0, lon0, c) == RES_MAX as int,
        },
{
    reveal(crate::project::project_px_spec);
    reveal(crate::project::residual_px_spec);
}

} // verus!
