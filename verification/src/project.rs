//! Pinhole forward projection with an exact fixed-point specification.
//!
//! `project_px` maps a world point through a boundary pose (geodetic position
//! plus yaw/pitch/roll) and intrinsics to a pixel, returning `None` for a
//! point at or behind the camera plane or one whose computation leaves the
//! representable range.  `residual_px` is the reprojection error magnitude of
//! one correspondence under the same parameters; an unprojectable point gets
//! the maximal residual `RES_MAX`.
//!
//! Conventions: the world frame is east/north/up metres about the anchor; at
//! zero yaw/pitch/roll the camera looks north with +x east and +y down; yaw
//! turns the heading from north towards east, pitch tilts the optical axis
//! up, roll turns the image clockwise about the axis.

use vstd::prelude::*;
use crate::fx::fx_sub_spec;
use crate::fx::fx_wf;
use crate::ops::oadd;
use crate::ops::oadd_spec;
use crate::ops::odiv;
use crate::ops::odiv_spec;
use crate::ops::omul;
use crate::ops::omul_spec;
use crate::ops::osqrt;
use crate::ops::osqrt_spec;
use crate::ops::osub;
use crate::ops::osub_spec;
use crate::ops::ov;
use crate::ops::owf;
use crate::trig::cos_deg;
use crate::trig::cos_fx;
use crate::trig::oneg;
use crate::trig::oneg_spec;
use crate::trig::sin_deg;
use crate::trig::sin_fx;
use crate::types::CameraIntrinsics;
use crate::types::Correspondence;
use crate::types::Pixel;
use crate::types::Point3;
use crate::types::Pose;
use crate::types::intr_wf;
use crate::types::point_wf;
use crate::types::pose_wf;

verus! {

/// Metres per degree of latitude (and of longitude at the equator).
pub const M_PER_DEG: i128 = 478115759390720;

/// Residual magnitude assigned to an unprojectable correspondence.
pub const RES_MAX: i128 = 4611686018427387904;

/// A camera-to-world rotation matrix in fixed point, by rows.
#[derive(Clone, Copy, Debug, PartialEq, Eq, Structural)]
pub struct Rot3 {
    pub r00: i128,
    pub r01: i128,
    pub r02: i128,
    pub r10: i128,
    pub r11: i128,
    pub r12: i128,
    pub r20: i128,
    pub r21: i128,
    pub r22: i128,
}

/// Well-formedness of a rotation's entries.
pub open spec fn rot_wf(r: Rot3) -> bool {
    fx_wf(r.r00 as int) && fx_wf(r.r01 as int) && fx_wf(r.r02 as int) && fx_wf(r.r10 as int)
        && fx_wf(r.r11 as int) && fx_wf(r.r12 as int) && fx_wf(r.r20 as int) && fx_wf(
        r.r21 as int,
    ) && fx_wf(r.r22 as int)
}

/// Mathematical view of a rotation, by rows.
pub open spec fn rot_v(r: Rot3) -> ((int, int, int), (int, int, int), (int, int, int)) {
    (
        (r.r00 as int, r.r01 as int, r.r02 as int),
        (r.r10 as int, r.r11 as int, r.r12 as int),
        (r.r20 as int, r.r21 as int, r.r22 as int),
    )
}

/// Mathematical view of an optional point.
pub open spec fn ovp(p: Option<Point3>) -> Option<(int, int, int)> {
    match p {
        Some(q) => Some((q.x as int, q.y as int, q.z as int)),
        None => None,
    }
}

/// Mathematical view of an optional pixel.
pub open spec fn ovpx(p: Option<Pixel>) -> Option<(int, int)> {
    match p {
        Some(q) => Some((q.x as int, q.y as int)),
        None => None,
    }
}

/// East/north/up coordinates of a geodetic position relative to the anchor:
/// an equirectangular local model, metres per degree scaled by the cosine of
/// the anchor latitude for east.
pub open spec fn enu_spec(lat: int, lon: int, alt: int, lat0: int, lon0: int) -> Option<
    (int, int, int),
> {
    let north = omul_spec(fx_sub_spec(lat, lat0), Some(M_PER_DEG as int));
    let east = omul_spec(omul_spec(fx_sub_spec(lon, lon0), Some(M_PER_DEG as int)), cos_fx(lat0));
    if east is Some && north is Some {
        Some((east->0, north->0, alt))
    } else {
        None
    }
}

/// The camera-to-world rotation of a yaw/pitch/roll triple, by rows;
/// `None` when a checked step leaves the representable range.
pub open spec fn rot_cw_spec(yaw: int, pitch: int, roll: int) -> Option<
    ((int, int, int), (int, int, int), (int, int, int)),
> {
    let s1 = sin_fx(yaw);
    let c1 = cos_fx(yaw);
    let s2 = sin_fx(pitch);
    let c2 = cos_fx(pitch);
    let s3 = sin_fx(roll);
    let c3 = cos_fx(roll);
    let m00 = oadd_spec(omul_spec(c1, c3), omul_spec(s1, omul_spec(s2, s3)));
    let m01 = omul_spec(s1, c2);
    let m02 = osub_spec(omul_spec(c1, s3), omul_spec(s1, omul_spec(s2, c3)));
    let m10 = osub_spec(omul_spec(c1, omul_spec(s2, s3)), omul_spec(s1, c3));
    let m11 = omul_spec(c1, c2);
    let m12 = osub_spec(oneg_spec(omul_spec(s1, s3)), omul_spec(c1, omul_spec(s2, c3)));
    let m20 = oneg_spec(omul_spec(c2, s3));
    let m21 = s2;
    let m22 = omul_spec(c2, c3);
    let r00 = m00;
    let r01 = oneg_spec(m02);
    let r02 = m01;
    let r10 = m10;
    let r11 = oneg_spec(m12);
    let r12 = m11;
    let r20 = m20;
    let r21 = oneg_spec(m22);
    let r22 = m21;
    if r00 is Some && r01 is Some && r02 is Some && r10 is Some && r11 is Some && r12 is Some
        && r20 is Some && r21 is Some && r22 is Some {
        Some(((r00->0, r01->0, r02->0), (r10->0, r11->0, r12->0), (r20->0, r21->0, r22->0)))
    } else {
        None
    }
}

/// Pixel of a world point under a boundary pose and intrinsics: rotate the
/// anchor-relative offset into the camera frame (the world-to-camera rotation
/// is the transpose, so camera axis `i` is column `i` of the camera-to-world
/// matrix), reject non-positive depth, divide and apply focal and principal
/// point.
#[verifier::opaque]
pub open spec fn project_px_spec(
    pose: Pose,
    k: CameraIntrinsics,
    lat0: int,
    lon0: int,
    w: (int, int, int),
) -> Option<(int, int)> {
    let cam = enu_spec(pose.lat as int, pose.lon as int, pose.alt as int, lat0, lon0);
    let rot = rot_cw_spec(pose.yaw_deg as int, pose.pitch_deg as int, pose.roll_deg as int);
    if cam is Some && rot is Some {
        let c = cam->0;
        let r = rot->0;
        let dx = fx_sub_spec(w.0, c.0);
        let dy = fx_sub_spec(w.1, c.1);
        let dz = fx_sub_spec(w.2, c.2);
        let camx = oadd_spec(
            oadd_spec(omul_spec(Some(r.0.0), dx), omul_spec(Some(r.1.0), dy)),
            omul_spec(Some(r.2.0), dz),
        );
        let camy = oadd_spec(
            oadd_spec(omul_spec(Some(r.0.1), dx), omul_spec(Some(r.1.1), dy)),
            omul_spec(Some(r.2.1), dz),
        );
        let camz = oadd_spec(
            oadd_spec(omul_spec(Some(r.0.2), dx), omul_spec(Some(r.1.2), dy)),
            omul_spec(Some(r.2.2), dz),
        );
        if camz is Some && camz->0 > 0 {
            let u = oadd_spec(omul_spec(Some(k.focal_px as int), odiv_spec(camx, camz)), Some(k.cx as int));
            let v = oadd_spec(omul_spec(Some(k.focal_px as int), odiv_spec(camy, camz)), Some(k.cy as int));
            if u is Some && v is Some {
                Some((u->0, v->0))
            } else {
                None
            }
        } else {
            None
        }
    } else {
        None
    }
}

/// Reprojection error magnitude of one correspondence under a boundary pose:
/// the Euclidean pixel distance between the observed and projected pixel, or
/// `RES_MAX` when the point is unprojectable or the distance leaves the
/// representable range.
#[verifier::opaque]
pub open spec fn residual_px_spec(
    pose: Pose,
    k: CameraIntrinsics,
    lat0: int,
    lon0: int,
    c: Correspondence,
) -> int {
    let p = project_px_spec(
        pose,
        k,
        lat0,
        lon0,
        (c.world_x as int, c.world_y as int, c.world_z as int),
    );
    match p {
        Some(uv) => {
            let du = fx_sub_spec(c.pixel_x as int, uv.0);
            let dv = fx_sub_spec(c.pixel_y as int, uv.1);
            let d2 = oadd_spec(omul_spec(du, du), omul_spec(dv, dv));
            match osqrt_spec(d2) {
                Some(d) => d,
                None => RES_MAX as int,
            }
        },
        None => RES_MAX as int,
    }
}

/// East/north/up coordinates of a geodetic position relative to the anchor.
pub fn enu_from_geodetic(lat: i128, lon: i128, alt: i128, lat0: i128, lon0: i128) -> (r: Option<
    Point3,
>)
    requires
        fx_wf(lat as int),
        fx_wf(lon as int),
        fx_wf(alt as int),
        fx_wf(lat0 as int),
        fx_wf(lon0 as int),
    ensures
        ovp(r) == enu_spec(lat as int, lon as int, alt as int, lat0 as int, lon0 as int),
        r matches Some(p) ==> point_wf(p),
{
    let north = omul(fx_sub_exec(lat, lat0), Some(M_PER_DEG));
    let east = omul(omul(fx_sub_exec(lon, lon0), Some(M_PER_DEG)), cos_deg(lat0));
    match (east, north) {
        (Some(e), Some(n)) => Some(Point3 { x: e, y: n, z: alt }),
        _ => None,
    }
}

/// Checked subtraction of two raw fixed-point values.
fn fx_sub_exec(a: i128, b: i128) -> (r: Option<i128>)
    requires
        fx_wf(a as int),
        fx_wf(b as int),
    ensures
        ov(r) == fx_sub_spec(a as int, b as int),
        owf(r),
{
    crate::fx::fx_sub(a, b)
}

/// The camera-to-world rotation of a yaw/pitch/roll triple.
pub fn rot_cw_from_euler(yaw: i128, pitch: i128, roll: i128) -> (r: Option<Rot3>)
    requires
        fx_wf(yaw as int),
        fx_wf(pitch as int),
        fx_wf(roll as int),
    ensures
        (match r {
            Some(m) => Some(rot_v(m)),
            None => None,
        }) == rot_cw_spec(yaw as int, pitch as int, roll as int),
        r matches Some(m) ==> rot_wf(m),
{
    let s1 = sin_deg(yaw);
    let c1 = cos_deg(yaw);
    let s2 = sin_deg(pitch);
    let c2 = cos_deg(pitch);
    let s3 = sin_deg(roll);
    let c3 = cos_deg(roll);
    let m00 = oadd(omul(c1, c3), omul(s1, omul(s2, s3)));
    let m01 = omul(s1, c2);
    let m02 = osub(omul(c1, s3), omul(s1, omul(s2, c3)));
    let m10 = osub(omul(c1, omul(s2, s3)), omul(s1, c3));
    let m11 = omul(c1, c2);
    let m12 = osub(oneg(omul(s1, s3)), omul(c1, omul(s2, c3)));
    let m20 = oneg(omul(c2, s3));
    let m21 = s2;
    let m22 = omul(c2, c3);
    let r00 = m00;
    let r01 = oneg(m02);
    let r02 = m01;
    let r10 = m10;
    let r11 = oneg(m12);
    let r12 = m11;
    let r20 = m20;
    let r21 = oneg(m22);
    let r22 = m21;
    match (r00, r01, r02) {
        (Some(a), Some(b), Some(c)) => match (r10, r11, r12) {
            (Some(d), Some(e), Some(f)) => match (r20, r21, r22) {
                (Some(g), Some(h), Some(i)) => Some(
                    Rot3 {
                        r00: a,
                        r01: b,
                        r02: c,
                        r10: d,
                        r11: e,
                        r12: f,
                        r20: g,
                        r21: h,
                        r22: i,
                    },
                ),
                _ => None,
            },
            _ => None,
        },
        _ => None,
    }
}

/// Pixel of a world point under a boundary pose and intrinsics.
pub fn project_px(pose: &Pose, k: &CameraIntrinsics, lat0: i128, lon0: i128, w: &Point3) -> (r:
    Option<Pixel>)
    requires
        pose_wf(*pose),
        intr_wf(*k),
        fx_wf(lat0 as int),
        fx_wf(lon0 as int),
        point_wf(*w),
    ensures
        ovpx(r) == project_px_spec(
            *pose,
            *k,
            lat0 as int,
            lon0 as int,
            (w.x as int, w.y as int, w.z as int),
        ),
        r matches Some(p) ==> fx_wf(p.x as int) && fx_wf(p.y as int),
{
    proof {
        reveal(project_px_spec);
    }
    let cam = enu_from_geodetic(pose.lat, pose.lon, pose.alt, lat0, lon0);
    let rot = rot_cw_from_euler(pose.yaw_deg, pose.pitch_deg, pose.roll_deg);
    match (cam, rot) {
        (Some(c), Some(m)) => {
            let dx = fx_sub_exec(w.x, c.x);
            let dy = fx_sub_exec(w.y, c.y);
            let dz = fx_sub_exec(w.z, c.z);
            let camx = oadd(oadd(omul(Some(m.r00), dx), omul(Some(m.r10), dy)), omul(Some(m.r20), dz));
            let camy = oadd(oadd(omul(Some(m.r01), dx), omul(Some(m.r11), dy)), omul(Some(m.r21), dz));
            let camz = oadd(oadd(omul(Some(m.r02), dx), omul(Some(m.r12), dy)), omul(Some(m.r22), dz));
            match camz {
                Some(z) => {
                    if z > 0 {
                        let u = oadd(omul(Some(k.focal_px), odiv(camx, Some(z))), Some(k.cx));
                        let v = oadd(omul(Some(k.focal_px), odiv(camy, Some(z))), Some(k.cy));
                        match (u, v) {
                            (Some(uu), Some(vv)) => Some(Pixel { x: uu, y: vv }),
                            _ => None,
                        }
                    } else {
                        None
                    }
                },
                None => None,
            }
        },
        _ => None,
    }
}

/// Reprojection error magnitude of one correspondence under a boundary pose.
pub fn residual_px(pose: &Pose, k: &CameraIntrinsics, lat0: i128, lon0: i128, c: &Correspondence)
    -> (r: i128)
    requires
        pose_wf(*pose),
        intr_wf(*k),
        fx_wf(lat0 as int),
        fx_wf(lon0 as int),
        crate::types::corr_wf(*c),
    ensures
        r as int == residual_px_spec(*pose, *k, lat0 as int, lon0 as int, *c),
        0 <= r <= RES_MAX,
{
    proof {
        reveal(residual_px_spec);
    }
    let w = Point3 { x: c.world_x, y: c.world_y, z: c.world_z };
    let p = project_px(pose, k, lat0, lon0, &w);
    match p {
        Some(px) => {
            let du = fx_sub_exec(c.pixel_x, px.x);
            let dv = fx_sub_exec(c.pixel_y, px.y);
            let d2 = oadd(omul(du, du), omul(dv, dv));
            match osqrt(d2) {
                Some(d) => d,
                None => RES_MAX,
            }
        },
        None => RES_MAX,
    }
}

} // verus!
