//! Estimation internals: minimal-set pose estimation, robust consensus
//! search, nonlinear refinement and covariance computation.
//!
//! The solver works on a `CamState`: camera position in the local frame, the
//! world-to-camera rotation held as a matrix (orientation is converted to
//! Euler angles only at the output boundary), and intrinsics.  Every numeric
//! step is checked fixed-point arithmetic; a step that leaves the
//! representable range makes the surrounding stage fail softly (a skipped
//! sample, a rejected iteration) rather than abort the solve.

use vstd::prelude::*;
use crate::fx::FX_ONE;
use crate::fx::fx_abs;
use crate::fx::fx_add;
use crate::fx::fx_div;
use crate::fx::fx_mul;
use crate::fx::fx_sub;
use crate::fx::fx_wf;
use crate::ops::oadd;
use crate::ops::odiv;
use crate::ops::omul;
use crate::ops::osqrt;
use crate::ops::osub;
use crate::ops::owf;
use crate::project::RES_MAX;
use crate::project::Rot3;
use crate::project::rot_wf;
use crate::trig::cos_deg;
use crate::trig::sin_deg;
use crate::types::Correspondence;
use crate::types::Pixel;
use crate::types::Point3;
use crate::types::corr_wf;
use crate::types::point_wf;

verus! {

/// Inlier decision threshold: three pixels of reprojection error.
pub const INLIER_THRESH_PX: i128 = 12884901888;

/// Minimal correspondence count of the direct linear method (six points give
/// twelve equations for the eleven projection unknowns).
pub const MIN_CORRESPONDENCES: usize = 6;

/// Per-call correspondence budget.
pub const MAX_CORRESPONDENCES: usize = 65536;

/// Consensus search sample budget.
pub const MAX_SAMPLES: usize = 40;

/// Refiner iteration cap.
pub const MAX_REFINE_ITERS: usize = 60;

/// Well-formedness of every entry of a value sequence.
pub open spec fn vals_wf(s: Seq<i128>) -> bool {
    forall|i: int| 0 <= i < s.len() ==> fx_wf(#[trigger] s[i] as int)
}

/// Solver state: position in the local east/north/up frame, the
/// world-to-camera rotation by rows, and intrinsics.
#[derive(Clone, Copy)]
pub struct CamState {
    pub rot: Rot3,
    pub pos: Point3,
    pub f: i128,
    pub cx: i128,
    pub cy: i128,
}

/// Well-formedness of a solver state.
pub open spec fn state_wf(s: CamState) -> bool {
    rot_wf(s.rot) && point_wf(s.pos) && fx_wf(s.f as int) && fx_wf(s.cx as int) && fx_wf(
        s.cy as int,
    ) && s.f > 0
}

// ---------------------------------------------------------------------------
// Small vector helpers on `Point3`.
// ---------------------------------------------------------------------------

/// A 3D point as an integer triple.
pub open spec fn p3v(p: Point3) -> (int, int, int) {
    (p.x as int, p.y as int, p.z as int)
}

/// Mathematical view of an optional point.
pub open spec fn op3v(p: Option<Point3>) -> Option<(int, int, int)> {
    match p {
        Some(q) => Some(p3v(q)),
        None => None,
    }
}

/// Exact componentwise checked difference.
pub open spec fn sub3_spec(a: (int, int, int), b: (int, int, int)) -> Option<(int, int, int)> {
    let x = crate::fx::fx_sub_spec(a.0, b.0);
    let y = crate::fx::fx_sub_spec(a.1, b.1);
    let z = crate::fx::fx_sub_spec(a.2, b.2);
    if x is Some && y is Some && z is Some {
        Some((x->0, y->0, z->0))
    } else {
        None
    }
}

/// Exact checked dot product.
pub open spec fn dot3_spec(a: (int, int, int), b: (int, int, int)) -> Option<int> {
    crate::ops::oadd_spec(
        crate::ops::oadd_spec(
            crate::fx::fx_mul_spec(a.0, b.0),
            crate::fx::fx_mul_spec(a.1, b.1),
        ),
        crate::fx::fx_mul_spec(a.2, b.2),
    )
}

fn sub3(a: &Point3, b: &Point3) -> (r: Option<Point3>)
    requires
        point_wf(*a),
        point_wf(*b),
    ensures
        r matches Some(p) ==> point_wf(p),
        op3v(r) == sub3_spec(p3v(*a), p3v(*b)),
{
    let x = fx_sub(a.x, b.x);
    let y = fx_sub(a.y, b.y);
    let z = fx_sub(a.z, b.z);
    match (x, y, z) {
        (Some(xx), Some(yy), Some(zz)) => Some(Point3 { x: xx, y: yy, z: zz }),
        _ => None,
    }
}

fn add3(a: &Point3, b: &Point3) -> (r: Option<Point3>)
    requires
        point_wf(*a),
        point_wf(*b),
    ensures
        r matches Some(p) ==> point_wf(p),
{
    let x = fx_add(a.x, b.x);
    let y = fx_add(a.y, b.y);
    let z = fx_add(a.z, b.z);
    match (x, y, z) {
        (Some(xx), Some(yy), Some(zz)) => Some(Point3 { x: xx, y: yy, z: zz }),
        _ => None,
    }
}

fn dot3(a: &Point3, b: &Point3) -> (r: Option<i128>)
    requires
        point_wf(*a),
        point_wf(*b),
    ensures
        owf(r),
        crate::ops::ov(r) == dot3_spec(p3v(*a), p3v(*b)),
{
    oadd(oadd(fx_mul(a.x, b.x), fx_mul(a.y, b.y)), fx_mul(a.z, b.z))
}

fn cross3(a: &Point3, b: &Point3) -> (r: Option<Point3>)
    requires
        point_wf(*a),
        point_wf(*b),
    ensures
        r matches Some(p) ==> point_wf(p),
{
    let x = osub(fx_mul(a.y, b.z), fx_mul(a.z, b.y));
    let y = osub(fx_mul(a.z, b.x), fx_mul(a.x, b.z));
    let z = osub(fx_mul(a.x, b.y), fx_mul(a.y, b.x));
    match (x, y, z) {
        (Some(xx), Some(yy), Some(zz)) => Some(Point3 { x: xx, y: yy, z: zz }),
        _ => None,
    }
}

fn scale3(a: &Point3, s: i128) -> (r: Option<Point3>)
    requires
        point_wf(*a),
        fx_wf(s as int),
    ensures
        r matches Some(p) ==> point_wf(p),
{
    let x = fx_mul(a.x, s);
    let y = fx_mul(a.y, s);
    let z = fx_mul(a.z, s);
    match (x, y, z) {
        (Some(xx), Some(yy), Some(zz)) => Some(Point3 { x: xx, y: yy, z: zz }),
        _ => None,
    }
}

fn norm3(a: &Point3) -> (r: Option<i128>)
    requires
        point_wf(*a),
    ensures
        owf(r),
        r matches Some(v) ==> v >= 0,
{
    osqrt(dot3(a, a))
}

// ---------------------------------------------------------------------------
// Rotation helpers.
// ---------------------------------------------------------------------------

fn identity3() -> (r: Rot3)
    ensures
        rot_wf(r),
{
    Rot3 {
        r00: FX_ONE,
        r01: 0,
        r02: 0,
        r10: 0,
        r11: FX_ONE,
        r12: 0,
        r20: 0,
        r21: 0,
        r22: FX_ONE,
    }
}

/// Row `i` of a rotation as a point.
fn rot_row(m: &Rot3, i: usize) -> (r: Point3)
    requires
        rot_wf(*m),
        i < 3,
    ensures
        point_wf(r),
        i == 0 ==> p3v(r) == (m.r00 as int, m.r01 as int, m.r02 as int),
        i == 1 ==> p3v(r) == (m.r10 as int, m.r11 as int, m.r12 as int),
        i == 2 ==> p3v(r) == (m.r20 as int, m.r21 as int, m.r22 as int),
{
    if i == 0 {
        Point3 { x: m.r00, y: m.r01, z: m.r02 }
    } else if i == 1 {
        Point3 { x: m.r10, y: m.r11, z: m.r12 }
    } else {
        Point3 { x: m.r20, y: m.r21, z: m.r22 }
    }
}

fn rot_from_rows(a: &Point3, b: &Point3, c: &Point3) -> (r: Rot3)
    requires
        point_wf(*a),
        point_wf(*b),
        point_wf(*c),
    ensures
        rot_wf(r),
{
    Rot3 {
        r00: a.x,
        r01: a.y,
        r02: a.z,
        r10: b.x,
        r11: b.y,
        r12: b.z,
        r20: c.x,
        r21: c.y,
        r22: c.z,
    }
}

/// Matrix product of two rotations.
fn mat_mul3(a: &Rot3, b: &Rot3) -> (r: Option<Rot3>)
    requires
        rot_wf(*a),
        rot_wf(*b),
    ensures
        r matches Some(m) ==> rot_wf(m),
{
    let bt0 = Point3 { x: b.r00, y: b.r10, z: b.r20 };
    let bt1 = Point3 { x: b.r01, y: b.r11, z: b.r21 };
    let bt2 = Point3 { x: b.r02, y: b.r12, z: b.r22 };
    let a0 = rot_row(a, 0);
    let a1 = rot_row(a, 1);
    let a2 = rot_row(a, 2);
    let e00 = dot3(&a0, &bt0);
    let e01 = dot3(&a0, &bt1);
    let e02 = dot3(&a0, &bt2);
    let e10 = dot3(&a1, &bt0);
    let e11 = dot3(&a1, &bt1);
    let e12 = dot3(&a1, &bt2);
    let e20 = dot3(&a2, &bt0);
    let e21 = dot3(&a2, &bt1);
    let e22 = dot3(&a2, &bt2);
    match (e00, e01, e02) {
        (Some(a_), Some(b_), Some(c_)) => match (e10, e11, e12) {
            (Some(d_), Some(e_), Some(f_)) => match (e20, e21, e22) {
                (Some(g_), Some(h_), Some(i_)) => Some(
                    Rot3 {
                        r00: a_,
                        r01: b_,
                        r02: c_,
                        r10: d_,
                        r11: e_,
                        r12: f_,
                        r20: g_,
                        r21: h_,
                        r22: i_,
                    },
                ),
                _ => None,
            },
            _ => None,
        },
        _ => None,
    }
}

/// Orthonormalize the rows of a near-rotation by Gram-Schmidt, keeping a
/// right-handed frame (second row is the cross product of the third and
/// first).
fn gram_schmidt(m: &Rot3) -> (r: Option<Rot3>)
    requires
        rot_wf(*m),
    ensures
        r matches Some(g) ==> rot_wf(g),
{
    let row2 = rot_row(m, 2);
    let n2 = norm3(&row2);
    let e2 = match n2 {
        Some(n) => {
            if n == 0 {
                return None;
            }
            let inv = match fx_div(FX_ONE, n) {
                Some(v) => v,
                None => {
                    return None;
                },
            };
            match scale3(&row2, inv) {
                Some(p) => p,
                None => {
                    return None;
                },
            }
        },
        None => {
            return None;
        },
    };
    let row0 = rot_row(m, 0);
    let d = match dot3(&row0, &e2) {
        Some(v) => v,
        None => {
            return None;
        },
    };
    let proj = match scale3(&e2, d) {
        Some(p) => p,
        None => {
            return None;
        },
    };
    let raw0 = match sub3(&row0, &proj) {
        Some(p) => p,
        None => {
            return None;
        },
    };
    let n0 = match norm3(&raw0) {
        Some(v) => v,
        None => {
            return None;
        },
    };
    if n0 == 0 {
        return None;
    }
    let inv0 = match fx_div(FX_ONE, n0) {
        Some(v) => v,
        None => {
            return None;
        },
    };
    let e0 = match scale3(&raw0, inv0) {
        Some(p) => p,
        None => {
            return None;
        },
    };
    let e1 = match cross3(&e2, &e0) {
        Some(p) => p,
        None => {
            return None;
        },
    };
    Some(rot_from_rows(&e0, &e1, &e2))
}

/// Rotation matrix of a small axis-angle vector (Rodrigues form), used by the
/// refiner's local orientation updates.
fn rodrigues(w: &Point3) -> (r: Option<Rot3>)
    requires
        point_wf(*w),
    ensures
        r matches Some(m) ==> rot_wf(m),
{
    let alpha = match norm3(w) {
        Some(v) => v,
        None => {
            return None;
        },
    };
    if alpha == 0 {
        return Some(identity3());
    }
    let inv = match fx_div(FX_ONE, alpha) {
        Some(v) => v,
        None => {
            return None;
        },
    };
    let k = match scale3(w, inv) {
        Some(p) => p,
        None => {
            return None;
        },
    };
    // The angle is in radians; the trigonometry works in degrees.
    let deg = match fx_div(alpha, crate::trig::RAD_PER_DEG) {
        Some(v) => v,
        None => {
            return None;
        },
    };
    let sa = match sin_deg(deg) {
        Some(v) => v,
        None => {
            return None;
        },
    };
    let ca = match cos_deg(deg) {
        Some(v) => v,
        None => {
            return None;
        },
    };
    let omc = match fx_sub(FX_ONE, ca) {
        Some(v) => v,
        None => {
            return None;
        },
    };
    // R = I + sin(a) K + (1 - cos(a)) K^2 with K the unit skew matrix.
    let kx = k.x;
    let ky = k.y;
    let kz = k.z;
    let sk = Rot3 {
        r00: 0,
        r01: -kz,
        r02: ky,
        r10: kz,
        r11: 0,
        r12: -kx,
        r20: -ky,
        r21: kx,
        r22: 0,
    };
    let sk2 = match mat_mul3(&sk, &sk) {
        Some(m) => m,
        None => {
            return None;
        },
    };
    let mut out = identity3();
    let t00 = oadd(
        oadd(Some(out.r00), fx_mul(sa, sk.r00)),
        fx_mul(omc, sk2.r00),
    );
    let t01 = oadd(oadd(Some(out.r01), fx_mul(sa, sk.r01)), fx_mul(omc, sk2.r01));
    let t02 = oadd(oadd(Some(out.r02), fx_mul(sa, sk.r02)), fx_mul(omc, sk2.r02));
    let t10 = oadd(oadd(Some(out.r10), fx_mul(sa, sk.r10)), fx_mul(omc, sk2.r10));
    let t11 = oadd(oadd(Some(out.r11), fx_mul(sa, sk.r11)), fx_mul(omc, sk2.r11));
    let t12 = oadd(oadd(Some(out.r12), fx_mul(sa, sk.r12)), fx_mul(omc, sk2.r12));
    let t20 = oadd(oadd(Some(out.r20), fx_mul(sa, sk.r20)), fx_mul(omc, sk2.r20));
    let t21 = oadd(oadd(Some(out.r21), fx_mul(sa, sk.r21)), fx_mul(omc, sk2.r21));
    let t22 = oadd(oadd(Some(out.r22), fx_mul(sa, sk.r22)), fx_mul(omc, sk2.r22));
    match (t00, t01, t02) {
        (Some(a_), Some(b_), Some(c_)) => match (t10, t11, t12) {
            (Some(d_), Some(e_), Some(f_)) => match (t20, t21, t22) {
                (Some(g_), Some(h_), Some(i_)) => {
                    out = Rot3 {
                        r00: a_,
                        r01: b_,
                        r02: c_,
                        r10: d_,
                        r11: e_,
                        r12: f_,
                        r20: g_,
                        r21: h_,
                        r22: i_,
                    };
                    Some(out)
                },
                _ => None,
            },
            _ => None,
        },
        _ => None,
    }
}

// ---------------------------------------------------------------------------
// Projection through a solver state.
// ---------------------------------------------------------------------------

/// Pixel of a world point under a solver state: rotate the offset from the
/// camera into the camera frame with the stored world-to-camera rows, reject
/// non-positive depth, divide and apply the intrinsics.
#[verifier::opaque]
pub open spec fn project_state_spec(st: CamState, w: (int, int, int)) -> Option<(int, int)> {
    let d = sub3_spec(w, p3v(st.pos));
    match d {
        Some(dv) => {
            let camx = dot3_spec(
                (st.rot.r00 as int, st.rot.r01 as int, st.rot.r02 as int),
                dv,
            );
            let camy = dot3_spec(
                (st.rot.r10 as int, st.rot.r11 as int, st.rot.r12 as int),
                dv,
            );
            let camz = dot3_spec(
                (st.rot.r20 as int, st.rot.r21 as int, st.rot.r22 as int),
                dv,
            );
            match camz {
                Some(z) => if z > 0 {
                    let u = crate::ops::oadd_spec(
                        crate::ops::omul_spec(Some(st.f as int), crate::ops::odiv_spec(camx, Some(z))),
                        Some(st.cx as int),
                    );
                    let v = crate::ops::oadd_spec(
                        crate::ops::omul_spec(Some(st.f as int), crate::ops::odiv_spec(camy, Some(z))),
                        Some(st.cy as int),
                    );
                    if u is Some && v is Some {
                        Some((u->0, v->0))
                    } else {
                        None
                    }
                } else {
                    None
                },
                None => None,
            }
        },
        None => None,
    }
}

/// Reprojection error magnitude of one correspondence under a solver state:
/// the pixel distance between observation and projection, or `RES_MAX` when
/// the point is unprojectable or the distance leaves range.
#[verifier::opaque]
pub open spec fn state_residual_spec(st: CamState, c: Correspondence) -> int {
    let p = project_state_spec(st, (c.world_x as int, c.world_y as int, c.world_z as int));
    match p {
        Some(uv) => {
            let du = crate::fx::fx_sub_spec(c.pixel_x as int, uv.0);
            let dv = crate::fx::fx_sub_spec(c.pixel_y as int, uv.1);
            match crate::ops::osqrt_spec(
                crate::ops::oadd_spec(
                    crate::ops::omul_spec(du, du),
                    crate::ops::omul_spec(dv, dv),
                ),
            ) {
                Some(d) => if d > RES_MAX as int {
                    RES_MAX as int
                } else {
                    d
                },
                None => RES_MAX as int,
            }
        },
        None => RES_MAX as int,
    }
}

/// Pixel of a world point under a solver state; `None` for non-positive
/// depth or an out-of-range step.
pub fn project_state(st: &CamState, w: &Point3) -> (r: Option<Pixel>)
    requires
        state_wf(*st),
        point_wf(*w),
    ensures
        r matches Some(p) ==> fx_wf(p.x as int) && fx_wf(p.y as int),
        crate::project::ovpx(r) == project_state_spec(*st, p3v(*w)),
{
    proof {
        reveal(project_state_spec);
    }
    let d = match sub3(w, &st.pos) {
        Some(p) => p,
        None => {
            return None;
        },
    };
    let r0 = rot_row(&st.rot, 0);
    let r1 = rot_row(&st.rot, 1);
    let r2 = rot_row(&st.rot, 2);
    let camx = dot3(&r0, &d);
    let camy = dot3(&r1, &d);
    let camz = dot3(&r2, &d);
    match camz {
        Some(z) => {
            if z > 0 {
                let u = oadd(omul(Some(st.f), odiv(camx, Some(z))), Some(st.cx));
                let v = oadd(omul(Some(st.f), odiv(camy, Some(z))), Some(st.cy));
                match (u, v) {
                    (Some(uu), Some(vv)) => Some(Pixel { x: uu, y: vv }),
                    _ => None,
                }
            } else {
                None
            }
        },
        None => None,
    }
}

/// Reprojection error magnitude of one correspondence under a solver state;
/// `RES_MAX` when unprojectable.
pub fn residual_state(st: &CamState, c: &Correspondence) -> (r: i128)
    requires
        state_wf(*st),
        corr_wf(*c),
    ensures
        0 <= r <= RES_MAX,
        fx_wf(r as int),
        r as int == state_residual_spec(*st, *c),
{
    proof {
        reveal(state_residual_spec);
    }
    let w = Point3 { x: c.world_x, y: c.world_y, z: c.world_z };
    match project_state(st, &w) {
        Some(px) => {
            let du = fx_sub(c.pixel_x, px.x);
            let dv = fx_sub(c.pixel_y, px.y);
            match osqrt(oadd(omul(du, du), omul(dv, dv))) {
                Some(d) => {
                    if d > RES_MAX {
                        RES_MAX
                    } else {
                        d
                    }
                },
                None => RES_MAX,
            }
        },
        None => RES_MAX,
    }
}


// ---------------------------------------------------------------------------
// Flat matrices and a checked Gaussian-elimination solver.
// ---------------------------------------------------------------------------

/// Flat row-major index of an `n x n` matrix entry.
fn midx(r: usize, c: usize, n: usize) -> (k: usize)
    requires
        r < n,
        c < n,
        n <= 16,
    ensures
        k == r * n + c,
        k < n * n,
{
    proof {
        assert(r * n + c < n * n && r * n + c < 256) by (nonlinear_arith)
            requires
                r < n,
                c < n,
                n <= 16,
        ;
    }
    r * n + c
}

fn mget(m: &Vec<i128>, r: usize, c: usize, n: usize) -> (v: i128)
    requires
        m@.len() == n * n,
        vals_wf(m@),
        r < n,
        c < n,
        n <= 16,
    ensures
        fx_wf(v as int),
        v == m@[(r * n + c) as int],
{
    let k = midx(r, c, n);
    m[k]
}

fn mset(m: &mut Vec<i128>, r: usize, c: usize, n: usize, v: i128)
    requires
        old(m)@.len() == n * n,
        vals_wf(old(m)@),
        r < n,
        c < n,
        n <= 16,
        fx_wf(v as int),
    ensures
        final(m)@.len() == n * n,
        vals_wf(final(m)@),
        final(m)@ == old(m)@.update((r * n + c) as int, v),
{
    let k = midx(r, c, n);
    m[k] = v;
    proof {
        assert forall|i: int| 0 <= i < m@.len() implies fx_wf(#[trigger] m@[i] as int) by {
            if i != k as int {
                assert(m@[i] == old(m)@[i]);
            }
        }
    }
}

fn vget(v: &Vec<i128>, i: usize) -> (r: i128)
    requires
        i < v@.len(),
        vals_wf(v@),
    ensures
        fx_wf(r as int),
        r == v@[i as int],
{
    v[i]
}

fn vset(v: &mut Vec<i128>, i: usize, val: i128)
    requires
        i < old(v)@.len(),
        vals_wf(old(v)@),
        fx_wf(val as int),
    ensures
        final(v)@.len() == old(v)@.len(),
        vals_wf(final(v)@),
        final(v)@ == old(v)@.update(i as int, val),
{
    v[i] = val;
    proof {
        assert forall|k: int| 0 <= k < v@.len() implies fx_wf(#[trigger] v@[k] as int) by {
            if k != i as int {
                assert(v@[k] == old(v)@[k]);
            }
        }
    }
}

/// A zero vector of the given length.
fn vec_zeros(n: usize) -> (r: Vec<i128>)
    ensures
        r@.len() == n,
        vals_wf(r@),
        forall|i: int| 0 <= i < n ==> r@[i] == 0,
{
    let mut v: Vec<i128> = Vec::new();
    let mut i: usize = 0;
    while i < n
        invariant
            v@.len() == i,
            i <= n,
            vals_wf(v@),
            forall|k: int| 0 <= k < i ==> v@[k] == 0,
        decreases n - i,
    {
        v.push(0);
        i = i + 1;
    }
    v
}

/// Solves `a x = b` for a square system by Gaussian elimination with partial
/// pivoting; `None` when the system is singular or a step leaves the
/// representable range.
pub fn lin_solve(a0: &Vec<i128>, b0: &Vec<i128>, n: usize) -> (r: Option<Vec<i128>>)
    requires
        1 <= n <= 16,
        a0@.len() == n * n,
        b0@.len() == n,
        vals_wf(a0@),
        vals_wf(b0@),
    ensures
        r matches Some(x) ==> x@.len() == n && vals_wf(x@),
{
    let mut m: Vec<i128> = Vec::new();
    let mut i0: usize = 0;
    while i0 < a0.len()
        invariant
            m@.len() == i0,
            i0 <= a0@.len(),
            vals_wf(a0@),
            vals_wf(m@),
        decreases a0@.len() - i0,
    {
        m.push(a0[i0]);
        i0 = i0 + 1;
    }
    let mut rhs: Vec<i128> = Vec::new();
    let mut i1: usize = 0;
    while i1 < b0.len()
        invariant
            rhs@.len() == i1,
            i1 <= b0@.len(),
            vals_wf(b0@),
            vals_wf(rhs@),
        decreases b0@.len() - i1,
    {
        rhs.push(b0[i1]);
        i1 = i1 + 1;
    }
    let mut col: usize = 0;
    while col < n
        invariant
            col <= n,
            1 <= n <= 16,
            m@.len() == n * n,
            vals_wf(m@),
            rhs@.len() == n,
            vals_wf(rhs@),
        decreases n - col,
    {
        let mut piv: usize = col;
        let mut best: i128 = fx_abs(mget(&m, col, col, n));
        let mut rr: usize = col + 1;
        while rr < n
            invariant
                col < n,
                piv < n,
                rr <= n,
                1 <= n <= 16,
                m@.len() == n * n,
                vals_wf(m@),
                fx_wf(best as int),
            decreases n - rr,
        {
            let v = fx_abs(mget(&m, rr, col, n));
            if v > best {
                best = v;
                piv = rr;
            }
            rr = rr + 1;
        }
        if best == 0 {
            return None;
        }
        if piv != col {
            let mut cc: usize = 0;
            while cc < n
                invariant
                    col < n,
                    piv < n,
                    cc <= n,
                    1 <= n <= 16,
                    m@.len() == n * n,
                    vals_wf(m@),
                decreases n - cc,
            {
                let t1 = mget(&m, col, cc, n);
                let t2 = mget(&m, piv, cc, n);
                mset(&mut m, col, cc, n, t2);
                mset(&mut m, piv, cc, n, t1);
                cc = cc + 1;
            }
            let tb1 = vget(&rhs, col);
            let tb2 = vget(&rhs, piv);
            vset(&mut rhs, col, tb2);
            vset(&mut rhs, piv, tb1);
        }
        let d = mget(&m, col, col, n);
        if d == 0 {
            return None;
        }
        let mut r2: usize = col + 1;
        while r2 < n
            invariant
                col < n,
                r2 <= n,
                1 <= n <= 16,
                m@.len() == n * n,
                vals_wf(m@),
                rhs@.len() == n,
                vals_wf(rhs@),
                fx_wf(d as int),
            decreases n - r2,
        {
            let fac = match fx_div(mget(&m, r2, col, n), d) {
                Some(v) => v,
                None => {
                    return None;
                },
            };
            let mut cc: usize = col;
            while cc < n
                invariant
                    col < n,
                    r2 < n,
                    cc <= n,
                    1 <= n <= 16,
                    m@.len() == n * n,
                    vals_wf(m@),
                    fx_wf(fac as int),
                decreases n - cc,
            {
                let t = match fx_mul(fac, mget(&m, col, cc, n)) {
                    Some(v) => v,
                    None => {
                        return None;
                    },
                };
                let nv = match fx_sub(mget(&m, r2, cc, n), t) {
                    Some(v) => v,
                    None => {
                        return None;
                    },
                };
                mset(&mut m, r2, cc, n, nv);
                cc = cc + 1;
            }
            let tb = match fx_mul(fac, vget(&rhs, col)) {
                Some(v) => v,
                None => {
                    return None;
                },
            };
            let nb = match fx_sub(vget(&rhs, r2), tb) {
                Some(v) => v,
                None => {
                    return None;
                },
            };
            vset(&mut rhs, r2, nb);
            r2 = r2 + 1;
        }
        col = col + 1;
    }
    let mut x = vec_zeros(n);
    let mut i: usize = n;
    while i > 0
        invariant
            i <= n,
            1 <= n <= 16,
            m@.len() == n * n,
            vals_wf(m@),
            rhs@.len() == n,
            vals_wf(rhs@),
            x@.len() == n,
            vals_wf(x@),
        decreases i,
    {
        let row = i - 1;
        let mut acc = vget(&rhs, row);
        let mut j: usize = row + 1;
        while j < n
            invariant
                row < n,
                j <= n,
                1 <= n <= 16,
                m@.len() == n * n,
                vals_wf(m@),
                x@.len() == n,
                vals_wf(x@),
                fx_wf(acc as int),
            decreases n - j,
        {
            let t = match fx_mul(mget(&m, row, j, n), vget(&x, j)) {
                Some(v) => v,
                None => {
                    return None;
                },
            };
            acc = match fx_sub(acc, t) {
                Some(v) => v,
                None => {
                    return None;
                },
            };
            j = j + 1;
        }
        let dd = mget(&m, row, row, n);
        if dd == 0 {
            return None;
        }
        let xv = match fx_div(acc, dd) {
            Some(v) => v,
            None => {
                return None;
            },
        };
        vset(&mut x, row, xv);
        i = i - 1;
    }
    Some(x)
}


// ---------------------------------------------------------------------------
// Minimal-set pose estimation (direct linear method on six correspondences).
// ---------------------------------------------------------------------------

/// Well-formedness of every correspondence in a sequence.
pub open spec fn corrs_wf(s: Seq<Correspondence>) -> bool {
    forall|i: int| 0 <= i < s.len() ==> corr_wf(#[trigger] s[i])
}

/// Accumulates one normal-equation row: `nmat += arow * arow^T` and
/// `yvec += arow * bval`.  Returns false when a step leaves range.
fn accum_row(
    nmat: &mut Vec<i128>,
    yvec: &mut Vec<i128>,
    arow: &Vec<i128>,
    bval: i128,
) -> (ok: bool)
    requires
        old(nmat)@.len() == 121,
        vals_wf(old(nmat)@),
        old(yvec)@.len() == 11,
        vals_wf(old(yvec)@),
        arow@.len() == 11,
        vals_wf(arow@),
        fx_wf(bval as int),
    ensures
        final(nmat)@.len() == 121,
        vals_wf(final(nmat)@),
        final(yvec)@.len() == 11,
        vals_wf(final(yvec)@),
{
    let mut i: usize = 0;
    while i < 11
        invariant
            i <= 11,
            nmat@.len() == 121,
            vals_wf(nmat@),
            yvec@.len() == 11,
            vals_wf(yvec@),
            arow@.len() == 11,
            vals_wf(arow@),
            fx_wf(bval as int),
        decreases 11 - i,
    {
        let ai = vget(arow, i);
        let mut j: usize = 0;
        while j < 11
            invariant
                i < 11,
                j <= 11,
                nmat@.len() == 121,
                vals_wf(nmat@),
                yvec@.len() == 11,
                vals_wf(yvec@),
                arow@.len() == 11,
                vals_wf(arow@),
                fx_wf(ai as int),
            decreases 11 - j,
        {
            let t = match fx_mul(ai, vget(arow, j)) {
                Some(v) => v,
                None => {
                    return false;
                },
            };
            let nv = match fx_add(mget(nmat, i, j, 11), t) {
                Some(v) => v,
                None => {
                    return false;
                },
            };
            mset(nmat, i, j, 11, nv);
            j = j + 1;
        }
        let t = match fx_mul(ai, bval) {
            Some(v) => v,
            None => {
                return false;
            },
        };
        let nv = match fx_add(vget(yvec, i), t) {
            Some(v) => v,
            None => {
                return false;
            },
        };
        vset(yvec, i, nv);
        i = i + 1;
    }
    true
}

/// Estimates a pose from a correspondence subset by the direct linear method
/// with the intrinsics held at their initial guess: world points are centred
/// and scaled, the eleven projection unknowns (the twelfth is fixed at one)
/// are solved from the normal equations, and the rotation block is
/// orthonormalized.  `None` on a degenerate or out-of-range sample.
pub fn estimate_dlt(
    corrs: &Vec<Correspondence>,
    sel: &Vec<usize>,
    f0: i128,
    cx0: i128,
    cy0: i128,
) -> (r: Option<CamState>)
    requires
        corrs_wf(corrs@),
        forall|i: int| 0 <= i < sel@.len() ==> #[trigger] sel@[i] < corrs@.len(),
        1 <= sel@.len() <= 65536,
        fx_wf(f0 as int),
        f0 > 0,
        fx_wf(cx0 as int),
        fx_wf(cy0 as int),
    ensures
        r matches Some(st) ==> state_wf(st),
        r matches Some(st) ==> st.f == f0 && st.cx == cx0 && st.cy == cy0,
{
    let k = sel.len();
    let mut sx: Option<i128> = Some(0);
    let mut sy: Option<i128> = Some(0);
    let mut sz: Option<i128> = Some(0);
    let mut i: usize = 0;
    while i < k
        invariant
            i <= k,
            k == sel@.len(),
            corrs_wf(corrs@),
            forall|t: int| 0 <= t < sel@.len() ==> #[trigger] sel@[t] < corrs@.len(),
            owf(sx),
            owf(sy),
            owf(sz),
        decreases k - i,
    {
        let c = &corrs[sel[i]];
        sx = oadd(sx, Some(c.world_x));
        sy = oadd(sy, Some(c.world_y));
        sz = oadd(sz, Some(c.world_z));
        i = i + 1;
    }
    let kf: i128 = (k as i128) * FX_ONE;
    assert(fx_wf(kf as int));
    let cenx = match odiv(sx, Some(kf)) {
        Some(v) => v,
        None => {
            return None;
        },
    };
    let ceny = match odiv(sy, Some(kf)) {
        Some(v) => v,
        None => {
            return None;
        },
    };
    let cenz = match odiv(sz, Some(kf)) {
        Some(v) => v,
        None => {
            return None;
        },
    };
    let cen = Point3 { x: cenx, y: ceny, z: cenz };
    // Spread of the centred points, for conditioning.
    let mut ma: i128 = 0;
    let mut i2: usize = 0;
    while i2 < k
        invariant
            i2 <= k,
            k == sel@.len(),
            corrs_wf(corrs@),
            forall|t: int| 0 <= t < sel@.len() ==> #[trigger] sel@[t] < corrs@.len(),
            point_wf(cen),
            fx_wf(ma as int),
            ma >= 0,
        decreases k - i2,
    {
        let c = &corrs[sel[i2]];
        let w = Point3 { x: c.world_x, y: c.world_y, z: c.world_z };
        let d = match sub3(&w, &cen) {
            Some(p) => p,
            None => {
                return None;
            },
        };
        let ax = fx_abs(d.x);
        let ay = fx_abs(d.y);
        let az = fx_abs(d.z);
        if ax > ma {
            ma = ax;
        }
        if ay > ma {
            ma = ay;
        }
        if az > ma {
            ma = az;
        }
        i2 = i2 + 1;
    }
    if ma == 0 {
        return None;
    }
    let sc = match fx_div(4 * FX_ONE, ma) {
        Some(v) => v,
        None => {
            return None;
        },
    };
    let mut nmat = vec_zeros(121);
    let mut yv = vec_zeros(11);
    let mut i3: usize = 0;
    while i3 < k
        invariant
            i3 <= k,
            k == sel@.len(),
            corrs_wf(corrs@),
            forall|t: int| 0 <= t < sel@.len() ==> #[trigger] sel@[t] < corrs@.len(),
            point_wf(cen),
            fx_wf(sc as int),
            fx_wf(f0 as int),
            f0 > 0,
            fx_wf(cx0 as int),
            fx_wf(cy0 as int),
            nmat@.len() == 121,
            vals_wf(nmat@),
            yv@.len() == 11,
            vals_wf(yv@),
        decreases k - i3,
    {
        let c = &corrs[sel[i3]];
        let w = Point3 { x: c.world_x, y: c.world_y, z: c.world_z };
        let d = match sub3(&w, &cen) {
            Some(p) => p,
            None => {
                return None;
            },
        };
        let ds = match scale3(&d, sc) {
            Some(p) => p,
            None => {
                return None;
            },
        };
        let up = match odiv(fx_sub(c.pixel_x, cx0), Some(f0)) {
            Some(v) => v,
            None => {
                return None;
            },
        };
        let vp = match odiv(fx_sub(c.pixel_y, cy0), Some(f0)) {
            Some(v) => v,
            None => {
                return None;
            },
        };
        let uxs = match fx_mul(up, ds.x) {
            Some(v) => v,
            None => {
                return None;
            },
        };
        let uys = match fx_mul(up, ds.y) {
            Some(v) => v,
            None => {
                return None;
            },
        };
        let uzs = match fx_mul(up, ds.z) {
            Some(v) => v,
            None => {
                return None;
            },
        };
        let vxs = match fx_mul(vp, ds.x) {
            Some(v) => v,
            None => {
                return None;
            },
        };
        let vys = match fx_mul(vp, ds.y) {
            Some(v) => v,
            None => {
                return None;
            },
        };
        let vzs = match fx_mul(vp, ds.z) {
            Some(v) => v,
            None => {
                return None;
            },
        };
        let mut row_u: Vec<i128> = Vec::new();
        row_u.push(-ds.x);
        row_u.push(-ds.y);
        row_u.push(-ds.z);
        row_u.push(-FX_ONE);
        row_u.push(0);
        row_u.push(0);
        row_u.push(0);
        row_u.push(0);
        row_u.push(uxs);
        row_u.push(uys);
        row_u.push(uzs);
        assert(row_u@.len() == 11);
        assert(vals_wf(row_u@));
        if !accum_row(&mut nmat, &mut yv, &row_u, -up) {
            return None;
        }
        let mut row_v: Vec<i128> = Vec::new();
        row_v.push(0);
        row_v.push(0);
        row_v.push(0);
        row_v.push(0);
        row_v.push(-ds.x);
        row_v.push(-ds.y);
        row_v.push(-ds.z);
        row_v.push(-FX_ONE);
        row_v.push(vxs);
        row_v.push(vys);
        row_v.push(vzs);
        assert(row_v@.len() == 11);
        assert(vals_wf(row_v@));
        if !accum_row(&mut nmat, &mut yv, &row_v, -vp) {
            return None;
        }
        i3 = i3 + 1;
    }
    let mv = match lin_solve(&nmat, &yv, 11) {
        Some(v) => v,
        None => {
            return None;
        },
    };
    // Rescale the rotation block back to the original frame and normalize.
    let raw0 = Point3 {
        x: match fx_mul(vget(&mv, 0), sc) {
            Some(v) => v,
            None => {
                return None;
            },
        },
        y: match fx_mul(vget(&mv, 1), sc) {
            Some(v) => v,
            None => {
                return None;
            },
        },
        z: match fx_mul(vget(&mv, 2), sc) {
            Some(v) => v,
            None => {
                return None;
            },
        },
    };
    let raw1 = Point3 {
        x: match fx_mul(vget(&mv, 4), sc) {
            Some(v) => v,
            None => {
                return None;
            },
        },
        y: match fx_mul(vget(&mv, 5), sc) {
            Some(v) => v,
            None => {
                return None;
            },
        },
        z: match fx_mul(vget(&mv, 6), sc) {
            Some(v) => v,
            None => {
                return None;
            },
        },
    };
    let raw2 = Point3 {
        x: match fx_mul(vget(&mv, 8), sc) {
            Some(v) => v,
            None => {
                return None;
            },
        },
        y: match fx_mul(vget(&mv, 9), sc) {
            Some(v) => v,
            None => {
                return None;
            },
        },
        z: match fx_mul(vget(&mv, 10), sc) {
            Some(v) => v,
            None => {
                return None;
            },
        },
    };
    let n2 = match norm3(&raw2) {
        Some(v) => v,
        None => {
            return None;
        },
    };
    if n2 == 0 {
        return None;
    }
    let lam = match fx_div(FX_ONE, n2) {
        Some(v) => v,
        None => {
            return None;
        },
    };
    let e0 = match scale3(&raw0, lam) {
        Some(p) => p,
        None => {
            return None;
        },
    };
    let e1 = match scale3(&raw1, lam) {
        Some(p) => p,
        None => {
            return None;
        },
    };
    let e2 = match scale3(&raw2, lam) {
        Some(p) => p,
        None => {
            return None;
        },
    };
    let tx = match fx_mul(vget(&mv, 3), lam) {
        Some(v) => v,
        None => {
            return None;
        },
    };
    let ty = match fx_mul(vget(&mv, 7), lam) {
        Some(v) => v,
        None => {
            return None;
        },
    };
    let tz = lam;
    let rg = match gram_schmidt(&rot_from_rows(&e0, &e1, &e2)) {
        Some(m) => m,
        None => {
            return None;
        },
    };
    // Camera centre: centroid minus R^T t.
    let col_t = Point3 { x: tx, y: ty, z: tz };
    let c0 = Point3 { x: rg.r00, y: rg.r10, z: rg.r20 };
    let c1 = Point3 { x: rg.r01, y: rg.r11, z: rg.r21 };
    let c2 = Point3 { x: rg.r02, y: rg.r12, z: rg.r22 };
    let rtx = match dot3(&c0, &col_t) {
        Some(v) => v,
        None => {
            return None;
        },
    };
    let rty = match dot3(&c1, &col_t) {
        Some(v) => v,
        None => {
            return None;
        },
    };
    let rtz = match dot3(&c2, &col_t) {
        Some(v) => v,
        None => {
            return None;
        },
    };
    let rt = Point3 { x: rtx, y: rty, z: rtz };
    let pos = match sub3(&cen, &rt) {
        Some(p) => p,
        None => {
            return None;
        },
    };
    Some(CamState { rot: rg, pos, f: f0, cx: cx0, cy: cy0 })
}

// ---------------------------------------------------------------------------
// Deterministic sampling and consensus search.
// ---------------------------------------------------------------------------

/// One step of a 64-bit linear congruential generator.
fn lcg_next(s: u64) -> (r: u64) {
    (((s as u128) * 6364136223846793005 + 1442695040888963407)
        % 18446744073709551616) as u64
}

/// A deterministic seed folded from the request's pixel coordinates, so that
/// repeated solves of one request sample identically.
pub fn derive_seed(corrs: &Vec<Correspondence>) -> (r: u64)
    requires
        corrs_wf(corrs@),
{
    let mut s: u64 = 11400714819323198485;
    let mut i: usize = 0;
    while i < corrs.len()
        invariant
            i <= corrs@.len(),
            corrs_wf(corrs@),
        decreases corrs@.len() - i,
    {
        let c = &corrs[i];
        let vx: u64 = (fx_abs(c.pixel_x) as u128 % 18446744073709551616) as u64;
        let vy: u64 = (fx_abs(c.pixel_y) as u128 % 18446744073709551616) as u64;
        s = lcg_next(s ^ vx);
        s = lcg_next(s ^ vy);
        i = i + 1;
    }
    s
}

fn has_idx(v: &Vec<usize>, x: usize) -> (r: bool)
    ensures
        r ==> v@.len() >= 1,
{
    let mut i: usize = 0;
    while i < v.len()
        invariant
            i <= v@.len(),
        decreases v@.len() - i,
    {
        if v[i] == x {
            return true;
        }
        i = i + 1;
    }
    false
}

/// Draws a minimal sample of distinct indices below `n`, deterministically
/// from the seed; falls back to the lowest unused indices when the draws
/// collide too often.
fn pick_sample(seed: u64, n: usize) -> (r: (Vec<usize>, u64))
    requires
        6 <= n,
    ensures
        forall|i: int| 0 <= i < r.0@.len() ==> #[trigger] r.0@[i] < n,
        1 <= r.0@.len() <= 6,
{
    let mut s = seed;
    let mut out: Vec<usize> = Vec::new();
    let mut tries: usize = 0;
    while tries < 40 && out.len() < 6
        invariant
            tries <= 40,
            out@.len() <= 6,
            n >= 6,
            forall|i: int| 0 <= i < out@.len() ==> #[trigger] out@[i] < n,
        decreases 40 - tries,
    {
        s = lcg_next(s);
        let draw: u64 = s % (n as u64);
        assert(draw < n as u64);
        let idx: usize = draw as usize;
        if !has_idx(&out, idx) {
            out.push(idx);
        }
        tries = tries + 1;
    }
    let mut j: usize = 0;
    while j < n && out.len() < 6
        invariant
            j <= n,
            out@.len() <= 6,
            n >= 6,
            forall|i: int| 0 <= i < out@.len() ==> #[trigger] out@[i] < n,
            j >= 1 ==> out@.len() >= 1,
        decreases n - j,
    {
        if !has_idx(&out, j) {
            out.push(j);
        }
        j = j + 1;
    }
    if out.len() == 0 {
        out.push(0);
    }
    (out, s)
}

/// Number of correspondences whose residual under a solver state is within
/// the inlier threshold.
pub open spec fn state_inlier_count(st: CamState, s: Seq<Correspondence>) -> int
    decreases s.len(),
{
    if s.len() == 0 {
        0
    } else {
        state_inlier_count(st, s.drop_last()) + if state_residual_spec(st, s.last())
            <= INLIER_THRESH_PX as int {
            1int
        } else {
            0int
        }
    }
}

proof fn lemma_state_count_step(st: CamState, s: Seq<Correspondence>, i: int)
    requires
        0 <= i < s.len(),
    ensures
        state_inlier_count(st, s.take(i + 1)) == state_inlier_count(st, s.take(i)) + if
            state_residual_spec(st, s[i]) <= INLIER_THRESH_PX as int {
            1int
        } else {
            0int
        },
{
    let pre = s.take(i);
    let post = s.take(i + 1);
    assert(post.drop_last() =~= pre);
    assert(post.last() == s[i]);
}

/// Scores a hypothesis: the number of correspondences whose residual is
/// within the inlier threshold, and the total inlier residual (saturating)
/// used to break ties.
pub fn score_state(st: &CamState, corrs: &Vec<Correspondence>) -> (r: (usize, i128))
    requires
        state_wf(*st),
        corrs_wf(corrs@),
    ensures
        r.0 <= corrs@.len(),
        r.0 as int == state_inlier_count(*st, corrs@),
        fx_wf(r.1 as int),
{
    let mut count: usize = 0;
    let mut tot: i128 = 0;
    let mut i: usize = 0;
    while i < corrs.len()
        invariant
            i <= corrs@.len(),
            count <= i,
            count as int == state_inlier_count(*st, corrs@.take(i as int)),
            state_wf(*st),
            corrs_wf(corrs@),
            fx_wf(tot as int),
        decreases corrs@.len() - i,
    {
        let res = residual_state(st, &corrs[i]);
        proof {
            lemma_state_count_step(*st, corrs@, i as int);
        }
        if res <= INLIER_THRESH_PX {
            count = count + 1;
            tot = match fx_add(tot, res) {
                Some(v) => v,
                None => crate::fx::FX_LIM,
            };
        }
        i = i + 1;
    }
    proof {
        assert(corrs@.take(corrs@.len() as int) =~= corrs@);
    }
    (count, tot)
}

/// Robust consensus search: repeatedly samples minimal subsets, estimates a
/// candidate pose from each and keeps the hypothesis with the most inliers
/// (ties broken by lower inlier residual).  Returns the best hypothesis with
/// its inlier count, and whether any degenerate sample was skipped.
pub fn consensus_search(
    corrs: &Vec<Correspondence>,
    f0: i128,
    cx0: i128,
    cy0: i128,
) -> (r: (Option<CamState>, usize, bool))
    requires
        corrs_wf(corrs@),
        6 <= corrs@.len() <= 65536,
        fx_wf(f0 as int),
        f0 > 0,
        fx_wf(cx0 as int),
        fx_wf(cy0 as int),
    ensures
        r.0 matches Some(st) ==> state_wf(st),
        r.1 <= corrs@.len(),
        r.0 matches Some(st) ==> r.1 as int == state_inlier_count(st, corrs@),
        r.0 is None ==> r.2,
{
    let n = corrs.len();
    let mut seed = derive_seed(corrs);
    let mut best: Option<CamState> = None;
    let mut best_count: usize = 0;
    let mut best_tot: i128 = crate::fx::FX_LIM;
    let mut skipped = false;
    let rounds: usize = if n == 6 {
        1
    } else {
        MAX_SAMPLES
    };
    let mut round: usize = 0;
    while round < rounds
        invariant
            round <= rounds,
            corrs_wf(corrs@),
            6 <= corrs@.len() <= 65536,
            n == corrs@.len(),
            fx_wf(f0 as int),
            f0 > 0,
            fx_wf(cx0 as int),
            fx_wf(cy0 as int),
            best matches Some(st) ==> state_wf(st),
            best_count <= corrs@.len(),
            best matches Some(st) ==> best_count as int == state_inlier_count(st, corrs@),
            best is None ==> (skipped || round == 0),
            rounds >= 1,
            fx_wf(best_tot as int),
        decreases rounds - round,
    {
        let sel: Vec<usize> = if n == 6 {
            let mut v: Vec<usize> = Vec::new();
            v.push(0);
            v.push(1);
            v.push(2);
            v.push(3);
            v.push(4);
            v.push(5);
            v
        } else {
            let (v, s2) = pick_sample(seed, n);
            seed = s2;
            v
        };
        assert(forall|i: int| 0 <= i < sel@.len() ==> #[trigger] sel@[i] < corrs@.len());
        assert(1 <= sel@.len() <= 6);
        match estimate_dlt(corrs, &sel, f0, cx0, cy0) {
            Some(st) => {
                let (count, tot) = score_state(&st, corrs);
                let better = match best {
                    None => true,
                    Some(_) => count > best_count || (count == best_count && tot < best_tot),
                };
                if better {
                    best = Some(st);
                    best_count = count;
                    best_tot = tot;
                }
            },
            None => {
                skipped = true;
            },
        }
        round = round + 1;
    }
    (best, best_count, skipped)
}


// ---------------------------------------------------------------------------
// Nonlinear refinement (damped Gauss-Newton with robust reweighting).
// ---------------------------------------------------------------------------

/// Huber-style robust weight times the observation weight, for one
/// correspondence under the current state.
fn robust_weight(st: &CamState, c: &Correspondence) -> (r: i128)
    requires
        state_wf(*st),
        corr_wf(*c),
        c.weight >= 0,
    ensures
        fx_wf(r as int),
        r >= 0,
{
    let res = residual_state(st, c);
    let hub: i128 = if res <= INLIER_THRESH_PX {
        FX_ONE
    } else {
        match fx_div(INLIER_THRESH_PX, res) {
            Some(v) => {
                if v < 0 {
                    0
                } else {
                    v
                }
            },
            None => 0,
        }
    };
    match fx_mul(c.weight, hub) {
        Some(v) => {
            if v < 0 {
                0
            } else {
                v
            }
        },
        None => 0,
    }
}

/// Non-negative weights of every correspondence in a sequence.
pub open spec fn weights_nonneg(s: Seq<Correspondence>) -> bool {
    forall|i: int| 0 <= i < s.len() ==> #[trigger] s[i].weight >= 0
}

fn compute_weights(st: &CamState, corrs: &Vec<Correspondence>, sel: &Vec<usize>) -> (r: Vec<i128>)
    requires
        state_wf(*st),
        corrs_wf(corrs@),
        weights_nonneg(corrs@),
        forall|i: int| 0 <= i < sel@.len() ==> #[trigger] sel@[i] < corrs@.len(),
    ensures
        r@.len() == sel@.len(),
        vals_wf(r@),
{
    let mut out: Vec<i128> = Vec::new();
    let mut i: usize = 0;
    while i < sel.len()
        invariant
            i <= sel@.len(),
            out@.len() == i,
            vals_wf(out@),
            state_wf(*st),
            corrs_wf(corrs@),
            weights_nonneg(corrs@),
            forall|t: int| 0 <= t < sel@.len() ==> #[trigger] sel@[t] < corrs@.len(),
        decreases sel@.len() - i,
    {
        let w = robust_weight(st, &corrs[sel[i]]);
        out.push(w);
        i = i + 1;
    }
    out
}

/// Weighted residual vector (two entries per selected correspondence) under
/// a state; `None` when a point is unprojectable or a step leaves range.
fn weighted_residuals(
    st: &CamState,
    corrs: &Vec<Correspondence>,
    sel: &Vec<usize>,
    ws: &Vec<i128>,
) -> (r: Option<Vec<i128>>)
    requires
        state_wf(*st),
        corrs_wf(corrs@),
        forall|i: int| 0 <= i < sel@.len() ==> #[trigger] sel@[i] < corrs@.len(),
        ws@.len() == sel@.len(),
        vals_wf(ws@),
    ensures
        r matches Some(v) ==> v@.len() == 2 * sel@.len() && vals_wf(v@),
{
    let mut out: Vec<i128> = Vec::new();
    let mut i: usize = 0;
    while i < sel.len()
        invariant
            i <= sel@.len(),
            out@.len() == 2 * i,
            vals_wf(out@),
            state_wf(*st),
            corrs_wf(corrs@),
            forall|t: int| 0 <= t < sel@.len() ==> #[trigger] sel@[t] < corrs@.len(),
            ws@.len() == sel@.len(),
            vals_wf(ws@),
        decreases sel@.len() - i,
    {
        let c = &corrs[sel[i]];
        let w = Point3 { x: c.world_x, y: c.world_y, z: c.world_z };
        let px = match project_state(st, &w) {
            Some(p) => p,
            None => {
                return None;
            },
        };
        let du = match fx_sub(c.pixel_x, px.x) {
            Some(v) => v,
            None => {
                return None;
            },
        };
        let dv = match fx_sub(c.pixel_y, px.y) {
            Some(v) => v,
            None => {
                return None;
            },
        };
        let wi = vget(ws, i);
        let wdu = match fx_mul(wi, du) {
            Some(v) => v,
            None => {
                return None;
            },
        };
        let wdv = match fx_mul(wi, dv) {
            Some(v) => v,
            None => {
                return None;
            },
        };
        out.push(wdu);
        out.push(wdv);
        i = i + 1;
    }
    Some(out)
}

/// Exact sum of squared entries, as a plain (not fixed-point-bounded)
/// integer so that sub-pixel residuals still register; `None` when an entry
/// is unreasonably large (beyond a million pixels).
fn cost_of(rv: &Vec<i128>) -> (r: Option<i128>)
    requires
        vals_wf(rv@),
        rv@.len() <= 131072,
    ensures
        r matches Some(v) ==> v >= 0,
{
    let mut acc: i128 = 0;
    let mut i: usize = 0;
    while i < rv.len()
        invariant
            i <= rv@.len(),
            rv@.len() <= 131072,
            vals_wf(rv@),
            0 <= acc,
            acc as int <= (i as int) * 18446744073709551616000000000000int,
        decreases rv@.len() - i,
    {
        let e = vget(rv, i);
        let ea = fx_abs(e);
        if ea > 4294967296000000 {
            return None;
        }
        proof {
            assert(0 <= (e as int) * (e as int) <= 18446744073709551616000000000000int)
                by (nonlinear_arith)
                requires
                    -4294967296000000int <= e as int <= 4294967296000000int,
            ;
            assert((i as int + 1) * 18446744073709551616000000000000int == (i as int)
                * 18446744073709551616000000000000int + 18446744073709551616000000000000int)
                by (nonlinear_arith);
            assert((i as int) * 18446744073709551616000000000000int <= 131072int
                * 18446744073709551616000000000000int) by (nonlinear_arith)
                requires
                    i as int <= 131072int,
            ;
        }
        acc = acc + e * e;
        i = i + 1;
    }
    Some(acc)
}

/// Applies a parameter update to a state: a local rotation (first three
/// entries, radians), a translation (next three, metres), and intrinsic
/// shifts (last three, pixels) when intrinsics are being refined.
fn apply_delta(st: &CamState, p: &Vec<i128>, refine_intrinsics: bool) -> (r: Option<CamState>)
    requires
        state_wf(*st),
        p@.len() == 9,
        vals_wf(p@),
    ensures
        r matches Some(s) ==> state_wf(s),
{
    let wvec = Point3 { x: -vget(p, 0), y: -vget(p, 1), z: -vget(p, 2) };
    let upd = match rodrigues(&wvec) {
        Some(m) => m,
        None => {
            return None;
        },
    };
    let raw = match mat_mul3(&upd, &st.rot) {
        Some(m) => m,
        None => {
            return None;
        },
    };
    let rot = match gram_schmidt(&raw) {
        Some(m) => m,
        None => {
            return None;
        },
    };
    let shift = Point3 { x: vget(p, 3), y: vget(p, 4), z: vget(p, 5) };
    let pos = match add3(&st.pos, &shift) {
        Some(q) => q,
        None => {
            return None;
        },
    };
    let (f, cx, cy): (i128, i128, i128) = if refine_intrinsics {
        let f2 = match fx_add(st.f, vget(p, 6)) {
            Some(v) => v,
            None => {
                return None;
            },
        };
        if f2 <= 0 {
            return None;
        }
        let cx2 = match fx_add(st.cx, vget(p, 7)) {
            Some(v) => v,
            None => {
                return None;
            },
        };
        let cy2 = match fx_add(st.cy, vget(p, 8)) {
            Some(v) => v,
            None => {
                return None;
            },
        };
        (f2, cx2, cy2)
    } else {
        (st.f, st.cx, st.cy)
    };
    Some(CamState { rot, pos, f, cx, cy })
}

/// Flat rectangular index.
fn jidx(i: usize, j: usize, cols: usize) -> (k: usize)
    requires
        j < cols,
        cols <= 16,
        i < 131072,
    ensures
        k == i * cols + j,
        k < 131072 * 16,
{
    proof {
        assert(i * cols + j < 131072 * 16) by (nonlinear_arith)
            requires
                j < cols,
                cols <= 16,
                i < 131072,
        ;
    }
    i * cols + j
}

/// Finite-difference Jacobian of the weighted residual vector with respect
/// to the first `np` parameters, flat row-major `rows x np`.
fn numeric_jacobian(
    st: &CamState,
    corrs: &Vec<Correspondence>,
    sel: &Vec<usize>,
    ws: &Vec<i128>,
    base: &Vec<i128>,
    np: usize,
    refine_intrinsics: bool,
) -> (r: Option<Vec<i128>>)
    requires
        state_wf(*st),
        corrs_wf(corrs@),
        forall|i: int| 0 <= i < sel@.len() ==> #[trigger] sel@[i] < corrs@.len(),
        ws@.len() == sel@.len(),
        vals_wf(ws@),
        base@.len() == 2 * sel@.len(),
        vals_wf(base@),
        1 <= np <= 9,
        sel@.len() <= 65536,
    ensures
        r matches Some(v) ==> v@.len() == base@.len() * np && vals_wf(v@),
{
    let rows = base.len();
    proof {
        assert(rows * np <= 131072 * 9) by (nonlinear_arith)
            requires
                rows <= 131072,
                np <= 9,
        ;
    }
    let mut jm = vec_zeros(rows * np);
    let mut j: usize = 0;
    while j < np
        invariant
            j <= np,
            1 <= np <= 9,
            rows == base@.len(),
            rows == 2 * sel@.len(),
            sel@.len() <= 65536,
            jm@.len() == rows * np,
            vals_wf(jm@),
            state_wf(*st),
            corrs_wf(corrs@),
            forall|t: int| 0 <= t < sel@.len() ==> #[trigger] sel@[t] < corrs@.len(),
            ws@.len() == sel@.len(),
            vals_wf(ws@),
            vals_wf(base@),
        decreases np - j,
    {
        // Step sizes: 1e-4 radians for rotation, 1e-2 metres for position,
        // 1e-1 pixels for intrinsics.
        let h: i128 = if j < 3 {
            429497
        } else if j < 6 {
            42949673
        } else {
            429496730
        };
        let mut dvec = vec_zeros(9);
        vset(&mut dvec, j, h);
        let stp = match apply_delta(st, &dvec, refine_intrinsics) {
            Some(s) => s,
            None => {
                return None;
            },
        };
        let rp = match weighted_residuals(&stp, corrs, sel, ws) {
            Some(v) => v,
            None => {
                return None;
            },
        };
        let mut dvec2 = vec_zeros(9);
        vset(&mut dvec2, j, -h);
        let stm = match apply_delta(st, &dvec2, refine_intrinsics) {
            Some(s) => s,
            None => {
                return None;
            },
        };
        let rm = match weighted_residuals(&stm, corrs, sel, ws) {
            Some(v) => v,
            None => {
                return None;
            },
        };
        let mut i: usize = 0;
        while i < rows
            invariant
                i <= rows,
                j < np,
                1 <= np <= 9,
                rows == base@.len(),
                rows == 2 * sel@.len(),
                sel@.len() <= 65536,
                jm@.len() == rows * np,
                vals_wf(jm@),
                rp@.len() == rows,
                vals_wf(rp@),
                rm@.len() == rows,
                vals_wf(rm@),
                vals_wf(base@),
                fx_wf(h as int),
                h > 0,
                h <= 429496730,
            decreases rows - i,
        {
            let d = match fx_sub(vget(&rp, i), vget(&rm, i)) {
                Some(v) => v,
                None => {
                    return None;
                },
            };
            let q = match fx_div(d, 2 * h) {
                Some(v) => v,
                None => {
                    return None;
                },
            };
            let k = jidx(i, j, np);
            proof {
                assert(i * np + j < rows * np) by (nonlinear_arith)
                    requires
                        i < rows,
                        j < np,
                ;
            }
            vset(&mut jm, k, q);
            i = i + 1;
        }
        j = j + 1;
    }
    Some(jm)
}

/// Builds the damped normal equations `(J^T J + lam I) d = -J^T r`.
fn normal_equations(
    jm: &Vec<i128>,
    base: &Vec<i128>,
    np: usize,
    lam: i128,
) -> (r: Option<(Vec<i128>, Vec<i128>)>)
    requires
        1 <= np <= 9,
        jm@.len() == base@.len() * np,
        vals_wf(jm@),
        vals_wf(base@),
        base@.len() <= 131072,
        fx_wf(lam as int),
        lam >= 0,
    ensures
        r matches Some(v) ==> v.0@.len() == np * np && vals_wf(v.0@) && v.1@.len() == np
            && vals_wf(v.1@),
{
    let rows = base.len();
    proof {
        assert(np * np <= 81) by (nonlinear_arith)
            requires
                np <= 9,
        ;
    }
    let mut h = vec_zeros(np * np);
    let mut g = vec_zeros(np);
    let mut a: usize = 0;
    while a < np
        invariant
            a <= np,
            1 <= np <= 9,
            rows == base@.len(),
            rows <= 131072,
            jm@.len() == rows * np,
            vals_wf(jm@),
            vals_wf(base@),
            h@.len() == np * np,
            vals_wf(h@),
            g@.len() == np,
            vals_wf(g@),
            fx_wf(lam as int),
            lam >= 0,
        decreases np - a,
    {
        let mut b: usize = 0;
        while b < np
            invariant
                a < np,
                b <= np,
                1 <= np <= 9,
                rows == base@.len(),
                rows <= 131072,
                jm@.len() == rows * np,
                vals_wf(jm@),
                vals_wf(base@),
                h@.len() == np * np,
                vals_wf(h@),
                g@.len() == np,
                vals_wf(g@),
                fx_wf(lam as int),
                lam >= 0,
            decreases np - b,
        {
            let mut acc: i128 = 0;
            let mut i: usize = 0;
            while i < rows
                invariant
                    a < np,
                    b < np,
                    i <= rows,
                    1 <= np <= 9,
                    rows == base@.len(),
                    rows <= 131072,
                    jm@.len() == rows * np,
                    vals_wf(jm@),
                    fx_wf(acc as int),
                decreases rows - i,
            {
                let ka = jidx(i, a, np);
                let kb = jidx(i, b, np);
                proof {
                    assert(i * np + a < rows * np && i * np + b < rows * np) by (nonlinear_arith)
                        requires
                            i < rows,
                            a < np,
                            b < np,
                    ;
                }
                let t = match fx_mul(vget(jm, ka), vget(jm, kb)) {
                    Some(v) => v,
                    None => {
                        return None;
                    },
                };
                acc = match fx_add(acc, t) {
                    Some(v) => v,
                    None => {
                        return None;
                    },
                };
                i = i + 1;
            }
            if a == b {
                let bump = match fx_mul(acc, lam) {
                    Some(v) => v,
                    None => {
                        return None;
                    },
                };
                acc = match fx_add(acc, bump) {
                    Some(v) => v,
                    None => {
                        return None;
                    },
                };
            }
            mset(&mut h, a, b, np, acc);
            b = b + 1;
        }
        let mut acc: i128 = 0;
        let mut i: usize = 0;
        while i < rows
            invariant
                a < np,
                i <= rows,
                1 <= np <= 9,
                rows == base@.len(),
                rows <= 131072,
                jm@.len() == rows * np,
                vals_wf(jm@),
                vals_wf(base@),
                fx_wf(acc as int),
            decreases rows - i,
        {
            let ka = jidx(i, a, np);
            proof {
                assert(i * np + a < rows * np) by (nonlinear_arith)
                    requires
                        i < rows,
                        a < np,
                ;
            }
            let t = match fx_mul(vget(jm, ka), vget(base, i)) {
                Some(v) => v,
                None => {
                    return None;
                },
            };
            acc = match fx_sub(acc, t) {
                Some(v) => v,
                None => {
                    return None;
                },
            };
            i = i + 1;
        }
        vset(&mut g, a, acc);
        a = a + 1;
    }
    Some((h, g))
}

/// Damped Gauss-Newton refinement with per-iteration robust reweighting.
/// Never returns a state with less inlier support than its input: an inner
/// step is kept only when it lowers the weighted cost over the refinement
/// set, and a refinement that would end with fewer within-threshold
/// correspondences than the input hypothesis is discarded and reported as
/// divergence.  Returns the refined state, whether the refiner stopped on
/// divergence, and whether a singular system was hit.
pub fn gn_refine(
    st0: CamState,
    corrs: &Vec<Correspondence>,
    sel: &Vec<usize>,
    refine_intrinsics: bool,
) -> (r: (CamState, bool, bool))
    requires
        state_wf(st0),
        corrs_wf(corrs@),
        weights_nonneg(corrs@),
        forall|i: int| 0 <= i < sel@.len() ==> #[trigger] sel@[i] < corrs@.len(),
        1 <= sel@.len() <= 65536,
    ensures
        state_wf(r.0),
        state_inlier_count(r.0, corrs@) >= state_inlier_count(st0, corrs@),
{
    let start = score_state(&st0, corrs);
    let (count0, tot0) = start;
    let np: usize = if refine_intrinsics {
        9
    } else {
        6
    };
    let mut st = st0;
    let mut lam: i128 = 4294967;
    let mut fails: usize = 0;
    let mut diverged = false;
    let mut singular = false;
    let mut it: usize = 0;
    while it < MAX_REFINE_ITERS
        invariant
            it <= MAX_REFINE_ITERS,
            state_wf(st),
            corrs_wf(corrs@),
            weights_nonneg(corrs@),
            forall|t: int| 0 <= t < sel@.len() ==> #[trigger] sel@[t] < corrs@.len(),
            1 <= sel@.len() <= 65536,
            1 <= np <= 9,
            fails <= 12,
            fx_wf(lam as int),
            lam >= 0,
        decreases MAX_REFINE_ITERS - it,
    {
        let ws = compute_weights(&st, corrs, sel);
        let base = match weighted_residuals(&st, corrs, sel, &ws) {
            Some(v) => v,
            None => {
                diverged = true;
                break ;
            },
        };
        let cost = match cost_of(&base) {
            Some(v) => v,
            None => {
                diverged = true;
                break ;
            },
        };
        let jm = match numeric_jacobian(&st, corrs, sel, &ws, &base, np, refine_intrinsics) {
            Some(v) => v,
            None => {
                diverged = true;
                break ;
            },
        };
        let sys = match normal_equations(&jm, &base, np, lam) {
            Some(v) => v,
            None => {
                diverged = true;
                break ;
            },
        };
        let (h, g) = sys;
        let p = match lin_solve(&h, &g, np) {
            Some(v) => v,
            None => {
                singular = true;
                break ;
            },
        };
        let mut p9 = vec_zeros(9);
        let mut t: usize = 0;
        while t < np
            invariant
                t <= np,
                np <= 9,
                p@.len() == np,
                vals_wf(p@),
                p9@.len() == 9,
                vals_wf(p9@),
            decreases np - t,
        {
            let pv = vget(&p, t);
            vset(&mut p9, t, pv);
            t = t + 1;
        }
        // Largest parameter step, for the convergence test.
        let mut maxstep: i128 = 0;
        let mut t2: usize = 0;
        while t2 < 9
            invariant
                t2 <= 9,
                p9@.len() == 9,
                vals_wf(p9@),
                fx_wf(maxstep as int),
                maxstep >= 0,
            decreases 9 - t2,
        {
            let av = fx_abs(vget(&p9, t2));
            if av > maxstep {
                maxstep = av;
            }
            t2 = t2 + 1;
        }
        let cand = apply_delta(&st, &p9, refine_intrinsics);
        let mut accepted = false;
        match cand {
            Some(c) => {
                let rc = weighted_residuals(&c, corrs, sel, &ws);
                match rc {
                    Some(rcv) => {
                        match cost_of(&rcv) {
                            Some(ccost) => {
                                if ccost < cost {
                                    st = c;
                                    accepted = true;
                                }
                            },
                            None => {},
                        }
                    },
                    None => {},
                }
            },
            None => {},
        }
        if accepted {
            fails = 0;
            if lam > 4295 {
                lam = lam / 4 as i128;
            }
            // Converged: the whole step is below about 2e-7 in every
            // parameter.
            if maxstep < 86 {
                break ;
            }
        } else {
            // A rejected step this small means the cost is at its floor:
            // treat it as convergence, not divergence.
            if maxstep < 86 {
                break ;
            }
            if lam < 42949672960000 {
                lam = lam * 8;
            }
            if fails >= 12 {
                diverged = true;
                break ;
            }
            fails = fails + 1;
        }
        it = it + 1;
    }
    let end = score_state(&st, corrs);
    let (count1, tot1) = end;
    if count1 > count0 || (count1 == count0 && tot1 <= tot0) {
        (st, diverged, singular)
    } else {
        (st0, true, singular)
    }
}


// ---------------------------------------------------------------------------
// Covariance estimation.
// ---------------------------------------------------------------------------

/// Truncating halving of a sum, used to symmetrize the covariance.
fn half_sum(a: i128, b: i128) -> (r: i128)
    requires
        fx_wf(a as int),
        fx_wf(b as int),
    ensures
        r as int == crate::fx::tdiv(a as int + b as int, 2),
        fx_wf(r as int),
{
    let s: i128 = a + b;
    if s >= 0 {
        (((s as u128) / 2) as i128)
    } else {
        -((((-s) as u128) / 2) as i128)
    }
}

/// Approximate positive-semidefiniteness check by an LDL factorization with
/// a small negative tolerance for fixed-point rounding; `false` also when a
/// step leaves the representable range.
fn ldl_psd(m: &Vec<i128>) -> (r: bool)
    requires
        m@.len() == 81,
        vals_wf(m@),
{
    let mut d = vec_zeros(9);
    let mut l = vec_zeros(81);
    let mut j: usize = 0;
    while j < 9
        invariant
            j <= 9,
            m@.len() == 81,
            vals_wf(m@),
            d@.len() == 9,
            vals_wf(d@),
            l@.len() == 81,
            vals_wf(l@),
        decreases 9 - j,
    {
        let mut acc = mget(m, j, j, 9);
        let mut k2: usize = 0;
        while k2 < j
            invariant
                j < 9,
                k2 <= j,
                d@.len() == 9,
                vals_wf(d@),
                l@.len() == 81,
                vals_wf(l@),
                fx_wf(acc as int),
            decreases j - k2,
        {
            let lj = mget(&l, j, k2, 9);
            let t = match fx_mul(lj, lj) {
                Some(v) => v,
                None => {
                    return false;
                },
            };
            let t2 = match fx_mul(t, vget(&d, k2)) {
                Some(v) => v,
                None => {
                    return false;
                },
            };
            acc = match fx_sub(acc, t2) {
                Some(v) => v,
                None => {
                    return false;
                },
            };
            k2 = k2 + 1;
        }
        if acc < -4295 {
            return false;
        }
        let dj: i128 = if acc < 0 {
            0
        } else {
            acc
        };
        vset(&mut d, j, dj);
        let mut i: usize = j + 1;
        while i < 9
            invariant
                j < 9,
                i <= 9,
                m@.len() == 81,
                vals_wf(m@),
                d@.len() == 9,
                vals_wf(d@),
                l@.len() == 81,
                vals_wf(l@),
                fx_wf(dj as int),
            decreases 9 - i,
        {
            let mut acc2 = mget(m, i, j, 9);
            let mut k3: usize = 0;
            while k3 < j
                invariant
                    j < 9,
                    i < 9,
                    k3 <= j,
                    d@.len() == 9,
                    vals_wf(d@),
                    l@.len() == 81,
                    vals_wf(l@),
                    fx_wf(acc2 as int),
                decreases j - k3,
            {
                let t = match fx_mul(mget(&l, i, k3, 9), mget(&l, j, k3, 9)) {
                    Some(v) => v,
                    None => {
                        return false;
                    },
                };
                let t2 = match fx_mul(t, vget(&d, k3)) {
                    Some(v) => v,
                    None => {
                        return false;
                    },
                };
                acc2 = match fx_sub(acc2, t2) {
                    Some(v) => v,
                    None => {
                        return false;
                    },
                };
                k3 = k3 + 1;
            }
            let lij: i128 = if dj == 0 {
                0
            } else {
                match fx_div(acc2, dj) {
                    Some(v) => v,
                    None => {
                        return false;
                    },
                }
            };
            mset(&mut l, i, j, 9, lij);
            i = i + 1;
        }
        j = j + 1;
    }
    true
}

/// Parameter covariance of the final fit: the inverse information matrix
/// `(J^T W J)^-1` scaled by the residual variance, symmetrized, and gated by
/// the positivity check.  `None` when the information matrix is singular,
/// the degrees of freedom are non-positive, the positivity check fails, or a
/// step leaves the representable range; the caller then reports an empty
/// covariance with a warning.  When intrinsics are not refined their rows
/// and columns are zero.
pub fn covariance_build(
    st: &CamState,
    corrs: &Vec<Correspondence>,
    sel: &Vec<usize>,
    refine_intrinsics: bool,
) -> (r: Option<Vec<Vec<i128>>>)
    requires
        state_wf(*st),
        corrs_wf(corrs@),
        weights_nonneg(corrs@),
        forall|i: int| 0 <= i < sel@.len() ==> #[trigger] sel@[i] < corrs@.len(),
        1 <= sel@.len() <= 65536,
    ensures
        r matches Some(m) ==> m@.len() == 9 && (forall|i: int|
            0 <= i < 9 ==> (#[trigger] m@[i])@.len() == 9 && vals_wf(m@[i]@)) && (forall|
            i: int,
            j: int,
        |
            0 <= i < 9 && 0 <= j < 9 ==> m@[i]@[j] == m@[j]@[i]),
        r is Some ==> 2 * sel@.len() > (if refine_intrinsics {
            9int
        } else {
            6int
        }),
        r matches Some(m) ==> forall|i: int| 0 <= i < 9 ==> (#[trigger] m@[i])@[i] >= 0,
        r matches Some(m) ==> forall|i: int, j: int|
            0 <= i < 9 && 0 <= j < 9 ==> (m@[i]@[j] as int) * (m@[i]@[j] as int) <= (
            m@[i]@[i] as int) * (m@[j]@[j] as int),
{
    let np: usize = if refine_intrinsics {
        9
    } else {
        6
    };
    let ws = compute_weights(st, corrs, sel);
    let base = match weighted_residuals(st, corrs, sel, &ws) {
        Some(v) => v,
        None => {
            return None;
        },
    };
    let cost = match cost_of(&base) {
        Some(v) => v,
        None => {
            return None;
        },
    };
    let rows = base.len();
    if rows <= np {
        return None;
    }
    let dof: usize = rows - np;
    proof {
        assert(dof <= 131072);
        assert((dof as u128) * (FX_ONE as u128) <= 131072u128 * (FX_ONE as u128))
            by (nonlinear_arith)
            requires
                dof as u128 <= 131072u128,
        ;
    }
    let dof_fx: u128 = (dof as u128) * (FX_ONE as u128);
    proof {
        assert(dof_fx > 0) by (nonlinear_arith)
            requires
                dof_fx == (dof as u128) * (FX_ONE as u128),
                dof as u128 >= 1,
        ;
    }
    // The cost carries two fixed-point scale factors; the residual variance
    // in fixed point is cost / (dof * FX_ONE), clamped into range.
    let sig_u: u128 = (cost as u128) / dof_fx;
    let sigma2: i128 = if sig_u > (crate::fx::FX_LIM as u128) {
        crate::fx::FX_LIM
    } else {
        sig_u as i128
    };
    let jm = match numeric_jacobian(st, corrs, sel, &ws, &base, np, refine_intrinsics) {
        Some(v) => v,
        None => {
            return None;
        },
    };
    let sys = match normal_equations(&jm, &base, np, 0) {
        Some(v) => v,
        None => {
            return None;
        },
    };
    let (h, _g) = sys;
    proof {
        assert(np * np <= 81) by (nonlinear_arith)
            requires
                np <= 9,
        ;
    }
    let mut hinv = vec_zeros(np * np);
    let mut colj: usize = 0;
    while colj < np
        invariant
            colj <= np,
            1 <= np <= 9,
            h@.len() == np * np,
            vals_wf(h@),
            hinv@.len() == np * np,
            vals_wf(hinv@),
        decreases np - colj,
    {
        let mut e = vec_zeros(np);
        vset(&mut e, colj, FX_ONE);
        let xcol = match lin_solve(&h, &e, np) {
            Some(v) => v,
            None => {
                return None;
            },
        };
        let mut rr: usize = 0;
        while rr < np
            invariant
                colj < np,
                rr <= np,
                1 <= np <= 9,
                xcol@.len() == np,
                vals_wf(xcol@),
                hinv@.len() == np * np,
                vals_wf(hinv@),
            decreases np - rr,
        {
            let xv = vget(&xcol, rr);
            mset(&mut hinv, rr, colj, np, xv);
            rr = rr + 1;
        }
        colj = colj + 1;
    }
    let mut cov9 = vec_zeros(81);
    let mut a: usize = 0;
    while a < np
        invariant
            a <= np,
            1 <= np <= 9,
            hinv@.len() == np * np,
            vals_wf(hinv@),
            cov9@.len() == 81,
            vals_wf(cov9@),
            fx_wf(sigma2 as int),
        decreases np - a,
    {
        let mut b: usize = 0;
        while b < np
            invariant
                a < np,
                b <= np,
                1 <= np <= 9,
                hinv@.len() == np * np,
                vals_wf(hinv@),
                cov9@.len() == 81,
                vals_wf(cov9@),
                fx_wf(sigma2 as int),
            decreases np - b,
        {
            let v = match fx_mul(mget(&hinv, a, b, np), sigma2) {
                Some(t) => t,
                None => {
                    return None;
                },
            };
            mset(&mut cov9, a, b, 9, v);
            b = b + 1;
        }
        a = a + 1;
    }
    // Symmetrize: each entry becomes the halved sum of itself and its mirror.
    let mut sym = vec_zeros(81);
    let mut k: usize = 0;
    while k < 81
        invariant
            k <= 81,
            cov9@.len() == 81,
            vals_wf(cov9@),
            sym@.len() == 81,
            vals_wf(sym@),
            forall|kk: int|
                0 <= kk < k ==> #[trigger] sym@[kk] as int == crate::fx::tdiv(
                    cov9@[kk] as int + cov9@[(kk % 9) * 9 + kk / 9] as int,
                    2,
                ),
        decreases 81 - k,
    {
        let ia: usize = k / 9;
        let ib: usize = k % 9;
        proof {
            assert(ia < 9 && ib < 9 && ia * 9 + ib == k) by (nonlinear_arith)
                requires
                    k < 81,
                    ia == k / 9,
                    ib == k % 9,
            ;
            assert(ib * 9 + ia < 81) by (nonlinear_arith)
                requires
                    ia < 9,
                    ib < 9,
            ;
        }
        let mirror = mget(&cov9, ib, ia, 9);
        let own = vget(&cov9, k);
        let hv = half_sum(own, mirror);
        vset(&mut sym, k, hv);
        k = k + 1;
    }
    if !ldl_psd(&sym) {
        return None;
    }
    // Necessary conditions of positive semidefiniteness, checked exactly so
    // that they can be promised of the reported matrix: every diagonal entry
    // is non-negative and every entry is bounded by its two-by-two minor.
    let mut di: usize = 0;
    while di < 9
        invariant
            di <= 9,
            sym@.len() == 81,
            vals_wf(sym@),
            forall|t: int| 0 <= t < di ==> #[trigger] sym@[t * 9 + t] >= 0,
        decreases 9 - di,
    {
        if mget(&sym, di, di, 9) < 0 {
            return None;
        }
        di = di + 1;
    }
    let mut ia: usize = 0;
    while ia < 9
        invariant
            ia <= 9,
            sym@.len() == 81,
            vals_wf(sym@),
            forall|a: int, b: int|
                0 <= a < ia && 0 <= b < 9 ==> (sym@[a * 9 + b] as int) * (sym@[a * 9 + b] as int)
                    <= (#[trigger] (sym@[a * 9 + a] as int * sym@[b * 9 + b] as int)),
        decreases 9 - ia,
    {
        let mut ib: usize = 0;
        while ib < 9
            invariant
                ia < 9,
                ib <= 9,
                sym@.len() == 81,
                vals_wf(sym@),
                forall|b: int|
                    0 <= b < ib ==> (sym@[ia as int * 9 + b] as int) * (sym@[ia as int * 9
                        + b] as int) <= (#[trigger] (sym@[ia as int * 9 + ia as int] as int * sym@[
                        b * 9 + b] as int)),
            decreases 9 - ib,
        {
            let off = mget(&sym, ia, ib, 9);
            let daa = mget(&sym, ia, ia, 9);
            let dbb = mget(&sym, ib, ib, 9);
            proof {
                assert(-170141183460469231731687303715884105727int <= (off as int) * (off as int)
                    <= 170141183460469231731687303715884105727int
                    && -170141183460469231731687303715884105727int <= (daa as int) * (dbb as int)
                    <= 170141183460469231731687303715884105727int) by (nonlinear_arith)
                    requires
                        crate::fx::fx_wf(off as int),
                        crate::fx::fx_wf(daa as int),
                        crate::fx::fx_wf(dbb as int),
                ;
            }
            if off * off > daa * dbb {
                return None;
            }
            ib = ib + 1;
        }
        ia = ia + 1;
    }
    // Package as rows.
    let mut out: Vec<Vec<i128>> = Vec::new();
    let mut i: usize = 0;
    while i < 9
        invariant
            i <= 9,
            sym@.len() == 81,
            vals_wf(sym@),
            out@.len() == i,
            forall|r0: int| 0 <= r0 < i ==> (#[trigger] out@[r0])@.len() == 9 && vals_wf(out@[r0]@),
            forall|r0: int, c0: int|
                0 <= r0 < i && 0 <= c0 < 9 ==> (#[trigger] out@[r0]@[c0]) == sym@[r0 * 9 + c0],
        decreases 9 - i,
    {
        let mut row: Vec<i128> = Vec::new();
        let mut j2: usize = 0;
        while j2 < 9
            invariant
                i < 9,
                j2 <= 9,
                sym@.len() == 81,
                vals_wf(sym@),
                row@.len() == j2,
                vals_wf(row@),
                forall|c0: int| 0 <= c0 < j2 ==> (#[trigger] row@[c0]) == sym@[i * 9 + c0],
            decreases 9 - j2,
        {
            let v = mget(&sym, i, j2, 9);
            row.push(v);
            j2 = j2 + 1;
        }
        out.push(row);
        i = i + 1;
    }
    proof {
        assert forall|i0: int| 0 <= i0 < 9 implies (#[trigger] out@[i0])@[i0] >= 0 by {
            assert(out@[i0]@[i0] == sym@[i0 * 9 + i0]);
        }
        assert forall|i0: int, j0: int| 0 <= i0 < 9 && 0 <= j0 < 9 implies (out@[i0]@[j0] as int)
            * (out@[i0]@[j0] as int) <= (out@[i0]@[i0] as int) * (out@[j0]@[j0] as int) by {
            assert(out@[i0]@[j0] == sym@[i0 * 9 + j0]);
            assert(out@[i0]@[i0] == sym@[i0 * 9 + i0]);
            assert(out@[j0]@[j0] == sym@[j0 * 9 + j0]);
        }
        assert forall|i0: int, j0: int| 0 <= i0 < 9 && 0 <= j0 < 9 implies out@[i0]@[j0]
            == out@[j0]@[i0] by {
            assert(out@[i0]@[j0] == sym@[i0 * 9 + j0]);
            assert(out@[j0]@[i0] == sym@[j0 * 9 + i0]);
            assert((i0 * 9 + j0) % 9 == j0 && (i0 * 9 + j0) / 9 == i0) by (nonlinear_arith)
                requires
                    0 <= i0 < 9,
                    0 <= j0 < 9,
            ;
            assert((j0 * 9 + i0) % 9 == i0 && (j0 * 9 + i0) / 9 == j0) by (nonlinear_arith)
                requires
                    0 <= i0 < 9,
                    0 <= j0 < 9,
            ;
            assert(sym@[i0 * 9 + j0] as int == crate::fx::tdiv(
                cov9@[i0 * 9 + j0] as int + cov9@[j0 * 9 + i0] as int,
                2,
            ));
            assert(sym@[j0 * 9 + i0] as int == crate::fx::tdiv(
                cov9@[j0 * 9 + i0] as int + cov9@[i0 * 9 + j0] as int,
                2,
            ));
        }
    }
    Some(out)
}

// ---------------------------------------------------------------------------
// Boundary conversions.
// ---------------------------------------------------------------------------

/// The reported latitude: the anchor latitude shifted by the northing in
/// metres per degree, kept at the anchor when a step leaves range.
pub open spec fn lat_out_spec(north: int, lat0: int) -> int {
    match crate::fx::fx_div_spec(north, crate::project::M_PER_DEG as int) {
        Some(d) => match crate::fx::fx_add_spec(lat0, d) {
            Some(v) => v,
            None => lat0,
        },
        None => lat0,
    }
}

/// The reported longitude: the anchor longitude shifted by the easting over
/// metres per degree and the anchor-latitude cosine, kept at the anchor when
/// a step leaves range.
pub open spec fn lon_out_spec(east: int, lat0: int, lon0: int) -> int {
    let c = match crate::trig::cos_fx(lat0) {
        Some(v) => if v == 0 {
            FX_ONE as int
        } else {
            v
        },
        None => FX_ONE as int,
    };
    match crate::fx::fx_div_spec(east, crate::project::M_PER_DEG as int) {
        Some(t1) => match crate::fx::fx_div_spec(t1, c) {
            Some(t2) => match crate::fx::fx_add_spec(lon0, t2) {
                Some(v) => v,
                None => lon0,
            },
            None => lon0,
        },
        None => lon0,
    }
}

/// Geodetic pose with Euler angles from a solver state: the one place
/// orientation leaves its matrix form.
pub fn state_to_pose(st: &CamState, lat0: i128, lon0: i128) -> (p: crate::types::Pose)
    requires
        state_wf(*st),
        fx_wf(lat0 as int),
        fx_wf(lon0 as int),
    ensures
        crate::types::pose_wf(p),
        p.alt == st.pos.z,
        p.lat as int == lat_out_spec(st.pos.y as int, lat0 as int),
        p.lon as int == lon_out_spec(st.pos.x as int, lat0 as int, lon0 as int),
        -crate::trig::D180 <= p.yaw_deg <= crate::trig::D180,
        -crate::trig::D90 <= p.pitch_deg <= crate::trig::D90,
        -crate::trig::D180 <= p.roll_deg <= crate::trig::D180,
{
    let yaw = crate::trig::atan2_deg(st.rot.r20, st.rot.r21);
    let pitch = crate::trig::asin_deg(st.rot.r22);
    let roll = crate::trig::atan2_deg(-st.rot.r02, -st.rot.r12);
    let lat: i128 = match fx_div(st.pos.y, crate::project::M_PER_DEG) {
        Some(d) => match fx_add(lat0, d) {
            Some(v) => v,
            None => lat0,
        },
        None => lat0,
    };
    let cosl: i128 = match cos_deg(lat0) {
        Some(v) => {
            if v == 0 {
                FX_ONE
            } else {
                v
            }
        },
        None => FX_ONE,
    };
    let lon: i128 = match fx_div(st.pos.x, crate::project::M_PER_DEG) {
        Some(t1) => match fx_div(t1, cosl) {
            Some(t2) => match fx_add(lon0, t2) {
                Some(v) => v,
                None => lon0,
            },
            None => lon0,
        },
        None => lon0,
    };
    crate::types::Pose { lat, lon, alt: st.pos.z, yaw_deg: yaw, pitch_deg: pitch, roll_deg: roll }
}

/// The fallback state when no consensus hypothesis could be formed: the
/// camera at the anchor looking north with the prior intrinsics.
pub fn fallback_state(f0: i128, cx0: i128, cy0: i128) -> (r: CamState)
    requires
        fx_wf(f0 as int),
        f0 > 0,
        fx_wf(cx0 as int),
        fx_wf(cy0 as int),
    ensures
        state_wf(r),
{
    // World-to-camera rows of the zero-angle pose: camera x is east,
    // camera y is down, camera z is north.
    let rot = Rot3 {
        r00: FX_ONE,
        r01: 0,
        r02: 0,
        r10: 0,
        r11: 0,
        r12: -FX_ONE,
        r20: 0,
        r21: FX_ONE,
        r22: 0,
    };
    CamState { rot, pos: Point3 { x: 0, y: 0, z: 0 }, f: f0, cx: cx0, cy: cy0 }
}

} // verus!
