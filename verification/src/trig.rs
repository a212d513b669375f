//! Fixed-point trigonometry.
//!
//! Angles are degrees in 64.32 fixed point.  `sin_deg` and `cos_deg` carry an
//! exact specification (`sin_fx` / `cos_fx`): quadrant reduction followed by a
//! truncated Taylor series evaluated in fixed point.  The inverse functions
//! (`atan2_deg`, `asin_deg`) are used only to report Euler angles at the
//! output boundary and promise well-formedness and range bounds.

use vstd::prelude::*;
use crate::fx::FX_ONE;
use crate::fx::fx_abs;
use crate::fx::fx_add;
use crate::fx::fx_div;
use crate::fx::fx_mul;
use crate::fx::fx_mul_spec;
use crate::fx::fx_sqrt;
use crate::fx::fx_sub;
use crate::fx::fx_wf;
use crate::ops::oadd;
use crate::ops::oadd_spec;
use crate::ops::odiv;
use crate::ops::odiv_spec;
use crate::ops::omul;
use crate::ops::omul_spec;
use crate::ops::osub;
use crate::ops::osub_spec;
use crate::ops::ov;
use crate::ops::owf;
use vstd::math::abs;

verus! {

/// One degree expressed in radians, in 64.32 fixed point.
pub const RAD_PER_DEG: i128 = 74961321;

/// 360 degrees in fixed point.
pub const D360: i128 = 1546188226560;

/// 90 degrees in fixed point.
pub const D90: i128 = 386547056640;

/// 180 degrees in fixed point.
pub const D180: i128 = 773094113280;

/// 45 degrees in fixed point.
pub const D45: i128 = 193273528320;

/// tan(22.5 degrees) in fixed point, the fold point of the arctangent
/// argument reduction.
pub const T225: i128 = 1779033704;

/// Negation over optional fixed-point values.
pub open spec fn oneg_spec(a: Option<int>) -> Option<int> {
    match a {
        Some(v) => Some(-v),
        None => None,
    }
}

pub fn oneg(a: Option<i128>) -> (r: Option<i128>)
    requires
        owf(a),
    ensures
        ov(r) == oneg_spec(ov(a)),
        owf(r),
{
    match a {
        Some(v) => Some(-v),
        None => None,
    }
}

/// An angle reduced to `[0, 360)` degrees, matching truncating remainder on
/// the magnitude.
pub open spec fn wrap360(d: int) -> int {
    let m = (abs(d) % (D360 as nat)) as int;
    if d >= 0 {
        m
    } else if m == 0 {
        0
    } else {
        (D360 as int) - m
    }
}

fn wrap_deg(d: i128) -> (r: i128)
    requires
        fx_wf(d as int),
    ensures
        r as int == wrap360(d as int),
        0 <= r < D360,
{
    let ud: u128 = if d < 0 {
        (-d) as u128
    } else {
        d as u128
    };
    let m: u128 = ud % (D360 as u128);
    if d >= 0 {
        m as i128
    } else if m == 0 {
        0
    } else {
        D360 - (m as i128)
    }
}

/// Truncated Taylor series for sine, on a fixed-point radian argument.
pub open spec fn sin_taylor(x: Option<int>) -> Option<int> {
    let x2 = omul_spec(x, x);
    let t3 = odiv_spec(odiv_spec(omul_spec(x, x2), Some(2 * (FX_ONE as int))), Some(3 * (FX_ONE as int)));
    let t5 = odiv_spec(odiv_spec(omul_spec(t3, x2), Some(4 * (FX_ONE as int))), Some(5 * (FX_ONE as int)));
    let t7 = odiv_spec(odiv_spec(omul_spec(t5, x2), Some(6 * (FX_ONE as int))), Some(7 * (FX_ONE as int)));
    let t9 = odiv_spec(odiv_spec(omul_spec(t7, x2), Some(8 * (FX_ONE as int))), Some(9 * (FX_ONE as int)));
    let t11 = odiv_spec(odiv_spec(omul_spec(t9, x2), Some(10 * (FX_ONE as int))), Some(11 * (FX_ONE as int)));
    let t13 = odiv_spec(odiv_spec(omul_spec(t11, x2), Some(12 * (FX_ONE as int))), Some(13 * (FX_ONE as int)));
    oadd_spec(
        osub_spec(oadd_spec(osub_spec(oadd_spec(osub_spec(x, t3), t5), t7), t9), t11),
        t13,
    )
}

/// Truncated Taylor series for cosine, on a fixed-point radian argument.
pub open spec fn cos_taylor(x: Option<int>) -> Option<int> {
    let x2 = omul_spec(x, x);
    let t2 = odiv_spec(x2, Some(2 * (FX_ONE as int)));
    let t4 = odiv_spec(odiv_spec(omul_spec(t2, x2), Some(3 * (FX_ONE as int))), Some(4 * (FX_ONE as int)));
    let t6 = odiv_spec(odiv_spec(omul_spec(t4, x2), Some(5 * (FX_ONE as int))), Some(6 * (FX_ONE as int)));
    let t8 = odiv_spec(odiv_spec(omul_spec(t6, x2), Some(7 * (FX_ONE as int))), Some(8 * (FX_ONE as int)));
    let t10 = odiv_spec(odiv_spec(omul_spec(t8, x2), Some(9 * (FX_ONE as int))), Some(10 * (FX_ONE as int)));
    let t12 = odiv_spec(odiv_spec(omul_spec(t10, x2), Some(11 * (FX_ONE as int))), Some(12 * (FX_ONE as int)));
    let t14 = odiv_spec(odiv_spec(omul_spec(t12, x2), Some(13 * (FX_ONE as int))), Some(14 * (FX_ONE as int)));
    osub_spec(
        oadd_spec(
            osub_spec(
                oadd_spec(osub_spec(oadd_spec(osub_spec(Some(FX_ONE as int), t2), t4), t6), t8),
                t10,
            ),
            t12,
        ),
        t14,
    )
}

fn sin_taylor_exec(x: Option<i128>) -> (r: Option<i128>)
    requires
        owf(x),
    ensures
        ov(r) == sin_taylor(ov(x)),
        owf(r),
{
    let x2 = omul(x, x);
    let t3 = odiv(odiv(omul(x, x2), Some(2 * FX_ONE)), Some(3 * FX_ONE));
    let t5 = odiv(odiv(omul(t3, x2), Some(4 * FX_ONE)), Some(5 * FX_ONE));
    let t7 = odiv(odiv(omul(t5, x2), Some(6 * FX_ONE)), Some(7 * FX_ONE));
    let t9 = odiv(odiv(omul(t7, x2), Some(8 * FX_ONE)), Some(9 * FX_ONE));
    let t11 = odiv(odiv(omul(t9, x2), Some(10 * FX_ONE)), Some(11 * FX_ONE));
    let t13 = odiv(odiv(omul(t11, x2), Some(12 * FX_ONE)), Some(13 * FX_ONE));
    oadd(osub(oadd(osub(oadd(osub(x, t3), t5), t7), t9), t11), t13)
}

fn cos_taylor_exec(x: Option<i128>) -> (r: Option<i128>)
    requires
        owf(x),
    ensures
        ov(r) == cos_taylor(ov(x)),
        owf(r),
{
    let x2 = omul(x, x);
    let t2 = odiv(x2, Some(2 * FX_ONE));
    let t4 = odiv(odiv(omul(t2, x2), Some(3 * FX_ONE)), Some(4 * FX_ONE));
    let t6 = odiv(odiv(omul(t4, x2), Some(5 * FX_ONE)), Some(6 * FX_ONE));
    let t8 = odiv(odiv(omul(t6, x2), Some(7 * FX_ONE)), Some(8 * FX_ONE));
    let t10 = odiv(odiv(omul(t8, x2), Some(9 * FX_ONE)), Some(10 * FX_ONE));
    let t12 = odiv(odiv(omul(t10, x2), Some(11 * FX_ONE)), Some(12 * FX_ONE));
    let t14 = odiv(odiv(omul(t12, x2), Some(13 * FX_ONE)), Some(14 * FX_ONE));
    osub(oadd(osub(oadd(osub(oadd(osub(Some(FX_ONE), t2), t4), t6), t8), t10), t12), t14)
}

/// Exact value of `sin_deg`: quadrant reduction, then the Taylor series.
pub open spec fn sin_fx(d: int) -> Option<int> {
    let w = wrap360(d);
    let q = w / (D90 as int);
    let f = w - q * (D90 as int);
    let x = fx_mul_spec(f, RAD_PER_DEG as int);
    if q == 0 {
        sin_taylor(x)
    } else if q == 1 {
        cos_taylor(x)
    } else if q == 2 {
        oneg_spec(sin_taylor(x))
    } else {
        oneg_spec(cos_taylor(x))
    }
}

/// Exact value of `cos_deg`: quadrant reduction, then the Taylor series.
pub open spec fn cos_fx(d: int) -> Option<int> {
    let w = wrap360(d);
    let q = w / (D90 as int);
    let f = w - q * (D90 as int);
    let x = fx_mul_spec(f, RAD_PER_DEG as int);
    if q == 0 {
        cos_taylor(x)
    } else if q == 1 {
        oneg_spec(sin_taylor(x))
    } else if q == 2 {
        oneg_spec(cos_taylor(x))
    } else {
        sin_taylor(x)
    }
}

/// Sine of a fixed-point angle in degrees.
pub fn sin_deg(d: i128) -> (r: Option<i128>)
    requires
        fx_wf(d as int),
    ensures
        ov(r) == sin_fx(d as int),
        owf(r),
{
    let w = wrap_deg(d);
    let qu: u128 = (w as u128) / (D90 as u128);
    let q: i128 = qu as i128;
    assert(q as int == (w as int) / (D90 as int));
    let f: i128 = w - q * D90;
    let x = fx_mul(f, RAD_PER_DEG);
    if q == 0 {
        sin_taylor_exec(x)
    } else if q == 1 {
        cos_taylor_exec(x)
    } else if q == 2 {
        oneg(sin_taylor_exec(x))
    } else {
        oneg(cos_taylor_exec(x))
    }
}

/// Cosine of a fixed-point angle in degrees.
pub fn cos_deg(d: i128) -> (r: Option<i128>)
    requires
        fx_wf(d as int),
    ensures
        ov(r) == cos_fx(d as int),
        owf(r),
{
    let w = wrap_deg(d);
    let qu: u128 = (w as u128) / (D90 as u128);
    let q: i128 = qu as i128;
    assert(q as int == (w as int) / (D90 as int));
    let f: i128 = w - q * D90;
    let x = fx_mul(f, RAD_PER_DEG);
    if q == 0 {
        cos_taylor_exec(x)
    } else if q == 1 {
        oneg(sin_taylor_exec(x))
    } else if q == 2 {
        oneg(cos_taylor_exec(x))
    } else {
        sin_taylor_exec(x)
    }
}

/// A fixed-point value or zero when the checked computation fell out of
/// range; the inverse trigonometry below tolerates that loss because its
/// arguments are already bounded.
fn or_zero(a: Option<i128>) -> (r: i128)
    requires
        owf(a),
    ensures
        fx_wf(r as int),
{
    match a {
        Some(v) => v,
        None => 0,
    }
}

/// Arctangent in degrees of an argument with magnitude at most
/// `tan(22.5 degrees)`, by a truncated odd Taylor series.
fn atan_taylor_deg(u: i128) -> (r: i128)
    requires
        fx_wf(u as int),
        -FX_ONE <= u <= FX_ONE,
    ensures
        fx_wf(r as int),
{
    let u2 = or_zero(fx_mul(u, u));
    let mut term: i128 = u;
    let mut acc: i128 = u;
    let mut k: i128 = 3;
    while k <= 21
        invariant
            fx_wf(u2 as int),
            fx_wf(term as int),
            fx_wf(acc as int),
            3 <= k <= 23,
            k % 2 == 1,
        decreases 23 - k,
    {
        term = or_zero(fx_mul(term, u2));
        term = -term;
        let piece = or_zero(fx_div(term, k * FX_ONE));
        acc = or_zero(fx_add(acc, piece));
        k = k + 2;
    }
    or_zero(fx_div(acc, RAD_PER_DEG))
}

/// Arctangent in degrees of a ratio in `[0, 1]`, folded at 22.5 degrees.
fn atan_unit_deg(t: i128) -> (r: i128)
    requires
        0 <= t <= FX_ONE,
    ensures
        fx_wf(r as int),
{
    if t <= T225 {
        atan_taylor_deg(t)
    } else {
        let num = or_zero(fx_sub(t, FX_ONE));
        let den = or_zero(fx_add(t, FX_ONE));
        let mut u = or_zero(fx_div(num, den));
        if u < -FX_ONE {
            u = -FX_ONE;
        }
        if u > FX_ONE {
            u = FX_ONE;
        }
        or_zero(fx_add(D45, atan_taylor_deg(u)))
    }
}

/// Four-quadrant arctangent, in fixed-point degrees in `[-180, 180]`.
/// Returns zero when both arguments are zero.
pub fn atan2_deg(y: i128, x: i128) -> (r: i128)
    requires
        fx_wf(y as int),
        fx_wf(x as int),
    ensures
        fx_wf(r as int),
        -D180 <= r <= D180,
{
    let ax = fx_abs(x);
    let ay = fx_abs(y);
    if ax == 0 && ay == 0 {
        return 0;
    }
    let base: i128 = if ay <= ax {
        let mut t = or_zero(fx_div(ay, ax));
        if t > FX_ONE {
            t = FX_ONE;
        }
        if t < 0 {
            t = 0;
        }
        atan_unit_deg(t)
    } else {
        let mut t = or_zero(fx_div(ax, ay));
        if t > FX_ONE {
            t = FX_ONE;
        }
        if t < 0 {
            t = 0;
        }
        or_zero(fx_sub(D90, atan_unit_deg(t)))
    };
    let raw: i128 = if x >= 0 && y >= 0 {
        base
    } else if x < 0 && y >= 0 {
        or_zero(fx_sub(D180, base))
    } else if x < 0 {
        or_zero(fx_sub(base, D180))
    } else {
        -base
    };
    if raw > D180 {
        D180
    } else if raw < -D180 {
        -D180
    } else {
        raw
    }
}

/// Arcsine in fixed-point degrees, in `[-90, 90]`; the argument is clamped
/// to `[-1, 1]`.
pub fn asin_deg(s: i128) -> (r: i128)
    requires
        fx_wf(s as int),
    ensures
        fx_wf(r as int),
        -D90 <= r <= D90,
{
    let mut sc = s;
    if sc > FX_ONE {
        sc = FX_ONE;
    }
    if sc < -FX_ONE {
        sc = -FX_ONE;
    }
    let s2 = or_zero(fx_mul(sc, sc));
    let mut c2 = or_zero(fx_sub(FX_ONE, s2));
    if c2 < 0 {
        c2 = 0;
    }
    let c = fx_sqrt(c2);
    let raw = atan2_deg(sc, c);
    if raw > D90 {
        D90
    } else if raw < -D90 {
        -D90
    } else {
        raw
    }
}

} // verus!
