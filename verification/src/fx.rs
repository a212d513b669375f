//! Signed 64.32 fixed-point arithmetic over `i128`.
//!
//! A real value `x` is represented by the integer `round(x * FX_ONE)` with
//! `FX_ONE = 2^32`.  Every well-formed value keeps its magnitude at most
//! `FX_LIM = 2^62`, which leaves enough headroom in `i128`/`u128` for every
//! intermediate product these operations form.  Each operation returns `None`
//! exactly when its mathematical result falls outside that range, so callers
//! can recover from numeric blow-ups instead of overflowing.

use vstd::prelude::*;
use vstd::math::abs;

verus! {

/// Scale of the fixed-point representation: 2^32.
pub const FX_ONE: i128 = 4294967296;

/// Magnitude bound of every well-formed fixed-point value: 2^62.
pub const FX_LIM: i128 = 4611686018427387904;

/// A fixed-point value is well formed when its magnitude is at most `FX_LIM`.
pub open spec fn fx_wf(a: int) -> bool {
    -(FX_LIM as int) <= a <= FX_LIM as int
}

/// Truncating (round-toward-zero) division, the rounding used by every
/// fixed-point operation here.
pub open spec fn tdiv(a: int, d: int) -> int
    recommends
        d != 0,
{
    let q = (abs(a) / abs(d)) as int;
    if (a >= 0 && d >= 0) || (a <= 0 && d <= 0) {
        q
    } else {
        -q
    }
}

/// Exact value of a fixed-point sum; `None` when out of range.
pub open spec fn fx_add_spec(a: int, b: int) -> Option<int> {
    if fx_wf(a + b) {
        Some(a + b)
    } else {
        None
    }
}

/// Exact value of a fixed-point difference; `None` when out of range.
pub open spec fn fx_sub_spec(a: int, b: int) -> Option<int> {
    if fx_wf(a - b) {
        Some(a - b)
    } else {
        None
    }
}

/// Exact value of a fixed-point product; `None` when out of range.
pub open spec fn fx_mul_spec(a: int, b: int) -> Option<int> {
    let v = tdiv(a * b, FX_ONE as int);
    if fx_wf(v) {
        Some(v)
    } else {
        None
    }
}

/// Exact value of a fixed-point quotient; `None` on a zero divisor or when
/// out of range.
pub open spec fn fx_div_spec(a: int, b: int) -> Option<int> {
    if b == 0 {
        None
    } else {
        let v = tdiv(a * (FX_ONE as int), b);
        if fx_wf(v) {
            Some(v)
        } else {
            None
        }
    }
}

proof fn lemma_abs_mul(a: int, b: int)
    ensures
        abs(a * b) == abs(a) * abs(b),
        a * b >= 0 <==> (a >= 0 && b >= 0) || (a <= 0 && b <= 0),
{
    assert(abs(a * b) == abs(a) * abs(b) && (a * b >= 0 <==> (a >= 0 && b >= 0) || (a <= 0 && b
        <= 0))) by (nonlinear_arith);
}

/// Fixed-point addition.
pub fn fx_add(a: i128, b: i128) -> (r: Option<i128>)
    requires
        fx_wf(a as int),
        fx_wf(b as int),
    ensures
        r matches Some(v) ==> Some(v as int) == fx_add_spec(a as int, b as int),
        r is None ==> fx_add_spec(a as int, b as int) is None,
        r matches Some(v) ==> fx_wf(v as int),
{
    let s: i128 = a + b;
    if -FX_LIM <= s && s <= FX_LIM {
        Some(s)
    } else {
        None
    }
}

/// Fixed-point subtraction.
pub fn fx_sub(a: i128, b: i128) -> (r: Option<i128>)
    requires
        fx_wf(a as int),
        fx_wf(b as int),
    ensures
        r matches Some(v) ==> Some(v as int) == fx_sub_spec(a as int, b as int),
        r is None ==> fx_sub_spec(a as int, b as int) is None,
        r matches Some(v) ==> fx_wf(v as int),
{
    let s: i128 = a - b;
    if -FX_LIM <= s && s <= FX_LIM {
        Some(s)
    } else {
        None
    }
}

/// Magnitude of a well-formed value as a `u128`.
fn mag(a: i128) -> (r: u128)
    requires
        fx_wf(a as int),
    ensures
        r as int == abs(a as int),
{
    if a < 0 {
        (-a) as u128
    } else {
        a as u128
    }
}

/// Fixed-point multiplication: `(a * b) / FX_ONE`, truncated toward zero.
pub fn fx_mul(a: i128, b: i128) -> (r: Option<i128>)
    requires
        fx_wf(a as int),
        fx_wf(b as int),
    ensures
        r matches Some(v) ==> Some(v as int) == fx_mul_spec(a as int, b as int),
        r is None ==> fx_mul_spec(a as int, b as int) is None,
        r matches Some(v) ==> fx_wf(v as int),
{
    let neg: bool = (a < 0) != (b < 0);
    let ua: u128 = mag(a);
    let ub: u128 = mag(b);
    proof {
        lemma_abs_mul(a as int, b as int);
        assert(ua * ub <= (FX_LIM as u128) * (FX_LIM as u128)) by (nonlinear_arith)
            requires
                ua <= FX_LIM as u128,
                ub <= FX_LIM as u128,
        ;
    }
    let p: u128 = ua * ub;
    let q: u128 = p / (FX_ONE as u128);
    assert(q as int == abs((a as int) * (b as int)) / abs(FX_ONE as int));
    let out: i128 = if neg {
        -(q as i128)
    } else {
        q as i128
    };
    assert(out as int == tdiv((a as int) * (b as int), FX_ONE as int));
    if -FX_LIM <= out && out <= FX_LIM {
        Some(out)
    } else {
        None
    }
}

/// Fixed-point division: `(a * FX_ONE) / b`, truncated toward zero.
pub fn fx_div(a: i128, b: i128) -> (r: Option<i128>)
    requires
        fx_wf(a as int),
        fx_wf(b as int),
    ensures
        r matches Some(v) ==> Some(v as int) == fx_div_spec(a as int, b as int),
        r is None ==> fx_div_spec(a as int, b as int) is None,
        r matches Some(v) ==> fx_wf(v as int),
{
    if b == 0 {
        return None;
    }
    let neg: bool = (a < 0) != (b < 0);
    let ua: u128 = mag(a);
    let ub: u128 = mag(b);
    proof {
        lemma_abs_mul(a as int, FX_ONE as int);
        assert(ua * (FX_ONE as u128) <= (FX_LIM as u128) * (FX_ONE as u128)) by (nonlinear_arith)
            requires
                ua <= FX_LIM as u128,
        ;
    }
    let p: u128 = ua * (FX_ONE as u128);
    let q: u128 = p / ub;
    proof {
        assert(p / ub <= p) by (nonlinear_arith)
            requires
                ub >= 1,
        ;
    }
    assert(q as int == abs((a as int) * (FX_ONE as int)) / abs(b as int));
    let out: i128 = if neg {
        -(q as i128)
    } else {
        q as i128
    };
    assert(out as int == tdiv((a as int) * (FX_ONE as int), b as int));
    if -FX_LIM <= out && out <= FX_LIM {
        Some(out)
    } else {
        None
    }
}

/// Fixed-point square root: the greatest `r` with `r * r <= a * FX_ONE`.
pub fn fx_sqrt(a: i128) -> (r: i128)
    requires
        0 <= a,
        fx_wf(a as int),
    ensures
        0 <= r,
        fx_wf(r as int),
        (r as int) * (r as int) <= (a as int) * (FX_ONE as int),
        (a as int) * (FX_ONE as int) < ((r as int) + 1) * ((r as int) + 1),
{
    proof {
        assert((a as u128) * (FX_ONE as u128) < 281474976710656u128 * 281474976710656u128)
            by (nonlinear_arith)
            requires
                a as u128 <= FX_LIM as u128,
        ;
    }
    let n: u128 = (a as u128) * (FX_ONE as u128);
    let mut lo: u128 = 0;
    let mut hi: u128 = 281474976710656;
    while lo + 1 < hi
        invariant
            lo < hi,
            hi <= 281474976710656,
            (lo as int) * (lo as int) <= n as int,
            (n as int) < (hi as int) * (hi as int),
        decreases hi - lo,
    {
        let mid: u128 = lo + (hi - lo) / 2;
        proof {
            assert(mid * mid <= 281474976710656u128 * 281474976710656u128) by (nonlinear_arith)
                requires
                    mid <= 281474976710656u128,
            ;
        }
        if mid * mid <= n {
            lo = mid;
        } else {
            hi = mid;
        }
    }
    lo as i128
}

/// Magnitude of a fixed-point value.
pub fn fx_abs(a: i128) -> (r: i128)
    requires
        fx_wf(a as int),
    ensures
        r as int == abs(a as int),
        fx_wf(r as int),
        r >= 0,
{
    if a < 0 {
        -a
    } else {
        a
    }
}

} // verus!
