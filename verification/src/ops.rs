//! Checked fixed-point operations lifted over `Option`.
//!
//! Every numeric stage of the solver propagates `None` to signal a value that
//! left the representable range, so the combinators here chain fixed-point
//! operations without losing the exact specification of each step.

use vstd::prelude::*;
use crate::fx::FX_ONE;
use crate::fx::fx_add;
use crate::fx::fx_add_spec;
use crate::fx::fx_div;
use crate::fx::fx_div_spec;
use crate::fx::fx_mul;
use crate::fx::fx_mul_spec;
use crate::fx::fx_sqrt;
use crate::fx::fx_sub;
use crate::fx::fx_sub_spec;
use crate::fx::fx_wf;

verus! {

/// Mathematical view of a checked fixed-point value.
pub open spec fn ov(a: Option<i128>) -> Option<int> {
    match a {
        Some(v) => Some(v as int),
        None => None,
    }
}

/// A checked value is well formed when its payload is.
pub open spec fn owf(a: Option<i128>) -> bool {
    a matches Some(v) ==> fx_wf(v as int)
}

/// Checked addition over optional values.
pub open spec fn oadd_spec(a: Option<int>, b: Option<int>) -> Option<int> {
    if a is Some && b is Some {
        fx_add_spec(a->0, b->0)
    } else {
        None
    }
}

/// Checked subtraction over optional values.
pub open spec fn osub_spec(a: Option<int>, b: Option<int>) -> Option<int> {
    if a is Some && b is Some {
        fx_sub_spec(a->0, b->0)
    } else {
        None
    }
}

/// Checked multiplication over optional values.
pub open spec fn omul_spec(a: Option<int>, b: Option<int>) -> Option<int> {
    if a is Some && b is Some {
        fx_mul_spec(a->0, b->0)
    } else {
        None
    }
}

/// Checked division over optional values.
pub open spec fn odiv_spec(a: Option<int>, b: Option<int>) -> Option<int> {
    if a is Some && b is Some {
        fx_div_spec(a->0, b->0)
    } else {
        None
    }
}

/// Whether `r` is the floor square root of `n`.
pub open spec fn is_isqrt(n: int, r: int) -> bool {
    0 <= r && r * r <= n && n < (r + 1) * (r + 1)
}

/// The floor square root of a non-negative integer.
pub open spec fn isqrt_of(n: int) -> int {
    choose|r: int| is_isqrt(n, r)
}

pub proof fn lemma_isqrt_is(n: int, r: int)
    requires
        is_isqrt(n, r),
    ensures
        isqrt_of(n) == r,
{
    assert(exists|x: int| is_isqrt(n, x));
    let c = choose|x: int| is_isqrt(n, x);
    assert(c == r) by (nonlinear_arith)
        requires
            is_isqrt(n, c),
            is_isqrt(n, r),
    ;
}

/// Checked square root over optional values: the floor square root of
/// `v * FX_ONE` for a non-negative payload `v`.
pub open spec fn osqrt_spec(a: Option<int>) -> Option<int> {
    match a {
        Some(v) => if 0 <= v {
            Some(isqrt_of(v * (FX_ONE as int)))
        } else {
            None
        },
        None => None,
    }
}

pub fn oadd(a: Option<i128>, b: Option<i128>) -> (r: Option<i128>)
    requires
        owf(a),
        owf(b),
    ensures
        ov(r) == oadd_spec(ov(a), ov(b)),
        owf(r),
{
    match (a, b) {
        (Some(x), Some(y)) => fx_add(x, y),
        _ => None,
    }
}

pub fn osub(a: Option<i128>, b: Option<i128>) -> (r: Option<i128>)
    requires
        owf(a),
        owf(b),
    ensures
        ov(r) == osub_spec(ov(a), ov(b)),
        owf(r),
{
    match (a, b) {
        (Some(x), Some(y)) => fx_sub(x, y),
        _ => None,
    }
}

pub fn omul(a: Option<i128>, b: Option<i128>) -> (r: Option<i128>)
    requires
        owf(a),
        owf(b),
    ensures
        ov(r) == omul_spec(ov(a), ov(b)),
        owf(r),
{
    match (a, b) {
        (Some(x), Some(y)) => fx_mul(x, y),
        _ => None,
    }
}

pub fn odiv(a: Option<i128>, b: Option<i128>) -> (r: Option<i128>)
    requires
        owf(a),
        owf(b),
    ensures
        ov(r) == odiv_spec(ov(a), ov(b)),
        owf(r),
{
    match (a, b) {
        (Some(x), Some(y)) => fx_div(x, y),
        _ => None,
    }
}

pub fn osqrt(a: Option<i128>) -> (r: Option<i128>)
    requires
        owf(a),
    ensures
        ov(r) == osqrt_spec(ov(a)),
        owf(r),
        r matches Some(v) ==> v >= 0,
{
    match a {
        Some(v) => {
            if v >= 0 {
                let s = fx_sqrt(v);
                proof {
                    lemma_isqrt_is((v as int) * (FX_ONE as int), s as int);
                }
                Some(s)
            } else {
                None
            }
        },
        None => None,
    }
}

} // verus!
