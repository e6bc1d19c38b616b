//! Saturating signed arithmetic, with its value stated over the integers.

use vstd::prelude::*;

verus! {

/// `x` clamped into the `i64` range.
pub open spec fn clamp_i64(x: int) -> i64 {
    if x < i64::MIN {
        i64::MIN
    } else if x > i64::MAX {
        i64::MAX
    } else {
        x as i64
    }
}

/// `x` clamped into the `u64` range.
pub open spec fn clamp_u64(x: int) -> u64 {
    if x < 0 {
        0
    } else if x > u64::MAX {
        u64::MAX
    } else {
        x as u64
    }
}

/// `a - b`, saturating at the `i64` bounds.
pub fn saturating_sub_i64(a: i64, b: i64) -> (r: i64)
    ensures
        r == clamp_i64(a - b),
{
    match a.checked_sub(b) {
        Some(v) => v,
        None => if b > 0 {
            i64::MIN
        } else {
            i64::MAX
        },
    }
}

/// `a + b`, saturating at the `i64` bounds.
pub fn saturating_add_i64(a: i64, b: i64) -> (r: i64)
    ensures
        r == clamp_i64(a + b),
{
    match a.checked_add(b) {
        Some(v) => v,
        None => if b > 0 {
            i64::MAX
        } else {
            i64::MIN
        },
    }
}

/// `a * b`, saturating at the `i64` bounds.
pub fn saturating_mul_i64(a: i64, b: i64) -> (r: i64)
    ensures
        r == clamp_i64(a * b),
{
    match a.checked_mul(b) {
        Some(v) => v,
        None => {
            if (a > 0 && b > 0) || (a < 0 && b < 0) {
                assert(a * b > 0) by (nonlinear_arith)
                    requires
                        (a > 0 && b > 0) || (a < 0 && b < 0),
                ;
                i64::MAX
            } else {
                assert(a * b <= 0) by (nonlinear_arith)
                    requires
                        !((a > 0 && b > 0) || (a < 0 && b < 0)),
                ;
                i64::MIN
            }
        },
    }
}

/// `a + b`, saturating at `u64::MAX`.
pub fn saturating_add_u64(a: u64, b: u64) -> (r: u64)
    ensures
        r == clamp_u64(a + b),
{
    match a.checked_add(b) {
        Some(v) => v,
        None => u64::MAX,
    }
}

/// `a * b`, saturating at `u64::MAX`.
pub fn saturating_mul_u64(a: u64, b: u64) -> (r: u64)
    ensures
        r == clamp_u64(a * b),
{
    match a.checked_mul(b) {
        Some(v) => v,
        None => {
            assert(a * b >= 0) by (nonlinear_arith);
            u64::MAX
        },
    }
}

} // verus!
