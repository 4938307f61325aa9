//! Saturating 64-bit arithmetic used by the drift detector and the repair
//! planners: timeline sums stay total functions instead of carrying
//! overflow preconditions through every contract. On any input a real
//! recording can produce, no operation here ever saturates.
use vstd::prelude::*;

verus! {

/// `a + b` clamped into the signed 64-bit range.
pub open spec fn sat_add(a: int, b: int) -> int {
    if a + b > 0x7fffffffffffffff {
        0x7fffffffffffffff
    } else if a + b < -0x8000000000000000 {
        -0x8000000000000000
    } else {
        a + b
    }
}

/// `a - b` clamped into the signed 64-bit range.
pub open spec fn sat_sub(a: int, b: int) -> int {
    if a - b > 0x7fffffffffffffff {
        0x7fffffffffffffff
    } else if a - b < -0x8000000000000000 {
        -0x8000000000000000
    } else {
        a - b
    }
}

/// `|a|` clamped into the signed 64-bit range.
pub open spec fn sat_abs(a: int) -> int {
    if a < 0 {
        if -a > 0x7fffffffffffffff {
            0x7fffffffffffffff
        } else {
            -a
        }
    } else {
        a
    }
}

/// Saturating addition.
pub fn sat_add_i64(a: i64, b: i64) -> (r: i64)
    ensures
        r == sat_add(a as int, b as int),
{
    if b >= 0 {
        if a > i64::MAX - b {
            i64::MAX
        } else {
            a + b
        }
    } else {
        if a < i64::MIN - b {
            i64::MIN
        } else {
            a + b
        }
    }
}

/// Saturating subtraction.
pub fn sat_sub_i64(a: i64, b: i64) -> (r: i64)
    ensures
        r == sat_sub(a as int, b as int),
{
    if b >= 0 {
        if a < i64::MIN + b {
            i64::MIN
        } else {
            a - b
        }
    } else {
        if a > i64::MAX + b {
            i64::MAX
        } else {
            a - b
        }
    }
}

/// Saturating absolute value.
pub fn sat_abs_i64(a: i64) -> (r: i64)
    ensures
        r == sat_abs(a as int),
{
    if a == i64::MIN {
        i64::MAX
    } else if a < 0 {
        -a
    } else {
        a
    }
}

} // verus!
