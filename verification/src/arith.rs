//! Rust's integer division and remainder on signed values, which round toward zero.

use vstd::prelude::*;

verus! {

/// Quotient of `a / b` as Rust computes it for signed integers (rounded toward zero), for `b > 0`.
pub open spec fn trunc_div(a: int, b: int) -> int {
    if a >= 0 {
        a / b
    } else {
        -((-a) / b)
    }
}

/// Remainder of `a % b` as Rust computes it for signed integers (same sign as `a`), for `b > 0`.
pub open spec fn trunc_rem(a: int, b: int) -> int {
    if a >= 0 {
        a % b
    } else {
        -((-a) % b)
    }
}

} // verus!
