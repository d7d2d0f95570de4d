//! Exact rational results.

use vstd::prelude::*;

verus! {

/// An exact non-negative rational number `num / den`.
///
/// Every metric of this crate is a ratio of two integers, so results are
/// returned in this form instead of an already-rounded float. A denominator
/// of zero (a frame time of zero microseconds inverted into FPS) is kept as
/// is; the caller decides how to display it.
#[derive(Clone, Copy, Debug, PartialEq, Eq, Structural)]
pub struct Ratio {
    /// Numerator.
    pub num: u128,
    /// Denominator.
    pub den: u128,
}

/// `r` denotes the same rational number as `num / den`, compared by
/// cross-multiplication so that unreduced forms are equal.
pub open spec fn ratio_represents(r: Ratio, num: int, den: int) -> bool {
    r.num * den == num * r.den
}

impl Ratio {
    /// Builds the ratio `num / den`.
    pub fn new(num: u128, den: u128) -> (r: Ratio)
        ensures
            r.num == num,
            r.den == den,
    {
        Ratio { num, den }
    }
}

} // verus!
