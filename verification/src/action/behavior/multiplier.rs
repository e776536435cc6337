use crate::math;
use crate::math::Scalar;
use vstd::prelude::*;

verus! {

/// A map behavior: scales each value by a fixed-point gain.
#[derive(Debug, Clone, Copy, PartialEq, Eq, Structural)]
pub struct Multiplier(pub Scalar);

/// The value scaled by the gain, truncated toward zero and clamped.
pub open spec fn multiplier_map_spec(m: Multiplier, value: int) -> int {
    math::mul_scaled_spec(value, m.0 as int)
}

impl Multiplier {
    /// Scale the value by this gain.
    pub fn map(&self, value: Scalar) -> (r: Scalar)
        ensures
            r as int == multiplier_map_spec(*self, value as int),
    {
        math::mul_scaled(value, self.0)
    }
}

} // verus!
