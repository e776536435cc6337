use crate::math;
use crate::math::Scalar;
use vstd::prelude::*;

verus! {

/// A fold behavior: collapses sibling values to their arithmetic mean.
#[derive(Debug, Clone, Copy, PartialEq, Eq, Structural)]
pub struct Average;

/// The arithmetic mean of the values, truncated toward zero and clamped;
/// zero for an empty vector.
pub open spec fn average_fold_spec(values: Seq<int>) -> int {
    math::average_spec(values)
}

impl Average {
    /// The arithmetic mean of the values.
    pub fn fold(&self, values: &Vec<Scalar>) -> (r: Scalar)
        ensures
            r as int == average_fold_spec(values@.map_values(|v: Scalar| v as int)),
    {
        math::average(values)
    }
}

} // verus!
