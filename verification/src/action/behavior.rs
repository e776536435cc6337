//! The scalar transforms a binding can apply to a raw sample: each is
//! either a per-value map or an aggregating fold over sibling values.

use crate::action::behavior::average::average_fold_spec;
use crate::action::behavior::multiplier::multiplier_map_spec;
use crate::action::behavior::screen_position_delta::screen_position_delta_map_spec;
use crate::action::behavior::virtual_axis::virtual_axis_map_spec;
use crate::binding::Source;
use crate::math::Scalar;
use vstd::prelude::*;

mod average;
mod multiplier;
mod screen_position_delta;
mod virtual_axis;

pub use average::Average;
pub use multiplier::Multiplier;
pub use screen_position_delta::ScreenPositionDelta;
pub use virtual_axis::VirtualAxis;
pub use virtual_axis::VirtualAxisReverse;

verus! {

/// Whether a behavior transforms each value on its own (map) or
/// collapses a vector of sibling values into one (fold).
#[derive(Debug, Clone, Copy, PartialEq, Eq, Structural)]
pub enum Kind {
    /// Transforms each value on its own.
    Elementwise,
    /// Collapses a vector of sibling values into one.
    Fold,
}

/// A scalar transform a binding can apply: a closed set of variants
/// dispatched by matching, in place of virtual dispatch.
#[derive(Debug, Clone, Copy, PartialEq, Eq, Structural)]
pub enum Behavior {
    Multiplier(Multiplier),
    ScreenPositionDelta(ScreenPositionDelta),
    VirtualAxis(VirtualAxis),
    Average(Average),
}

impl Behavior {
    /// Whether this behavior maps single values or folds a vector.
    pub open spec fn kind_spec(self) -> Kind {
        match self {
            Behavior::Average(_) => Kind::Fold,
            _ => Kind::Elementwise,
        }
    }

    /// Whether this behavior maps single values or folds a vector.
    pub fn kind(&self) -> (r: Kind)
        ensures
            r == self.kind_spec(),
    {
        match self {
            Behavior::Average(_) => Kind::Fold,
            _ => Kind::Elementwise,
        }
    }

    /// What a map behavior turns `value` into, given the source that
    /// produced it, the value the same node produced before (`prev`),
    /// the milliseconds since that node last mapped (`dt_ms`), and the
    /// logical screen size in fixed-point units.
    pub open spec fn map_spec(
        self,
        source: Source,
        value: int,
        prev: int,
        dt_ms: int,
        screen_size: (int, int),
    ) -> int {
        match self {
            Behavior::Multiplier(m) => multiplier_map_spec(m, value),
            Behavior::ScreenPositionDelta(s) => screen_position_delta_map_spec(
                source,
                value,
                screen_size,
            ),
            Behavior::VirtualAxis(va) => virtual_axis_map_spec(va, value, prev, dt_ms),
            Behavior::Average(_) => value,
        }
    }

    /// Apply a map behavior to one value. A fold behavior leaves the
    /// value unchanged here; folds run over whole vectors instead.
    pub fn map(
        &self,
        source: Source,
        value: Scalar,
        prev: Scalar,
        dt_ms: u64,
        screen_size: (u64, u64),
    ) -> (r: Scalar)
        ensures
            r as int == self.map_spec(
                source,
                value as int,
                prev as int,
                dt_ms as int,
                (screen_size.0 as int, screen_size.1 as int),
            ),
    {
        match self {
            Behavior::Multiplier(m) => m.map(value),
            Behavior::ScreenPositionDelta(s) => s.map(source, value, screen_size),
            Behavior::VirtualAxis(va) => va.map(value, prev, dt_ms),
            Behavior::Average(_) => value,
        }
    }

    /// What a fold behavior collapses a vector of sibling values into.
    pub open spec fn fold_spec(self, values: Seq<int>) -> int {
        match self {
            Behavior::Average(_) => average_fold_spec(values),
            _ => if values.len() > 0 {
                values[0]
            } else {
                0
            },
        }
    }

    /// Collapse a vector of sibling values into one. A map behavior
    /// yields the first value here; maps run element-wise instead.
    pub fn fold(&self, values: &Vec<Scalar>) -> (r: Scalar)
        ensures
            r as int == self.fold_spec(values@.map_values(|v: Scalar| v as int)),
    {
        match self {
            Behavior::Average(a) => a.fold(values),
            _ => if values.len() > 0 {
                values[0]
            } else {
                0
            },
        }
    }
}

} // verus!
