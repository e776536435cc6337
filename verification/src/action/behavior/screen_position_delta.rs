use crate::binding::Mouse;
use crate::binding::MouseAxis;
use crate::binding::Source;
use crate::math;
use crate::math::Scalar;
use vstd::prelude::*;

verus! {

/// A map behavior: normalizes a pixel delta by the screen width or
/// height, so a movement across the whole screen in one update yields
/// plus or minus one unit. Applies only to mouse-move sources; any
/// other source's value passes through unchanged.
#[derive(Debug, Clone, Copy, PartialEq, Eq, Structural)]
pub struct ScreenPositionDelta;

/// The delta divided by the screen extent on the moved axis (zero when
/// that extent is zero); values from sources other than a mouse move
/// pass through unchanged.
pub open spec fn screen_position_delta_map_spec(
    source: Source,
    value: int,
    screen_size: (int, int),
) -> int {
    match source {
        Source::Mouse(Mouse::Move(MouseAxis::MouseX)) => math::div_scaled_spec(
            value,
            screen_size.0,
        ),
        Source::Mouse(Mouse::Move(MouseAxis::MouseY)) => math::div_scaled_spec(
            value,
            screen_size.1,
        ),
        _ => value,
    }
}

impl ScreenPositionDelta {
    /// Normalize a mouse-move delta by the screen extent on its axis.
    pub fn map(&self, source: Source, value: Scalar, screen_size: (u64, u64)) -> (r: Scalar)
        ensures
            r as int == screen_position_delta_map_spec(
                source,
                value as int,
                (screen_size.0 as int, screen_size.1 as int),
            ),
    {
        match source {
            Source::Mouse(Mouse::Move(MouseAxis::MouseX)) => math::div_scaled(
                value,
                screen_size.0,
            ),
            Source::Mouse(Mouse::Move(MouseAxis::MouseY)) => math::div_scaled(
                value,
                screen_size.1,
            ),
            _ => value,
        }
    }
}

} // verus!
