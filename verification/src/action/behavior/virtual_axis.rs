use crate::math;
use crate::math::Scalar;
use vstd::prelude::*;

verus! {

/// A map behavior for button events bound to axis actions: the axis
/// value accelerates toward the raw target and falls back toward zero
/// under gravity, integrating over the milliseconds since the owning
/// node last mapped a value.
#[derive(Debug, Clone, Copy, PartialEq, Eq, Structural)]
pub struct VirtualAxis {
    /// Speed (units/sec) that the axis value falls toward 0.
    pub gravity: Scalar,
    /// Speed (units/sec) that the axis value moves toward the target.
    pub acceleration: Scalar,
    /// What happens when input arrives against the current flow.
    pub on_reverse: Option<VirtualAxisReverse>,
}

/// Modifier applied when input is received in the opposite direction of
/// the current flow.
#[derive(Debug, Clone, Copy, PartialEq, Eq, Structural)]
pub enum VirtualAxisReverse {
    /// Snap the axis value to 0 and continue from there.
    Snap,
    /// Flip the current value to the opposite sign and continue.
    InstantReverse,
}

/// Where the axis stands after one mapped sample: starting from the
/// previous output (adjusted by the reverse policy when the target
/// points against it), it moves toward the target at the acceleration
/// speed, or toward a zero target at the gravity speed; a speed of zero
/// or less snaps straight to the target.
pub open spec fn virtual_axis_map_spec(va: VirtualAxis, target: int, prev: int, dt_ms: int) -> int {
    let start = if (target > 0 && prev < 0) || (target < 0 && prev > 0) {
        match va.on_reverse {
            Some(VirtualAxisReverse::Snap) => 0,
            Some(VirtualAxisReverse::InstantReverse) => math::clamp_i64(-prev),
            None => prev,
        }
    } else {
        prev
    };
    let speed = if target == 0 {
        va.gravity
    } else {
        va.acceleration
    };
    math::move_toward_spec(start, target, speed as int, dt_ms)
}

impl VirtualAxis {
    /// Integrate the axis toward the raw target over the elapsed time.
    pub fn map(&self, target: Scalar, prev: Scalar, dt_ms: u64) -> (r: Scalar)
        ensures
            r as int == virtual_axis_map_spec(*self, target as int, prev as int, dt_ms as int),
    {
        let start: Scalar = if (target > 0 && prev < 0) || (target < 0 && prev > 0) {
            match self.on_reverse {
                Some(VirtualAxisReverse::Snap) => 0,
                Some(VirtualAxisReverse::InstantReverse) => if prev == Scalar::MIN {
                    Scalar::MAX
                } else {
                    -prev
                },
                None => prev,
            }
        } else {
            prev
        };
        let speed: Scalar = if target == 0 {
            self.gravity
        } else {
            self.acceleration
        };
        math::move_toward(start, target, speed, dt_ms)
    }
}

} // verus!
