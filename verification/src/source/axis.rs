use vstd::prelude::*;

verus! {

/// The continuous-range inputs of a gamepad.
#[derive(Debug, Clone, Copy, PartialEq, Eq, Structural)]
pub enum Axis {
    /// The x-axis of the left thumbstick.
    LThumbstickX,
    /// The y-axis of the left thumbstick.
    LThumbstickY,
    /// The x-axis of the right thumbstick.
    RThumbstickX,
    /// The y-axis of the right thumbstick.
    RThumbstickY,
    LTrigger,
    RTrigger,
}

} // verus!
