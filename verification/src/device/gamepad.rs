use vstd::prelude::*;

verus! {

/// The physical topology of a gamepad.
#[derive(Debug, Clone, Copy, PartialEq, Eq, Structural)]
pub enum GamepadKind {
    DualAxisGamepad,
    PS4Dualshock,
    Xbox360,
    Joycon,
}

} // verus!
