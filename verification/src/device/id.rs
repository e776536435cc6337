use crate::device::GamepadKind;
use vstd::prelude::*;

verus! {

/// Identifies one concrete device: the mouse, the keyboard, or a
/// gamepad by its kind and the number the platform layer gave it.
#[derive(Debug, Clone, Copy, PartialEq, Eq, Structural)]
pub enum Id {
    Mouse,
    Keyboard,
    Gamepad(GamepadKind, usize),
}

} // verus!
