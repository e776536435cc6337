use crate::device::GamepadKind;
use vstd::prelude::*;

verus! {

/// The class of controller an input came from: mouse, keyboard, or a
/// gamepad kind.
#[derive(Debug, Clone, Copy, PartialEq, Eq, Structural)]
pub enum ControllerKind {
    Mouse,
    Keyboard,
    Gamepad(GamepadKind),
}

} // verus!
