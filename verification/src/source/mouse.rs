use vstd::prelude::*;

verus! {

/// The buttons of a mouse device.
#[derive(Debug, Clone, Copy, PartialEq, Eq, Structural)]
pub enum MouseButton {
    Left,
    Center,
    Right,
}

} // verus!
