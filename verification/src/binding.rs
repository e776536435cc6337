//! How device inputs are named and grouped for binding to actions: the
//! neutral [`Source`] identifier for every physical input, and the
//! layout/action-set/action-map configuration that maps sources to
//! actions.

mod binding;
mod layout;
mod map;

pub use binding::Gamepad;
pub use binding::Mouse;
pub use binding::MouseAxis;
pub use binding::Source;
pub use layout::ActionSet;
pub use layout::ActionSetModel;
pub use layout::ActionSetId;
pub use layout::LayoutId;
pub use map::ActionMap;

use crate::source::Axis;
use crate::source::Button;
use crate::source::Key;
use crate::source::MouseButton;
use vstd::prelude::*;

verus! {

/// A single physical input a configuration can refer to, without the
/// behavior tree around it.
#[derive(Debug, Clone, Copy, PartialEq, Eq, Structural)]
pub enum Binding {
    MouseButton(MouseButton),
    MouseMove,
    MouseScroll,
    KeyboardKey(Key),
    GamepadButton(Button),
    GamepadAxis(Axis),
}

impl Binding {
    /// Whether this input reports a continuous range.
    pub fn is_axis(&self) -> (r: bool)
        ensures
            r == (*self is GamepadAxis),
    {
        match *self {
            Self::MouseButton(_) | Self::KeyboardKey(_) | Self::GamepadButton(_) => false,
            Self::GamepadAxis(_) => true,
            Self::MouseMove | Self::MouseScroll => false,
        }
    }

    /// Whether this input reports a single pressed/released state.
    pub fn is_button(&self) -> (r: bool)
        ensures
            r == !(*self is GamepadAxis),
    {
        !self.is_axis()
    }
}

} // verus!
