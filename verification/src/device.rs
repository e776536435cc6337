//! Identity and classification of the physical devices that send input:
//! the mouse, the keyboard, and each connected gamepad.

mod gamepad;
mod id;
mod kind;

pub use gamepad::GamepadKind;
pub use id::Id;
pub use kind::Kind;
