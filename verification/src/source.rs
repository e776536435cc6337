//! Identifiers for every physical input a device can produce: keys,
//! mouse buttons, gamepad buttons and axes, and whether each acts as a
//! button or an axis.

mod axis;
mod button;
mod key;
mod kind;
mod mouse;

pub use axis::Axis;
pub use button::Button;
pub use key::Key;
pub use key::KeyModifier;
pub use key::KeyModifiers;
pub use key::key_label;
pub use kind::Kind;
pub use mouse::MouseButton;
