use crate::action::behavior::Behavior;
use crate::action::behavior::Multiplier;
use crate::action::BehaviorBinding;
use crate::action::BindingModel;
use crate::action::SourceModel;
use crate::device;
use crate::device::GamepadKind;
use crate::math::Scalar;
use crate::source;
use crate::source::Axis;
use crate::source::Button;
use crate::source::Key;
use crate::source::MouseButton;
use vstd::prelude::*;

verus! {

/// All the possible input sources across all kinds of devices.
#[derive(Debug, Clone, Copy, PartialEq, Eq, Structural)]
pub enum Source {
    Mouse(Mouse),
    Keyboard(Key),
    Gamepad(GamepadKind, Gamepad),
}

/// All possible inputs from a mouse device.
#[derive(Debug, Clone, Copy, PartialEq, Eq, Structural)]
pub enum Mouse {
    Button(MouseButton),
    Move(MouseAxis),
    Scroll(MouseAxis),
}

/// The axes a mouse movement or scroll can be bound to.
#[derive(Debug, Clone, Copy, PartialEq, Eq, Structural)]
pub enum MouseAxis {
    MouseX,
    MouseY,
}

/// All possible inputs from a gamepad device.
#[derive(Debug, Clone, Copy, PartialEq, Eq, Structural)]
pub enum Gamepad {
    Button(Button),
    Axis(Axis),
}

impl Source {
    /// The kind of input this source is (button or axis).
    pub open spec fn kind_spec(self) -> source::Kind {
        match self {
            Self::Mouse(_) => source::Kind::Button,
            Self::Keyboard(_) => source::Kind::Button,
            Self::Gamepad(_, Gamepad::Button(_)) => source::Kind::Button,
            Self::Gamepad(_, Gamepad::Axis(_)) => source::Kind::Axis,
        }
    }

    /// The kind of input this source is (button or axis).
    pub fn kind(&self) -> (r: source::Kind)
        ensures
            r == self.kind_spec(),
    {
        match *self {
            Self::Mouse(_) => source::Kind::Button,
            Self::Keyboard(_) => source::Kind::Button,
            Self::Gamepad(_, Gamepad::Button(_)) => source::Kind::Button,
            Self::Gamepad(_, Gamepad::Axis(_)) => source::Kind::Axis,
        }
    }

    /// The kind of device this source belongs to.
    pub open spec fn device_kind_spec(self) -> device::Kind {
        match self {
            Self::Mouse(_) => device::Kind::Mouse,
            Self::Keyboard(_) => device::Kind::Keyboard,
            Self::Gamepad(gamepad, _) => device::Kind::Gamepad(gamepad),
        }
    }

    /// The kind of device this source belongs to.
    pub fn device_kind(&self) -> (r: device::Kind)
        ensures
            r == self.device_kind_spec(),
    {
        match *self {
            Self::Mouse(_) => device::Kind::Mouse,
            Self::Keyboard(_) => device::Kind::Keyboard,
            Self::Gamepad(gamepad, _) => device::Kind::Gamepad(gamepad),
        }
    }

    /// Bind this source as it is: a one-leaf tree with no behaviors.
    pub fn bound(self) -> (r: BehaviorBinding)
        ensures
            r@ == BindingModel::Source(
                SourceModel {
                    source: self,
                    behaviors: Seq::<Behavior>::empty(),
                    latest_value: 0,
                    last_time: 0,
                },
            ),
    {
        BehaviorBinding::from_source(self)
    }

    /// Bind this source scaled by a fixed-point modifier: a one-leaf
    /// tree whose samples run through a multiplier.
    pub fn with_modifier(self, modifier: Scalar) -> (r: BehaviorBinding)
        ensures
            r@ == BindingModel::Source(
                SourceModel {
                    source: self,
                    behaviors: seq![Behavior::Multiplier(Multiplier(modifier))],
                    latest_value: 0,
                    last_time: 0,
                },
            ),
    {
        let r = BehaviorBinding::from_source(self).with_behavior(
            Behavior::Multiplier(Multiplier(modifier)),
        );
        proof {
            assert(Seq::<Behavior>::empty().push(Behavior::Multiplier(Multiplier(modifier)))
                =~= seq![Behavior::Multiplier(Multiplier(modifier))]);
        }
        r
    }
}

} // verus!
