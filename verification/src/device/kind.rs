use crate::device::GamepadKind;
use crate::device::Id;
use vstd::prelude::*;

verus! {

/// The class a device belongs to: mouse, keyboard, or a gamepad kind.
#[derive(Debug, Clone, Copy, PartialEq, Eq, Structural)]
pub enum Kind {
    Mouse,
    Keyboard,
    Gamepad(GamepadKind),
}

/// The kind of the device with the given id.
pub open spec fn kind_of_id(id: Id) -> Kind {
    match id {
        Id::Mouse => Kind::Mouse,
        Id::Keyboard => Kind::Keyboard,
        Id::Gamepad(kind, _) => Kind::Gamepad(kind),
    }
}

impl From<Id> for Kind {
    fn from(id: Id) -> (r: Kind) {
        match id {
            Id::Mouse => Kind::Mouse,
            Id::Keyboard => Kind::Keyboard,
            Id::Gamepad(kind, _) => Kind::Gamepad(kind),
        }
    }
}

impl vstd::std_specs::convert::FromSpecImpl<Id> for Kind {
    open spec fn obeys_from_spec() -> bool {
        true
    }

    open spec fn from_spec(id: Id) -> Kind {
        kind_of_id(id)
    }
}

} // verus!
