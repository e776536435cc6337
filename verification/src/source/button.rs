use vstd::prelude::*;

verus! {

/// The buttons of a gamepad device.
#[derive(Debug, Clone, Copy, PartialEq, Eq, Structural)]
pub enum Button {
    /// The bottom button in the face-diamond.
    FaceBottom,
    /// The left button in the face-diamond.
    FaceLeft,
    /// The right button in the face-diamond.
    FaceRight,
    /// The top button in the face-diamond.
    FaceTop,
    /// The button used for confirmation/approval.
    /// A virtual wrapper over the face button the platform convention picks.
    VirtualConfirm,
    /// The button used for denial/cancel.
    /// A virtual wrapper over the face button the platform convention picks.
    VirtualDeny,
    /// Pressing in on the left thumbstick.
    LThumbstick,
    /// Pressing in on the right thumbstick.
    RThumbstick,
    DPadUp,
    DPadDown,
    DPadLeft,
    DPadRight,
    LShoulder,
    RShoulder,
    /// A trigger acting as a button on pads whose triggers are not axes.
    LTrigger,
    /// A trigger acting as a button on pads whose triggers are not axes.
    RTrigger,
    /// The platform/home button.
    Special,
    /// The left menu button (share/select/minus).
    LSpecial,
    /// The right menu button (options/start/plus).
    RSpecial,
}

} // verus!
