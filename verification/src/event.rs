//! Events sent into the engine when device inputs are detected, and the
//! per-user channel that carries them from the producing context to the
//! consuming one.

use crate::binding;
use crate::device;
use crate::math::Scalar;
use vstd::prelude::*;

verus! {

/// The state of a gamepad, mouse, or keyboard button.
#[derive(Debug, Clone, Copy, PartialEq, Eq, Structural)]
pub enum ButtonState {
    Pressed,
    Released,
}

/// What non-gamepad device caused an event.
#[derive(Debug, Clone, Copy, PartialEq, Eq, Structural)]
pub enum Source {
    Mouse,
    Keyboard,
}

/// The data of one input event: a button state change, a mouse move
/// delta in fixed-point pixels, a scroll delta, or a direct value.
#[derive(Debug, Clone, Copy, PartialEq, Eq, Structural)]
pub enum State {
    ButtonState(ButtonState),
    MouseMove(Scalar),
    MouseScroll(Scalar),
    ValueChanged(Scalar),
}

/// A change to the window the engine normalizes screen-relative
/// behaviors against: sizes are physical pixels, the scale factor is
/// fixed-point (one million stands for 1.0).
#[derive(Debug, Clone, Copy, PartialEq, Eq, Structural)]
pub enum WindowEvent {
    ResolutionChanged(u32, u32),
    ScaleFactorChanged(u32, u32, u64),
}

/// An event created by a platform layer for
/// [`DeviceCache::send_event`](crate::DeviceCache::send_event).
#[derive(Debug, Clone, PartialEq, Eq, Structural)]
pub enum Event {
    Input(device::Id, binding::Source, State),
    Window(WindowEvent),
}

/// The sending half of a user's input queue.
pub type InputSender = crossbeam_channel::Sender<(binding::Source, State)>;

/// The receiving half of a user's input queue.
pub type InputReceiver = crossbeam_channel::Receiver<(binding::Source, State)>;

#[verifier::external_type_specification]
#[verifier::external_body]
#[verifier::reject_recursive_types(T)]
pub struct ExSender<T>(crossbeam_channel::Sender<T>);

#[verifier::external_type_specification]
#[verifier::external_body]
#[verifier::reject_recursive_types(T)]
pub struct ExReceiver<T>(crossbeam_channel::Receiver<T>);

/// Relies on crossbeam_channel::unbounded: a fresh first-in-first-out
/// queue of unbounded capacity, returned as its two halves.
#[verifier::external_body]
pub fn input_channel() -> (InputSender, InputReceiver) {
    crossbeam_channel::unbounded()
}

/// Relies on crossbeam_channel::Sender::try_send: enqueues the event
/// without blocking; on an unbounded channel it fails only when every
/// receiver is gone, and the event is dropped then. Returns whether the
/// event was enqueued. What a later receive yields depends on the other
/// threads using the queue, so nothing is claimed of it.
#[verifier::external_body]
pub fn send_input(sender: &InputSender, source: binding::Source, state: State) -> bool {
    sender.try_send((source, state)).is_ok()
}

/// Relies on crossbeam_channel::Receiver::try_recv: dequeues the oldest
/// pending event without blocking, or yields nothing when the queue is
/// empty or every sender is gone. What arrives depends on the other
/// threads using the queue, so nothing is claimed of it.
#[verifier::external_body]
pub fn recv_input(receiver: &InputReceiver) -> Option<(binding::Source, State)> {
    receiver.try_recv().ok()
}

/// Relies on crossbeam_channel's Clone for Sender: another sending
/// half of the same queue.
#[verifier::external_body]
pub fn clone_sender(sender: &InputSender) -> InputSender {
    sender.clone()
}

} // verus!
