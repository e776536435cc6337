//! The state of an active action for a given user: the clone of its
//! binding tree, the button edge flags advanced once per frame, and the
//! last evaluated scalar with its freshness window.

use crate::action::behavior_binding::BehaviorBinding;
use crate::action::behavior_binding::BindingModel;
use crate::action::behavior_binding::process_model;
use crate::binding;
use crate::event;
use crate::math::SCALE;
use crate::math::Scalar;
use vstd::prelude::*;

verus! {

/// How long an axis value stays relevant without fresh input, in
/// milliseconds: after this window [`State::axis_value`] reports zero.
pub const RELEVANCE_WINDOW_MS: u64 = 100;

/// The state of an active action for a given user.
#[derive(Debug)]
pub struct State {
    /// This action's own clone of its binding tree.
    pub behaviors: BehaviorBinding,
    /// Whether the control was held when the previous frame ticked.
    pub prev_frame_active: bool,
    /// Whether the control is held now.
    pub active: bool,
    /// Whether the held flag changed between the last two frame ticks.
    pub active_state_changed_this_frame: bool,
    /// The most recent scalar the binding tree produced.
    pub value: Scalar,
    /// When the state last changed, in milliseconds.
    pub modified_at: u64,
    /// When the owning user last ticked this state, in milliseconds.
    pub last_update_time: u64,
}

/// The mathematical model of an action's [`State`].
pub struct StateModel {
    pub behaviors: BindingModel,
    pub prev_frame_active: bool,
    pub active: bool,
    pub changed_this_frame: bool,
    pub value: int,
    pub modified_at: int,
    pub last_update_time: int,
}

impl View for State {
    type V = StateModel;

    open spec fn view(&self) -> StateModel {
        StateModel {
            behaviors: self.behaviors@,
            prev_frame_active: self.prev_frame_active,
            active: self.active,
            changed_this_frame: self.active_state_changed_this_frame,
            value: self.value as int,
            modified_at: self.modified_at as int,
            last_update_time: self.last_update_time as int,
        }
    }
}

/// What one input event does to an action's state. A button event runs
/// 1.0 (pressed) or 0.0 (released) through the binding tree, remembers
/// the result, and marks the state modified only when the held flag
/// flips. A mouse move runs its delta through the tree. A scroll or a
/// direct value bypasses the tree and sets the value outright.
pub open spec fn process_event_spec(
    s: StateModel,
    source: binding::Source,
    event: event::State,
    time: int,
    screen_size: (int, int),
) -> StateModel {
    match event {
        event::State::ButtonState(btn_state) => {
            let is_active = btn_state == event::ButtonState::Pressed;
            let raw: int = if is_active {
                SCALE as int
            } else {
                0
            };
            let (b2, v) = process_model(s.behaviors, source, raw, time, screen_size);
            StateModel {
                behaviors: b2,
                value: v,
                active: is_active,
                modified_at: if s.active != is_active {
                    time
                } else {
                    s.modified_at
                },
                ..s
            }
        },
        event::State::MouseMove(delta) => {
            let (b2, v) = process_model(s.behaviors, source, delta as int, time, screen_size);
            StateModel { behaviors: b2, value: v, modified_at: time, ..s }
        },
        event::State::MouseScroll(delta) => StateModel {
            value: delta as int,
            modified_at: time,
            ..s
        },
        event::State::ValueChanged(value) => StateModel {
            value: value as int,
            modified_at: time,
            ..s
        },
    }
}

/// What the once-per-frame tick does: it records the tick time, sets
/// the changed-this-frame flag exactly when the held flag differs from
/// the one the previous tick captured, and captures the held flag.
pub open spec fn update_spec(s: StateModel, time: int) -> StateModel {
    let changed = s.active != s.prev_frame_active;
    StateModel {
        last_update_time: time,
        changed_this_frame: changed,
        prev_frame_active: if changed {
            s.active
        } else {
            s.prev_frame_active
        },
        ..s
    }
}

/// Whether the control was pressed during the frame that last ticked.
pub open spec fn on_button_pressed_model(s: StateModel) -> bool {
    s.active && s.changed_this_frame
}

/// Whether the control was released during the frame that last ticked.
pub open spec fn on_button_released_model(s: StateModel) -> bool {
    !s.active && s.changed_this_frame
}

/// The axis value the state reports: the live value while the last
/// tick came within the relevance window of the last modification, and
/// exactly zero once that window has elapsed.
pub open spec fn axis_value_model(s: StateModel) -> int {
    let elapsed = if s.last_update_time >= s.modified_at {
        s.last_update_time - s.modified_at
    } else {
        0
    };
    if elapsed < RELEVANCE_WINDOW_MS as int {
        s.value
    } else {
        0
    }
}

impl State {
    /// A fresh state owning the given binding tree: not held, at rest
    /// at zero, never modified or ticked.
    pub fn new(behaviors: BehaviorBinding) -> (r: Self)
        ensures
            r@ == (StateModel {
                behaviors: behaviors@,
                prev_frame_active: false,
                active: false,
                changed_this_frame: false,
                value: 0,
                modified_at: 0,
                last_update_time: 0,
            }),
    {
        State {
            behaviors,
            prev_frame_active: false,
            active: false,
            active_state_changed_this_frame: false,
            value: 0,
            modified_at: 0,
            last_update_time: 0,
        }
    }

    /// Apply one input event, exactly as [`process_event_spec`] says.
    pub fn process_event(
        &mut self,
        source: binding::Source,
        event: event::State,
        time: u64,
        screen_size: (u64, u64),
    )
        ensures
            final(self)@ == process_event_spec(
                old(self)@,
                source,
                event,
                time as int,
                (screen_size.0 as int, screen_size.1 as int),
            ),
    {
        match event {
            event::State::ButtonState(btn_state) => {
                let is_active = btn_state == event::ButtonState::Pressed;
                let raw: Scalar = if is_active {
                    SCALE
                } else {
                    0
                };
                let mut tree = BehaviorBinding::Container(Vec::new(), Vec::new());
                core::mem::swap(&mut tree, &mut self.behaviors);
                let (tree2, v) = tree.process(source, raw, time, screen_size);
                self.behaviors = tree2;
                self.value = v;
                if self.active != is_active {
                    self.active = is_active;
                    self.modified_at = time;
                }
            },
            event::State::MouseMove(delta) => {
                let mut tree = BehaviorBinding::Container(Vec::new(), Vec::new());
                core::mem::swap(&mut tree, &mut self.behaviors);
                let (tree2, v) = tree.process(source, delta, time, screen_size);
                self.behaviors = tree2;
                self.value = v;
                self.modified_at = time;
            },
            event::State::MouseScroll(delta) => {
                self.value = delta;
                self.modified_at = time;
            },
            event::State::ValueChanged(value) => {
                self.value = value;
                self.modified_at = time;
            },
        }
    }

    /// Whether this state needs the once-per-frame tick.
    pub fn requires_updates(&self) -> (r: bool)
        ensures
            r == true,
    {
        true
    }

    /// The once-per-frame tick, exactly as [`update_spec`] says.
    pub fn update(&mut self, time: u64)
        ensures
            final(self)@ == update_spec(old(self)@, time as int),
    {
        self.last_update_time = time;
        self.active_state_changed_this_frame = self.active != self.prev_frame_active;
        if self.active_state_changed_this_frame {
            self.prev_frame_active = self.active;
        }
    }

    /// True when a button binding is pressed and this is the same
    /// update frame as the input event which pressed it.
    pub fn on_button_pressed(&self) -> (r: bool)
        ensures
            r == on_button_pressed_model(self@),
    {
        self.active && self.active_state_changed_this_frame
    }

    /// Whether the bound control is held.
    pub fn is_button_down(&self) -> (r: bool)
        ensures
            r == self@.active,
    {
        self.active
    }

    /// True when a button binding is not pressed and this is the same
    /// update frame as the input event which released it.
    pub fn on_button_released(&self) -> (r: bool)
        ensures
            r == on_button_released_model(self@),
    {
        !self.active && self.active_state_changed_this_frame
    }

    /// The axis value, forced to zero once the relevance window has
    /// elapsed without fresh input.
    pub fn axis_value(&self) -> (r: Scalar)
        ensures
            r as int == axis_value_model(self@),
    {
        let elapsed: u64 = if self.last_update_time >= self.modified_at {
            self.last_update_time - self.modified_at
        } else {
            0
        };
        if elapsed < RELEVANCE_WINDOW_MS {
            self.value
        } else {
            0
        }
    }

    /// The most recent scalar, regardless of age.
    pub fn value(&self) -> (r: Scalar)
        ensures
            r as int == self@.value,
    {
        self.value
    }

    /// Read the value and reset it to zero, for one-shot consumption.
    pub fn take_value(&mut self) -> (r: Scalar)
        ensures
            r as int == old(self)@.value,
            final(self)@ == (StateModel { value: 0, ..old(self)@ }),
    {
        let v = self.value;
        self.value = 0;
        v
    }
}

/// A button edge is exactly one update tick wide: whatever the state,
/// after two consecutive ticks with no event between them, neither the
/// pressed edge nor the released edge is still visible; and a press
/// processed while the control was settled as released is visible at
/// exactly the next tick.
pub proof fn lemma_button_edge_one_update_wide(
    s: StateModel,
    source: binding::Source,
    time: int,
    screen_size: (int, int),
    t1: int,
    t2: int,
)
    ensures
        !on_button_pressed_model(update_spec(update_spec(s, t1), t2)),
        !on_button_released_model(update_spec(update_spec(s, t1), t2)),
        (!s.active && s.prev_frame_active == s.active) ==> on_button_pressed_model(
            update_spec(
                process_event_spec(
                    s,
                    source,
                    event::State::ButtonState(event::ButtonState::Pressed),
                    time,
                    screen_size,
                ),
                t1,
            ),
        ),
{
}

/// The axis value decays exactly at the relevance window: a tick within
/// the window of the last modification reports the live value, and a
/// tick at or past it reports exactly zero.
pub proof fn lemma_axis_value_decay_window(s: StateModel, t: int)
    requires
        t >= s.modified_at,
    ensures
        t - s.modified_at < RELEVANCE_WINDOW_MS as int ==> axis_value_model(update_spec(s, t))
            == s.value,
        t - s.modified_at >= RELEVANCE_WINDOW_MS as int ==> axis_value_model(update_spec(s, t))
            == 0,
{
}

} // verus!
