use crate::event;
use crate::source;
use vstd::prelude::*;

verus! {

/// The name an application knows an action by.
pub type Id = String;

/// An application-facing event a user can trigger through a device:
/// an action has a button or axis semantic and an optional behavior
/// adjustment applied to its events.
#[derive(Debug, Clone, Copy, PartialEq, Eq, Structural)]
pub struct Action {
    pub kind: source::Kind,
    pub behavior: ActionBehavior,
}

/// An adjustment applied to every event of one action before its state
/// machine sees it; the default changes nothing.
#[derive(Debug, Clone, Copy, PartialEq, Eq, Structural)]
pub struct ActionBehavior {}

impl Action {
    /// An action of the given kind with the default behavior.
    pub fn new(kind: source::Kind) -> (r: Action)
        ensures
            r.kind == kind,
            r.behavior == (ActionBehavior {  }),
    {
        Action { kind, behavior: ActionBehavior {  } }
    }

    /// The same action with the given behavior.
    pub fn with_behavior(self, behavior: ActionBehavior) -> (r: Action)
        ensures
            r.kind == self.kind,
            r.behavior == behavior,
    {
        Action { kind: self.kind, behavior }
    }

    /// The button or axis semantic of this action.
    pub fn kind(&self) -> (r: source::Kind)
        ensures
            r == self.kind,
    {
        self.kind
    }

    /// The behavior adjustment of this action.
    pub fn behavior(&self) -> (r: &ActionBehavior)
        ensures
            r == self.behavior,
    {
        &self.behavior
    }
}

impl ActionBehavior {
    /// The event adjusted for an action of the given kind; the default
    /// behavior passes every event through unchanged.
    pub fn modify_event_for(&self, event: event::State, _kind: &source::Kind) -> (r: event::State)
        ensures
            r == event,
    {
        event
    }
}

impl Default for ActionBehavior {
    /// The behavior that changes nothing.
    fn default() -> (r: ActionBehavior)
        ensures
            r == (ActionBehavior {  }),
    {
        ActionBehavior {  }
    }
}

impl Default for Action {
    /// A button action with the default behavior.
    fn default() -> (r: Action)
        ensures
            r.kind == source::Kind::Button,
            r.behavior == (ActionBehavior {  }),
    {
        Action::new(source::Kind::Button)
    }
}

} // verus!
