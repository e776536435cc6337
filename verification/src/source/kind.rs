use vstd::prelude::*;

verus! {

/// Differentiates the two types of inputs: single state (button) and range (axis).
#[derive(Debug, Clone, Copy, PartialEq, Eq, Structural)]
pub enum Kind {
    Axis,
    Button,
}

} // verus!
