//! The controls as the simulation sees them: one snapshot per frame.

use vstd::prelude::*;

verus! {

/// Which controls are active in this frame. All but `pause` and `start`
/// tell whether the control is held; those two tell whether it was newly
/// pressed.
#[derive(Clone, Copy, PartialEq, Eq, Debug, Default)]
pub struct ControlInput {
    pub turn_left: bool,
    pub turn_right: bool,
    pub roll_left: bool,
    pub roll_right: bool,
    pub thrust_forward: bool,
    pub thrust_back: bool,
    pub fire: bool,
    pub pause: bool,
    pub start: bool,
}

/// The snapshot with no control active.
pub open spec fn no_input() -> ControlInput {
    ControlInput {
        turn_left: false,
        turn_right: false,
        roll_left: false,
        roll_right: false,
        thrust_forward: false,
        thrust_back: false,
        fire: false,
        pause: false,
        start: false,
    }
}

impl ControlInput {
    /// The snapshot with no control active.
    pub fn none() -> (input: ControlInput)
        ensures
            input == no_input(),
    {
        ControlInput {
            turn_left: false,
            turn_right: false,
            roll_left: false,
            roll_right: false,
            thrust_forward: false,
            thrust_back: false,
            fire: false,
            pause: false,
            start: false,
        }
    }
}

} // verus!
