//! Hit points.

use vstd::prelude::*;

verus! {

/// Remaining hit points of an entity. An entity whose value is zero or less
/// is dead and due for removal.
#[derive(Clone, Copy, PartialEq, Eq, Debug)]
pub struct Health {
    pub value: i32,
}

impl Health {
    pub fn new(value: i32) -> (h: Health)
        ensures
            h.value == value,
    {
        Health { value }
    }

    /// Whether the value has dropped to zero or below.
    pub open spec fn spec_is_dead(&self) -> bool {
        self.value <= 0
    }

    #[verifier::when_used_as_spec(spec_is_dead)]
    pub fn is_dead(&self) -> (dead: bool)
        ensures
            dead == self.spec_is_dead(),
    {
        self.value <= 0
    }
}

impl Default for Health {
    fn default() -> (h: Health)
        ensures
            h.value == 0,
    {
        Health { value: 0 }
    }
}

} // verus!
