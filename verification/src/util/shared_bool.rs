use vstd::prelude::*;

verus! {

/// A flag shared between the node's threads: whether the node has been started.
pub struct SharedBool(bool);

impl View for SharedBool {
    type V = bool;

    closed spec fn view(&self) -> bool {
        self.0
    }
}

impl SharedBool {
    /// A flag set to `state`.
    pub fn new(state: bool) -> (r: Self)
        ensures
            r@ == state,
    {
        SharedBool(state)
    }

    /// The flag's value.
    pub fn get_value(&self) -> (r: bool)
        ensures
            r == self@,
    {
        self.0
    }
}

} // verus!
