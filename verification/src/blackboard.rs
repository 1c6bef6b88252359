//! The blackboard that agents share.
use vstd::prelude::*;

verus! {

pub struct Blackboard;

impl Blackboard {
    pub fn new() -> (b: Self)
        ensures
            b == Blackboard,
    {
        Blackboard
    }
}

impl Default for Blackboard {
    fn default() -> (b: Self)
        ensures
            b == Blackboard,
    {
        Blackboard
    }
}

} // verus!
