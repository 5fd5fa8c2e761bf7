use vstd::prelude::*;

verus! {

/// A generational reference to a node slot in the arena. A handle with
/// generation zero is the distinguished null handle and never resolves
/// to a node; slots hand out generations starting at one, so a stale
/// handle to a reused slot fails the generation check instead of
/// aliasing the new occupant.
#[derive(Clone, Copy, PartialEq, Eq, Structural, Debug)]
pub struct NodeHandle {
    pub index: u32,
    pub generation: u32,
}

/// The generation that marks a null handle.
pub open spec fn invalid_generation() -> u32 {
    0u32
}

impl NodeHandle {
    /// The null handle: refers to no node.
    pub fn none() -> (r: NodeHandle)
        ensures
            r == (NodeHandle { index: 0u32, generation: 0u32 }),
            r.is_none_spec(),
    {
        NodeHandle { index: 0, generation: 0 }
    }

    pub fn new(index: u32, generation: u32) -> (r: NodeHandle)
        ensures
            r == (NodeHandle { index, generation }),
    {
        NodeHandle { index, generation }
    }

    pub open spec fn is_none_spec(self) -> bool {
        self.generation == invalid_generation()
    }

    pub open spec fn is_some_spec(self) -> bool {
        !self.is_none_spec()
    }

    /// True for the null handle.
    pub fn is_none(self) -> (r: bool)
        ensures
            r == self.is_none_spec(),
    {
        self.generation == 0
    }

    /// True for any handle that is not the null handle.
    pub fn is_some(self) -> (r: bool)
        ensures
            r == self.is_some_spec(),
    {
        self.generation != 0
    }
}

} // verus!
