//! Generational references to the nodes of the arena

use vstd::prelude::*;

verus! {

/// A generational handle of a node: the slot it occupies and the generation
/// of the arena at the time the slot was filled.
#[derive(Clone, Copy, Debug, PartialEq, Eq, Structural, Hash)]
pub struct Reference {
    /// Slot of the arena
    pub slot: usize,
    /// Generation of the slot
    pub generation: u64,
}

impl Reference {
    /// Build a reference from its raw parts
    pub fn from_raw_parts(slot: usize, generation: u64) -> (r: Self)
        ensures
            r == (Reference { slot, generation }),
    {
        Reference { slot, generation }
    }

    /// Split the reference into its raw parts
    pub fn into_raw_parts(self) -> (parts: (usize, u64))
        ensures
            parts == (self.slot, self.generation),
    {
        (self.slot, self.generation)
    }
}

} // verus!
