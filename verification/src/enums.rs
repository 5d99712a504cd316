//! The small closed vocabularies of the allocator.

use vstd::prelude::*;

verus! {

/// Why an allocation request was turned down.
#[derive(Debug, PartialEq, Eq, Structural, Clone, Copy)]
pub enum AllocError {
    /// The request itself cannot be served.
    BadRequest,
    /// The system had no memory left for a new block.
    OOM,
}

/// The route an allocation request takes through the heap.
#[derive(Debug, PartialEq, Eq, Structural, Clone, Copy)]
pub enum SizeClass {
    Large,
    Medium,
    Small,
}

/// The state that a byte of the line-mark table records.
#[derive(Debug, PartialEq, Eq, Structural, Copy, Clone)]
pub enum MarkedState {
    Unmarked,
    TrueMarked,
    ConservMarked,
}

impl MarkedState {
    /// The byte that stands for this state in a mark table.
    pub open spec fn code(self) -> u8 {
        match self {
            MarkedState::Unmarked => 0,
            MarkedState::TrueMarked => 1,
            MarkedState::ConservMarked => 2,
        }
    }

    /// The byte that is written to a mark table for this state.
    pub fn map_to_u8(&self) -> (byte: u8)
        ensures
            byte == self.code(),
    {
        match self {
            MarkedState::Unmarked => 0,
            MarkedState::TrueMarked => 1,
            MarkedState::ConservMarked => 2,
        }
    }
}

/// Whether `byte` is the code of some mark state.
pub open spec fn is_mark_code(byte: u8) -> bool {
    byte <= 2
}

/// The mark that an object header carries.
pub enum Mark {
    Allocated,
    Unmarked,
    Marked,
}

} // verus!
