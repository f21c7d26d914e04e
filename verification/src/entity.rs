//! Generation-tagged entity handles.

use vstd::prelude::*;

verus! {

/// A handle to a slot of the component store.
///
/// Index 0 is the null handle and never names a live slot. A handle is only
/// good for as long as its generation equals the one the store keeps for its
/// index.
#[derive(Clone, Copy, Debug, PartialEq, Eq, Structural)]
pub struct Entity {
    pub index: u16,
    pub generation: u16,
}

impl Entity {
    /// Whether this is the null handle.
    pub open spec fn spec_is_null(&self) -> bool {
        self.index == 0
    }

    /// The null handle.
    pub fn new() -> (e: Self)
        ensures
            e == (Entity { index: 0, generation: 0 }),
    {
        Self { index: 0, generation: 0 }
    }

    /// The handle of generation 0 for slot `i`.
    pub fn from_index(i: usize) -> (e: Self)
        requires
            i <= u16::MAX,
        ensures
            e == (Entity { index: i as u16, generation: 0 }),
    {
        Self { index: i as u16, generation: 0 }
    }

    /// The null handle, whatever `i` is.
    pub fn from_unknown(i: u16) -> (e: Self)
        ensures
            e == (Entity { index: 0, generation: 0 }),
    {
        Self { index: 0, generation: 0 }
    }

    /// The handle with the given index and generation.
    pub fn from(index: u16, generation: u16) -> (e: Self)
        ensures
            e == (Entity { index, generation }),
    {
        Self { index, generation }
    }

    /// Whether this is the null handle.
    #[verifier::when_used_as_spec(spec_is_null)]
    pub fn is_null(&self) -> (b: bool)
        ensures
            b == (self.index == 0),
    {
        self.index == 0
    }

    /// The slot index as stored.
    pub fn id(&self) -> (i: u16)
        ensures
            i == self.index,
    {
        self.index
    }

    /// The generation the handle was issued with.
    pub fn generation(&self) -> (g: u16)
        ensures
            g == self.generation,
    {
        self.generation
    }

    /// The slot index, widened for indexing.
    pub fn index(&self) -> (i: usize)
        ensures
            i == self.index,
    {
        self.index as usize
    }
}

impl Default for Entity {
    fn default() -> (e: Self)
        ensures
            e == (Entity { index: 0, generation: 0 }),
    {
        Self { index: 0, generation: 0 }
    }
}

} // verus!
