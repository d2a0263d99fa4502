use vstd::prelude::*;

verus! {

/// A block state. `Air` is the default state of every cell; any other state
/// is identified by its numeric block state id.
#[derive(Clone, Copy, Debug, PartialEq, Eq, Structural, Hash)]
pub enum Blocks {
    Air,
    State(u32),
}

impl Blocks {
    /// True iff this is the default ("air") state.
    pub fn is_air(&self) -> (r: bool)
        ensures
            r == (*self == Blocks::Air),
    {
        match self {
            Blocks::Air => true,
            Blocks::State(_) => false,
        }
    }
}

} // verus!
