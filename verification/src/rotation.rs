//! The four discrete orientations of a falling block.
//!
//! `next` advances clockwise through the cycle 0 -> 90 -> 180 -> 270 -> 0;
//! there is no terminal state.

use vstd::prelude::*;

verus! {

#[derive(Debug, Clone, Copy, PartialEq, Eq, Structural)]
pub enum Rotation {
    Cw0,
    Cw90,
    Cw180,
    Cw270,
}

impl Rotation {
    /// The successor in the four-step clockwise cycle.
    pub open spec fn next_spec(self) -> Rotation {
        match self {
            Rotation::Cw0 => Rotation::Cw90,
            Rotation::Cw90 => Rotation::Cw180,
            Rotation::Cw180 => Rotation::Cw270,
            Rotation::Cw270 => Rotation::Cw0,
        }
    }

    pub fn next(&self) -> (r: Rotation)
        ensures
            r == self.next_spec(),
    {
        match self {
            Rotation::Cw0 => Rotation::Cw90,
            Rotation::Cw90 => Rotation::Cw180,
            Rotation::Cw180 => Rotation::Cw270,
            Rotation::Cw270 => Rotation::Cw0,
        }
    }
}

/// Rotation is a group of order four: advancing four times returns to the
/// starting orientation.
pub proof fn lemma_rotation_closure(r: Rotation)
    ensures
        r.next_spec().next_spec().next_spec().next_spec() == r,
{
}

} // verus!
