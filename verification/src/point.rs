//! Positions and displacements in the plane.

use vstd::prelude::*;
use crate::scalar::{finite, is_finite, is_same_number, same_number};

verus! {

/// An absolute position. Each coordinate is the bit pattern of a binary32
/// number.
#[derive(Clone, Copy, Debug, PartialEq, Eq, Structural)]
pub struct LyonPoint {
    pub x: u32,
    pub y: u32,
}

/// A displacement, used for relative moves. Each component is the bit pattern
/// of a binary32 number.
#[derive(Clone, Copy, Debug, PartialEq, Eq, Structural)]
pub struct LyonVector {
    pub x: u32,
    pub y: u32,
}

impl LyonPoint {
    /// Both coordinates are finite numbers.
    pub open spec fn is_finite(self) -> bool {
        is_finite(self.x) && is_finite(self.y)
    }

    /// The two points lie at the same position.
    pub open spec fn coincides_with(self, other: LyonPoint) -> bool {
        is_same_number(self.x, other.x) && is_same_number(self.y, other.y)
    }

    /// Whether both coordinates are finite numbers.
    pub fn finite(&self) -> (r: bool)
        ensures
            r == self.is_finite(),
    {
        finite(self.x) && finite(self.y)
    }

    /// Whether the two points lie at the same position.
    pub fn coincides(&self, other: &LyonPoint) -> (r: bool)
        ensures
            r == self.coincides_with(*other),
    {
        same_number(self.x, other.x) && same_number(self.y, other.y)
    }
}

impl LyonVector {
    /// Both components are finite numbers.
    pub open spec fn is_finite(self) -> bool {
        is_finite(self.x) && is_finite(self.y)
    }

    /// Whether both components are finite numbers.
    pub fn finite(&self) -> (r: bool)
        ensures
            r == self.is_finite(),
    {
        finite(self.x) && finite(self.y)
    }
}

/// Lying at the same position is an equivalence.
pub proof fn lemma_coincidence_equivalence(p: LyonPoint, q: LyonPoint, r: LyonPoint)
    ensures
        p.coincides_with(p),
        p.coincides_with(q) ==> q.coincides_with(p),
        p.coincides_with(q) && q.coincides_with(r) ==> p.coincides_with(r),
{
}

} // verus!
