//! The two ways something can turn.

use vstd::prelude::*;

verus! {

/// The direction of a rotation, seen from the side of the shaft.
#[derive(Clone, Copy, Debug, PartialEq, Eq, Structural, Hash)]
pub enum RotationalDirection {
    /// Clockwise.
    CW,
    /// Counterclockwise.
    CCW,
}

} // verus!
