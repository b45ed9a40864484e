//! Interrupt pins: when an interrupt is to fire.

use vstd::prelude::*;

verus! {

/// The condition on the level of a pin that fires an interrupt.
#[derive(Clone, Copy, Debug, PartialEq, Eq, Structural, Hash)]
pub enum Trigger {
    /// The level goes from low to high.
    PositiveEdge,
    /// The level goes from high to low.
    NegativeEdge,
    /// The level changes.
    AnyEdge,
    /// The level is low.
    LowLevel,
    /// The level is high.
    HighLevel,
}

} // verus!
