//! The analog-to-digital converter: what a reading is worth.

use vstd::prelude::*;

verus! {

/// The most that the converter reads, in millivolts.
pub const ADC_MAX_READABLE_MILLIVOLTS: u16 = 3250;

/// A reading of the converter, in millivolts.
#[derive(Clone, Copy, Debug, PartialEq, Eq, Structural)]
pub struct AdcReading(pub u16);

impl AdcReading {
    /// The most that the converter reads.
    pub fn max_readable() -> (reading: Self)
        ensures
            reading.0 == ADC_MAX_READABLE_MILLIVOLTS,
    {
        AdcReading(ADC_MAX_READABLE_MILLIVOLTS)
    }

    /// The reading is a share of `whole`: `whole` is not zero, and the reading is not
    /// above it.
    pub open spec fn spec_is_share_of(&self, whole: AdcReading) -> bool {
        whole.0 != 0 && self.0 <= whole.0
    }

    /// Tells whether the reading is a share of `whole`, so that the two can be divided
    /// into a percentage.
    pub fn is_share_of(&self, whole: &AdcReading) -> (share: bool)
        ensures
            share == self.spec_is_share_of(*whole),
    {
        whole.0 != 0 && self.0 <= whole.0
    }
}

} // verus!
