//! Frequency values and conversions between orders of magnitude.

use vstd::prelude::*;

use super::duration::{SmallDuration, TENS_OF_NANOS_PER_SECOND};

verus! {

/// A frequency value with a `1Hz` sensitivity and a range that goes up to `2^32Hz`.
#[derive(Clone, Copy, Debug, PartialEq, Eq, Structural, PartialOrd, Ord, Hash)]
pub struct Frequency {
    hertz: u32,
}

impl View for Frequency {
    type V = nat;

    /// The frequency in hertz.
    closed spec fn view(&self) -> nat {
        self.hertz as nat
    }
}

impl Frequency {
    /// Represents a zero frequency (`0Hz`).
    pub fn zero() -> (frequency: Self)
        ensures
            frequency@ == 0,
    {
        Self { hertz: 0 }
    }

    /// The frequency of `hertz` hertz.
    pub closed spec fn spec_from_hertz(hertz: u32) -> Self {
        Frequency { hertz }
    }

    /// A frequency is determined by its value in hertz.
    pub proof fn lemma_from_hertz_view(hertz: u32)
        ensures
            Self::spec_from_hertz(hertz)@ == hertz,
    {
    }

    /// Constructs a [`Frequency`] from the provided `hertz` value.
    #[verifier::when_used_as_spec(spec_from_hertz)]
    pub fn from_hertz(hertz: u32) -> (frequency: Self)
        ensures
            frequency == Self::spec_from_hertz(hertz),
            frequency@ == hertz,
    {
        Self { hertz }
    }

    /// Constructs a [`Frequency`] from the provided `kilohertz` value, which must be
    /// representable in hertz.
    pub fn from_kilohertz(kilohertz: u32) -> (frequency: Self)
        requires
            kilohertz * 1_000 <= u32::MAX,
        ensures
            frequency@ == kilohertz * 1_000,
    {
        Self::from_hertz(kilohertz * 1_000)
    }

    /// Constructs a [`Frequency`] from the provided `megahertz` value, which must be
    /// representable in hertz.
    pub fn from_megahertz(megahertz: u32) -> (frequency: Self)
        requires
            megahertz * 1_000_000 <= u32::MAX,
        ensures
            frequency@ == megahertz * 1_000_000,
    {
        Self::from_kilohertz(megahertz * 1_000)
    }

    /// Returns the value of this frequency in hertz (`Hz`).
    pub fn as_hertz(&self) -> (hertz: u32)
        ensures
            hertz == self@,
    {
        self.hertz
    }

    /// The frequency of what happens once every `period`, which must not be zero: the
    /// whole number of periods in a second.
    pub fn from_period(period: SmallDuration) -> (frequency: Self)
        requires
            period@ != 0,
        ensures
            frequency@ == (TENS_OF_NANOS_PER_SECOND as nat) / period@,
    {
        Self::from_hertz(TENS_OF_NANOS_PER_SECOND / period.as_tens_of_nanos())
    }

    /// The duration of one cycle at this frequency, which must not be zero: the whole
    /// tens of nanoseconds in it.
    pub fn period(&self) -> (period: SmallDuration)
        requires
            self@ != 0,
        ensures
            period@ == (TENS_OF_NANOS_PER_SECOND as nat) / self@,
    {
        SmallDuration::from_tens_of_nanos(TENS_OF_NANOS_PER_SECOND / self.hertz)
    }

    /// Divides the frequency by `divisor`, rounding towards zero.
    pub fn div(self, divisor: u32) -> (frequency: Self)
        requires
            divisor != 0,
        ensures
            frequency@ == self@ / (divisor as nat),
    {
        Self::from_hertz(self.hertz / divisor)
    }
}

} // verus!
