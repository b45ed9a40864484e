//! Short durations, counted in tens of nanoseconds.

use vstd::prelude::*;

verus! {

/// Tens of nanoseconds in a microsecond.
pub const TENS_OF_NANOS_PER_MICRO: u32 = 100;

/// Tens of nanoseconds in a millisecond.
pub const TENS_OF_NANOS_PER_MILLI: u32 = 100_000;

/// Tens of nanoseconds in a second.
pub const TENS_OF_NANOS_PER_SECOND: u32 = 100_000_000;

/// A duration with a sensitivity of ten nanoseconds and a range that goes up to almost 43
/// seconds.
#[derive(Clone, Copy, Debug, PartialEq, Eq, Structural, PartialOrd, Ord, Hash)]
pub struct SmallDuration {
    tens_of_nanos: u32,
}

impl View for SmallDuration {
    type V = nat;

    /// The duration in tens of nanoseconds.
    closed spec fn view(&self) -> nat {
        self.tens_of_nanos as nat
    }
}

impl SmallDuration {
    /// No time at all.
    pub fn zero() -> (duration: Self)
        ensures
            duration@ == 0,
    {
        SmallDuration { tens_of_nanos: 0 }
    }

    /// One second.
    pub fn second() -> (duration: Self)
        ensures
            duration@ == TENS_OF_NANOS_PER_SECOND,
    {
        SmallDuration { tens_of_nanos: TENS_OF_NANOS_PER_SECOND }
    }

    /// The duration of `tens_of_nanos` times ten nanoseconds.
    pub fn from_tens_of_nanos(tens_of_nanos: u32) -> (duration: Self)
        ensures
            duration@ == tens_of_nanos,
    {
        SmallDuration { tens_of_nanos }
    }

    /// The duration of `micros` microseconds, which must be in range.
    pub fn from_micros(micros: u32) -> (duration: Self)
        requires
            micros * TENS_OF_NANOS_PER_MICRO <= u32::MAX,
        ensures
            duration@ == micros * TENS_OF_NANOS_PER_MICRO,
    {
        SmallDuration { tens_of_nanos: micros * TENS_OF_NANOS_PER_MICRO }
    }

    /// The duration of `millis` milliseconds, which must be in range.
    pub fn from_millis(millis: u32) -> (duration: Self)
        requires
            millis * TENS_OF_NANOS_PER_MILLI <= u32::MAX,
        ensures
            duration@ == millis * TENS_OF_NANOS_PER_MILLI,
    {
        SmallDuration { tens_of_nanos: millis * TENS_OF_NANOS_PER_MILLI }
    }

    /// The duration in tens of nanoseconds.
    pub fn as_tens_of_nanos(&self) -> (tens_of_nanos: u32)
        ensures
            tens_of_nanos == self@,
    {
        self.tens_of_nanos
    }

    /// The whole milliseconds of the duration.
    pub fn as_millis(&self) -> (millis: u32)
        ensures
            millis == self@ / (TENS_OF_NANOS_PER_MILLI as nat),
    {
        self.tens_of_nanos / TENS_OF_NANOS_PER_MILLI
    }

    /// The whole ticks of a clock of `hertz` hertz in `tens_of_nanos` tens of nanoseconds.
    pub open spec fn spec_ticks(tens_of_nanos: nat, hertz: nat) -> nat {
        tens_of_nanos * hertz / (TENS_OF_NANOS_PER_SECOND as nat)
    }

    /// The whole ticks that a clock of `hertz` hertz counts in the duration.
    pub fn ticks_at(&self, hertz: u32) -> (ticks: u64)
        ensures
            ticks == Self::spec_ticks(self@, hertz as nat),
    {
        proof {
            assert(self.tens_of_nanos * hertz <= 0xFFFF_FFFF * 0xFFFF_FFFF) by (nonlinear_arith)
                requires
                    0 <= self.tens_of_nanos <= 0xFFFF_FFFF,
                    0 <= hertz <= 0xFFFF_FFFF,
            ;
        }
        self.tens_of_nanos as u64 * hertz as u64 / (TENS_OF_NANOS_PER_SECOND as u64)
    }

    /// Where a cycle of `cycle` tens of nanoseconds stands once `elapsed` have passed
    /// beyond the point `phase` of the cycle.
    pub open spec fn spec_phase_after(phase: nat, elapsed: nat, cycle: nat) -> nat {
        (phase + elapsed) % cycle
    }

    /// Where a cycle of duration `cycle`, which must not be zero, stands once `elapsed`
    /// has passed beyond the point `self` of the cycle.
    pub fn phase_after(self, elapsed: SmallDuration, cycle: SmallDuration) -> (phase: Self)
        requires
            cycle@ > 0,
        ensures
            phase@ == Self::spec_phase_after(self@, elapsed@, cycle@),
            phase@ < cycle@,
    {
        let total: u64 = self.tens_of_nanos as u64 + elapsed.tens_of_nanos as u64;
        let phase: u64 = total % (cycle.tens_of_nanos as u64);
        SmallDuration { tens_of_nanos: phase as u32 }
    }
}

} // verus!
