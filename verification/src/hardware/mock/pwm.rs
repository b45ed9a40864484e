//! A mock PWM pin.

use vstd::prelude::*;

use super::error::MockEmptyError;
use crate::utils::physical_quantities::frequency::Frequency;

verus! {

/// A PWM pin that remembers the duty cycle and the frequency it was set to, or that
/// fails. `Duty` is the type of a duty cycle.
pub enum MockPwmPin<Duty> {
    /// The pin works.
    Working { duty_cycle: Duty, frequency: Frequency },
    /// The pin fails.
    Failing,
}

impl<Duty: Copy> MockPwmPin<Duty> {
    /// The duty cycle of a pin that works.
    pub fn get_duty_cycle(&self) -> (duty: Duty)
        requires
            self is Working,
        ensures
            self matches MockPwmPin::Working { duty_cycle, frequency } && duty == duty_cycle,
    {
        match self {
            MockPwmPin::Working { duty_cycle, frequency: _ } => *duty_cycle,
            MockPwmPin::Failing => vstd::pervasive::unreached(),
        }
    }

    /// The duty cycle of the pin, or `None` where the pin fails.
    pub fn duty_cycle(&self) -> (duty: Option<Duty>)
        ensures
            match *self {
                MockPwmPin::Working { duty_cycle, frequency } => duty == Some(duty_cycle),
                MockPwmPin::Failing => duty is None,
            },
    {
        match self {
            MockPwmPin::Working { duty_cycle, frequency: _ } => Some(*duty_cycle),
            MockPwmPin::Failing => None,
        }
    }

    /// Sets the duty cycle of a pin that works; a pin that fails gives its error and
    /// stays as it is.
    pub fn set_duty_cycle(&mut self, new_duty_cycle: Duty) -> (result: Result<(), MockEmptyError>)
        ensures
            match *old(self) {
                MockPwmPin::Working { duty_cycle, frequency } => result is Ok && *final(self) == (
                MockPwmPin::Working { duty_cycle: new_duty_cycle, frequency }),
                MockPwmPin::Failing => result is Err && *final(self) == *old(self),
            },
    {
        match self {
            MockPwmPin::Working { duty_cycle, frequency: _ } => {
                *duty_cycle = new_duty_cycle;
                Ok(())
            },
            MockPwmPin::Failing => Err(MockEmptyError),
        }
    }

    /// Sets the frequency of a pin that works; a pin that fails gives its error and stays
    /// as it is.
    pub fn set_frequency(&mut self, new_frequency: Frequency) -> (result: Result<
        (),
        MockEmptyError,
    >)
        ensures
            match *old(self) {
                MockPwmPin::Working { duty_cycle, frequency } => result is Ok && *final(self) == (
                MockPwmPin::Working { duty_cycle, frequency: new_frequency }),
                MockPwmPin::Failing => result is Err && *final(self) == *old(self),
            },
    {
        match self {
            MockPwmPin::Working { duty_cycle: _, frequency } => {
                *frequency = new_frequency;
                Ok(())
            },
            MockPwmPin::Failing => Err(MockEmptyError),
        }
    }
}

} // verus!
