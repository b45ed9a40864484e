//! A mock input pin.

use vstd::prelude::*;

use super::error::MockDigitalError;

verus! {

/// An input pin that is at a given level, or that fails with a given error.
pub enum MockInputPin {
    /// The pin works and is at this level.
    Working { is_high: bool },
    /// The pin fails with this error.
    Failing(MockDigitalError),
}

impl MockInputPin {
    /// Tells whether the pin is high, or gives the error of the pin.
    pub fn is_high(&mut self) -> (level: Result<bool, MockDigitalError>)
        ensures
            *final(self) == *old(self),
            match *old(self) {
                MockInputPin::Working { is_high } => level == Ok::<bool, MockDigitalError>(is_high),
                MockInputPin::Failing(error) => level == Err::<bool, MockDigitalError>(error),
            },
    {
        match self {
            MockInputPin::Working { is_high } => Ok(*is_high),
            MockInputPin::Failing(error) => Err(*error),
        }
    }

    /// Tells whether the pin is low, or gives the error of the pin.
    pub fn is_low(&mut self) -> (level: Result<bool, MockDigitalError>)
        ensures
            *final(self) == *old(self),
            match *old(self) {
                MockInputPin::Working { is_high } => level == Ok::<bool, MockDigitalError>(!is_high),
                MockInputPin::Failing(error) => level == Err::<bool, MockDigitalError>(error),
            },
    {
        match self {
            MockInputPin::Working { is_high } => Ok(!*is_high),
            MockInputPin::Failing(error) => Err(*error),
        }
    }
}

} // verus!
