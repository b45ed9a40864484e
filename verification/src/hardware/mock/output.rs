//! A mock output pin.

use vstd::prelude::*;

use super::error::MockDigitalError;

verus! {

/// An output pin that remembers the level it was set to, or that fails with a given error.
pub enum MockOutputPin {
    /// The pin works and is at this level.
    Working { is_high: bool },
    /// The pin fails with this error.
    Failing(MockDigitalError),
}

impl MockOutputPin {
    /// The pin once it is asked for the level `value`: a pin that works is at that level, a
    /// pin that fails stays as it is.
    pub open spec fn spec_set(self, value: bool) -> MockOutputPin {
        match self {
            MockOutputPin::Working { is_high } => MockOutputPin::Working { is_high: value },
            MockOutputPin::Failing(error) => MockOutputPin::Failing(error),
        }
    }

    /// What the pin answers when it is asked for a level.
    pub open spec fn spec_answer(self) -> Result<(), MockDigitalError> {
        match self {
            MockOutputPin::Working { is_high } => Ok(()),
            MockOutputPin::Failing(error) => Err(error),
        }
    }

    /// Sets the pin to the level `value`, `true` for high, or gives the error of the pin.
    pub fn set(&mut self, value: bool) -> (result: Result<(), MockDigitalError>)
        ensures
            *final(self) == old(self).spec_set(value),
            result == old(self).spec_answer(),
    {
        match self {
            MockOutputPin::Working { is_high } => {
                *is_high = value;
                Ok(())
            },
            MockOutputPin::Failing(error) => Err(*error),
        }
    }

    /// Sets the pin high, or gives the error of the pin.
    pub fn set_high(&mut self) -> (result: Result<(), MockDigitalError>)
        ensures
            *final(self) == old(self).spec_set(true),
            result == old(self).spec_answer(),
    {
        self.set(true)
    }

    /// Sets the pin low, or gives the error of the pin.
    pub fn set_low(&mut self) -> (result: Result<(), MockDigitalError>)
        ensures
            *final(self) == old(self).spec_set(false),
            result == old(self).spec_answer(),
    {
        self.set(false)
    }
}

} // verus!
