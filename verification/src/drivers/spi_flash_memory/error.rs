//! The ways an operation on the flash memory can fail.

use vstd::prelude::*;

verus! {

/// Why an operation did not succeed. `E` is the error of the transport, which is carried as
/// it came and never looked into.
#[derive(Debug)]
pub enum FlashError<E> {
    /// An exchange on the bus failed. The rest of the operation was not attempted.
    Transport(E),
    /// An address, a block index or a column range falls outside the chip. Nothing was
    /// sent.
    Addressing,
    /// The chip stayed busy for as many status reads as the driver allows.
    DeviceNotReady,
    /// The chip completed a program and reported that it failed.
    ProgramFailed,
    /// The chip completed an erase and reported that it failed.
    EraseFailed,
    /// The call does not fit the state of the driver: a data operation before bring-up, a
    /// read of a cache that holds no page, a new operation while one is in flight, or an
    /// event when none is. Nothing was sent.
    Usage,
}

impl<E> FlashError<E> {
    /// The error came from the bus, not from the chip or the driver.
    pub open spec fn spec_is_transport(&self) -> bool {
        self is Transport
    }

    /// Tells whether the error came from the bus.
    pub fn is_transport(&self) -> (transport: bool)
        ensures
            transport == self.spec_is_transport(),
    {
        match self {
            FlashError::Transport(_) => true,
            _ => false,
        }
    }

    /// Tells whether the chip stayed busy beyond what the driver allows.
    pub fn is_device_not_ready(&self) -> (not_ready: bool)
        ensures
            not_ready == (self is DeviceNotReady),
    {
        match self {
            FlashError::DeviceNotReady => true,
            _ => false,
        }
    }
}

} // verus!
