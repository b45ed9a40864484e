//! The errors that the test doubles give.

use vstd::prelude::*;

verus! {

/// The kinds of SPI error that `embedded_hal` tells apart.
#[verifier::external_type_specification]
#[verifier::external_body]
pub struct ExSpiErrorKind(embedded_hal::spi::ErrorKind);

/// The kinds of pin error that `embedded_hal` tells apart.
#[verifier::external_type_specification]
#[verifier::external_body]
pub struct ExDigitalErrorKind(embedded_hal::digital::ErrorKind);

/// An error that says nothing.
#[derive(Debug, Copy, Clone, Eq, PartialEq, Structural, Ord, PartialOrd, Hash)]
pub struct MockEmptyError;

/// The error of a mock SPI device.
#[derive(Debug, Copy, Clone, Eq, PartialEq, Ord, PartialOrd, Hash)]
pub struct MockSpiError(embedded_hal::spi::ErrorKind);

impl MockSpiError {
    /// The kind of the error.
    pub closed spec fn spec_kind(&self) -> embedded_hal::spi::ErrorKind {
        self.0
    }

    /// The error of kind `kind`.
    pub fn new(kind: embedded_hal::spi::ErrorKind) -> (error: Self)
        ensures
            error.spec_kind() == kind,
    {
        MockSpiError(kind)
    }

    /// The kind of the error.
    pub fn kind(&self) -> (kind: embedded_hal::spi::ErrorKind)
        ensures
            kind == self.spec_kind(),
    {
        self.0
    }
}

/// The error of a mock pin.
#[derive(Debug, Copy, Clone, Eq, PartialEq, Ord, PartialOrd, Hash)]
pub struct MockDigitalError(embedded_hal::digital::ErrorKind);

impl MockDigitalError {
    /// The kind of the error.
    pub closed spec fn spec_kind(&self) -> embedded_hal::digital::ErrorKind {
        self.0
    }

    /// The error of kind `kind`.
    pub fn new(kind: embedded_hal::digital::ErrorKind) -> (error: Self)
        ensures
            error.spec_kind() == kind,
    {
        MockDigitalError(kind)
    }

    /// The kind of the error.
    pub fn kind(&self) -> (kind: embedded_hal::digital::ErrorKind)
        ensures
            kind == self.spec_kind(),
    {
        self.0
    }
}

} // verus!
