//! The feature registers of a chip and the bits of its status register.

use vstd::prelude::*;

verus! {

/// A register of the chip that the "get feature" and "set feature" commands address.
#[derive(Clone, Copy, Debug, PartialEq, Eq, Structural)]
pub enum FeatureRegister {
    /// Block lock: which blocks are protected against program and erase.
    BlockLock,
    /// Configuration: ECC enable, OTP access and the like.
    Configuration,
    /// Status: busy, write enable latch, failure flags, ECC outcome.
    Status,
    /// Die select.
    DieSelect,
}

/// Address of the block lock register.
pub const BLOCK_LOCK_ADDRESS: u8 = 0xA0;

/// Address of the configuration register.
pub const CONFIGURATION_ADDRESS: u8 = 0xB0;

/// Address of the status register.
pub const STATUS_ADDRESS: u8 = 0xC0;

/// Address of the die select register.
pub const DIE_SELECT_ADDRESS: u8 = 0xD0;

impl FeatureRegister {
    /// The address byte of the register.
    pub open spec fn spec_address(&self) -> u8 {
        match self {
            FeatureRegister::BlockLock => BLOCK_LOCK_ADDRESS,
            FeatureRegister::Configuration => CONFIGURATION_ADDRESS,
            FeatureRegister::Status => STATUS_ADDRESS,
            FeatureRegister::DieSelect => DIE_SELECT_ADDRESS,
        }
    }

    /// The register at an address byte, if there is one.
    pub open spec fn spec_from_address(address: u8) -> Option<FeatureRegister> {
        if address == BLOCK_LOCK_ADDRESS {
            Some(FeatureRegister::BlockLock)
        } else if address == CONFIGURATION_ADDRESS {
            Some(FeatureRegister::Configuration)
        } else if address == STATUS_ADDRESS {
            Some(FeatureRegister::Status)
        } else if address == DIE_SELECT_ADDRESS {
            Some(FeatureRegister::DieSelect)
        } else {
            None
        }
    }

    /// The address byte of the register.
    pub fn address(&self) -> (address: u8)
        ensures
            address == self.spec_address(),
    {
        match self {
            FeatureRegister::BlockLock => BLOCK_LOCK_ADDRESS,
            FeatureRegister::Configuration => CONFIGURATION_ADDRESS,
            FeatureRegister::Status => STATUS_ADDRESS,
            FeatureRegister::DieSelect => DIE_SELECT_ADDRESS,
        }
    }

    /// The register at an address byte, or `None` where the chip has no register.
    pub fn from_address(address: u8) -> (register: Option<FeatureRegister>)
        ensures
            register == Self::spec_from_address(address),
    {
        if address == BLOCK_LOCK_ADDRESS {
            Some(FeatureRegister::BlockLock)
        } else if address == CONFIGURATION_ADDRESS {
            Some(FeatureRegister::Configuration)
        } else if address == STATUS_ADDRESS {
            Some(FeatureRegister::Status)
        } else if address == DIE_SELECT_ADDRESS {
            Some(FeatureRegister::DieSelect)
        } else {
            None
        }
    }

    /// Every register is found again at its address, and an address that names a register
    /// is the address of that register.
    pub proof fn lemma_address_round_trip(register: FeatureRegister, address: u8)
        ensures
            Self::spec_from_address(register.spec_address()) == Some(register),
            Self::spec_from_address(address) matches Some(found) ==> found.spec_address()
                == address,
    {
    }
}

/// Bit of the status byte that is set while an operation is in progress.
pub const STATUS_BUSY: u8 = 0x01;

/// Bit of the status byte that is set while the write enable latch is set.
pub const STATUS_WRITE_ENABLED: u8 = 0x02;

/// Bit of the status byte that is set when an erase failed.
pub const STATUS_ERASE_FAILED: u8 = 0x04;

/// Bit of the status byte that is set when a program failed.
pub const STATUS_PROGRAM_FAILED: u8 = 0x08;

/// Bits of the status byte that hold the outcome of the ECC of the last page read.
pub const STATUS_ECC_MASK: u8 = 0x70;

/// Value of the ECC bits that says the last page read has errors beyond correction.
pub const STATUS_ECC_UNCORRECTABLE: u8 = 0x20;

/// The raw bits of the status register.
#[derive(Clone, Copy, Debug, PartialEq, Eq, Structural)]
pub struct Status {
    /// The byte as the chip gave it.
    pub bits: u8,
}

impl Status {
    /// An operation is in progress.
    pub open spec fn spec_is_busy(&self) -> bool {
        self.bits & STATUS_BUSY != 0
    }

    /// The write enable latch is set.
    pub open spec fn spec_is_write_enabled(&self) -> bool {
        self.bits & STATUS_WRITE_ENABLED != 0
    }

    /// The last erase failed.
    pub open spec fn spec_has_erase_failed(&self) -> bool {
        self.bits & STATUS_ERASE_FAILED != 0
    }

    /// The last program failed.
    pub open spec fn spec_has_program_failed(&self) -> bool {
        self.bits & STATUS_PROGRAM_FAILED != 0
    }

    /// The last page read has errors beyond what the ECC corrects.
    pub open spec fn spec_is_uncorrectable(&self) -> bool {
        self.bits & STATUS_ECC_MASK == STATUS_ECC_UNCORRECTABLE
    }

    /// The status that a byte of the status register holds.
    pub fn from_bits(bits: u8) -> (status: Status)
        ensures
            status.bits == bits,
    {
        Status { bits }
    }

    /// Tells whether an operation is in progress.
    pub fn is_busy(&self) -> (busy: bool)
        ensures
            busy == self.spec_is_busy(),
    {
        self.bits & STATUS_BUSY != 0
    }

    /// Tells whether the write enable latch is set.
    pub fn is_write_enabled(&self) -> (enabled: bool)
        ensures
            enabled == self.spec_is_write_enabled(),
    {
        self.bits & STATUS_WRITE_ENABLED != 0
    }

    /// Tells whether the last erase failed.
    pub fn has_erase_failed(&self) -> (failed: bool)
        ensures
            failed == self.spec_has_erase_failed(),
    {
        self.bits & STATUS_ERASE_FAILED != 0
    }

    /// Tells whether the last program failed.
    pub fn has_program_failed(&self) -> (failed: bool)
        ensures
            failed == self.spec_has_program_failed(),
    {
        self.bits & STATUS_PROGRAM_FAILED != 0
    }

    /// Tells whether the last page read has errors beyond what the ECC corrects.
    pub fn is_uncorrectable(&self) -> (uncorrectable: bool)
        ensures
            uncorrectable == self.spec_is_uncorrectable(),
    {
        self.bits & STATUS_ECC_MASK == STATUS_ECC_UNCORRECTABLE
    }
}

} // verus!
