//! Driver core for SPI-attached raw NAND flash memory.

pub mod address;
pub mod chip;
pub mod command;
pub mod driver;
pub mod error;
pub mod feature;
pub mod laws;
pub mod protocol;
pub mod scanner;
