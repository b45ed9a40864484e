//! Building blocks for embedded firmware: a driver core for SPI-attached raw NAND flash,
//! test doubles for common peripherals and a handful of allocation-free utilities.

pub mod drivers;
pub mod hardware;
pub mod peripherals;
pub mod utils;
