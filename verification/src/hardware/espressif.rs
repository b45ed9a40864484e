//! Espressif chips.

pub mod peripherals;
