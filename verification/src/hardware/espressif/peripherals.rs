//! The arithmetic behind the peripherals of Espressif chips.

pub mod adc;
pub mod delay;
