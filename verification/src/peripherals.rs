//! Peripherals commonly found in embedded systems.

pub mod interrupt;
pub mod pwm;
pub mod time;
