//! Test doubles for peripherals.

pub mod conversation;
pub mod error;
pub mod input;
pub mod laws;
pub mod nand;
pub mod output;
pub mod pwm;
pub mod spi;
pub mod time;
pub mod timer;
pub mod uart;
