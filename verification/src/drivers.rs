//! Drivers for external devices.

pub mod l298n;
pub mod max6675;
pub mod spi_flash_memory;
