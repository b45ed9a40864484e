//! What stands for the hardware: test doubles, and the arithmetic of one platform.

pub mod espressif;
pub mod mock;
