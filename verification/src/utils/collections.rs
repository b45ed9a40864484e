//! Collections that the drivers share.

pub mod list;
