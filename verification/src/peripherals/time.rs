//! Sources of time.

pub mod system_time;
