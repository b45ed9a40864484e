//! The time since the system started.

use core::time::Duration;
use vstd::prelude::*;

verus! {

/// A source of the time that has passed since the system started.
pub trait SystemTime {
    /// The time that has passed since the system started.
    fn now(&self) -> Duration;
}

} // verus!
