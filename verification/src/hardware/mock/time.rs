//! A mock clock.

use core::time::Duration;
use vstd::prelude::*;

use crate::peripherals::time::system_time::SystemTime;

verus! {

/// A clock that stands at the time it is given.
pub struct MockSystemTime {
    pub current_time: Duration,
}

impl SystemTime for MockSystemTime {
    fn now(&self) -> (now: Duration)
        ensures
            now == self.current_time,
    {
        self.current_time
    }
}

} // verus!
