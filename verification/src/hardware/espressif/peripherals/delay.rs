//! Delays: how long to wait for.

use vstd::prelude::*;

verus! {

/// The delay of the platform, which counts in microseconds.
#[derive(Clone, Copy, Debug)]
pub struct Delay;

impl Delay {
    /// The microseconds to wait for a delay of `ns` nanoseconds: the whole microseconds
    /// in it, and one at least.
    pub open spec fn spec_microseconds(ns: u32) -> u32 {
        if ns / 1_000 < 1 {
            1
        } else {
            ns / 1_000
        }
    }

    /// The microseconds to wait for a delay of `ns` nanoseconds. A delay is one
    /// microsecond at least, even where `ns` is less.
    pub fn microseconds(ns: u32) -> (us: u32)
        ensures
            us == Self::spec_microseconds(ns),
            us >= 1,
    {
        let whole = ns / 1_000;
        if whole < 1 {
            1
        } else {
            whole
        }
    }
}

} // verus!
