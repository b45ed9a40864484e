//! A mock timer.

use vstd::prelude::*;

verus! {

/// What a mock timer offers beyond its alarm: nothing.
#[derive(Debug, Clone, Copy)]
pub struct MockTimerAdditionalFunctionality;

} // verus!
