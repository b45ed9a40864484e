//! The L298N dual H-bridge: which levels its two inputs take for a motor to turn.

use vstd::prelude::*;

use crate::utils::physical_quantities::rotational_direction::RotationalDirection;

verus! {

/// The levels of the two inputs of one bridge, `true` for high.
#[derive(Clone, Copy, Debug, PartialEq, Eq, Structural)]
pub struct InputLevels {
    pub in1: bool,
    pub in2: bool,
}

/// The levels that make the motor turn in `direction`: the first input is high and the
/// second low for clockwise, the other way round for counterclockwise.
pub open spec fn spec_direction_levels(direction: RotationalDirection) -> InputLevels {
    match direction {
        RotationalDirection::CW => InputLevels { in1: true, in2: false },
        RotationalDirection::CCW => InputLevels { in1: false, in2: true },
    }
}

/// The levels that make the motor turn in `direction`.
pub fn direction_levels(direction: RotationalDirection) -> (levels: InputLevels)
    ensures
        levels == spec_direction_levels(direction),
        levels.in1 != levels.in2,
{
    match direction {
        RotationalDirection::CW => InputLevels { in1: true, in2: false },
        RotationalDirection::CCW => InputLevels { in1: false, in2: true },
    }
}

/// The levels that leave the motor without drive: both inputs low.
pub fn off_levels() -> (levels: InputLevels)
    ensures
        !levels.in1,
        !levels.in2,
{
    InputLevels { in1: false, in2: false }
}

} // verus!
