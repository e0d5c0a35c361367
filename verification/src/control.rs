//! The orientation policy: what the actuator should do about a bearing.
use vstd::prelude::*;
use crate::angle::{Angle, degrees};
use crate::stepper::CircularDirection;

verus! {

/// The drift, in degrees to either side of north, within which the
/// platform counts as oriented. It keeps the actuator from chasing fuzzy
/// readings.
pub const ACCURACY_THRESHOLD: i16 = 30;

/// What the actuator is told for one control cycle.
#[derive(Clone, Copy, Debug, PartialEq, Eq, Structural)]
pub enum Command {
    /// Stop the actuator.
    Hold,
    /// Run the actuator in the given direction.
    Turn(CircularDirection),
}

/// The policy: hold within the threshold of north, else turn,
/// counterclockwise for a positive bearing and clockwise for a negative
/// one. A bearing that is not a number is held.
pub open spec fn spec_decide(bearing: Angle) -> Command {
    let v = bearing.scaled();
    if bearing.spec_is_nan() || degrees(-(ACCURACY_THRESHOLD as int)) <= v <= degrees(
        ACCURACY_THRESHOLD as int,
    ) {
        Command::Hold
    } else if v > 0 {
        Command::Turn(CircularDirection::CCW)
    } else {
        Command::Turn(CircularDirection::CW)
    }
}

#[verifier::when_used_as_spec(spec_decide)]
pub fn decide(bearing: Angle) -> (command: Command)
    ensures
        command == spec_decide(bearing),
{
    let mut enable = false;
    let mut direction = CircularDirection::CW;
    let threshold = Angle::from_degrees(ACCURACY_THRESHOLD);
    proof {
        assert(degrees(-(ACCURACY_THRESHOLD as int)) == -degrees(ACCURACY_THRESHOLD as int))
            by (nonlinear_arith);
        assert(degrees(0) == 0);
    }
    if threshold.lt(bearing.abs()) {
        enable = true;
        if Angle::from_degrees(0).lt(bearing) {
            direction = CircularDirection::CCW;
        }
    }
    if enable {
        Command::Turn(direction)
    } else {
        Command::Hold
    }
}

} // verus!
