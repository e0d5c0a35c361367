//! The magnetometer as the control core sees it: a capability that is there
//! or not, and the correction for how the sensor is mounted.
use vstd::prelude::*;
use crate::angle::{Angle, degrees};

verus! {

/// The sensor capability. The sensor sits turned against the platform's
/// forward axis, so the angle of its horizontal field vector is mirrored to
/// give the bearing.
#[derive(Clone, Copy, Debug, PartialEq, Eq, Structural)]
pub struct Compass {}

impl Compass {
    /// The capability of a sensor that came up.
    pub fn new() -> (compass: Compass)
        ensures
            compass == (Compass {  }),
    {
        Compass {  }
    }

    /// The bearing toward north for a field vector at angle `heading`: the
    /// angle with its sign flipped.
    pub fn bearing_north(&self, heading: Angle) -> (bearing: Angle)
        ensures
            bearing == heading.spec_neg(),
    {
        heading.neg()
    }
}

/// The angle of a vector lies above -180 and at most at 180 degrees; its
/// mirror image then lies in the half-open circle from -180 to 180 degrees.
pub proof fn lemma_mirrored_heading_in_range(heading: Angle)
    requires
        !heading.spec_is_nan(),
        degrees(-180) < heading.scaled() <= degrees(180),
    ensures
        heading.spec_neg().spec_in_range(),
{
    assert(degrees(-180) == -degrees(180)) by (nonlinear_arith);
}

} // verus!
