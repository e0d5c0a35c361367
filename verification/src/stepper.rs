//! The rotational actuator: a stepper driver fed by a pulse channel and a
//! direction pin, held as the state last commanded.
use vstd::prelude::*;

verus! {

#[derive(Clone, Copy, Debug, PartialEq, Eq, Structural)]
pub enum CircularDirection {
    CW,
    CCW,
}

/// The actuator as last commanded. The enable pin of the driver is not
/// wired; the motor turns while the pulse channel runs.
#[derive(Clone, Copy, Debug, PartialEq, Eq, Structural)]
pub struct Stepper {
    /// Level of the direction pin: high turns clockwise.
    pub pin_direction: bool,
    /// Whether the pulse channel is running.
    pub pulsing: bool,
    /// Compare value of the pulse channel.
    pub duty: u16,
    /// Largest compare value the pulse channel takes.
    pub max_duty: u16,
}

impl Stepper {
    /// The direction that the level of the direction pin selects.
    pub open spec fn spec_direction(&self) -> CircularDirection {
        if self.pin_direction {
            CircularDirection::CW
        } else {
            CircularDirection::CCW
        }
    }

    /// An actuator at rest: the pulse channel stopped at half of `max_duty`,
    /// the direction pin low.
    pub fn new(max_duty: u16) -> (stepper: Stepper)
        ensures
            stepper == (Stepper {
                pin_direction: false,
                pulsing: false,
                duty: max_duty / 2,
                max_duty,
            }),
    {
        let duty_cycle: u16 = max_duty / 2;
        Stepper { pin_direction: false, pulsing: false, duty: duty_cycle, max_duty }
    }

    pub fn enable(&mut self)
        ensures
            *final(self) == (Stepper { pulsing: true, ..*old(self) }),
    {
        self.pulsing = true;
    }

    pub fn disable(&mut self)
        ensures
            *final(self) == (Stepper { pulsing: false, ..*old(self) }),
    {
        self.pulsing = false;
    }

    pub fn set_direction(&mut self, dir: CircularDirection)
        ensures
            *final(self) == (Stepper { pin_direction: dir == CircularDirection::CW, ..*old(self) }),
            final(self).spec_direction() == dir,
    {
        match dir {
            CircularDirection::CW => {
                self.pin_direction = true;
            },
            _ => {
                self.pin_direction = false;
            },
        }
    }

    pub fn toggle_direction(&mut self)
        ensures
            *final(self) == (Stepper { pin_direction: !old(self).pin_direction, ..*old(self) }),
            final(self).spec_direction() != old(self).spec_direction(),
    {
        if self.pin_direction {
            self.pin_direction = false;
        } else {
            self.pin_direction = true;
        }
    }

    #[verifier::when_used_as_spec(spec_direction)]
    pub fn direction(&self) -> (dir: CircularDirection)
        ensures
            dir == self.spec_direction(),
    {
        if self.pin_direction {
            CircularDirection::CW
        } else {
            CircularDirection::CCW
        }
    }
}

} // verus!
