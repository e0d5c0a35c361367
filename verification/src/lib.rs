//! Verified control core of a platform that turns itself toward magnetic
//! north: angle arithmetic on single-precision encodings, the eight compass
//! sectors and their lights, the actuator policy, the priority-ceiling lock
//! discipline and the task scheduler.
//!
//! The core touches no hardware. It keeps the state last commanded to the
//! lights and to the actuator; a platform adapter copies that state to the
//! pins, reads the sensor and feeds the readings in.
use vstd::prelude::*;

pub mod angle;
pub mod cadence;
pub mod ceiling;
pub mod compass;
pub mod control;
pub mod laws;
pub mod leds;
pub mod order;
pub mod scheduler;
pub mod sector;
pub mod shared;
pub mod stepper;
pub mod task;
pub mod tasks;

use crate::angle::Angle;
use crate::compass::Compass;
use crate::leds::{LedId, Leds};
use crate::sector::Sector;
use crate::stepper::{CircularDirection, Stepper};

verus! {

/// Why the platform stopped, or why a collaborator is missing.
#[derive(Clone, Copy, Debug, PartialEq, Eq, Structural)]
pub enum Error {
    /// A device collaborator failed to come up.
    Hardware,
    /// A task reached for a capability that never came up.
    MissingCapability,
    /// A bearing lay outside the half-open circle from -180 to 180 degrees.
    OutOfRange,
}

/// A half-open range of angles.
#[derive(Clone, Copy, Debug)]
pub struct RangeF32 {
    pub start: Angle,
    /// Exclusive.
    pub end: Angle,
}

impl RangeF32 {
    /// Whether `n` is a number at or above `start` and below `end`.
    pub open spec fn holds(self, n: Angle) -> bool {
        self.start.spec_le(n) && n.spec_lt(self.end)
    }

    pub fn contains(self: &Self, n: Angle) -> (r: bool)
        ensures
            r == self.holds(n),
    {
        self.start.le(n) && n.lt(self.end)
    }
}

/// Half-period of the fault signal, in milliseconds.
pub const FLASH_HALF_PERIOD_MS: u32 = 100;

/// The whole device as last commanded. A collaborator that failed to come
/// up is absent for good.
#[derive(Clone, Copy, Debug)]
pub struct ConfiguredDevice {
    /// System clock in Hz.
    pub clocks: u32,
    pub leds: Leds,
    pub compass: Option<Compass>,
    pub stepper: Option<Stepper>,
}

impl ConfiguredDevice {
    /// A device with all lights dark. A collaborator that reported a fault
    /// is left out, and the rest of the device is used without it.
    pub fn new(clocks: u32, compass: Result<Compass, Error>, stepper: Result<Stepper, Error>) -> (device: Self)
        ensures
            device.clocks == clocks,
            device.leds@ == Set::<LedId>::empty(),
            device.compass == (match compass {
                Ok(c) => Some(c),
                Err(_) => None,
            }),
            device.stepper == (match stepper {
                Ok(s) => Some(s),
                Err(_) => None,
            }),
    {
        let leds = Leds::new();
        let compass = match compass {
            Ok(c) => Some(c),
            Err(_) => None,
        };
        let stepper = match stepper {
            Ok(s) => Some(s),
            Err(_) => None,
        };
        Self { clocks, leds, compass, stepper }
    }

    /// Clock cycles in `ms` milliseconds.
    pub open spec fn spec_delay(self, ms: u32) -> int {
        (self.clocks / 1000) * ms
    }

    /// The number of clock cycles to spin for a pause of `ms` milliseconds.
    pub fn delay(self: &Self, ms: u32) -> (cycles: u32)
        requires
            self.spec_delay(ms) <= u32::MAX,
        ensures
            cycles == self.spec_delay(ms),
    {
        let freq: u32 = self.clocks;
        let cycles_per_ms: u32 = freq / 1000;
        cycles_per_ms * ms
    }

    /// Turn off all configured LEDs
    pub fn leds_clear(self: &mut Self)
        ensures
            final(self).leds@ == Set::<LedId>::empty(),
            final(self).same_but_leds(*old(self)),
    {
        self.leds.clear_all();
    }

    /// The device once its ring shows `bearing`.
    pub open spec fn showing(self, bearing: Angle) -> ConfiguredDevice {
        ConfiguredDevice { leds: Leds::showing(lights_for(bearing)), ..self }
    }

    /// Whether `other` is this device with, at most, other lights lit.
    pub open spec fn same_but_leds(self, other: ConfiguredDevice) -> bool {
        self == (ConfiguredDevice { leds: self.leds, ..other })
    }

    /// Turn the given LED on
    pub fn led_on(self: &mut Self, led_id: LedId)
        ensures
            final(self).leds@ == old(self).leds@.insert(led_id),
            final(self).same_but_leds(*old(self)),
    {
        self.leds.on(led_id);
    }

    /// Turn the given LED off
    pub fn led_off(self: &mut Self, led_id: LedId)
        ensures
            final(self).leds@ == old(self).leds@.remove(led_id),
            final(self).same_but_leds(*old(self)),
    {
        self.leds.off(led_id);
    }

    /// One half-period of the fault signal on the north light: lit in the
    /// even half-periods, dark in the odd ones. Returns the clock cycles to
    /// spin before the next half-period.
    pub fn flash_error(self: &mut Self, half_period: u32) -> (cycles: u32)
        ensures
            final(self).leds@ == if half_period % 2 == 0 {
                old(self).leds@.insert(LedId::Led3)
            } else {
                old(self).leds@.remove(LedId::Led3)
            },
            final(self).same_but_leds(*old(self)),
            cycles == old(self).spec_delay(FLASH_HALF_PERIOD_MS),
    {
        if half_period % 2 == 0 {
            self.led_on(LedId::Led3);
        } else {
            self.led_off(LedId::Led3);
        }
        self.delay(FLASH_HALF_PERIOD_MS)
    }

    /// The bearing toward north for a field vector at angle `heading`, or
    /// the fault of a device without a compass.
    pub fn bearing_north(self: &mut Self, heading: Angle) -> (bearing: Result<Angle, Error>)
        ensures
            *final(self) == *old(self),
            bearing == (match old(self).compass {
                Some(_) => Ok::<Angle, Error>(heading.spec_neg()),
                None => Err::<Angle, Error>(Error::MissingCapability),
            }),
    {
        match &self.compass {
            Some(compass) => Ok(compass.bearing_north(heading)),
            None => Err(Error::MissingCapability),
        }
    }

    /// What `command` makes of the device: the fault of a device without a
    /// stepper, else the stepper after the command.
    pub open spec fn commanded(self, command: spec_fn(Stepper) -> Stepper) -> (
        ConfiguredDevice,
        Result<(), Error>,
    ) {
        match self.stepper {
            Some(stepper) => (
                ConfiguredDevice { stepper: Some(command(stepper)), ..self },
                Ok::<(), Error>(()),
            ),
            None => (self, Err::<(), Error>(Error::MissingCapability)),
        }
    }

    /// Turn on the stepper PWM signal
    pub fn stepper_enable(self: &mut Self) -> (r: Result<(), Error>)
        ensures
            (*final(self), r) == old(self).commanded(|s: Stepper| Stepper { pulsing: true, ..s }),
    {
        match &mut self.stepper {
            Some(stepper) => {
                stepper.enable();
                Ok(())
            },
            None => Err(Error::MissingCapability),
        }
    }

    /// Turn off the stepper PWM signal
    pub fn stepper_disable(self: &mut Self) -> (r: Result<(), Error>)
        ensures
            (*final(self), r) == old(self).commanded(|s: Stepper| Stepper { pulsing: false, ..s }),
    {
        match &mut self.stepper {
            Some(stepper) => {
                stepper.disable();
                Ok(())
            },
            None => Err(Error::MissingCapability),
        }
    }

    /// Set the direction of the stepper
    pub fn stepper_set_direction(self: &mut Self, dir: CircularDirection) -> (r: Result<(), Error>)
        ensures
            (*final(self), r) == old(self).commanded(
                |s: Stepper| Stepper { pin_direction: dir == CircularDirection::CW, ..s },
            ),
    {
        match &mut self.stepper {
            Some(stepper) => {
                stepper.set_direction(dir);
                Ok(())
            },
            None => Err(Error::MissingCapability),
        }
    }

    /// Toggle the direction of the stepper
    pub fn stepper_toggle_direction(self: &mut Self) -> (r: Result<(), Error>)
        ensures
            (*final(self), r) == old(self).commanded(
                |s: Stepper| Stepper { pin_direction: !s.pin_direction, ..s },
            ),
    {
        match &mut self.stepper {
            Some(stepper) => {
                stepper.toggle_direction();
                Ok(())
            },
            None => Err(Error::MissingCapability),
        }
    }
}

/// The lights that show `bearing`: the light of its sector alone, or none
/// for a bearing that no sector holds.
pub open spec fn lights_for(bearing: Angle) -> Set<LedId> {
    match Sector::spec_of(bearing) {
        Some(sector) => set![sector.spec_led()],
        None => Set::<LedId>::empty(),
    }
}

/// Shows `bearing` on the ring: the light of its sector is lit and the other
/// seven are dark. A bearing outside the half-open circle from -180 to 180
/// degrees leaves the ring dark and is reported as a fault.
pub fn display_bearing(board: &mut ConfiguredDevice, bearing: Angle) -> (r: Result<(), Error>)
    ensures
        final(board).leds@ == lights_for(bearing),
        *final(board) == old(board).showing(bearing),
        r == (if bearing.spec_in_range() {
            Ok::<(), Error>(())
        } else {
            Err::<(), Error>(Error::OutOfRange)
        }),
{
    let r = match Sector::of(bearing) {
        Some(sector) => {
            board.leds.set_sector(sector);
            Ok(())
        },
        None => {
            board.leds_clear();
            Err(Error::OutOfRange)
        },
    };
    proof {
        crate::leds::lemma_ring_shows_its_view(board.leds);
    }
    r
}

} // verus!
