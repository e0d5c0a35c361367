//! The cadences of the periodic tasks, in ticks of the scheduler's clock:
//! one tick is one millisecond.
use vstd::prelude::*;

verus! {

/// Ticks in one second.
pub const TICKS_PER_SECOND: u64 = 1_000;

/// Ticks from start-up to the first sample of the sensor.
pub const UPDATE_BEARING_START: u64 = 1_000;

/// Ticks from start-up to the first decision about the actuator: later
/// than the first samples, to let the readings settle.
pub const ORIENTATE_START: u64 = 3_000;

/// Ticks from one sample of the sensor to the next.
pub const UPDATE_BEARING_PERIOD: u64 = 100;

/// Ticks from one decision about the actuator to the next.
pub const ORIENTATE_PERIOD: u64 = 250;

/// The ticks in `s` seconds, as `fugit` counts them: `ExtU64::secs` makes
/// the duration on the time base of one tick per millisecond, and
/// `Duration::ticks` reads its count. The count is a thousand times `s`;
/// `fugit` computes that product in `u64`, so `s` must leave room for it.
#[verifier::external_body]
pub(crate) fn secs(s: u64) -> (ticks: u64)
    requires
        s * TICKS_PER_SECOND <= u64::MAX,
    ensures
        ticks == s * TICKS_PER_SECOND,
{
    let duration: systick_monotonic::fugit::Duration<u64, 1, 1_000> =
        systick_monotonic::fugit::ExtU64::secs(s);
    duration.ticks()
}

/// The ticks in `ms` milliseconds, as `fugit` counts them: `ExtU64::millis`
/// makes the duration on the time base of one tick per millisecond, and
/// `Duration::ticks` reads its count, which is `ms`.
#[verifier::external_body]
pub(crate) fn millis(ms: u64) -> (ticks: u64)
    ensures
        ticks == ms,
{
    let duration: systick_monotonic::fugit::Duration<u64, 1, 1_000> =
        systick_monotonic::fugit::ExtU64::millis(ms);
    duration.ticks()
}

} // verus!
