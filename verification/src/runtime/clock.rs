//! The guest's clock.

use vstd::prelude::*;

verus! {

/// What the clock says where the host does not answer: the start of 2021, in microseconds since
/// the epoch.
pub const FALLBACK_MICROS: u64 = 1_609_459_200_000_000;

/// A point in time, in seconds and nanoseconds since the epoch.
#[derive(Debug, Clone, Copy, PartialEq, Eq, Structural)]
pub struct TimeSpec {
    /// Seconds.
    pub tv_sec: u64,
    /// Nanoseconds within the second.
    pub tv_nsec: u64,
}

/// The clocks that can be asked for.
#[derive(Debug, Clone, Copy, PartialEq, Eq, Structural)]
pub enum Clock {
    /// The time of day.
    Realtime,
    /// Time that never goes back.
    Monotonic,
    /// Any other clock.
    Other,
}

/// Microseconds since the epoch: what the host answered, or a fixed time where it failed.
pub fn micros_since_epoch(answer: Option<u64>) -> (micros: u64)
    ensures
        micros == (match answer {
            Some(m) => m,
            None => FALLBACK_MICROS,
        }),
{
    match answer {
        Some(m) => m,
        None => FALLBACK_MICROS,
    }
}

/// Whether a request for the time is answered: there is a place for the answer, and the clock is
/// one of those there are. Other requests are invalid.
pub fn clock_request_is_valid(has_place: bool, clock: Clock) -> (r: bool)
    ensures
        r == (has_place && clock != Clock::Other),
{
    has_place && clock != Clock::Other
}

/// A number of microseconds as a point in time.
pub fn timespec_of_micros(micros: u64) -> (ts: TimeSpec)
    ensures
        ts.tv_sec == micros / 1_000_000,
        ts.tv_nsec == micros % 1_000_000 * 1000,
        ts.tv_nsec < 1_000_000_000,
        ts.tv_sec * 1_000_000_000 + ts.tv_nsec == micros * 1000,
{
    TimeSpec { tv_sec: micros / 1_000_000, tv_nsec: micros % 1_000_000 * 1000 }
}

/// Later microseconds give a later point in time: the clock never goes back.
pub proof fn law_clock_is_monotonic(a: u64, b: u64)
    requires
        a <= b,
    ensures
        a / 1_000_000 < b / 1_000_000 || (a / 1_000_000 == b / 1_000_000 && a % 1_000_000 * 1000
            <= b % 1_000_000 * 1000),
{
}

} // verus!
