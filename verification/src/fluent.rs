//! Durations written the way they are spoken: `6.hours()`, `100.milli_seconds()`.

use vstd::prelude::*;

verus! {

/// Milliseconds in one second.
pub const MILLIS_PER_SECOND: u64 = 1_000;

/// Milliseconds in one minute.
pub const MILLIS_PER_MINUTE: u64 = 60_000;

/// Milliseconds in one hour.
pub const MILLIS_PER_HOUR: u64 = 3_600_000;

/// Milliseconds in one day.
pub const MILLIS_PER_DAY: u64 = 86_400_000;

/// A count that can be read as a duration in a unit of time. Every method
/// gives the duration in milliseconds.
pub trait FluentDuration: Sized {
    /// The count itself.
    spec fn count(self) -> nat;

    fn milli_seconds(self) -> (d: u64)
        ensures
            d == self.count(),
    ;

    fn seconds(self) -> (d: u64)
        ensures
            d == self.count() * MILLIS_PER_SECOND,
    ;

    fn minutes(self) -> (d: u64)
        ensures
            d == self.count() * MILLIS_PER_MINUTE,
    ;

    fn hours(self) -> (d: u64)
        ensures
            d == self.count() * MILLIS_PER_HOUR,
    ;

    fn days(self) -> (d: u64)
        ensures
            d == self.count() * MILLIS_PER_DAY,
    ;
}

impl FluentDuration for u32 {
    open spec fn count(self) -> nat {
        self as nat
    }

    fn milli_seconds(self) -> (d: u64) {
        self as u64
    }

    fn seconds(self) -> (d: u64) {
        self as u64 * MILLIS_PER_SECOND
    }

    fn minutes(self) -> (d: u64) {
        self as u64 * MILLIS_PER_MINUTE
    }

    fn hours(self) -> (d: u64) {
        self as u64 * MILLIS_PER_HOUR
    }

    fn days(self) -> (d: u64) {
        self as u64 * MILLIS_PER_DAY
    }
}

} // verus!
