//! Identifiers of the entity-component world that the engine runs.

use vstd::prelude::*;

verus! {

/// An entity of the engine's world, by its identifier.
#[derive(Debug, Clone, Copy, PartialEq, Eq, Structural)]
pub struct Entity(pub u64);

/// A duration, in nanoseconds.
#[derive(Debug, Clone, Copy, PartialEq, Eq, Structural)]
pub struct Duration {
    /// Number of nanoseconds.
    pub nanos: u128,
}

/// The longest duration: `u64::MAX` seconds and 999,999,999 nanoseconds.
pub const MAX_DURATION_NANOS: u128 = 18_446_744_073_709_551_615_999_999_999;

impl Duration {
    /// A duration of the given number of milliseconds.
    pub fn from_millis(ms: u64) -> (d: Duration)
        ensures
            d.nanos == ms * 1_000_000,
    {
        Duration { nanos: ms as u128 * 1_000_000 }
    }

    /// Is this duration zero?
    pub fn is_zero(&self) -> (r: bool)
        ensures
            r == (self.nanos == 0),
    {
        self.nanos == 0
    }
}

} // verus!
