//! The monotonic clock, modelled as microseconds since start.  Reading
//! the cycle counter register is left to the embedding program, which
//! turns each raw reading into an [`Instant`] here.

use vstd::prelude::*;

verus! {

/// Clock frequency of the processor in cycles per second.
pub const CPU_FREQUENCY: usize = 20_000_000;

/// A point in time: microseconds since the counter started.
#[derive(Debug, Clone, Copy, PartialEq, Eq, Structural)]
pub struct Instant {
    /// Microseconds since the counter started.
    pub micros: u64,
}

impl Instant {
    /// The instant a raw cycle-counter reading stands for.
    pub fn from_cycles(cycles: usize) -> (r: Instant)
        ensures
            r.micros == cycles as int / 10,
    {
        Instant { micros: (cycles / 10) as u64 }
    }

    /// Microseconds elapsed from `earlier` to this instant.
    pub fn duration_since(&self, earlier: Instant) -> (r: u64)
        requires
            earlier.micros <= self.micros,
        ensures
            r == self.micros - earlier.micros,
    {
        self.micros - earlier.micros
    }
}

} // verus!
