//! Lengths of time.

use vstd::prelude::*;

verus! {

/// A length of time: whole seconds and a fraction in nanoseconds.
#[derive(Debug, Clone, Copy, PartialEq, Eq, Structural)]
pub struct Span {
    pub secs: u64,
    pub nanos: u32,
}

/// Nanoseconds in a second.
pub const NANOS_PER_SEC: u128 = 1_000_000_000;

impl Span {
    /// The fraction is less than a second.
    pub open spec fn valid(self) -> bool {
        self.nanos < NANOS_PER_SEC
    }

    /// The length in nanoseconds.
    pub open spec fn total(self) -> nat {
        (self.secs * NANOS_PER_SEC + self.nanos) as nat
    }

    /// Whole seconds.
    pub fn from_secs(secs: u64) -> (r: Self)
        ensures
            r.valid(),
            r.total() == secs * NANOS_PER_SEC,
    {
        Span { secs, nanos: 0 }
    }

    /// Whole milliseconds.
    pub fn from_millis(millis: u64) -> (r: Self)
        ensures
            r.valid(),
            r.total() == millis * 1_000_000,
    {
        Span { secs: millis / 1_000, nanos: (millis % 1_000) as u32 * 1_000_000 }
    }

    /// The length in nanoseconds.
    pub fn as_nanos(self) -> (r: u128)
        ensures
            r == self.total(),
    {
        self.secs as u128 * NANOS_PER_SEC + self.nanos as u128
    }
}

} // verus!
