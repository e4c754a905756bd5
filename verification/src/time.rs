//! Millisecond-resolution durations used for delays, intervals and rates.
use vstd::prelude::*;

verus! {

/// A span of time with millisecond resolution.
#[derive(Clone, Copy, Debug, PartialEq, Eq, PartialOrd, Ord, Hash, Structural)]
pub struct Duration {
    millis: u128,
}

impl View for Duration {
    type V = nat;

    /// The length in milliseconds.
    closed spec fn view(&self) -> nat {
        self.millis as nat
    }
}

impl Duration {
    pub fn from_millis(ms: u64) -> (d: Self)
        ensures
            d@ == ms as nat,
    {
        Duration { millis: ms as u128 }
    }

    pub fn from_secs(secs: u64) -> (d: Self)
        ensures
            d@ == secs * 1000,
    {
        Duration { millis: secs as u128 * 1000 }
    }

    /// A duration of `ms` milliseconds, for lengths computed in the crate.
    pub(crate) fn from_millis_wide(ms: u128) -> (d: Self)
        ensures
            d@ == ms as nat,
    {
        Duration { millis: ms }
    }

    /// The whole length in milliseconds.
    pub fn as_millis(&self) -> (ms: u128)
        ensures
            ms as nat == self@,
    {
        self.millis
    }
}

} // verus!
