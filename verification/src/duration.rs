//! Spans of time in whole milliseconds.

use vstd::prelude::*;

verus! {

/// A span of time, counted in milliseconds.
#[derive(Clone, Copy, Debug, PartialEq, Eq, Structural, Hash, PartialOrd, Ord)]
pub struct Duration {
    milliseconds: u32,
}

impl Duration {
    /// The number of milliseconds, as a mathematical integer.
    pub closed spec fn millis(self) -> nat {
        self.milliseconds as nat
    }

    /// The span of `milliseconds` milliseconds, in contracts.
    pub closed spec fn from_millis_spec(milliseconds: u32) -> Duration {
        Duration { milliseconds }
    }

    /// The span of `milliseconds` milliseconds.
    #[verifier::when_used_as_spec(from_millis_spec)]
    pub fn from_millis(milliseconds: u32) -> (d: Duration)
        ensures
            d == Duration::from_millis_spec(milliseconds),
            d.millis() == milliseconds,
    {
        Duration { milliseconds }
    }

    /// The span of `seconds` seconds, or the longest span if that does not fit.
    pub fn from_secs(seconds: u32) -> (d: Duration)
        ensures
            d.millis() == if seconds * 1000 <= u32::MAX { seconds * 1000 } else { u32::MAX as int },
    {
        if seconds <= u32::MAX / 1000 {
            Duration { milliseconds: seconds * 1000 }
        } else {
            Duration { milliseconds: u32::MAX }
        }
    }

    /// The empty span.
    pub fn zero() -> (d: Duration)
        ensures
            d == Duration::from_millis_spec(0),
            d.millis() == 0,
    {
        Duration { milliseconds: 0 }
    }

    /// The span in milliseconds.
    pub fn as_millis(&self) -> (ms: u32)
        ensures
            ms == self.millis(),
    {
        self.milliseconds
    }

    /// Whether the span is empty.
    pub fn is_zero(&self) -> (r: bool)
        ensures
            r == (self.millis() == 0),
    {
        self.milliseconds == 0
    }

    /// The span of `milliseconds` milliseconds counts that many.
    pub proof fn lemma_from_millis_spec(milliseconds: u32)
        ensures
            Duration::from_millis_spec(milliseconds).millis() == milliseconds,
    {
    }

    /// Two spans are equal exactly when they count the same milliseconds.
    pub proof fn lemma_millis_injective(a: Duration, b: Duration)
        ensures
            a.millis() == b.millis() <==> a == b,
    {
    }

    /// Every span fits in 32 bits.
    pub proof fn lemma_millis_bounded(self)
        ensures
            self.millis() <= u32::MAX,
    {
    }
}

} // verus!
