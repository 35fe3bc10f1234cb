//! A span of time.

use vstd::prelude::*;

verus! {

/// A span of time, in nanoseconds.
#[derive(Debug, Clone, Copy, PartialEq, Eq, PartialOrd, Ord, Structural)]
pub struct Duration {
    nanos: u128,
}

impl View for Duration {
    type V = int;

    closed spec fn view(&self) -> int {
        self.nanos as int
    }
}

impl Duration {
    /// Spans of the same length are equal, and no length is negative.
    pub proof fn lemma_length(self, other: Duration)
        ensures
            self@ >= 0,
            self@ == other@ <==> self == other,
    {
    }

    /// Whole milliseconds of a length in nanoseconds.
    pub open spec fn millis(self) -> int {
        self@ / 1_000_000
    }

    /// A span of whole milliseconds.
    pub fn from_millis(ms: u64) -> (r: Self)
        ensures
            r@ == ms * 1_000_000,
            r.millis() == ms,
    {
        Duration { nanos: ms as u128 * 1_000_000 }
    }

    /// A span of whole seconds.
    pub fn from_secs(secs: u64) -> (r: Self)
        ensures
            r@ == secs * 1_000_000_000,
            r.millis() == secs * 1000,
    {
        Duration { nanos: secs as u128 * 1_000_000_000 }
    }

    /// Whole milliseconds; what is left over is dropped.
    pub fn as_millis(&self) -> (r: u128)
        ensures
            r == self.millis(),
    {
        self.nanos / 1_000_000
    }

    /// The whole span in nanoseconds.
    pub fn as_nanos(&self) -> (r: u128)
        ensures
            r == self@,
    {
        self.nanos
    }

    /// The shorter of two spans.
    pub fn min(self, other: Duration) -> (r: Duration)
        ensures
            r == if self@ <= other@ {
                self
            } else {
                other
            },
    {
        if self.nanos <= other.nanos {
            self
        } else {
            other
        }
    }
}

/// A span of milliseconds or seconds has that length, read in milliseconds or in
/// nanoseconds, and the shorter of two spans is no longer than either.
pub proof fn law_lengths(
    ms: u64,
    a: Duration,
    secs: u64,
    b: Duration,
    c: Duration,
    read: u128,
    whole: u128,
)
    requires
        call_ensures(Duration::from_millis, (ms,), a),
        call_ensures(Duration::from_secs, (secs,), b),
        call_ensures(Duration::min, (a, b), c),
        call_ensures(Duration::as_millis, (&c,), read),
        call_ensures(Duration::as_nanos, (&c,), whole),
    ensures
        read == if ms <= 1000 * secs {
            ms as int
        } else {
            1000 * secs
        },
        whole == 1_000_000 * read,
        c == a || c == b,
{
}

} // verus!
