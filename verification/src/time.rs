//! Timeouts.

use vstd::prelude::*;

verus! {

/// The most whole seconds of a timeout. It can be added to the current time, and nobody can wait
/// long enough to tell it from a longer one.
pub const MAX_SECS: u64 = 18_446_744_073_709_551;

pub const NANOS_PER_SEC: u32 = 1_000_000_000;

/// The longest timeout, in nanoseconds.
pub open spec fn longest_nanos() -> nat {
    (MAX_SECS * NANOS_PER_SEC + NANOS_PER_SEC - 1) as nat
}

/// How long a call may wait.
#[derive(Clone, Copy, Debug, PartialEq, Eq, Structural)]
pub struct Timeout {
    pub(crate) secs: u64,
    pub(crate) nanos: u32,
}

/// The limit that a timeout sets, in nanoseconds, if there is one.
pub open spec fn limit_of(timeout: Option<Timeout>) -> Option<nat> {
    match timeout {
        Some(t) => Some(t.total_nanos()),
        None => None,
    }
}

/// How long a timeout of so many seconds and nanoseconds is: no longer than the longest one.
pub open spec fn capped_nanos(secs: u64, nanos: u32) -> nat {
    if secs <= MAX_SECS {
        (secs * NANOS_PER_SEC + nanos) as nat
    } else {
        longest_nanos()
    }
}

/// A timeout is as long as was asked for, to the nanosecond, or else the longest one, which is
/// longer than 500 million years. A longer one is never made out of a shorter one.
pub proof fn law_timeout_is_what_was_asked_for(
    secs: u64,
    nanos: u32,
    more_secs: u64,
    more_nanos: u32,
)
    requires
        nanos < 1_000_000_000,
        more_nanos < 1_000_000_000,
    ensures
        capped_nanos(secs, nanos) <= secs * 1_000_000_000 + nanos,
        capped_nanos(secs, nanos) < secs * 1_000_000_000 + nanos ==> capped_nanos(secs, nanos)
            >= 500_000_000 * 365 * 24 * 60 * 60 * 1_000_000_000,
        secs * 1_000_000_000 + nanos <= more_secs * 1_000_000_000 + more_nanos ==> capped_nanos(
            secs,
            nanos,
        ) <= capped_nanos(more_secs, more_nanos),
{
}

/// A timeout sets a limit of its own length, and no timeout sets none.
pub proof fn law_limit_of_timeout(timeout: Timeout)
    ensures
        limit_of(Some(timeout)) == Some(timeout.total_nanos()),
        limit_of(None) is None,
{
}

/// The length of a timeout is that of its seconds and nanoseconds together.
pub(crate) proof fn law_length_of_timeout(timeout: Timeout)
    ensures
        timeout.total_nanos() == timeout.secs * 1_000_000_000 + timeout.nanos,
{
}

impl Timeout {
    #[verifier::type_invariant]
    pub(crate) open spec fn inv(self) -> bool {
        self.secs <= MAX_SECS && self.nanos < NANOS_PER_SEC
    }

    /// The whole timeout in nanoseconds.
    pub closed spec fn total_nanos(self) -> nat {
        (self.secs * NANOS_PER_SEC + self.nanos) as nat
    }

    /// A timeout of so many seconds and nanoseconds, or the longest one if that is shorter. The
    /// nanoseconds have to be less than a second.
    pub fn new(secs: u64, nanos: u32) -> (timeout: Option<Timeout>)
        ensures
            timeout is Some <==> nanos < NANOS_PER_SEC,
            timeout matches Some(t) ==> t.total_nanos() == capped_nanos(secs, nanos),
            timeout matches Some(t) ==> t.total_nanos() == if secs <= MAX_SECS {
                (secs * NANOS_PER_SEC + nanos) as nat
            } else {
                longest_nanos()
            },
    {
        if nanos >= NANOS_PER_SEC {
            None
        } else if secs <= MAX_SECS {
            Some(Timeout { secs, nanos })
        } else {
            Some(Timeout { secs: MAX_SECS, nanos: NANOS_PER_SEC - 1 })
        }
    }

    /// A timeout of so many milliseconds.
    pub fn from_millis(millis: u64) -> (timeout: Timeout)
        ensures
            timeout.total_nanos() == millis * 1_000_000,
    {
        let rest: u64 = millis % 1000;
        Timeout { secs: millis / 1000, nanos: rest as u32 * 1_000_000 }
    }
}

} // verus!
