//! The system clock.

use vstd::prelude::*;

verus! {

/// How many nanoseconds a second has.
pub const NANOS_PER_SECOND: u128 = 1_000_000_000;

/// `SystemTime::elapsed`, called on `SystemTime::UNIX_EPOCH`: the time since the
/// epoch in nanoseconds, or `None` where the clock stands before the epoch. The time
/// itself is the machine's. What holds of every reading is the range of a
/// `Duration`, whose seconds are a `u64`.
#[verifier::external_body]
fn elapsed_since_epoch() -> (r: Option<u128>)
    ensures
        r matches Some(n) ==> n < (u64::MAX + 1) * NANOS_PER_SECOND,
{
    std::time::SystemTime::UNIX_EPOCH.elapsed().ok().map(|d| d.as_nanos())
}

/// The nanoseconds of a clock reading; zero where the clock stands before the epoch.
pub fn nanos_of(reading: Option<u128>) -> (n: u128)
    ensures
        n == match reading {
            Some(nanos) => nanos,
            None => 0,
        },
{
    match reading {
        Some(nanos) => nanos,
        None => 0,
    }
}

/// The whole seconds that `nanos` nanoseconds make. Those of a clock reading fit.
pub fn secs_of(nanos: u128) -> (secs: u64)
    requires
        nanos < (u64::MAX + 1) * NANOS_PER_SECOND,
    ensures
        secs == nanos / NANOS_PER_SECOND,
{
    (nanos / NANOS_PER_SECOND) as u64
}

/// The time since the epoch in nanoseconds; zero where the clock stands before it.
pub(crate) fn nanos_since_epoch() -> (n: u128)
    ensures
        n < (u64::MAX + 1) * NANOS_PER_SECOND,
{
    nanos_of(elapsed_since_epoch())
}

/// The time since the epoch in whole seconds; zero where the clock stands before it. Every
/// number of seconds is possible.
pub(crate) fn secs_since_epoch() -> u64 {
    secs_of(nanos_since_epoch())
}

} // verus!
