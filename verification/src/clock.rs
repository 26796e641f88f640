//! Reading clocks as plain nanosecond counts.

use core::time::Duration;
use vstd::prelude::*;

verus! {

/// The number of whole nanoseconds in `d`, as `Duration::as_nanos` gives it.
pub uninterp spec fn duration_as_nanos(d: Duration) -> u128;

/// Number of whole nanoseconds in `d`.
///
/// Calls `Duration::as_nanos`, whose result depends on `d` alone; the
/// contract names that result.
#[verifier::external_body]
pub(crate) fn duration_nanos(d: Duration) -> (r: u128)
    ensures
        r == duration_as_nanos(d),
{
    d.as_nanos()
}

/// The current system time as a `Duration` since the UNIX epoch.
///
/// Calls `SystemTime::elapsed` on `UNIX_EPOCH`; a system clock set before the
/// epoch reads as a zero duration.  The value comes from the machine's clock,
/// so nothing is stated of it.
#[verifier::external_body]
pub fn unix_time_now() -> Duration {
    std::time::UNIX_EPOCH.elapsed().unwrap_or_default()
}

} // verus!
