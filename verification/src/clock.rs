//! Wall-clock timestamps and durations.

use chrono::Utc;
use std::time::Duration;
use vstd::prelude::*;

verus! {

/// A UTC point in time: whole seconds since the Unix epoch and the
/// nanoseconds past that second.
#[derive(Debug, Clone, Copy, PartialEq, Eq, Structural)]
pub struct UtcTimestamp {
    /// Seconds since 1970-01-01T00:00:00Z.
    pub secs: i64,
    /// Nanoseconds past `secs`.
    pub nanos: u32,
}

/// Trusted: reads the system clock with `chrono::Utc::now` and takes its
/// seconds and sub-second nanoseconds; nothing is promised of the time.
#[verifier::external_body]
pub fn utc_now() -> UtcTimestamp {
    let now = Utc::now();
    UtcTimestamp { secs: now.timestamp(), nanos: now.timestamp_subsec_nanos() }
}

/// The duration of `secs` whole seconds, as `Duration::from_secs` builds it.
pub uninterp spec fn duration_of_secs(secs: u64) -> Duration;

/// Trusted: `Duration::from_secs` is total and depends on `secs` alone;
/// the contract names its result.
#[verifier::external_body]
pub(crate) fn duration_from_secs(secs: u64) -> (r: Duration)
    ensures
        r == duration_of_secs(secs),
{
    Duration::from_secs(secs)
}

} // verus!
