//! Points in time, as seconds and nanoseconds since the Unix epoch (UTC).
use vstd::prelude::*;

verus! {

/// A UTC point in time: whole seconds since the Unix epoch and the nanoseconds past them
/// (as `chrono::DateTime<Utc>` reports them through `timestamp` and `timestamp_subsec_nanos`).
#[derive(Debug, Clone, Copy, PartialEq, Eq, Structural)]
pub struct UtcTimestamp {
    pub secs: i64,
    pub nanos: u32,
}

/// Whether `a` is strictly later than `b`.
pub open spec fn later_than(a: UtcTimestamp, b: UtcTimestamp) -> bool {
    a.secs > b.secs || (a.secs == b.secs && a.nanos > b.nanos)
}

/// Whether `a` is strictly later than `b`.
pub fn is_later(a: UtcTimestamp, b: UtcTimestamp) -> (r: bool)
    ensures
        r == later_than(a, b),
{
    a.secs > b.secs || (a.secs == b.secs && a.nanos > b.nanos)
}

/// The current time, read with `chrono::Utc::now()`.
/// Trusted: the reading depends on the clock, so only its range is stated. `Utc::now`
/// takes the system time's duration since the Unix epoch (failing before the epoch) and
/// builds the date from its whole seconds and `subsec_nanos` (below one billion) with
/// `DateTime::from_timestamp(..).unwrap()`, which fails beyond the last representable
/// date, December 31, 262142 (8,210,266,876,799 seconds after the epoch).
#[verifier::external_body]
pub(crate) fn now() -> (t: UtcTimestamp)
    ensures
        0 <= t.secs <= 8_210_266_876_799,
        t.nanos < 1_000_000_000,
{
    let t = chrono::Utc::now();
    UtcTimestamp { secs: t.timestamp(), nanos: t.timestamp_subsec_nanos() }
}

} // verus!
