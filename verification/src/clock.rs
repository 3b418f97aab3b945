//! The wall clock, and which instants the clock library can represent.
use chrono::TimeZone;
use vstd::prelude::*;

verus! {

/// Reads the system clock (`std::time::SystemTime::now`), converts it with
/// chrono's `From<SystemTime> for DateTime<Utc>`, which accepts times before
/// the Unix epoch too, and returns its `timestamp_millis`. The conversion
/// unwraps only outside chrono's range of about 262 000 years, which a
/// system clock cannot reach (Linux keeps it within about 292 years of 1970).
/// The value depends on when it is called, so nothing is claimed of it.
#[verifier::external_body]
pub(crate) fn now_unix_ms() -> (r: i64) {
    chrono::DateTime::<chrono::Utc>::from(std::time::SystemTime::now()).timestamp_millis()
}

/// The first millisecond `chrono` represents: -262143-01-01T00:00:00Z.
pub const MIN_UTC_MILLIS: i64 = -8_334_601_228_800_000;

/// The last millisecond `chrono` represents: 262142-12-31T23:59:59.999Z.
pub const MAX_UTC_MILLIS: i64 = 8_210_266_876_799_999;

/// Whether `chrono` represents the instant `ms` milliseconds after the Unix
/// epoch: its dates run from the year -262143 to the year 262142.
pub open spec fn utc_millis_representable(ms: i64) -> bool {
    MIN_UTC_MILLIS <= ms <= MAX_UTC_MILLIS
}

/// Calls `chrono::Utc.timestamp_millis_opt(ms)` and reports whether it gave
/// a single instant: `chrono` gives `None` exactly for values outside the
/// range of `DateTime::<Utc>::MIN_UTC` to `MAX_UTC`.
#[verifier::external_body]
pub(crate) fn utc_millis_ok(ms: i64) -> (r: bool)
    ensures
        r == utc_millis_representable(ms),
{
    chrono::Utc.timestamp_millis_opt(ms).single().is_some()
}

} // verus!
