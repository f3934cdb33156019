//! Trusted boundary: the fixed display timezone's offset rules, the wall
//! clock, and fresh event identifiers. Everything here is believed, not
//! proved; the rest of the crate is verified against these contracts.

use vstd::prelude::*;
use chrono::TimeZone;
use chrono_tz::OffsetComponents;

verus! {

/// The base (non-daylight-saving) offset from UTC, in seconds, that
/// Europe/Amsterdam applies at the Unix instant `t`. A fixed function of the
/// instant: the timezone database maps every instant to one offset.
pub uninterp spec fn amsterdam_base_offset(t: int) -> int;

/// The daylight-saving delta, in seconds, that Europe/Amsterdam applies at
/// the Unix instant `t`.
pub uninterp spec fn amsterdam_dst_offset(t: int) -> int;

/// The total shift applied to a UTC timestamp to express it in the fixed
/// display timezone.
pub open spec fn amsterdam_offset(t: int) -> int {
    amsterdam_base_offset(t) + amsterdam_dst_offset(t)
}

/// Relies on chrono_tz: `Europe::Amsterdam.timestamp_opt(ts, 0)` resolves the
/// instant (always a single result for a timestamp in range), and
/// `OffsetComponents::base_utc_offset` returns the base offset component.
/// Every offset in the timezone's data is far smaller than a day.
#[verifier::external_body]
pub(crate) fn base_offset_seconds(ts: i64) -> (r: i64)
    requires
        -100_000_000_000 <= ts <= 500_000_000_000,
    ensures
        r == amsterdam_base_offset(ts as int),
        -86400 <= r <= 86400,
{
    let local = chrono_tz::Europe::Amsterdam.timestamp_opt(ts, 0).unwrap();
    local.offset().base_utc_offset().num_seconds()
}

/// Relies on chrono_tz: as `base_offset_seconds`, but for
/// `OffsetComponents::dst_offset`, the daylight-saving component in effect at
/// that exact instant.
#[verifier::external_body]
pub(crate) fn dst_offset_seconds(ts: i64) -> (r: i64)
    requires
        -100_000_000_000 <= ts <= 500_000_000_000,
    ensures
        r == amsterdam_dst_offset(ts as int),
        -86400 <= r <= 86400,
{
    let local = chrono_tz::Europe::Amsterdam.timestamp_opt(ts, 0).unwrap();
    local.offset().dst_offset().num_seconds()
}

/// Relies on std::time::SystemTime::now for the wall clock, read as a Unix
/// timestamp in whole seconds; a clock before the epoch reads as a negative
/// count. Never panics; nothing is assumed of the value.
#[verifier::external_body]
pub(crate) fn now_unix_timestamp() -> i64 {
    match std::time::SystemTime::now().duration_since(std::time::UNIX_EPOCH) {
        Ok(since) => i64::try_from(since.as_secs()).unwrap_or(i64::MAX),
        Err(before) => -i64::try_from(before.duration().as_secs()).unwrap_or(i64::MAX),
    }
}

/// Relies on uuid: `Uuid::new_v4` draws a random identifier, and its display
/// form is the 36-character hyphenated encoding. Nothing else is assumed:
/// two calls may (and should) differ.
#[verifier::external_body]
pub(crate) fn fresh_uuid() -> (r: String)
    ensures
        r@.len() == 36,
{
    format!("{}", uuid::Uuid::new_v4())
}

} // verus!
