//! Date normalization: classifies a source token as a bare calendar date or
//! an RFC 3339 instant, and expresses instants in the fixed display timezone
//! by adding the offset in effect at that exact instant.

use vstd::prelude::*;
use vstd::string::StrSliceExecFns;
use crate::date::{
    Date, DateTime, valid_date, day_number, days_before_year, days_before_year_exec,
    date_of_day_number, next_day, lemma_days_before_year_bounds, lemma_days_before_year_mono,
};
use crate::token::{spec_parse_date, spec_parse_instant, parse_date_token, parse_instant_token};
use crate::tz::{amsterdam_offset, base_offset_seconds, dst_offset_seconds, now_unix_timestamp};

verus! {

/// The internal date-or-datetime value: either a whole calendar date or a
/// local timestamp already shifted into the fixed display timezone.
#[derive(Clone, Copy, PartialEq, Eq, Structural, Debug)]
pub enum NormalizedDate {
    Date(Date),
    Instant(DateTime),
}

pub open spec fn dt_wf(dt: DateTime) -> bool {
    &&& valid_date(dt.date)
    &&& dt.hour < 24
    &&& dt.minute < 60
    &&& dt.second < 60
}

/// The timestamp model of a local datetime: seconds since
/// 0000-01-01T00:00:00.
pub open spec fn dt_secs(dt: DateTime) -> int {
    day_number(dt.date) * 86400 + dt.hour * 3600 + dt.minute * 60 + dt.second
}

pub open spec fn nd_wf(nd: NormalizedDate) -> bool {
    match nd {
        NormalizedDate::Date(d) => valid_date(d),
        NormalizedDate::Instant(dt) => dt_wf(dt),
    }
}

/// The mathematical model of a normalized value: whether it is an all-day
/// date, and its day number (dates) or local timestamp (instants).
pub open spec fn nd_model(nd: NormalizedDate) -> (bool, int) {
    match nd {
        NormalizedDate::Date(d) => (true, day_number(d)),
        NormalizedDate::Instant(dt) => (false, dt_secs(dt)),
    }
}

/// A model, measured in seconds, for comparing values across the two kinds.
pub open spec fn model_secs(m: (bool, int)) -> int {
    if m.0 {
        m.1 * 86400
    } else {
        m.1
    }
}

/// Seconds between 0000-01-01T00:00:00 and the Unix epoch.
pub open spec fn epoch_secs() -> int {
    days_before_year(1970) * 86400
}

/// The first local timestamp past the supported range: the start of year
/// 10000. Instants stay within four-digit years; only an all-day end date
/// may reach the one year beyond them.
pub open spec fn max_instant_secs() -> int {
    days_before_year(10000) * 86400
}

pub open spec fn token_view(t: Option<String>) -> Option<Seq<char>> {
    match t {
        None => None,
        Some(s) => Some(s@),
    }
}

/// What `normalize` computes, at the model level. A token of at most 10
/// characters is read as a calendar date (one day is added for exclusive end
/// dates); a longer one as an instant, which is shifted by the display
/// timezone's total offset at that instant and kept only if the result lies
/// in the supported range.
pub open spec fn norm_model(token: Option<Seq<char>>, treat_as_end: bool) -> Option<(bool, int)> {
    match token {
        None => None,
        Some(s) => {
            if s.len() <= 10 {
                match spec_parse_date(s) {
                    None => None,
                    Some(d) => Some(
                        (true, if treat_as_end {
                            day_number(d) + 1
                        } else {
                            day_number(d)
                        }),
                    ),
                }
            } else {
                match spec_parse_instant(s) {
                    None => None,
                    Some(v) => {
                        let local = v + amsterdam_offset(v - epoch_secs());
                        if 0 <= local < max_instant_secs() {
                            Some((false, local))
                        } else {
                            None
                        }
                    },
                }
            }
        },
    }
}

/// Converts a source date token into the internal date-or-datetime value.
///
/// Absent tokens, malformed tokens, and instants outside the supported year
/// range yield `None`; the caller decides what stands in for them.
pub fn normalize(token: &Option<String>, treat_as_end: bool) -> (r: Option<NormalizedDate>)
    ensures
        match r {
            None => norm_model(token_view(*token), treat_as_end) is None,
            Some(nd) => norm_model(token_view(*token), treat_as_end) == Some(nd_model(nd))
                && nd_wf(nd),
        },
{
    let s: &String = match token {
        Some(s) => s,
        None => { return None; },
    };
    let n = s.as_str().unicode_len();
    if n <= 10 {
        match parse_date_token(s.as_str()) {
            None => None,
            Some(d) => {
                if treat_as_end {
                    Some(NormalizedDate::Date(next_day(&d)))
                } else {
                    Some(NormalizedDate::Date(d))
                }
            },
        }
    } else {
        let v: i64 = match parse_instant_token(s.as_str()) {
            Some(v) => v,
            None => { return None; },
        };
        let epoch: i64 = (days_before_year_exec(1970) as i64) * 86400;
        proof {
            lemma_days_before_year_bounds(1970);
        }
        let unix: i64 = v - epoch;
        let off: i64 = base_offset_seconds(unix) + dst_offset_seconds(unix);
        let local: i64 = v + off;
        if local < 0 {
            return None;
        }
        let limit_days: u32 = days_before_year_exec(10000);
        proof {
            lemma_days_before_year_bounds(10000);
        }
        let local_u: u64 = local as u64;
        if local_u / 86400 >= limit_days as u64 {
            return None;
        }
        Some(NormalizedDate::Instant(datetime_of_local_secs(local)))
    }
}

/// Recovers the wall-time components of a local timestamp, counted in
/// seconds since 0000-01-01T00:00:00.
fn datetime_of_local_secs(local: i64) -> (r: DateTime)
    requires
        0 <= local,
        local < max_instant_secs(),
    ensures
        dt_wf(r),
        dt_secs(r) == local as int,
{
    proof {
        lemma_days_before_year_bounds(10000);
        lemma_days_before_year_mono(10000, 10001);
    }
    let local_u: u64 = local as u64;
    let days_u: u64 = local_u / 86400;
    let rem: u32 = (local_u % 86400) as u32;
    let date: Date = date_of_day_number(days_u as u32);
    let hour: u32 = rem / 3600;
    let minute: u32 = (rem % 3600) / 60;
    let second: u32 = rem % 60;
    let dt = DateTime { date, hour, minute, second };
    proof {
        assert(dt_secs(dt) == local as int);
    }
    dt
}

/// Normalizing as an end succeeds whenever normalizing as a start does: a
/// calendar date moves exactly one day later, an instant is unchanged.
pub proof fn lemma_norm_end_of_start(t: Option<Seq<char>>)
    requires
        norm_model(t, false) is Some,
    ensures
        match (norm_model(t, false), norm_model(t, true)) {
            (Some(sm), Some(em)) => em == if sm.0 {
                (true, sm.1 + 1)
            } else {
                sm
            },
            _ => false,
        },
{
}

/// The window of Unix timestamps the clock conversion accepts (a machine
/// limit, far wider than the clock can read), and the wall time inside it:
/// the timestamp shifted by the display timezone's offset in effect at that
/// exact instant, kept when the shifted value lies in the supported years.
pub open spec fn clock_model(ts: int) -> Option<int> {
    if -100_000_000_000 <= ts <= 400_000_000_000 {
        let local = ts + epoch_secs() + amsterdam_offset(ts);
        if 0 <= local < max_instant_secs() {
            Some(local)
        } else {
            None
        }
    } else {
        None
    }
}

/// Expresses a Unix timestamp, such as a clock reading, as a wall-time
/// datetime in the fixed display timezone: the offset in effect at that
/// exact instant is added, as the data model demands of every instant.
pub fn local_datetime_of_unix(ts: i64) -> (r: Option<DateTime>)
    ensures
        match r {
            None => clock_model(ts as int) is None,
            Some(dt) => clock_model(ts as int) == Some(dt_secs(dt)) && dt_wf(dt),
        },
{
    if ts < -100_000_000_000 || ts > 400_000_000_000 {
        return None;
    }
    let off: i64 = base_offset_seconds(ts) + dst_offset_seconds(ts);
    let epoch: i64 = (days_before_year_exec(1970) as i64) * 86400;
    proof {
        lemma_days_before_year_bounds(1970);
    }
    let local: i64 = ts + epoch + off;
    if local < 0 {
        return None;
    }
    let limit_days: u32 = days_before_year_exec(10000);
    proof {
        lemma_days_before_year_bounds(10000);
    }
    let local_u: u64 = local as u64;
    if local_u / 86400 >= limit_days as u64 {
        return None;
    }
    Some(datetime_of_local_secs(local))
}

/// The current wall clock as a wall-time datetime in the fixed display
/// timezone. Nothing is assumed of the clock's value, so `None` — a clock
/// far outside the supported years — must be tolerated by callers;
/// `local_datetime_of_unix` fixes the result for every reading.
pub fn now_datetime() -> (r: Option<DateTime>)
    ensures
        r matches Some(dt) ==> dt_wf(dt) && (exists|ts: int| clock_model(ts) == Some(dt_secs(dt))),
{
    let ts: i64 = now_unix_timestamp();
    let r = local_datetime_of_unix(ts);
    proof {
        match r {
            Some(dt) => {
                assert(clock_model(ts as int) == Some(dt_secs(dt)));
            },
            None => {},
        }
    }
    r
}

} // verus!
