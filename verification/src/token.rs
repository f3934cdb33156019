//! Parsing of source date tokens: strict `YYYY-MM-DD` calendar dates and
//! RFC 3339 instants (date, `T`, time, optional fraction, mandatory UTC
//! offset). Each parser is specified against a spec-level reading of the
//! character sequence.

use vstd::prelude::*;
use vstd::string::StrSliceExecFns;
use crate::date::{Date, valid_date, day_number, days_in_month, lemma_day_number_bounds};

verus! {

pub open spec fn is_digit(c: char) -> bool {
    48 <= c as int && c as int <= 57
}

pub open spec fn digit_val(c: char) -> int {
    c as int - 48
}

pub open spec fn two_digits(s: Seq<char>, i: int) -> int {
    10 * digit_val(s[i]) + digit_val(s[i + 1])
}

pub open spec fn four_digits(s: Seq<char>, i: int) -> int {
    1000 * digit_val(s[i]) + 100 * digit_val(s[i + 1]) + 10 * digit_val(s[i + 2]) + digit_val(
        s[i + 3],
    )
}

/// `YYYY-MM-DD` at the start of the sequence.
pub open spec fn date_shape(s: Seq<char>) -> bool {
    &&& s.len() >= 10
    &&& is_digit(s[0]) && is_digit(s[1]) && is_digit(s[2]) && is_digit(s[3])
    &&& s[4] == '-'
    &&& is_digit(s[5]) && is_digit(s[6])
    &&& s[7] == '-'
    &&& is_digit(s[8]) && is_digit(s[9])
}

pub open spec fn date_fields(s: Seq<char>) -> Date {
    Date {
        year: four_digits(s, 0) as u32,
        month: two_digits(s, 5) as u32,
        day: two_digits(s, 8) as u32,
    }
}

/// What a calendar-date token denotes: a valid date written strictly as
/// `YYYY-MM-DD`, or nothing.
pub open spec fn spec_parse_date(s: Seq<char>) -> Option<Date> {
    if s.len() == 10 && date_shape(s) && valid_date(date_fields(s)) {
        Some(date_fields(s))
    } else {
        None
    }
}

/// `HH:MM:SS` starting at index `i`.
pub open spec fn time_shape(s: Seq<char>, i: int) -> bool {
    &&& is_digit(s[i]) && is_digit(s[i + 1])
    &&& s[i + 2] == ':'
    &&& is_digit(s[i + 3]) && is_digit(s[i + 4])
    &&& s[i + 5] == ':'
    &&& is_digit(s[i + 6]) && is_digit(s[i + 7])
}

/// First index at or after `i` that does not hold a decimal digit.
pub open spec fn skip_digits(s: Seq<char>, i: int) -> int
    decreases s.len() - i,
{
    if i < s.len() && is_digit(s[i]) {
        skip_digits(s, i + 1)
    } else {
        i
    }
}

/// Where the UTC-offset part of an instant token begins: after the
/// fractional-second digits when a `.` follows the seconds, else right after
/// the seconds.
pub open spec fn frac_end(s: Seq<char>) -> int {
    if s.len() > 19 && s[19] == '.' {
        skip_digits(s, 20)
    } else {
        19
    }
}

/// A terminating UTC offset at index `i`: `Z`/`z`, or a sign with `HH:MM`.
pub open spec fn offset_shape(s: Seq<char>, i: int) -> bool {
    ||| (i + 1 == s.len() && (s[i] == 'Z' || s[i] == 'z'))
    ||| (i + 6 == s.len() && (s[i] == '+' || s[i] == '-') && is_digit(s[i + 1]) && is_digit(
        s[i + 2],
    ) && s[i + 3] == ':' && is_digit(s[i + 4]) && is_digit(s[i + 5]) && two_digits(s, i + 1) < 24
        && two_digits(s, i + 4) < 60)
}

/// The signed offset, in seconds, written at index `i`.
pub open spec fn offset_secs(s: Seq<char>, i: int) -> int {
    if i < s.len() && s[i] == '+' {
        two_digits(s, i + 1) * 3600 + two_digits(s, i + 4) * 60
    } else if i < s.len() && s[i] == '-' {
        -(two_digits(s, i + 1) * 3600 + two_digits(s, i + 4) * 60)
    } else {
        0
    }
}

/// A well-formed RFC 3339 instant token.
pub open spec fn instant_shape(s: Seq<char>) -> bool {
    &&& s.len() >= 20
    &&& date_shape(s)
    &&& valid_date(date_fields(s))
    &&& (s[10] == 'T' || s[10] == 't')
    &&& time_shape(s, 11)
    &&& two_digits(s, 11) < 24 && two_digits(s, 14) < 60 && two_digits(s, 17) <= 60
    &&& (s[19] == '.' ==> frac_end(s) > 20)
    &&& offset_shape(s, frac_end(s))
}

/// The instant a well-formed token denotes, in seconds since
/// 0000-01-01T00:00:00 UTC. Fractional seconds are truncated, and a leap
/// second (seconds field 60) counts as second 59, as truncation to whole
/// seconds demands.
pub open spec fn instant_utc_secs(s: Seq<char>) -> int {
    day_number(date_fields(s)) * 86400 + two_digits(s, 11) * 3600 + two_digits(s, 14) * 60 + (
    if two_digits(s, 17) == 60 {
        59int
    } else {
        two_digits(s, 17)
    }) - offset_secs(s, frac_end(s))
}

pub open spec fn spec_parse_instant(s: Seq<char>) -> Option<int> {
    if instant_shape(s) {
        Some(instant_utc_secs(s))
    } else {
        None
    }
}

/// Walks past decimal digits, starting at `start`.
fn skip_digits_exec(s: &str, start: usize) -> (r: usize)
    requires
        start <= s@.len(),
    ensures
        start <= r <= s@.len(),
        r == skip_digits(s@, start as int),
{
    let n = s.unicode_len();
    let mut j: usize = start;
    loop
        invariant
            start <= j <= n,
            n == s@.len(),
            skip_digits(s@, start as int) == skip_digits(s@, j as int),
        ensures
            start <= j <= s@.len(),
            skip_digits(s@, start as int) == j,
        decreases n - j,
    {
        if j >= n {
            break;
        }
        let c = s.get_char(j);
        let u = c as u32;
        if u < 48 || u > 57 {
            break;
        }
        j = j + 1;
    }
    j
}

fn read_digit(s: &str, i: usize) -> (r: Option<u32>)
    requires
        i < s@.len(),
    ensures
        r is Some <==> is_digit(s@[i as int]),
        r matches Some(v) ==> v == digit_val(s@[i as int]) && v < 10,
{
    let c = s.get_char(i);
    let u = c as u32;
    if 48 <= u && u <= 57 {
        Some(u - 48)
    } else {
        None
    }
}

fn read_two(s: &str, i: usize) -> (r: Option<u32>)
    requires
        i + 2 <= s@.len() <= usize::MAX,
    ensures
        r is Some <==> is_digit(s@[i as int]) && is_digit(s@[i as int + 1]),
        r matches Some(v) ==> v == two_digits(s@, i as int) && v < 100,
{
    let a = read_digit(s, i);
    let b = read_digit(s, i + 1);
    match (a, b) {
        (Some(x), Some(y)) => Some(10 * x + y),
        _ => None,
    }
}

fn read_four(s: &str, i: usize) -> (r: Option<u32>)
    requires
        i + 4 <= s@.len() <= usize::MAX,
    ensures
        r is Some <==> is_digit(s@[i as int]) && is_digit(s@[i as int + 1]) && is_digit(
            s@[i as int + 2],
        ) && is_digit(s@[i as int + 3]),
        r matches Some(v) ==> v == four_digits(s@, i as int) && v < 10000,
{
    let a = read_two(s, i);
    let b = read_two(s, i + 2);
    match (a, b) {
        (Some(x), Some(y)) => Some(100 * x + y),
        _ => None,
    }
}

fn check_valid_date(d: &Date) -> (b: bool)
    ensures
        b == valid_date(*d),
{
    if d.year > 10000 || d.month < 1 || d.month > 12 || d.day < 1 {
        false
    } else {
        d.day <= crate::date::days_in_month_exec(d.year, d.month)
    }
}

/// Reads the date fields of a token that starts with `YYYY-MM-DD`.
fn read_date_fields(s: &str) -> (r: Option<Date>)
    requires
        10 <= s@.len() <= usize::MAX,
    ensures
        r is Some <==> date_shape(s@) && valid_date(date_fields(s@)),
        r matches Some(d) ==> d == date_fields(s@),
{
    let y = read_four(s, 0);
    let m = read_two(s, 5);
    let d = read_two(s, 8);
    match (y, m, d) {
        (Some(y), Some(m), Some(d)) => {
            if s.get_char(4) == '-' && s.get_char(7) == '-' {
                let date = Date { year: y, month: m, day: d };
                if check_valid_date(&date) {
                    Some(date)
                } else {
                    None
                }
            } else {
                None
            }
        },
        _ => None,
    }
}

/// Strict `YYYY-MM-DD` parsing of a whole token.
pub fn parse_date_token(s: &str) -> (r: Option<Date>)
    ensures
        r == spec_parse_date(s@),
{
    let n = s.unicode_len();
    if n != 10 {
        return None;
    }
    read_date_fields(s)
}

/// RFC 3339 parsing of a whole token; the result counts seconds since
/// 0000-01-01T00:00:00 UTC.
pub fn parse_instant_token(s: &str) -> (r: Option<i64>)
    ensures
        match r {
            None => spec_parse_instant(s@) is None,
            Some(v) => spec_parse_instant(s@) == Some(v as int) && -86400 <= v
                <= 320_000_000_000i64,
        },
{
    let n = s.unicode_len();
    if n < 20 {
        return None;
    }
    let date = match read_date_fields(s) {
        Some(d) => d,
        None => { return None; },
    };
    let sep = s.get_char(10);
    if sep != 'T' && sep != 't' {
        return None;
    }
    if s.get_char(13) != ':' || s.get_char(16) != ':' {
        return None;
    }
    let (h, mi, sec): (u32, u32, u32) = match (read_two(s, 11), read_two(s, 14), read_two(s, 17)) {
        (Some(h), Some(mi), Some(sec)) => (h, mi, sec),
        _ => { return None; },
    };
    if h >= 24 || mi >= 60 || sec > 60 {
        return None;
    }
    let sec: u32 = if sec == 60 {
        59
    } else {
        sec
    };
    // Fractional seconds: skip the digits after a '.', remembering where the
    // offset must begin.
    let mut fe: usize = 19;
    if s.get_char(19) == '.' {
        let j: usize = skip_digits_exec(s, 20);
        if j == 20 {
            return None;
        }
        fe = j;
    }
    proof {
        assert(fe as int == frac_end(s@));
    }
    let off: i64 = if fe < n && (s.get_char(fe) == 'Z' || s.get_char(fe) == 'z') {
        if n - fe != 1 {
            return None;
        }
        0
    } else if fe < n && (s.get_char(fe) == '+' || s.get_char(fe) == '-') {
        if n - fe != 6 {
            return None;
        }
        if s.get_char(fe + 3) != ':' {
            return None;
        }
        let (oh, om): (u32, u32) = match (read_two(s, fe + 1), read_two(s, fe + 4)) {
            (Some(oh), Some(om)) => (oh, om),
            _ => { return None; },
        };
        if oh >= 24 || om >= 60 {
            return None;
        }
        let magnitude: i64 = (oh as i64) * 3600 + (om as i64) * 60;
        if s.get_char(fe) == '+' {
            magnitude
        } else {
            -magnitude
        }
    } else {
        return None;
    };
    proof {
        lemma_day_number_bounds(date);
    }
    let dn: u32 = crate::date::day_number_exec(&date);
    let base: i64 = (dn as i64) * 86400 + (h as i64) * 3600 + (mi as i64) * 60 + (sec as i64);
    Some(base - off)
}

} // verus!
