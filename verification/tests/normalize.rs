use notion_ical::date::{Date, DateTime, day_number_exec, date_of_day_number, next_day};
use notion_ical::norm::{local_datetime_of_unix, normalize, NormalizedDate};
use notion_ical::token::{parse_date_token, parse_instant_token};

fn date(y: u32, m: u32, d: u32) -> NormalizedDate {
    NormalizedDate::Date(Date { year: y, month: m, day: d })
}

fn instant(y: u32, mo: u32, d: u32, h: u32, mi: u32, s: u32) -> NormalizedDate {
    NormalizedDate::Instant(
        DateTime { date: Date { year: y, month: mo, day: d }, hour: h, minute: mi, second: s },
    )
}

#[test]
fn calendar_date_token_parses() {
    assert_eq!(parse_date_token("2022-01-11"), Some(Date { year: 2022, month: 1, day: 11 }));
    assert_eq!(parse_date_token("2022-13-01"), None);
    assert_eq!(parse_date_token("2022-02-30"), None);
    assert_eq!(parse_date_token("2022-1-1"), None);
    assert_eq!(parse_date_token("garbage"), None);
}

#[test]
fn normalize_absent_token_is_none() {
    assert_eq!(normalize(&None, false), None);
    assert_eq!(normalize(&None, true), None);
}

#[test]
fn normalize_start_date() {
    let token = Some("2022-01-11".to_string());
    assert_eq!(normalize(&token, false), Some(date(2022, 1, 11)));
}

#[test]
fn normalize_end_date_adds_one_day() {
    let token = Some("2022-01-11".to_string());
    assert_eq!(normalize(&token, true), Some(date(2022, 1, 12)));
}

#[test]
fn normalize_end_date_crosses_month_and_year() {
    assert_eq!(normalize(&Some("2022-02-28".to_string()), true), Some(date(2022, 3, 1)));
    assert_eq!(normalize(&Some("2020-02-28".to_string()), true), Some(date(2020, 2, 29)));
    assert_eq!(normalize(&Some("2020-02-29".to_string()), true), Some(date(2020, 3, 1)));
    assert_eq!(normalize(&Some("2022-12-31".to_string()), true), Some(date(2023, 1, 1)));
}

#[test]
fn normalize_malformed_date_is_none() {
    assert_eq!(normalize(&Some("2022/01/11".to_string()), false), None);
    assert_eq!(normalize(&Some("".to_string()), false), None);
}

#[test]
fn normalize_instant_winter_base_offset_only() {
    // Base offset +1, no daylight saving in December: one hour ahead of UTC.
    let token = Some("2022-12-11T23:00:00Z".to_string());
    assert_eq!(normalize(&token, false), Some(instant(2022, 12, 12, 0, 0, 0)));
}

#[test]
fn normalize_instant_summer_daylight_saving() {
    // Base offset +1 plus a daylight-saving hour in July.
    let token = Some("2022-07-01T10:00:00Z".to_string());
    assert_eq!(normalize(&token, false), Some(instant(2022, 7, 1, 12, 0, 0)));
}

#[test]
fn normalize_instant_across_spring_forward() {
    // The 2022 transition: 01:00:00 UTC on March 27.
    let before = Some("2022-03-27T00:59:59Z".to_string());
    assert_eq!(normalize(&before, false), Some(instant(2022, 3, 27, 1, 59, 59)));
    let after = Some("2022-03-27T01:00:00Z".to_string());
    assert_eq!(normalize(&after, false), Some(instant(2022, 3, 27, 3, 0, 0)));
}

#[test]
fn normalize_instant_across_fall_back() {
    // The 2022 transition: 01:00:00 UTC on October 30.
    let before = Some("2022-10-30T00:59:59Z".to_string());
    assert_eq!(normalize(&before, false), Some(instant(2022, 10, 30, 2, 59, 59)));
    let after = Some("2022-10-30T01:00:00Z".to_string());
    assert_eq!(normalize(&after, false), Some(instant(2022, 10, 30, 2, 0, 0)));
}

#[test]
fn normalize_instant_with_explicit_offset_and_fraction() {
    // 23:00+01:00 is 22:00 UTC; Amsterdam in December is again +01:00.
    let token = Some("2022-12-11T23:00:00.000+01:00".to_string());
    assert_eq!(normalize(&token, false), Some(instant(2022, 12, 11, 23, 0, 0)));
}

#[test]
fn normalize_instant_ignores_end_flag() {
    let token = Some("2022-12-11T23:00:00Z".to_string());
    assert_eq!(normalize(&token, true), normalize(&token, false));
}

#[test]
fn normalize_malformed_instant_is_none() {
    // Missing offset, bad separator, out-of-range fields.
    assert_eq!(normalize(&Some("2022-12-11T23:00:00".to_string()), false), None);
    assert_eq!(normalize(&Some("2022-12-11 23:00:00Z".to_string()), false), None);
    assert_eq!(normalize(&Some("2022-12-11T24:00:00Z".to_string()), false), None);
    assert_eq!(normalize(&Some("2022-12-11T23:00:00.Z".to_string()), false), None);
}

#[test]
fn instant_token_counts_seconds_from_year_zero() {
    // 719528 days from 0000-01-01 to the Unix epoch.
    assert_eq!(parse_instant_token("1970-01-01T00:00:00Z"), Some(719528i64 * 86400));
    assert_eq!(parse_instant_token("1970-01-01T00:00:00+01:00"), Some(719528i64 * 86400 - 3600));
    assert_eq!(parse_instant_token("1970-01-01T00:00:00-00:30"), Some(719528i64 * 86400 + 1800));
}

#[test]
fn normalize_instant_accepts_lowercase_separators() {
    let upper = Some("2022-12-11T23:00:00Z".to_string());
    let lower = Some("2022-12-11t23:00:00z".to_string());
    assert_eq!(normalize(&lower, false), normalize(&upper, false));
}

#[test]
fn normalize_instant_clamps_a_leap_second() {
    // 23:59:60 counts as second 59; Amsterdam adds two hours in June.
    let leap = Some("2022-06-30T23:59:60Z".to_string());
    assert_eq!(normalize(&leap, false), Some(instant(2022, 7, 1, 1, 59, 59)));
    assert_eq!(normalize(&Some("2022-06-30T23:59:61Z".to_string()), false), None);
}

#[test]
fn normalize_end_date_may_reach_the_year_past_four_digits() {
    assert_eq!(normalize(&Some("9999-12-31".to_string()), true), Some(date(10000, 1, 1)));
}

#[test]
fn normalize_instant_stays_within_four_digit_years() {
    // One second before the supported end, and one step past it.
    let last = Some("9999-12-31T22:59:59Z".to_string());
    assert_eq!(normalize(&last, false), Some(instant(9999, 12, 31, 23, 59, 59)));
    let past = Some("9999-12-31T23:30:00Z".to_string());
    assert_eq!(normalize(&past, false), None);
}

#[test]
fn unix_timestamps_convert_to_display_timezone_wall_time() {
    // At the epoch Amsterdam stood one hour ahead of UTC.
    let epoch = local_datetime_of_unix(0).unwrap();
    assert_eq!(epoch.date, Date { year: 1970, month: 1, day: 1 });
    assert_eq!((epoch.hour, epoch.minute, epoch.second), (1, 0, 0));
    // 2022-07-01T10:00:00Z: two hours ahead in summer.
    let summer = local_datetime_of_unix(1656669600).unwrap();
    assert_eq!(summer.date, Date { year: 2022, month: 7, day: 1 });
    assert_eq!((summer.hour, summer.minute, summer.second), (12, 0, 0));
    // Far outside the accepted window.
    assert!(local_datetime_of_unix(i64::MIN).is_none());
    assert!(local_datetime_of_unix(i64::MAX).is_none());
}

#[test]
fn wall_clock_datetime_is_well_formed() {
    let now = notion_ical::norm::now_datetime().unwrap();
    assert!(now.date.year >= 2020);
    assert!((1..=12).contains(&now.date.month));
    assert!((1..=31).contains(&now.date.day));
    assert!(now.hour < 24 && now.minute < 60 && now.second < 60);
}

#[test]
fn day_number_round_trips() {
    let d = Date { year: 2022, month: 12, day: 11 };
    let n = day_number_exec(&d);
    assert_eq!(date_of_day_number(n), d);
    let leap = Date { year: 2000, month: 2, day: 29 };
    assert_eq!(date_of_day_number(day_number_exec(&leap)), leap);
}

#[test]
fn next_day_steps_one_day() {
    assert_eq!(
        next_day(&Date { year: 2024, month: 2, day: 28 }),
        Date { year: 2024, month: 2, day: 29 },
    );
    assert_eq!(
        next_day(&Date { year: 1900, month: 2, day: 28 }),
        Date { year: 1900, month: 3, day: 1 },
    );
}
