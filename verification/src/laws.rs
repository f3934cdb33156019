//! The crate's general guarantees, stated and proved once over all inputs:
//! end-date arithmetic, instant offset correction, stamp round-trips, and
//! how mentions turn into events.

use vstd::prelude::*;
use crate::date::{Date, DateTime, valid_date};
use crate::token::{
    is_digit, digit_val, two_digits, four_digits, spec_parse_instant, instant_shape,
};
use crate::norm::{
    NormalizedDate, norm_model, nd_wf, epoch_secs, max_instant_secs, lemma_norm_end_of_start,
};
use crate::tz::amsterdam_offset;
use crate::render::{
    d2, d4, digit_char, year_text, date_value_text, instant_value_text, stamp_value_text,
};
use crate::engine::{Record, record_events, mention_event, end_model, fallback_end};
use crate::extract::dm_views;

verus! {

/// Normalizing a calendar-date token as an end gives exactly one day more
/// than normalizing it as a start.
pub proof fn lemma_end_date_one_day_later(s: Seq<char>)
    requires
        norm_model(Some(s), false) matches Some(m) && m.0,
    ensures
        match (norm_model(Some(s), false), norm_model(Some(s), true)) {
            (Some(a), Some(b)) => b == (true, a.1 + 1),
            _ => false,
        },
{
    lemma_norm_end_of_start(Some(s));
}

/// A normalized instant's local timestamp differs from the token's UTC
/// timestamp by exactly the display timezone's base-plus-daylight offset in
/// effect at that instant; tokens whose shifted value falls outside the
/// supported range are rejected.
pub proof fn lemma_instant_offset(s: Seq<char>, v: int)
    requires
        spec_parse_instant(s) == Some(v),
    ensures
        match norm_model(Some(s), false) {
            Some(m) => !m.0 && m.1 - v == amsterdam_offset(v - epoch_secs()),
            None => !(0 <= v + amsterdam_offset(v - epoch_secs()) < max_instant_secs()),
        },
{
    assert(instant_shape(s));
}

/// The fields read back from a compact `YYYYMMDD` stamp value.
pub open spec fn stamp_date_fields(s: Seq<char>) -> Date {
    Date {
        year: four_digits(s, 0) as u32,
        month: two_digits(s, 4) as u32,
        day: two_digits(s, 6) as u32,
    }
}

/// The fields read back from a nine-character stamp value, whose year has
/// five digits.
pub open spec fn stamp_date_fields9(s: Seq<char>) -> Date {
    Date {
        year: (10000 * digit_val(s[0]) + four_digits(s, 1)) as u32,
        month: two_digits(s, 5) as u32,
        day: two_digits(s, 7) as u32,
    }
}

pub open spec fn stamp_digits8(s: Seq<char>) -> bool {
    forall|i: int| 0 <= i < 8 ==> is_digit(#[trigger] s[i])
}

pub open spec fn stamp_digits9(s: Seq<char>) -> bool {
    forall|i: int| 0 <= i < 9 ==> is_digit(#[trigger] s[i])
}

/// Re-reads a rendered stamp value through the classification rule: at most
/// 10 characters means a compact all-day date (eight digits, or nine for the
/// one five-digit year), more means a compact floating local timestamp.
pub open spec fn spec_parse_stamp_value(s: Seq<char>) -> Option<NormalizedDate> {
    if s.len() <= 10 {
        if s.len() == 8 && stamp_digits8(s) && valid_date(stamp_date_fields(s)) {
            Some(NormalizedDate::Date(stamp_date_fields(s)))
        } else if s.len() == 9 && stamp_digits9(s) && valid_date(stamp_date_fields9(s)) {
            Some(NormalizedDate::Date(stamp_date_fields9(s)))
        } else {
            None
        }
    } else {
        if s.len() == 15 && stamp_digits8(s) && s[8] == 'T' && is_digit(s[9]) && is_digit(s[10])
            && is_digit(s[11]) && is_digit(s[12]) && is_digit(s[13]) && is_digit(s[14])
            && valid_date(stamp_date_fields(s)) && two_digits(s, 9) < 24 && two_digits(s, 11) < 60
            && two_digits(s, 13) < 60 {
            Some(
                NormalizedDate::Instant(
                    DateTime {
                        date: stamp_date_fields(s),
                        hour: two_digits(s, 9) as u32,
                        minute: two_digits(s, 11) as u32,
                        second: two_digits(s, 13) as u32,
                    },
                ),
            )
        } else {
            None
        }
    }
}

proof fn lemma_digit_char(d: int)
    requires
        0 <= d <= 9,
    ensures
        is_digit(digit_char(d)),
        digit_val(digit_char(d)) == d,
{
}

proof fn lemma_d2(n: int)
    requires
        0 <= n < 100,
    ensures
        d2(n).len() == 2,
        is_digit(d2(n)[0]),
        is_digit(d2(n)[1]),
        two_digits(d2(n), 0) == n,
{
    lemma_digit_char((n / 10) % 10);
    lemma_digit_char(n % 10);
}

#[verifier::rlimit(100)]
proof fn lemma_d4(n: int)
    requires
        0 <= n < 10000,
    ensures
        d4(n).len() == 4,
        is_digit(d4(n)[0]),
        is_digit(d4(n)[1]),
        is_digit(d4(n)[2]),
        is_digit(d4(n)[3]),
        four_digits(d4(n), 0) == n,
{
    lemma_digit_char((n / 1000) % 10);
    lemma_digit_char((n / 100) % 10);
    lemma_digit_char((n / 10) % 10);
    lemma_digit_char(n % 10);
}

/// Round trip: rendering a normalized value's stamp and re-reading it
/// through the length-based classification rule reproduces the variant and
/// the value, over the whole supported range — instants stay within
/// four-digit years by construction, and the one five-digit end date is
/// covered by the nine-character form.
pub proof fn lemma_stamp_round_trip(nd: NormalizedDate)
    requires
        nd_wf(nd),
        nd matches NormalizedDate::Instant(dt) ==> dt.date.year <= 9999,
    ensures
        spec_parse_stamp_value(stamp_value_text(nd)) == Some(nd),
{
    match nd {
        NormalizedDate::Date(d) => {
            let s = date_value_text(d);
            lemma_d2(d.month as int);
            lemma_d2(d.day as int);
            if d.year <= 9999 {
                assert(year_text(d.year as int) == d4(d.year as int));
                lemma_d4(d.year as int);
                assert(s.len() == 8);
                assert forall|i: int| 0 <= i < 8 implies is_digit(#[trigger] s[i]) by {
                    if i < 4 {
                        assert(s[i] == d4(d.year as int)[i]);
                    } else if i < 6 {
                        assert(s[i] == d2(d.month as int)[i - 4]);
                    } else {
                        assert(s[i] == d2(d.day as int)[i - 6]);
                    }
                }
                assert(four_digits(s, 0) == d.year as int);
                assert(two_digits(s, 4) == d.month as int);
                assert(two_digits(s, 6) == d.day as int);
                assert(stamp_date_fields(s) == d);
            } else {
                assert(d.year == 10000);
                assert(year_text(10000) == seq!['1'] + d4(10000));
                lemma_d4(0);
                assert(d4(10000) =~= d4(0));
                lemma_digit_char(1);
                assert(s.len() == 9);
                assert forall|i: int| 0 <= i < 9 implies is_digit(#[trigger] s[i]) by {
                    if i == 0 {
                        assert(s[0] == digit_char(1));
                    } else if i < 5 {
                        assert(s[i] == d4(0)[i - 1]);
                    } else if i < 7 {
                        assert(s[i] == d2(d.month as int)[i - 5]);
                    } else {
                        assert(s[i] == d2(d.day as int)[i - 7]);
                    }
                }
                assert(10000 * digit_val(s[0]) + four_digits(s, 1) == 10000);
                assert(two_digits(s, 5) == d.month as int);
                assert(two_digits(s, 7) == d.day as int);
                assert(stamp_date_fields9(s) == d);
            }
        },
        NormalizedDate::Instant(dt) => {
            let s = instant_value_text(dt);
            let ds = date_value_text(dt.date);
            assert(year_text(dt.date.year as int) == d4(dt.date.year as int));
            lemma_d4(dt.date.year as int);
            lemma_d2(dt.date.month as int);
            lemma_d2(dt.date.day as int);
            lemma_d2(dt.hour as int);
            lemma_d2(dt.minute as int);
            lemma_d2(dt.second as int);
            assert(s.len() == 15);
            assert forall|i: int| 0 <= i < 8 implies is_digit(#[trigger] s[i]) by {
                assert(s[i] == ds[i]);
                if i < 4 {
                    assert(ds[i] == d4(dt.date.year as int)[i]);
                } else if i < 6 {
                    assert(ds[i] == d2(dt.date.month as int)[i - 4]);
                } else {
                    assert(ds[i] == d2(dt.date.day as int)[i - 6]);
                }
            }
            assert(s[8] == 'T');
            assert(s[9] == d2(dt.hour as int)[0] && s[10] == d2(dt.hour as int)[1]);
            assert(s[11] == d2(dt.minute as int)[0] && s[12] == d2(dt.minute as int)[1]);
            assert(s[13] == d2(dt.second as int)[0] && s[14] == d2(dt.second as int)[1]);
            assert(four_digits(s, 0) == dt.date.year as int);
            assert(two_digits(s, 4) == dt.date.month as int);
            assert(two_digits(s, 6) == dt.date.day as int);
            assert(two_digits(s, 9) == dt.hour as int);
            assert(two_digits(s, 11) == dt.minute as int);
            assert(two_digits(s, 13) == dt.second as int);
            assert(stamp_date_fields(s) == dt.date);
        },
    }
}

/// A record whose title holds exactly two date mentions, both with
/// normalizable start tokens, yields exactly two events, and both carry the
/// record's display title.
pub proof fn lemma_two_mentions_share_title(r: Record)
    requires
        dm_views(r.mentions@).len() == 2,
        norm_model(dm_views(r.mentions@)[0].0, false) is Some,
        norm_model(dm_views(r.mentions@)[1].0, false) is Some,
    ensures
        record_events(r).len() == 2,
        record_events(r)[0].0 == r.title@,
        record_events(r)[1].0 == r.title@,
{
    let ms = dm_views(r.mentions@);
    let title = r.title@;
    assert(record_events(r) == crate::engine::mention_events_upto(title, ms, 1) + mention_event(
        title,
        ms[1],
    ));
    assert(crate::engine::mention_events_upto(title, ms, 1) == crate::engine::mention_events_upto(
        title,
        ms,
        0,
    ) + mention_event(title, ms[0]));
}

/// A mention with only a start token, of calendar-date kind, yields an event
/// whose end is exactly one day after its start.
pub proof fn lemma_start_only_date_mention(
    title: Seq<char>,
    v: (Option<Seq<char>>, Option<Seq<char>>),
)
    requires
        v.1 is None,
        norm_model(v.0, false) matches Some(m) && m.0,
    ensures
        match norm_model(v.0, false) {
            Some(m) => mention_event(title, v) == seq![(title, m, (true, m.1 + 1))],
            None => false,
        },
{
    lemma_norm_end_of_start(v.0);
    assert(norm_model(v.1, true) is None);
    assert(end_model(v, norm_model(v.0, false).unwrap()) == fallback_end(v));
}

} // verus!
