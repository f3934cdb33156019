//! Rendering of the calendar document: date and datetime stamps, one event
//! block per (record, mention) pair, and the fixed header and footer. The
//! whole text is specified character by character.

use vstd::prelude::*;
use vstd::string::StringExecFns;
use crate::date::{Date, DateTime};
use crate::norm::{NormalizedDate, nd_wf, dt_wf};

verus! {

pub open spec fn digit_char(d: int) -> char {
    if d == 0 {
        '0'
    } else if d == 1 {
        '1'
    } else if d == 2 {
        '2'
    } else if d == 3 {
        '3'
    } else if d == 4 {
        '4'
    } else if d == 5 {
        '5'
    } else if d == 6 {
        '6'
    } else if d == 7 {
        '7'
    } else if d == 8 {
        '8'
    } else {
        '9'
    }
}

/// Two decimal digits, most significant first, of `n`'s last two places.
pub open spec fn d2(n: int) -> Seq<char> {
    seq![digit_char((n / 10) % 10), digit_char(n % 10)]
}

/// Four decimal digits of `n`'s last four places.
pub open spec fn d4(n: int) -> Seq<char> {
    seq![
        digit_char((n / 1000) % 10),
        digit_char((n / 100) % 10),
        digit_char((n / 10) % 10),
        digit_char(n % 10),
    ]
}

/// The year's digits: four places, except that year 10000 — reachable only
/// as the exclusive end date of an all-day event on the last four-digit day
/// — is written out in full rather than truncated.
pub open spec fn year_text(y: int) -> Seq<char> {
    if y >= 10000 {
        seq!['1'] + d4(y)
    } else {
        d4(y)
    }
}

/// `YYYYMMDD`.
pub open spec fn date_value_text(d: Date) -> Seq<char> {
    year_text(d.year as int) + d2(d.month as int) + d2(d.day as int)
}

/// `YYYYMMDDTHHMMSS`.
pub open spec fn instant_value_text(dt: DateTime) -> Seq<char> {
    date_value_text(dt.date) + seq!['T'] + d2(dt.hour as int) + d2(dt.minute as int) + d2(
        dt.second as int,
    )
}

/// The stamp value alone, without the property-separator prefix.
pub open spec fn stamp_value_text(nd: NormalizedDate) -> Seq<char> {
    match nd {
        NormalizedDate::Date(d) => date_value_text(d),
        NormalizedDate::Instant(dt) => instant_value_text(dt),
    }
}

/// A stamp as it follows a property name: all-day dates carry the
/// `;VALUE=DATE:` parameter, instants a bare `:` and a floating local
/// timestamp.
pub open spec fn stamp_text(nd: NormalizedDate) -> Seq<char> {
    match nd {
        NormalizedDate::Date(d) => ";VALUE=DATE:"@ + date_value_text(d),
        NormalizedDate::Instant(dt) => ":"@ + instant_value_text(dt),
    }
}

fn append_digit(out: &mut String, d: u32)
    requires
        d < 10,
    ensures
        final(out)@ == old(out)@ + seq![digit_char(d as int)],
{
    proof {
        reveal_strlit("0");
        reveal_strlit("1");
        reveal_strlit("2");
        reveal_strlit("3");
        reveal_strlit("4");
        reveal_strlit("5");
        reveal_strlit("6");
        reveal_strlit("7");
        reveal_strlit("8");
        reveal_strlit("9");
    }
    if d == 0 {
        out.append("0");
    } else if d == 1 {
        out.append("1");
    } else if d == 2 {
        out.append("2");
    } else if d == 3 {
        out.append("3");
    } else if d == 4 {
        out.append("4");
    } else if d == 5 {
        out.append("5");
    } else if d == 6 {
        out.append("6");
    } else if d == 7 {
        out.append("7");
    } else if d == 8 {
        out.append("8");
    } else {
        out.append("9");
    }
    proof {
        assert(out@ =~= old(out)@ + seq![digit_char(d as int)]);
    }
}

fn append_2(out: &mut String, n: u32)
    ensures
        final(out)@ == old(out)@ + d2(n as int),
{
    append_digit(out, (n / 10) % 10);
    append_digit(out, n % 10);
    proof {
        assert(out@ =~= old(out)@ + d2(n as int));
    }
}

fn append_4(out: &mut String, n: u32)
    ensures
        final(out)@ == old(out)@ + d4(n as int),
{
    append_digit(out, (n / 1000) % 10);
    append_digit(out, (n / 100) % 10);
    append_digit(out, (n / 10) % 10);
    append_digit(out, n % 10);
    proof {
        assert(out@ =~= old(out)@ + d4(n as int));
    }
}

fn append_year(out: &mut String, y: u32)
    ensures
        final(out)@ == old(out)@ + year_text(y as int),
{
    if y >= 10000 {
        append_digit(out, 1);
    }
    append_4(out, y);
    proof {
        assert(out@ =~= old(out)@ + year_text(y as int));
    }
}

fn append_date_value(out: &mut String, d: &Date)
    ensures
        final(out)@ == old(out)@ + date_value_text(*d),
{
    append_year(out, d.year);
    append_2(out, d.month);
    append_2(out, d.day);
    proof {
        assert(out@ =~= old(out)@ + date_value_text(*d));
    }
}

fn append_instant_value(out: &mut String, dt: &DateTime)
    ensures
        final(out)@ == old(out)@ + instant_value_text(*dt),
{
    append_date_value(out, &dt.date);
    out.append("T");
    append_2(out, dt.hour);
    append_2(out, dt.minute);
    append_2(out, dt.second);
    proof {
        reveal_strlit("T");
        assert("T"@ =~= seq!['T']);
        assert(out@ =~= old(out)@ + instant_value_text(*dt));
    }
}

fn append_stamp(out: &mut String, nd: &NormalizedDate)
    ensures
        final(out)@ == old(out)@ + stamp_text(*nd),
{
    match nd {
        NormalizedDate::Date(d) => {
            out.append(";VALUE=DATE:");
            append_date_value(out, d);
        },
        NormalizedDate::Instant(dt) => {
            out.append(":");
            append_instant_value(out, dt);
        },
    }
    proof {
        assert(out@ =~= old(out)@ + stamp_text(*nd));
    }
}

/// One calendar event, ready to render.
pub struct CalendarEvent {
    pub title: String,
    pub start: NormalizedDate,
    pub end: NormalizedDate,
    pub stamp: DateTime,
    pub uid: String,
}

pub open spec fn event_wf(ev: CalendarEvent) -> bool {
    &&& nd_wf(ev.start)
    &&& nd_wf(ev.end)
    &&& dt_wf(ev.stamp)
}

/// One `VEVENT` block, exactly as the document carries it.
pub open spec fn event_text(ev: CalendarEvent) -> Seq<char> {
    "BEGIN:VEVENT\nDTSTART"@ + stamp_text(ev.start) + "\nDTEND"@ + stamp_text(ev.end)
        + "\nDTSTAMP"@ + stamp_text(ev.start) + "\nUID:"@ + ev.uid@
        + "@dingelstad.works\nCREATED"@ + stamp_text(NormalizedDate::Instant(ev.stamp))
        + "\nDESCRIPTION:\nLAST-MODIFIED"@ + stamp_text(NormalizedDate::Instant(ev.stamp))
        + "\nLOCATION:\nSEQUENCE:0\nSTATUS:CONFIRMED\nSUMMARY:"@ + ev.title@
        + "\nTRANSP:OPAQUE\nEND:VEVENT\n"@
}

fn append_event(out: &mut String, ev: &CalendarEvent)
    ensures
        final(out)@ == old(out)@ + event_text(*ev),
{
    out.append("BEGIN:VEVENT\nDTSTART");
    append_stamp(out, &ev.start);
    out.append("\nDTEND");
    append_stamp(out, &ev.end);
    out.append("\nDTSTAMP");
    append_stamp(out, &ev.start);
    out.append("\nUID:");
    out.append(ev.uid.as_str());
    out.append("@dingelstad.works\nCREATED");
    let created = NormalizedDate::Instant(ev.stamp);
    append_stamp(out, &created);
    out.append("\nDESCRIPTION:\nLAST-MODIFIED");
    append_stamp(out, &created);
    out.append("\nLOCATION:\nSEQUENCE:0\nSTATUS:CONFIRMED\nSUMMARY:");
    out.append(ev.title.as_str());
    out.append("\nTRANSP:OPAQUE\nEND:VEVENT\n");
    proof {
        assert(out@ =~= old(out)@ + event_text(*ev));
    }
}

/// The fixed document header: product id, calendar scale, method, display
/// name and the fixed display timezone.
pub open spec fn calendar_header() -> Seq<char> {
    "BEGIN:VCALENDAR\nPRODID:-//Bram Dingelstad//Bram's Notion Derived Calendar//EN\nCALSCALE:GREGORIAN\nVERSION:2.0\nMETHOD:PUBLISH\nX-WR-CALNAME:Bram's Notion Derived Calendar\nX-WR-TIMEZONE:Europe/Amsterdam\n"@
}

/// The first `n` event blocks, concatenated in order.
pub open spec fn events_text_upto(evs: Seq<CalendarEvent>, n: int) -> Seq<char>
    decreases n,
{
    if n <= 0 {
        Seq::empty()
    } else {
        events_text_upto(evs, n - 1) + event_text(evs[n - 1])
    }
}

/// The whole document: header, every event block in order, footer.
pub open spec fn document_text(evs: Seq<CalendarEvent>) -> Seq<char> {
    calendar_header() + events_text_upto(evs, evs.len() as int) + "\nEND:VCALENDAR"@
}

/// Renders the full calendar document for the given events.
#[verifier::rlimit(50)]
pub fn render_document(events: &Vec<CalendarEvent>) -> (r: String)
    ensures
        r@ == document_text(events@),
{
    let mut out = String::new();
    out.append(
        "BEGIN:VCALENDAR\nPRODID:-//Bram Dingelstad//Bram's Notion Derived Calendar//EN\nCALSCALE:GREGORIAN\nVERSION:2.0\nMETHOD:PUBLISH\nX-WR-CALNAME:Bram's Notion Derived Calendar\nX-WR-TIMEZONE:Europe/Amsterdam\n",
    );
    let mut i: usize = 0;
    while i < events.len()
        invariant
            0 <= i <= events@.len(),
            out@ == calendar_header() + events_text_upto(events@, i as int),
        decreases events@.len() - i,
    {
        append_event(&mut out, &events[i]);
        proof {
            assert(out@ =~= calendar_header() + events_text_upto(events@, i as int + 1));
        }
        i = i + 1;
    }
    out.append("\nEND:VCALENDAR");
    proof {
        assert(out@ =~= document_text(events@));
    }
    out
}

} // verus!
