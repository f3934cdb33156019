use notion_ical::date::{Date, DateTime};
use notion_ical::engine::{build_events, refresh_document, Record};
use notion_ical::extract::{extract, trim_str, DateMention, Segment};
use notion_ical::norm::NormalizedDate;
use notion_ical::render::{render_document, CalendarEvent};

fn text_segment(text: &str) -> Segment {
    Segment { plain_text: text.to_string(), date_mention: None }
}

fn date_segment(start: &str, end: Option<&str>) -> Segment {
    Segment {
        plain_text: "".to_string(),
        date_mention: Some(
            DateMention { start: Some(start.to_string()), end: end.map(|e| e.to_string()) },
        ),
    }
}

fn noon(y: u32, m: u32, d: u32) -> DateTime {
    DateTime { date: Date { year: y, month: m, day: d }, hour: 12, minute: 0, second: 0 }
}

#[test]
fn title_without_date_mention_yields_nothing() {
    let segments = vec![text_segment("Just a plain title"), text_segment("still plain")];
    assert!(extract(&segments).is_none());
}

#[test]
fn empty_title_yields_nothing() {
    let segments: Vec<Segment> = vec![];
    assert!(extract(&segments).is_none());
}

#[test]
fn display_title_is_first_segment_trimmed() {
    let segments = vec![text_segment(" Trip: "), date_segment("2022-01-11", None)];
    let (title, mentions) = extract(&segments).unwrap();
    assert_eq!(title, "Trip:");
    assert_eq!(mentions.len(), 1);
    assert_eq!(mentions[0].start, Some("2022-01-11".to_string()));
    assert_eq!(mentions[0].end, None);
}

#[test]
fn every_date_mention_is_collected_in_order() {
    let segments = vec![
        text_segment("Two dates"),
        date_segment("2022-01-11", None),
        text_segment(" and "),
        date_segment("2022-02-01", Some("2022-02-03")),
    ];
    let (_, mentions) = extract(&segments).unwrap();
    assert_eq!(mentions.len(), 2);
    assert_eq!(mentions[0].start, Some("2022-01-11".to_string()));
    assert_eq!(mentions[1].start, Some("2022-02-01".to_string()));
    assert_eq!(mentions[1].end, Some("2022-02-03".to_string()));
}

#[test]
fn trim_removes_surrounding_whitespace_only() {
    assert_eq!(trim_str("  a b\t\n"), "a b");
    assert_eq!(trim_str(""), "");
    assert_eq!(trim_str(" \t "), "");
    assert_eq!(trim_str("x"), "x");
}

#[test]
fn trim_removes_unicode_whitespace() {
    assert_eq!(trim_str("\u{a0}x\u{2009}"), "x");
    assert_eq!(trim_str("\u{3000}a\u{a0}b\u{2028}"), "a\u{a0}b");
}

#[test]
fn event_on_the_last_four_digit_day_renders_a_five_digit_end() {
    let records = vec![Record {
        title: "Fin".to_string(),
        mentions: vec![DateMention { start: Some("9999-12-31".to_string()), end: None }],
    }];
    let (doc, _) = refresh_document(&records).unwrap();
    assert!(doc.contains("DTSTART;VALUE=DATE:99991231\n"));
    assert!(doc.contains("DTEND;VALUE=DATE:100000101\n"));
}

#[test]
fn two_mentions_yield_two_events_sharing_the_title() {
    let records = vec![Record {
        title: "Trip:".to_string(),
        mentions: vec![
            DateMention { start: Some("2022-01-11".to_string()), end: None },
            DateMention { start: Some("2022-03-05".to_string()), end: None },
        ],
    }];
    let events = build_events(&records, &noon(2022, 6, 1));
    assert_eq!(events.len(), 2);
    assert_eq!(events[0].title, "Trip:");
    assert_eq!(events[1].title, "Trip:");
    assert_eq!(events[0].start, NormalizedDate::Date(Date { year: 2022, month: 1, day: 11 }));
    assert_eq!(events[1].start, NormalizedDate::Date(Date { year: 2022, month: 3, day: 5 }));
    assert_eq!(events[0].uid.len(), 36);
    assert_ne!(events[0].uid, events[1].uid);
}

#[test]
fn start_only_date_mention_ends_one_day_later() {
    let records = vec![Record {
        title: "One day".to_string(),
        mentions: vec![DateMention { start: Some("2022-01-11".to_string()), end: None }],
    }];
    let events = build_events(&records, &noon(2022, 6, 1));
    assert_eq!(events.len(), 1);
    assert_eq!(events[0].start, NormalizedDate::Date(Date { year: 2022, month: 1, day: 11 }));
    assert_eq!(events[0].end, NormalizedDate::Date(Date { year: 2022, month: 1, day: 12 }));
}

#[test]
fn explicit_later_end_is_kept_and_is_exclusive() {
    let records = vec![Record {
        title: "Range".to_string(),
        mentions: vec![DateMention {
            start: Some("2022-02-01".to_string()),
            end: Some("2022-02-03".to_string()),
        }],
    }];
    let events = build_events(&records, &noon(2022, 6, 1));
    assert_eq!(events.len(), 1);
    // The end token, treated as an exclusive end, is one day past its date.
    assert_eq!(events[0].end, NormalizedDate::Date(Date { year: 2022, month: 2, day: 4 }));
}

#[test]
fn malformed_end_falls_back_to_start_plus_one_day() {
    let records = vec![Record {
        title: "Bad end".to_string(),
        mentions: vec![DateMention {
            start: Some("2022-02-01".to_string()),
            end: Some("not a date".to_string()),
        }],
    }];
    let events = build_events(&records, &noon(2022, 6, 1));
    assert_eq!(events.len(), 1);
    assert_eq!(events[0].end, NormalizedDate::Date(Date { year: 2022, month: 2, day: 2 }));
}

#[test]
fn earlier_end_token_is_ignored() {
    let records = vec![Record {
        title: "Backwards".to_string(),
        mentions: vec![DateMention {
            start: Some("2022-02-10".to_string()),
            end: Some("2022-02-01".to_string()),
        }],
    }];
    let events = build_events(&records, &noon(2022, 6, 1));
    assert_eq!(events.len(), 1);
    assert_eq!(events[0].end, NormalizedDate::Date(Date { year: 2022, month: 2, day: 11 }));
}

#[test]
fn malformed_start_drops_only_that_mention() {
    let records = vec![Record {
        title: "Partly bad".to_string(),
        mentions: vec![
            DateMention { start: Some("nonsense".to_string()), end: None },
            DateMention { start: Some("2022-01-11".to_string()), end: None },
            DateMention { start: None, end: None },
        ],
    }];
    let events = build_events(&records, &noon(2022, 6, 1));
    assert_eq!(events.len(), 1);
    assert_eq!(events[0].start, NormalizedDate::Date(Date { year: 2022, month: 1, day: 11 }));
}

#[test]
fn rendered_document_matches_expected_text_exactly() {
    let events = vec![CalendarEvent {
        title: "Test".to_string(),
        start: NormalizedDate::Date(Date { year: 2022, month: 1, day: 11 }),
        end: NormalizedDate::Date(Date { year: 2022, month: 1, day: 12 }),
        stamp: DateTime {
            date: Date { year: 2022, month: 1, day: 1 },
            hour: 0,
            minute: 0,
            second: 0,
        },
        uid: "00000000-0000-4000-8000-000000000000".to_string(),
    }];
    let doc = render_document(&events);
    let expected = "BEGIN:VCALENDAR\nPRODID:-//Bram Dingelstad//Bram's Notion Derived Calendar//EN\nCALSCALE:GREGORIAN\nVERSION:2.0\nMETHOD:PUBLISH\nX-WR-CALNAME:Bram's Notion Derived Calendar\nX-WR-TIMEZONE:Europe/Amsterdam\nBEGIN:VEVENT\nDTSTART;VALUE=DATE:20220111\nDTEND;VALUE=DATE:20220112\nDTSTAMP;VALUE=DATE:20220111\nUID:00000000-0000-4000-8000-000000000000@dingelstad.works\nCREATED:20220101T000000\nDESCRIPTION:\nLAST-MODIFIED:20220101T000000\nLOCATION:\nSEQUENCE:0\nSTATUS:CONFIRMED\nSUMMARY:Test\nTRANSP:OPAQUE\nEND:VEVENT\n\nEND:VCALENDAR";
    assert_eq!(doc, expected);
}

#[test]
fn end_to_end_all_day_trip() {
    let records = vec![Record {
        title: "Trip:".to_string(),
        mentions: vec![DateMention { start: Some("2022-01-11".to_string()), end: None }],
    }];
    let (doc, events) = refresh_document(&records).unwrap();
    assert_eq!(events.len(), 1);
    assert!(doc.contains("DTSTART;VALUE=DATE:20220111\n"));
    assert!(doc.contains("DTEND;VALUE=DATE:20220112\n"));
    assert!(doc.contains("SUMMARY:Trip:\n"));
    assert!(doc.starts_with("BEGIN:VCALENDAR\n"));
    assert!(doc.ends_with("\nEND:VCALENDAR"));
}

#[test]
fn end_to_end_instant_is_shifted_by_one_hour_in_winter() {
    let records = vec![Record {
        title: "Meeting".to_string(),
        mentions: vec![DateMention { start: Some("2022-12-11T23:00:00Z".to_string()), end: None }],
    }];
    let (doc, _) = refresh_document(&records).unwrap();
    assert!(doc.contains("DTSTART:20221212T000000\n"));
}

#[test]
fn stamps_round_trip_through_the_classification_rule() {
    let records = vec![Record {
        title: "Both kinds".to_string(),
        mentions: vec![
            DateMention { start: Some("2022-01-11".to_string()), end: None },
            DateMention { start: Some("2022-12-11T23:00:00Z".to_string()), end: None },
        ],
    }];
    let (doc, _) = refresh_document(&records).unwrap();

    // All-day stamp value: 8 characters, classified as a date, same value.
    let date_stamp = value_after(&doc, "DTSTART;VALUE=DATE:");
    assert!(date_stamp.chars().count() <= 10);
    assert_eq!(date_stamp, "20220111");
    assert_eq!(&date_stamp[0..4], "2022");
    assert_eq!(&date_stamp[4..6], "01");
    assert_eq!(&date_stamp[6..8], "11");

    // Instant stamp value: 15 characters, classified as a datetime.
    let instant_stamp = value_after(&doc, "DTSTART:");
    assert!(instant_stamp.chars().count() > 10);
    assert_eq!(instant_stamp, "20221212T000000");
    assert_eq!(&instant_stamp[0..8], "20221212");
    assert_eq!(&instant_stamp[9..15], "000000");
}

fn value_after(doc: &str, key: &str) -> String {
    let at = doc.find(key).unwrap() + key.len();
    doc[at..].chars().take_while(|c| *c != '\n').collect()
}
