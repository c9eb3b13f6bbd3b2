use icskit::calendar::{format_calendar, format_vevent};
use icskit::date::{Date, DateTime};
use icskit::event::{EventClass, VEvent};
use icskit::parser::parse_calendar;
use icskit::profile::microsoft::{EventExtensions as MsExtensions, MsBusyStatus};
use icskit::raw::RawProperty;
use icskit::vcalendar::VCalendar;

fn make_event(uid: &str, start: (i32, u32, u32), end: (i32, u32, u32), summary: &str) -> VEvent {
    VEvent {
        uid: uid.to_string(),
        dtstamp: DateTime {
            date: Date { year: 2026, month: 3, day: 27 },
            hour: 0,
            minute: 0,
            second: 0,
            nanosecond: 0,
        },
        dtstart: Date::from_ymd_opt(start.0, start.1, start.2).unwrap(),
        dtend: Date::from_ymd_opt(end.0, end.1, end.2).unwrap(),
        summary: summary.to_string(),
        transp: None,
        class: None,
        categories: vec![],
        microsoft: None,
        google: None,
        icloud: None,
        unknown: vec![],
        unrecognized_components: vec![],
    }
}

fn vcal(events: Vec<VEvent>) -> VCalendar {
    VCalendar { events, ..VCalendar::new("-//makeholiday//EN") }
}

#[test]
fn header_contains_crlf_and_required_fields() {
    let s = format_calendar(&vcal(vec![]));
    assert!(s.contains("\r\n"), "must use CRLF");
    assert!(s.starts_with("BEGIN:VCALENDAR"));
    assert!(s.contains("VERSION:2.0"));
    assert!(s.contains("PRODID:"));
}

#[test]
fn footer_is_end_vcalendar_crlf() {
    let s = format_calendar(&vcal(vec![]));
    assert!(s.ends_with("END:VCALENDAR\r\n"));
}

#[test]
fn format_vevent_single_day() {
    let mut event = make_event("test-uid-1", (2026, 1, 1), (2026, 1, 2), "元日");
    event.microsoft = Some(MsExtensions { busystatus: Some(MsBusyStatus::Free), unrecognized: vec![] });
    let output = format_vevent(&event);
    assert!(output.contains("BEGIN:VEVENT\r\n"));
    assert!(output.contains("DTSTAMP:20260327T000000Z\r\n"));
    assert!(output.contains("DTSTART;VALUE=DATE:20260101\r\n"));
    assert!(output.contains("DTEND;VALUE=DATE:20260102\r\n"));
    assert!(output.contains("SUMMARY:元日\r\n"));
    assert!(output.contains("TRANSP:TRANSPARENT\r\n"));
    assert!(output.contains("X-MICROSOFT-CDO-BUSYSTATUS:FREE\r\n"));
    assert!(output.contains("UID:test-uid-1\r\n"));
    assert!(output.contains("END:VEVENT\r\n"));
    assert!(!output.contains("CLASS:"));
}

#[test]
fn format_vevent_multi_day() {
    let event = make_event("test-uid-2", (2026, 12, 29), (2027, 1, 4), "年末年始");
    let output = format_vevent(&event);
    assert!(output.contains("DTSTART;VALUE=DATE:20261229"));
    assert!(output.contains("DTEND;VALUE=DATE:20270104"));
}

#[test]
fn format_vevent_oof_private() {
    let mut event = make_event("oof-1", (2026, 8, 1), (2026, 8, 2), "不在");
    event.microsoft = Some(MsExtensions { busystatus: Some(MsBusyStatus::Oof), unrecognized: vec![] });
    event.class = Some(EventClass::Private);
    let output = format_vevent(&event);
    assert!(output.contains("TRANSP:OPAQUE\r\n"));
    assert!(output.contains("X-MICROSOFT-CDO-BUSYSTATUS:OOF\r\n"));
    assert!(output.contains("CLASS:PRIVATE\r\n"));
}

#[test]
fn format_and_parse_categories_and_icon() {
    let mut event = make_event("cat-1", (2026, 6, 15), (2026, 6, 16), "出張");
    event.categories = vec!["仕事".to_string(), "出張".to_string()];
    event.unknown.push(RawProperty {
        name: "X-MAKEHOLIDAY-ICON".to_string(),
        params: vec![],
        value: "airplane".to_string(),
        source_index: 1,
    });
    let output = format_vevent(&event);
    assert!(output.contains("CATEGORIES:仕事,出張\r\n"));
    assert!(output.contains("X-MAKEHOLIDAY-ICON:airplane\r\n"));
    let cal = format_calendar(&vcal(vec![event.copy()]));
    let parsed = parse_calendar(&cal).unwrap();
    assert_eq!(parsed.events[0].categories, vec!["仕事", "出張"]);
    assert_eq!(parsed.events[0].unknown[0].value, "airplane");
}

#[test]
fn format_vevent_omits_optional_extensions_by_default() {
    let event = make_event("x", (2026, 1, 1), (2026, 1, 2), "元日");
    let output = format_vevent(&event);
    assert!(!output.contains("CATEGORIES:"));
    assert!(!output.contains("X-MAKEHOLIDAY-ICON:"));
}

#[test]
fn format_calendar_empty() {
    let cal = format_calendar(&vcal(vec![]));
    assert!(cal.starts_with("BEGIN:VCALENDAR\r\n"));
    assert!(cal.ends_with("END:VCALENDAR\r\n"));
    assert!(!cal.contains("BEGIN:VEVENT"));
}

#[test]
fn format_calendar_with_events() {
    let events = vec![
        make_event("a", (2026, 1, 1), (2026, 1, 2), "元日"),
        make_event("b", (2026, 2, 11), (2026, 2, 12), "建国記念の日"),
    ];
    let cal = format_calendar(&vcal(events));
    assert_eq!(cal.matches("BEGIN:VEVENT").count(), 2);
    assert!(cal.contains("SUMMARY:元日"));
    assert!(cal.contains("SUMMARY:建国記念の日"));
}

#[test]
fn vcalendar_round_trip_preserves_calendar_fields() {
    let cal = VCalendar {
        version: "2.0".to_string(),
        prodid: "-//mh-test//EN".to_string(),
        calscale: Some("GREGORIAN".to_string()),
        method: Some("PUBLISH".to_string()),
        events: vec![],
        unrecognized_components: vec![],
    };
    let s = format_calendar(&cal);
    let parsed = parse_calendar(&s).unwrap();
    assert_eq!(parsed.version, "2.0");
    assert_eq!(parsed.prodid, "-//mh-test//EN");
    assert_eq!(parsed.calscale.as_deref(), Some("GREGORIAN"));
    assert_eq!(parsed.method.as_deref(), Some("PUBLISH"));
}

#[test]
fn exact_vevent_text() {
    let mut event = make_event("u1", (2026, 1, 1), (2026, 1, 2), "a,b");
    event.unknown.push(RawProperty {
        name: "X-B".to_string(),
        params: vec![("K".to_string(), "v".to_string())],
        value: "2".to_string(),
        source_index: 5,
    });
    event.unknown.push(RawProperty { name: "X-A".to_string(), params: vec![], value: "1".to_string(), source_index: 2 });
    assert_eq!(
        format_vevent(&event),
        "BEGIN:VEVENT\r\nUID:u1\r\nDTSTAMP:20260327T000000Z\r\nDTSTART;VALUE=DATE:20260101\r\n\
DTEND;VALUE=DATE:20260102\r\nSUMMARY:a\\,b\r\nX-A:1\r\nX-B;K=v:2\r\nEND:VEVENT\r\n"
    );
}

#[test]
fn formatted_calendar_parses_back_to_the_same_events() {
    let mut a = make_event("a", (2026, 5, 3), (2026, 5, 6), "憲法記念日; 連休");
    a.class = Some(EventClass::Public);
    a.categories = vec!["休日".to_string(), "a,b".to_string()];
    let b = make_event("b", (2026, 1, 1), (2026, 1, 2), "元日\\");
    let cal = vcal(vec![a.copy(), b.copy()]);
    let parsed = parse_calendar(&format_calendar(&cal)).unwrap();
    assert_eq!(parsed.events[0], a);
    assert_eq!(parsed.events[1], b);
}

#[test]
fn date_constructor_rejects_days_that_do_not_exist() {
    assert!(icskit::date::Date::from_ymd_opt(2026, 2, 29).is_none());
    assert!(icskit::date::Date::from_ymd_opt(2024, 2, 29).is_some());
    assert!(icskit::date::Date::from_ymd_opt(2026, 13, 1).is_none());
    assert!(icskit::date::Date::from_ymd_opt(1900, 2, 29).is_none());
    assert!(icskit::date::Date::from_ymd_opt(2000, 2, 29).is_some());
}
