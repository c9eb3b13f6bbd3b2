use icskit::calendar::format_calendar;
use icskit::date::{Date, DateTime};

use icskit::event::{EventClass, Transp, VEvent};
use icskit::parser::parse_calendar;
use icskit::profile::microsoft::{EventExtensions as MsExtensions, MsBusyStatus};
use icskit::raw::{RawComponent, RawProperty};
use icskit::vcalendar::VCalendar;

fn make_event(uid: &str, start: (i32, u32, u32), end: (i32, u32, u32), summary: &str) -> VEvent {
    VEvent {
        uid: uid.to_string(),
        dtstamp: DateTime {
            date: Date { year: 2026, month: 3, day: 27 },
            hour: 0,
            minute: 0,
            second: 0,
            nanosecond: 0,
        },
        dtstart: Date::from_ymd_opt(start.0, start.1, start.2).unwrap(),
        dtend: Date::from_ymd_opt(end.0, end.1, end.2).unwrap(),
        summary: summary.to_string(),
        transp: None,
        class: None,
        categories: vec![],
        microsoft: None,
        google: None,
        icloud: None,
        unknown: vec![],
        unrecognized_components: vec![],
    }
}


fn vcal(events: Vec<VEvent>) -> VCalendar {
    VCalendar {
        events,
        ..VCalendar::new("-//makeholiday//EN")
    }
}

#[test]
fn parser_parse_roundtrip_with_busystatus_and_class() {
    let mut event = make_event("rt-bs", (2026, 5, 1), (2026, 5, 2), "出張");
    event.microsoft = Some(MsExtensions {
        busystatus: Some(MsBusyStatus::WorkingElsewhere),
        unrecognized: vec![],
    });
    event.class = Some(EventClass::Confidential);
    let cal = format_calendar(&vcal(vec![event.copy()]));
    let parsed = parse_calendar(&cal).unwrap();
    assert_eq!(parsed.events.len(), 1);
    assert_eq!(
        parsed.events[0]
            .microsoft
            .as_ref()
            .and_then(|m| m.busystatus),
        Some(MsBusyStatus::WorkingElsewhere)
    );
    assert_eq!(parsed.events[0].class, Some(EventClass::Confidential));
}

#[test]
fn parser_parse_events_roundtrip() {
    // make_event leaves microsoft = None and transp = None; the formatter
    // omits both TRANSP and X-MICROSOFT-CDO-BUSYSTATUS in that case so
    // the round-trip is exact (no inferred fields appearing in the
    // re-parsed value).
    let event = make_event("rt-1", (2026, 5, 3), (2026, 5, 4), "憲法記念日");
    let cal = format_calendar(&vcal(vec![event.copy()]));
    let parsed = parse_calendar(&cal).unwrap();
    assert_eq!(parsed.events.len(), 1);
    assert_eq!(parsed.events[0], event);
}

#[test]
fn parser_parse_events_empty() {
    let cal = format_calendar(&vcal(vec![]));
    let parsed = parse_calendar(&cal).unwrap();
    assert!(parsed.events.is_empty());
}

#[test]
fn parser_unknown_x_property_round_trips() {
    let mut event = make_event("rt-unk", (2026, 4, 29), (2026, 4, 30), "昭和の日");
    event.unknown.push(RawProperty {
        name: "X-CUSTOM-COLOR".to_string(),
        params: vec![],
        value: "blue".to_string(),
        source_index: 1,
    });
    let cal = format_calendar(&vcal(vec![event.copy()]));
    let parsed = parse_calendar(&cal).unwrap();
    assert_eq!(parsed.events[0].unknown.len(), 1);
    assert_eq!(parsed.events[0].unknown[0].name, "X-CUSTOM-COLOR");
    assert_eq!(parsed.events[0].unknown[0].value, "blue");
}

#[test]
fn parser_unknown_x_property_with_params_round_trips() {
    let mut event = make_event("rt-unk-p", (2026, 4, 29), (2026, 4, 30), "昭和の日");
    event.unknown.push(RawProperty {
        name: "X-CUSTOM-FOO".to_string(),
        params: vec![("LANG".to_string(), "en".to_string())],
        value: "hello".to_string(),
        source_index: 1,
    });
    let cal = format_calendar(&vcal(vec![event.copy()]));
    let parsed = parse_calendar(&cal).unwrap();
    assert_eq!(parsed.events[0].unknown.len(), 1);
    assert_eq!(parsed.events[0].unknown[0].name, "X-CUSTOM-FOO");
    assert_eq!(
        parsed.events[0].unknown[0].params,
        vec![("LANG".to_string(), "en".to_string())]
    );
    assert_eq!(parsed.events[0].unknown[0].value, "hello");
}

#[test]
fn parser_unknown_x_property_preserves_source_index_order() {
    let mut input = String::from("BEGIN:VCALENDAR\r\nVERSION:2.0\r\nPRODID:-//mh//EN\r\n");
    input.push_str("BEGIN:VEVENT\r\n");
    input.push_str("UID:e1\r\nDTSTAMP:20260101T000000Z\r\n");
    input.push_str("DTSTART;VALUE=DATE:20260429\r\nDTEND;VALUE=DATE:20260430\r\n");
    input.push_str("SUMMARY:s\r\n");
    input.push_str("X-CUSTOM-A:1\r\n");
    input.push_str("X-CUSTOM-B:2\r\n");
    input.push_str("X-CUSTOM-C:3\r\n");
    input.push_str("END:VEVENT\r\n");
    input.push_str("END:VCALENDAR\r\n");
    let parsed = parse_calendar(&input).unwrap();
    assert_eq!(parsed.events[0].unknown.len(), 3);
    assert_eq!(parsed.events[0].unknown[0].source_index, 1);
    assert_eq!(parsed.events[0].unknown[0].name, "X-CUSTOM-A");
    assert_eq!(parsed.events[0].unknown[2].source_index, 3);
    assert_eq!(parsed.events[0].unknown[2].name, "X-CUSTOM-C");
}

#[test]
fn parser_class_categories_not_starting_with_x_do_not_fall_to_unknown() {
    let mut event = make_event("rt-tc", (2026, 4, 29), (2026, 4, 30), "s");
    event.class = Some(EventClass::Private);
    event.categories = vec!["work".to_string()];
    let cal = format_calendar(&vcal(vec![event.copy()]));
    let parsed = parse_calendar(&cal).unwrap();
    assert_eq!(parsed.events[0].class, Some(EventClass::Private));
    assert_eq!(parsed.events[0].categories, vec!["work".to_string()]);
    assert!(parsed.events[0].unknown.is_empty());
}

#[test]
fn parser_vtimezone_round_trips_into_calendar_unrecognized_components() {
    let mut input = String::from("BEGIN:VCALENDAR\r\nVERSION:2.0\r\nPRODID:-//mh//EN\r\n");
    input.push_str("BEGIN:VTIMEZONE\r\n");
    input.push_str("TZID:Asia/Tokyo\r\n");
    input.push_str("BEGIN:STANDARD\r\n");
    input.push_str("DTSTART:19700101T000000\r\n");
    input.push_str("TZOFFSETFROM:+0900\r\n");
    input.push_str("TZOFFSETTO:+0900\r\n");
    input.push_str("TZNAME:JST\r\n");
    input.push_str("END:STANDARD\r\n");
    input.push_str("END:VTIMEZONE\r\n");
    input.push_str("END:VCALENDAR\r\n");
    let parsed = parse_calendar(&input).unwrap();
    assert_eq!(parsed.unrecognized_components.len(), 1);
    let tz = &parsed.unrecognized_components[0];
    assert_eq!(tz.name, "VTIMEZONE");
    assert_eq!(tz.properties.len(), 1);
    assert_eq!(tz.properties[0].name, "TZID");
    assert_eq!(tz.properties[0].value, "Asia/Tokyo");
    assert_eq!(tz.sub_components.len(), 1);
    assert_eq!(tz.sub_components[0].name, "STANDARD");
    assert_eq!(tz.sub_components[0].properties.len(), 4);
}

#[test]
fn parser_valarm_round_trips_into_event_unrecognized_components() {
    let mut input = String::from("BEGIN:VCALENDAR\r\nVERSION:2.0\r\nPRODID:-//mh//EN\r\n");
    input.push_str("BEGIN:VEVENT\r\n");
    input.push_str("UID:e1\r\nDTSTAMP:20260101T000000Z\r\n");
    input.push_str("DTSTART;VALUE=DATE:20260429\r\nDTEND;VALUE=DATE:20260430\r\n");
    input.push_str("SUMMARY:s\r\n");
    input.push_str("BEGIN:VALARM\r\n");
    input.push_str("ACTION:DISPLAY\r\n");
    input.push_str("TRIGGER:-PT15M\r\n");
    input.push_str("DESCRIPTION:reminder\r\n");
    input.push_str("END:VALARM\r\n");
    input.push_str("END:VEVENT\r\n");
    input.push_str("END:VCALENDAR\r\n");
    let parsed = parse_calendar(&input).unwrap();
    assert_eq!(parsed.events.len(), 1);
    let event = &parsed.events[0];
    assert_eq!(event.unrecognized_components.len(), 1);
    let alarm = &event.unrecognized_components[0];
    assert_eq!(alarm.name, "VALARM");
    assert_eq!(alarm.properties.len(), 3);
    let names: Vec<_> = alarm.properties.iter().map(|p| p.name.as_str()).collect();
    assert_eq!(names, vec!["ACTION", "TRIGGER", "DESCRIPTION"]);
}

#[test]
fn parser_transp_field_parses_from_input() {
    let mut input = String::from("BEGIN:VCALENDAR\r\nVERSION:2.0\r\nPRODID:-//mh//EN\r\n");
    input.push_str("BEGIN:VEVENT\r\n");
    input.push_str("UID:e1\r\nDTSTAMP:20260101T000000Z\r\n");
    input.push_str("DTSTART;VALUE=DATE:20260429\r\nDTEND;VALUE=DATE:20260430\r\n");
    input.push_str("SUMMARY:s\r\n");
    input.push_str("TRANSP:OPAQUE\r\n");
    input.push_str("END:VEVENT\r\nEND:VCALENDAR\r\n");
    let parsed = parse_calendar(&input).unwrap();
    assert_eq!(parsed.events[0].transp, Some(Transp::Opaque));
}

#[test]
fn parser_transp_field_overrides_busystatus_derived_transp_on_output() {
    // If transp is explicitly set, the formatter must honor it even
    // when microsoft.busystatus would derive a different value.
    let mut event = make_event("transp-override", (2026, 4, 29), (2026, 4, 30), "s");
    event.microsoft = Some(MsExtensions {
        busystatus: Some(MsBusyStatus::Oof),
        unrecognized: vec![], // derives OPAQUE
    });
    event.transp = Some(Transp::Transparent); // typed override
    let cal = format_calendar(&vcal(vec![event]));
    assert!(cal.contains("TRANSP:TRANSPARENT\r\n"));
    assert!(cal.contains("X-MICROSOFT-CDO-BUSYSTATUS:OOF\r\n"));
}

#[test]
fn parser_transp_none_falls_back_to_microsoft_busystatus_derived_value() {
    let mut event = make_event("transp-fallback", (2026, 4, 29), (2026, 4, 30), "s");
    event.microsoft = Some(MsExtensions {
        busystatus: Some(MsBusyStatus::Oof),
        unrecognized: vec![], // derives OPAQUE
    });
    event.transp = None;
    let cal = format_calendar(&vcal(vec![event]));
    assert!(cal.contains("TRANSP:OPAQUE\r\n"));
}

#[test]
fn parser_no_microsoft_and_no_transp_omits_both_lines() {
    let event = make_event("transp-nothing", (2026, 4, 29), (2026, 4, 30), "s");
    let cal = format_calendar(&vcal(vec![event]));
    assert!(!cal.contains("TRANSP:"));
    assert!(!cal.contains("X-MICROSOFT-CDO-BUSYSTATUS:"));
}

#[test]
fn parser_transp_round_trip_preserves_typed_value() {
    let mut event = make_event("transp-rt", (2026, 4, 29), (2026, 4, 30), "s");
    event.transp = Some(Transp::Opaque);
    let cal = format_calendar(&vcal(vec![event.copy()]));
    let parsed = parse_calendar(&cal).unwrap();
    assert_eq!(parsed.events[0].transp, Some(Transp::Opaque));
}

#[test]
fn parser_vtimezone_format_round_trip_yields_same_structure() {
    let cal = VCalendar {
        version: "2.0".to_string(),
        prodid: "-//mh//EN".to_string(),
        calscale: None,
        method: None,
        events: vec![],
        unrecognized_components: vec![RawComponent {
            name: "VTIMEZONE".to_string(),
            properties: vec![RawProperty {
                name: "TZID".to_string(),
                params: vec![],
                value: "Asia/Tokyo".to_string(),
                source_index: 1,
            }],
            sub_components: vec![],
        }],
    };
    let s = format_calendar(&cal);
    let reparsed = parse_calendar(&s).unwrap();
    assert_eq!(reparsed.unrecognized_components.len(), 1);
    assert_eq!(reparsed.unrecognized_components[0].name, "VTIMEZONE");
    assert_eq!(
        reparsed.unrecognized_components[0].properties[0].value,
        "Asia/Tokyo"
    );
}

fn prop(name: &str, params: Vec<(&str, &str)>, value: &str, index: u32) -> RawProperty {
    RawProperty {
        name: name.to_string(),
        params: params.into_iter().map(|(k, v)| (k.to_string(), v.to_string())).collect(),
        value: value.to_string(),
        source_index: index,
    }
}

#[test]
fn format_then_parse_gives_the_calendar_back() {
    let mut event = make_event("rt-full", (2026, 12, 29), (2027, 1, 4), "Year-end, break; \\ off");
    event.transp = Some(Transp::Opaque);
    event.class = Some(EventClass::Private);
    event.categories = vec!["work".to_string(), "a,b".to_string()];
    // An unknown property written before a Microsoft one: the writer
    // sorts them by index and the reader files each in its own bucket.
    event.unknown = vec![prop("X-FOO", vec![("LANG", "en")], "first", 1)];
    event.microsoft = Some(MsExtensions {
        busystatus: Some(MsBusyStatus::Oof),
        unrecognized: vec![prop("X-MICROSOFT-CDO-ALLDAYEVENT", vec![], "TRUE", 2)],
    });
    event.unrecognized_components = vec![RawComponent {
        name: "VALARM".to_string(),
        properties: vec![
            prop("ACTION", vec![], "DISPLAY", 1),
            prop("TRIGGER", vec![], "-PT15M", 2),
        ],
        sub_components: vec![],
    }];
    let mut cal = vcal(vec![event]);
    cal.calscale = Some("GREGORIAN".to_string());
    cal.method = Some("PUBLISH".to_string());
    cal.unrecognized_components = vec![RawComponent {
        name: "VTIMEZONE".to_string(),
        properties: vec![prop("TZID", vec![], "Asia/Tokyo", 1)],
        sub_components: vec![],
    }];
    let text = format_calendar(&cal);
    let parsed = parse_calendar(&text).unwrap();
    assert_eq!(parsed, cal);
}

#[test]
fn format_then_parse_drops_the_fraction_of_a_second() {
    // Outside the round-trip law: the stamp is written to the second.
    let mut event = make_event("rt-ns", (2026, 1, 1), (2026, 1, 2), "x");
    event.dtstamp.nanosecond = 5;
    let cal = vcal(vec![event]);
    let parsed = parse_calendar(&format_calendar(&cal)).unwrap();
    assert_eq!(parsed.events[0].dtstamp.nanosecond, 0);
    assert_ne!(parsed, cal);
}

#[test]
fn events_come_back_when_header_values_end_in_white_space() {
    let cal = VCalendar {
        events: vec![make_event("e1", (2026, 5, 1), (2026, 5, 2), "May Day")],
        ..VCalendar::new("-//x//EN  \t")
    };
    let back = parse_calendar(&format_calendar(&cal)).unwrap();
    assert_eq!(back.events, cal.events);
    assert_eq!(back.prodid, "-//x//EN");
}
