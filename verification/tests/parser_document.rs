use icskit::calendar::format_calendar;
use icskit::date::{Date, DateTime};

use icskit::event::{EventClass, Transp, VEvent};
use icskit::line::parse_raw_property;
use icskit::parser::{parse_calendar, parse_indices};
use icskit::profile::microsoft::{EventExtensions as MsExtensions, MsBusyStatus};
use icskit::raw::{RawComponent, RawProperty};
use icskit::vcalendar::VCalendar;

fn make_event(uid: &str, start: (i32, u32, u32), end: (i32, u32, u32), summary: &str) -> VEvent {
    VEvent {
        uid: uid.to_string(),
        dtstamp: DateTime {
            date: Date { year: 2026, month: 3, day: 27 },
            hour: 0,
            minute: 0,
            second: 0,
            nanosecond: 0,
        },
        dtstart: Date::from_ymd_opt(start.0, start.1, start.2).unwrap(),
        dtend: Date::from_ymd_opt(end.0, end.1, end.2).unwrap(),
        summary: summary.to_string(),
        transp: None,
        class: None,
        categories: vec![],
        microsoft: None,
        google: None,
        icloud: None,
        unknown: vec![],
        unrecognized_components: vec![],
    }
}


fn vcal(events: Vec<VEvent>) -> VCalendar {
    VCalendar {
        events,
        ..VCalendar::new("-//makeholiday//EN")
    }
}

#[test]
fn mod_parse_roundtrip_with_busystatus_and_class() {
    let mut event = make_event("rt-bs", (2026, 5, 1), (2026, 5, 2), "出張");
    event.microsoft = Some(MsExtensions {
        busystatus: Some(MsBusyStatus::WorkingElsewhere),
        unrecognized: vec![],
    });
    event.class = Some(EventClass::Confidential);
    let cal = format_calendar(&vcal(vec![event.copy()]));
    let parsed = parse_calendar(&cal).unwrap();
    assert_eq!(parsed.events.len(), 1);
    assert_eq!(
        parsed.events[0]
            .microsoft
            .as_ref()
            .and_then(|m| m.busystatus),
        Some(MsBusyStatus::WorkingElsewhere)
    );
    assert_eq!(parsed.events[0].class, Some(EventClass::Confidential));
}

#[test]
fn mod_parse_events_roundtrip() {
    // make_event leaves microsoft = None and transp = None; the formatter
    // omits both TRANSP and X-MICROSOFT-CDO-BUSYSTATUS in that case so
    // the round-trip is exact (no inferred fields appearing in the
    // re-parsed value).
    let event = make_event("rt-1", (2026, 5, 3), (2026, 5, 4), "憲法記念日");
    let cal = format_calendar(&vcal(vec![event.copy()]));
    let parsed = parse_calendar(&cal).unwrap();
    assert_eq!(parsed.events.len(), 1);
    assert_eq!(parsed.events[0], event);
}

#[test]
fn mod_parse_events_empty() {
    let cal = format_calendar(&vcal(vec![]));
    let parsed = parse_calendar(&cal).unwrap();
    assert!(parsed.events.is_empty());
}

#[test]
fn mod_parse_indices_single() {
    assert_eq!(parse_indices("3", 5).unwrap(), vec![3]);
}

#[test]
fn mod_parse_indices_comma() {
    assert_eq!(parse_indices("4,6", 10).unwrap(), vec![4, 6]);
}

#[test]
fn mod_parse_indices_range() {
    assert_eq!(parse_indices("6-10", 12).unwrap(), vec![6, 7, 8, 9, 10]);
}

#[test]
fn mod_parse_indices_mixed() {
    assert_eq!(parse_indices("1,3-5,8", 10).unwrap(), vec![1, 3, 4, 5, 8]);
}

#[test]
fn mod_parse_indices_dedup() {
    assert_eq!(parse_indices("3,3,3", 5).unwrap(), vec![3]);
}

#[test]
fn mod_parse_indices_out_of_range() {
    assert!(parse_indices("0", 5).is_err());
    assert!(parse_indices("6", 5).is_err());
}

#[test]
fn mod_parse_indices_invalid_range() {
    assert!(parse_indices("5-3", 10).is_err());
}

// ADR-001 Migration Step 1 — unknown property round-trip.

#[test]
fn mod_unknown_x_property_round_trips() {
    let mut event = make_event("rt-unk", (2026, 4, 29), (2026, 4, 30), "昭和の日");
    event.unknown.push(RawProperty {
        name: "X-CUSTOM-COLOR".to_string(),
        params: vec![],
        value: "blue".to_string(),
        source_index: 1,
    });
    let cal = format_calendar(&vcal(vec![event.copy()]));
    let parsed = parse_calendar(&cal).unwrap();
    assert_eq!(parsed.events[0].unknown.len(), 1);
    assert_eq!(parsed.events[0].unknown[0].name, "X-CUSTOM-COLOR");
    assert_eq!(parsed.events[0].unknown[0].value, "blue");
}

#[test]
fn mod_unknown_x_property_with_params_round_trips() {
    let mut event = make_event("rt-unk-p", (2026, 4, 29), (2026, 4, 30), "昭和の日");
    event.unknown.push(RawProperty {
        name: "X-CUSTOM-FOO".to_string(),
        params: vec![("LANG".to_string(), "en".to_string())],
        value: "hello".to_string(),
        source_index: 1,
    });
    let cal = format_calendar(&vcal(vec![event.copy()]));
    let parsed = parse_calendar(&cal).unwrap();
    assert_eq!(parsed.events[0].unknown.len(), 1);
    assert_eq!(parsed.events[0].unknown[0].name, "X-CUSTOM-FOO");
    assert_eq!(
        parsed.events[0].unknown[0].params,
        vec![("LANG".to_string(), "en".to_string())]
    );
    assert_eq!(parsed.events[0].unknown[0].value, "hello");
}

#[test]
fn mod_unknown_x_property_preserves_source_index_order() {
    let mut input = String::from("BEGIN:VCALENDAR\r\nVERSION:2.0\r\nPRODID:-//mh//EN\r\n");
    input.push_str("BEGIN:VEVENT\r\n");
    input.push_str("UID:e1\r\nDTSTAMP:20260101T000000Z\r\n");
    input.push_str("DTSTART;VALUE=DATE:20260429\r\nDTEND;VALUE=DATE:20260430\r\n");
    input.push_str("SUMMARY:s\r\n");
    input.push_str("X-CUSTOM-A:1\r\n");
    input.push_str("X-CUSTOM-B:2\r\n");
    input.push_str("X-CUSTOM-C:3\r\n");
    input.push_str("END:VEVENT\r\n");
    input.push_str("END:VCALENDAR\r\n");
    let parsed = parse_calendar(&input).unwrap();
    assert_eq!(parsed.events[0].unknown.len(), 3);
    assert_eq!(parsed.events[0].unknown[0].source_index, 1);
    assert_eq!(parsed.events[0].unknown[0].name, "X-CUSTOM-A");
    assert_eq!(parsed.events[0].unknown[2].source_index, 3);
    assert_eq!(parsed.events[0].unknown[2].name, "X-CUSTOM-C");
}

#[test]
fn x_microsoft_stays_typed_x_makeholiday_lands_in_unknown() {
    // Post-Step-5: X-MAKEHOLIDAY-ICON is no longer specially handled
    // in ics-core; it round-trips through VEvent.unknown like any
    // other X-* property. Read/write is the makeholiday crate's job.
    let mut event = make_event("rt-typed", (2026, 4, 29), (2026, 4, 30), "昭和の日");
    event.microsoft = Some(MsExtensions {
        busystatus: Some(MsBusyStatus::Oof),
        unrecognized: vec![],
    });
    event.unknown.push(RawProperty {
        name: "X-MAKEHOLIDAY-ICON".to_string(),
        params: vec![],
        value: "flag".to_string(),
        source_index: 1,
    });
    let cal = format_calendar(&vcal(vec![event.copy()]));
    let parsed = parse_calendar(&cal).unwrap();
    assert_eq!(
        parsed.events[0]
            .microsoft
            .as_ref()
            .and_then(|m| m.busystatus),
        Some(MsBusyStatus::Oof)
    );
    let icon = parsed.events[0]
        .unknown
        .iter()
        .find(|p| p.name == "X-MAKEHOLIDAY-ICON")
        .map(|p| p.value.as_str());
    assert_eq!(icon, Some("flag"));
}

#[test]
fn mod_parse_raw_property_uppercases_name_and_keys() {
    let p = parse_raw_property("x-custom-foo;lang=en:hello", 1).unwrap();
    assert_eq!(p.name, "X-CUSTOM-FOO");
    assert_eq!(p.params, vec![("LANG".to_string(), "en".to_string())]);
    assert_eq!(p.value, "hello");
}

#[test]
fn mod_parse_raw_property_strips_quotes_from_param_value() {
    let p = parse_raw_property(r#"X-FOO;LANG="ja-JP":val"#, 1).unwrap();
    assert_eq!(p.params, vec![("LANG".to_string(), "ja-JP".to_string())]);
}

#[test]
fn mod_parse_raw_property_returns_none_when_no_colon() {
    assert!(parse_raw_property("X-NOCOLON", 1).is_none());
}

#[test]
fn mod_class_categories_not_starting_with_x_do_not_fall_to_unknown() {
    let mut event = make_event("rt-tc", (2026, 4, 29), (2026, 4, 30), "s");
    event.class = Some(EventClass::Private);
    event.categories = vec!["work".to_string()];
    let cal = format_calendar(&vcal(vec![event.copy()]));
    let parsed = parse_calendar(&cal).unwrap();
    assert_eq!(parsed.events[0].class, Some(EventClass::Private));
    assert_eq!(parsed.events[0].categories, vec!["work".to_string()]);
    assert!(parsed.events[0].unknown.is_empty());
}

// ADR-001 Migration Step 2 — RawComponent + unrecognized_components.

#[test]
fn mod_vtimezone_round_trips_into_calendar_unrecognized_components() {
    let mut input = String::from("BEGIN:VCALENDAR\r\nVERSION:2.0\r\nPRODID:-//mh//EN\r\n");
    input.push_str("BEGIN:VTIMEZONE\r\n");
    input.push_str("TZID:Asia/Tokyo\r\n");
    input.push_str("BEGIN:STANDARD\r\n");
    input.push_str("DTSTART:19700101T000000\r\n");
    input.push_str("TZOFFSETFROM:+0900\r\n");
    input.push_str("TZOFFSETTO:+0900\r\n");
    input.push_str("TZNAME:JST\r\n");
    input.push_str("END:STANDARD\r\n");
    input.push_str("END:VTIMEZONE\r\n");
    input.push_str("END:VCALENDAR\r\n");
    let parsed = parse_calendar(&input).unwrap();
    assert_eq!(parsed.unrecognized_components.len(), 1);
    let tz = &parsed.unrecognized_components[0];
    assert_eq!(tz.name, "VTIMEZONE");
    assert_eq!(tz.properties.len(), 1);
    assert_eq!(tz.properties[0].name, "TZID");
    assert_eq!(tz.properties[0].value, "Asia/Tokyo");
    assert_eq!(tz.sub_components.len(), 1);
    assert_eq!(tz.sub_components[0].name, "STANDARD");
    assert_eq!(tz.sub_components[0].properties.len(), 4);
}

#[test]
fn mod_valarm_round_trips_into_event_unrecognized_components() {
    let mut input = String::from("BEGIN:VCALENDAR\r\nVERSION:2.0\r\nPRODID:-//mh//EN\r\n");
    input.push_str("BEGIN:VEVENT\r\n");
    input.push_str("UID:e1\r\nDTSTAMP:20260101T000000Z\r\n");
    input.push_str("DTSTART;VALUE=DATE:20260429\r\nDTEND;VALUE=DATE:20260430\r\n");
    input.push_str("SUMMARY:s\r\n");
    input.push_str("BEGIN:VALARM\r\n");
    input.push_str("ACTION:DISPLAY\r\n");
    input.push_str("TRIGGER:-PT15M\r\n");
    input.push_str("DESCRIPTION:reminder\r\n");
    input.push_str("END:VALARM\r\n");
    input.push_str("END:VEVENT\r\n");
    input.push_str("END:VCALENDAR\r\n");
    let parsed = parse_calendar(&input).unwrap();
    assert_eq!(parsed.events.len(), 1);
    let event = &parsed.events[0];
    assert_eq!(event.unrecognized_components.len(), 1);
    let alarm = &event.unrecognized_components[0];
    assert_eq!(alarm.name, "VALARM");
    assert_eq!(alarm.properties.len(), 3);
    let names: Vec<_> = alarm.properties.iter().map(|p| p.name.as_str()).collect();
    assert_eq!(names, vec!["ACTION", "TRIGGER", "DESCRIPTION"]);
}

// ADR-001 Migration Step 3 — TRANSP typed field.

#[test]
fn mod_transp_field_parses_from_input() {
    let mut input = String::from("BEGIN:VCALENDAR\r\nVERSION:2.0\r\nPRODID:-//mh//EN\r\n");
    input.push_str("BEGIN:VEVENT\r\n");
    input.push_str("UID:e1\r\nDTSTAMP:20260101T000000Z\r\n");
    input.push_str("DTSTART;VALUE=DATE:20260429\r\nDTEND;VALUE=DATE:20260430\r\n");
    input.push_str("SUMMARY:s\r\n");
    input.push_str("TRANSP:OPAQUE\r\n");
    input.push_str("END:VEVENT\r\nEND:VCALENDAR\r\n");
    let parsed = parse_calendar(&input).unwrap();
    assert_eq!(parsed.events[0].transp, Some(Transp::Opaque));
}

#[test]
fn mod_transp_field_overrides_busystatus_derived_transp_on_output() {
    // If transp is explicitly set, the formatter must honor it even
    // when microsoft.busystatus would derive a different value.
    let mut event = make_event("transp-override", (2026, 4, 29), (2026, 4, 30), "s");
    event.microsoft = Some(MsExtensions {
        busystatus: Some(MsBusyStatus::Oof),
        unrecognized: vec![], // derives OPAQUE
    });
    event.transp = Some(Transp::Transparent); // typed override
    let cal = format_calendar(&vcal(vec![event]));
    assert!(cal.contains("TRANSP:TRANSPARENT\r\n"));
    assert!(cal.contains("X-MICROSOFT-CDO-BUSYSTATUS:OOF\r\n"));
}

#[test]
fn mod_transp_none_falls_back_to_microsoft_busystatus_derived_value() {
    let mut event = make_event("transp-fallback", (2026, 4, 29), (2026, 4, 30), "s");
    event.microsoft = Some(MsExtensions {
        busystatus: Some(MsBusyStatus::Oof),
        unrecognized: vec![], // derives OPAQUE
    });
    event.transp = None;
    let cal = format_calendar(&vcal(vec![event]));
    assert!(cal.contains("TRANSP:OPAQUE\r\n"));
}

#[test]
fn mod_no_microsoft_and_no_transp_omits_both_lines() {
    let event = make_event("transp-nothing", (2026, 4, 29), (2026, 4, 30), "s");
    let cal = format_calendar(&vcal(vec![event]));
    assert!(!cal.contains("TRANSP:"));
    assert!(!cal.contains("X-MICROSOFT-CDO-BUSYSTATUS:"));
}

#[test]
fn mod_transp_round_trip_preserves_typed_value() {
    let mut event = make_event("transp-rt", (2026, 4, 29), (2026, 4, 30), "s");
    event.transp = Some(Transp::Opaque);
    let cal = format_calendar(&vcal(vec![event.copy()]));
    let parsed = parse_calendar(&cal).unwrap();
    assert_eq!(parsed.events[0].transp, Some(Transp::Opaque));
}

// ADR-001 Migration Step 6 — per-vendor unrecognized fallback.

#[test]
fn x_microsoft_prefix_routes_to_microsoft_unrecognized_not_unknown() {
    let mut input = String::from("BEGIN:VCALENDAR\r\nVERSION:2.0\r\nPRODID:-//mh//EN\r\n");
    input.push_str("BEGIN:VEVENT\r\n");
    input.push_str("UID:e1\r\nDTSTAMP:20260101T000000Z\r\n");
    input.push_str("DTSTART;VALUE=DATE:20260429\r\nDTEND;VALUE=DATE:20260430\r\n");
    input.push_str("SUMMARY:s\r\n");
    input.push_str("X-MICROSOFT-CDO-ALLDAYEVENT:TRUE\r\n");
    input.push_str("X-MICROSOFT-IMPORTANCE:1\r\n");
    input.push_str("X-CUSTOM-COLOR:blue\r\n");
    input.push_str("END:VEVENT\r\nEND:VCALENDAR\r\n");
    let parsed = parse_calendar(&input).unwrap();
    let event = &parsed.events[0];

    // Microsoft prefix properties land in microsoft.unrecognized.
    let ms = event.microsoft.as_ref().unwrap();
    assert_eq!(ms.busystatus, None); // typed slot still empty
    assert_eq!(ms.unrecognized.len(), 2);
    let ms_names: Vec<_> = ms.unrecognized.iter().map(|p| p.name.as_str()).collect();
    assert_eq!(
        ms_names,
        vec!["X-MICROSOFT-CDO-ALLDAYEVENT", "X-MICROSOFT-IMPORTANCE"]
    );

    // Non-Microsoft X-* stays in VEvent.unknown.
    assert_eq!(event.unknown.len(), 1);
    assert_eq!(event.unknown[0].name, "X-CUSTOM-COLOR");
}

#[test]
fn x_microsoft_cdo_busystatus_still_promotes_to_typed_field_not_unrecognized() {
    let mut input = String::from("BEGIN:VCALENDAR\r\nVERSION:2.0\r\nPRODID:-//mh//EN\r\n");
    input.push_str("BEGIN:VEVENT\r\n");
    input.push_str("UID:e1\r\nDTSTAMP:20260101T000000Z\r\n");
    input.push_str("DTSTART;VALUE=DATE:20260429\r\nDTEND;VALUE=DATE:20260430\r\n");
    input.push_str("SUMMARY:s\r\n");
    input.push_str("X-MICROSOFT-CDO-BUSYSTATUS:OOF\r\n");
    input.push_str("END:VEVENT\r\nEND:VCALENDAR\r\n");
    let parsed = parse_calendar(&input).unwrap();
    let ms = parsed.events[0].microsoft.as_ref().unwrap();
    assert_eq!(ms.busystatus, Some(MsBusyStatus::Oof));
    assert!(ms.unrecognized.is_empty());
}

#[test]
fn microsoft_unrecognized_round_trips_through_format() {
    let mut event = make_event("rt-ms-unrec", (2026, 4, 29), (2026, 4, 30), "s");
    event.microsoft = Some(MsExtensions {
        busystatus: None,
        unrecognized: vec![RawProperty {
            name: "X-MICROSOFT-CDO-ALLDAYEVENT".to_string(),
            params: vec![],
            value: "TRUE".to_string(),
            source_index: 1,
        }],
    });
    let cal = format_calendar(&vcal(vec![event.copy()]));
    assert!(cal.contains("X-MICROSOFT-CDO-ALLDAYEVENT:TRUE\r\n"));
    let parsed = parse_calendar(&cal).unwrap();
    let ms = parsed.events[0].microsoft.as_ref().unwrap();
    assert_eq!(ms.unrecognized.len(), 1);
    assert_eq!(ms.unrecognized[0].name, "X-MICROSOFT-CDO-ALLDAYEVENT");
    assert_eq!(ms.unrecognized[0].value, "TRUE");
}

#[test]
fn source_index_is_monotonic_across_buckets() {
    // Input order A, MS, B should yield X-CUSTOM-A at index 1,
    // X-MICROSOFT-FOO at index 2, X-CUSTOM-B at index 3.
    let mut input = String::from("BEGIN:VCALENDAR\r\nVERSION:2.0\r\nPRODID:-//mh//EN\r\n");
    input.push_str("BEGIN:VEVENT\r\n");
    input.push_str("UID:e1\r\nDTSTAMP:20260101T000000Z\r\n");
    input.push_str("DTSTART;VALUE=DATE:20260429\r\nDTEND;VALUE=DATE:20260430\r\n");
    input.push_str("SUMMARY:s\r\n");
    input.push_str("X-CUSTOM-A:1\r\n");
    input.push_str("X-MICROSOFT-FOO:2\r\n");
    input.push_str("X-CUSTOM-B:3\r\n");
    input.push_str("END:VEVENT\r\nEND:VCALENDAR\r\n");
    let parsed = parse_calendar(&input).unwrap();
    let event = &parsed.events[0];
    assert_eq!(event.unknown[0].name, "X-CUSTOM-A");
    assert_eq!(event.unknown[0].source_index, 1);
    assert_eq!(event.unknown[1].name, "X-CUSTOM-B");
    assert_eq!(event.unknown[1].source_index, 3);
    let ms = event.microsoft.as_ref().unwrap();
    assert_eq!(ms.unrecognized[0].name, "X-MICROSOFT-FOO");
    assert_eq!(ms.unrecognized[0].source_index, 2);
}

#[test]
fn empty_microsoft_bundle_stays_none() {
    let mut input = String::from("BEGIN:VCALENDAR\r\nVERSION:2.0\r\nPRODID:-//mh//EN\r\n");
    input.push_str("BEGIN:VEVENT\r\n");
    input.push_str("UID:e1\r\nDTSTAMP:20260101T000000Z\r\n");
    input.push_str("DTSTART;VALUE=DATE:20260429\r\nDTEND;VALUE=DATE:20260430\r\n");
    input.push_str("SUMMARY:s\r\n");
    input.push_str("X-CUSTOM-A:1\r\n");
    input.push_str("END:VEVENT\r\nEND:VCALENDAR\r\n");
    let parsed = parse_calendar(&input).unwrap();
    // No X-MICROSOFT-* input means microsoft bundle is None entirely.
    assert!(parsed.events[0].microsoft.is_none());
}

// ADR-001 Migration Step 7 — google / icloud skeleton routing.

#[test]
fn x_google_prefix_routes_to_google_unrecognized() {
    let mut input = String::from("BEGIN:VCALENDAR\r\nVERSION:2.0\r\nPRODID:-//mh//EN\r\n");
    input.push_str("BEGIN:VEVENT\r\n");
    input.push_str("UID:e1\r\nDTSTAMP:20260101T000000Z\r\n");
    input.push_str("DTSTART;VALUE=DATE:20260429\r\nDTEND;VALUE=DATE:20260430\r\n");
    input.push_str("SUMMARY:s\r\n");
    input.push_str("X-GOOGLE-CONFERENCEPROPERTIES:foo\r\n");
    input.push_str("END:VEVENT\r\nEND:VCALENDAR\r\n");
    let parsed = parse_calendar(&input).unwrap();
    let g = parsed.events[0].google.as_ref().unwrap();
    assert_eq!(g.unrecognized.len(), 1);
    assert_eq!(g.unrecognized[0].name, "X-GOOGLE-CONFERENCEPROPERTIES");
    assert!(parsed.events[0].microsoft.is_none());
    assert!(parsed.events[0].icloud.is_none());
    assert!(parsed.events[0].unknown.is_empty());
}

#[test]
fn x_apple_and_x_calendarserver_prefixes_route_to_icloud_unrecognized() {
    let mut input = String::from("BEGIN:VCALENDAR\r\nVERSION:2.0\r\nPRODID:-//mh//EN\r\n");
    input.push_str("BEGIN:VEVENT\r\n");
    input.push_str("UID:e1\r\nDTSTAMP:20260101T000000Z\r\n");
    input.push_str("DTSTART;VALUE=DATE:20260429\r\nDTEND;VALUE=DATE:20260430\r\n");
    input.push_str("SUMMARY:s\r\n");
    input.push_str("X-APPLE-CALENDAR-COLOR:#FF0000\r\n");
    input.push_str("X-CALENDARSERVER-ACCESS:CONFIDENTIAL\r\n");
    input.push_str("END:VEVENT\r\nEND:VCALENDAR\r\n");
    let parsed = parse_calendar(&input).unwrap();
    let ic = parsed.events[0].icloud.as_ref().unwrap();
    assert_eq!(ic.unrecognized.len(), 2);
    let names: Vec<_> = ic.unrecognized.iter().map(|p| p.name.as_str()).collect();
    assert_eq!(
        names,
        vec!["X-APPLE-CALENDAR-COLOR", "X-CALENDARSERVER-ACCESS"]
    );
    assert!(parsed.events[0].google.is_none());
    assert!(parsed.events[0].unknown.is_empty());
}

#[test]
fn all_three_vendor_buckets_round_trip_together() {
    let mut input = String::from("BEGIN:VCALENDAR\r\nVERSION:2.0\r\nPRODID:-//mh//EN\r\n");
    input.push_str("BEGIN:VEVENT\r\n");
    input.push_str("UID:e1\r\nDTSTAMP:20260101T000000Z\r\n");
    input.push_str("DTSTART;VALUE=DATE:20260429\r\nDTEND;VALUE=DATE:20260430\r\n");
    input.push_str("SUMMARY:s\r\n");
    input.push_str("X-MICROSOFT-CDO-ALLDAYEVENT:TRUE\r\n");
    input.push_str("X-GOOGLE-X:1\r\n");
    input.push_str("X-APPLE-Y:2\r\n");
    input.push_str("X-CUSTOM-Z:3\r\n");
    input.push_str("END:VEVENT\r\nEND:VCALENDAR\r\n");
    let parsed = parse_calendar(&input).unwrap();
    let event = &parsed.events[0];
    assert_eq!(event.microsoft.as_ref().unwrap().unrecognized.len(), 1);
    assert_eq!(event.google.as_ref().unwrap().unrecognized.len(), 1);
    assert_eq!(event.icloud.as_ref().unwrap().unrecognized.len(), 1);
    assert_eq!(event.unknown.len(), 1);

    let cal = format_calendar(&vcal(vec![event.copy()]));
    let reparsed = parse_calendar(&cal).unwrap();
    assert_eq!(reparsed.events[0], *event);
}

#[test]
fn vendor_bundles_stay_none_when_no_matching_prefix_seen() {
    let event = make_event("rt-none", (2026, 4, 29), (2026, 4, 30), "s");
    let cal = format_calendar(&vcal(vec![event]));
    let parsed = parse_calendar(&cal).unwrap();
    assert!(parsed.events[0].microsoft.is_none());
    assert!(parsed.events[0].google.is_none());
    assert!(parsed.events[0].icloud.is_none());
}

// ADR-019 Step 0 — folding + BOM acceptance at the parse_calendar boundary.

#[test]
fn parse_calendar_accepts_leading_utf8_bom() {
    // Outlook etc. emit a UTF-8 BOM. parse_calendar must tolerate it.
    let mut input =
        String::from("\u{FEFF}BEGIN:VCALENDAR\r\nVERSION:2.0\r\nPRODID:-//mh//EN\r\n");
    input.push_str("BEGIN:VEVENT\r\n");
    input.push_str("UID:e1\r\nDTSTAMP:20260101T000000Z\r\n");
    input.push_str("DTSTART;VALUE=DATE:20260429\r\nDTEND;VALUE=DATE:20260430\r\n");
    input.push_str("SUMMARY:s\r\nEND:VEVENT\r\nEND:VCALENDAR\r\n");
    let parsed = parse_calendar(&input).unwrap();
    assert_eq!(parsed.version, "2.0");
    assert_eq!(parsed.events.len(), 1);
    assert_eq!(parsed.events[0].summary, "s");
}

#[test]
fn parse_calendar_reassembles_folded_summary() {
    // A long SUMMARY split across multiple physical lines per RFC 5545 §3.1.
    let mut input = String::from("BEGIN:VCALENDAR\r\nVERSION:2.0\r\nPRODID:-//mh//EN\r\n");
    input.push_str("BEGIN:VEVENT\r\n");
    input.push_str("UID:e1\r\nDTSTAMP:20260101T000000Z\r\n");
    input.push_str("DTSTART;VALUE=DATE:20260429\r\nDTEND;VALUE=DATE:20260430\r\n");
    input.push_str("SUMMARY:This is a very long event title that has been\r\n");
    input.push_str(" folded across multiple physical lines per RFC 5545\r\n");
    input.push_str(" section 3.1 line folding rules.\r\n");
    input.push_str("END:VEVENT\r\nEND:VCALENDAR\r\n");
    let parsed = parse_calendar(&input).unwrap();
    assert_eq!(
        parsed.events[0].summary,
        "This is a very long event title that has been\
         folded across multiple physical lines per RFC 5545\
         section 3.1 line folding rules."
    );
}

#[test]
fn parse_calendar_handles_tab_continuation_too() {
    let mut input = String::from("BEGIN:VCALENDAR\r\nVERSION:2.0\r\nPRODID:-//mh//EN\r\n");
    input.push_str("BEGIN:VEVENT\r\n");
    input.push_str("UID:e1\r\nDTSTAMP:20260101T000000Z\r\n");
    input.push_str("DTSTART;VALUE=DATE:20260429\r\nDTEND;VALUE=DATE:20260430\r\n");
    input.push_str("SUMMARY:long\r\n\tvalue\r\n");
    input.push_str("END:VEVENT\r\nEND:VCALENDAR\r\n");
    let parsed = parse_calendar(&input).unwrap();
    assert_eq!(parsed.events[0].summary, "longvalue");
}

#[test]
fn parse_calendar_accepts_lf_only_line_terminators() {
    // Some tools emit Unix line endings. The unfolder accepts both.
    let mut input = String::from("BEGIN:VCALENDAR\nVERSION:2.0\nPRODID:-//mh//EN\n");
    input.push_str("BEGIN:VEVENT\n");
    input.push_str("UID:e1\nDTSTAMP:20260101T000000Z\n");
    input.push_str("DTSTART;VALUE=DATE:20260429\nDTEND;VALUE=DATE:20260430\n");
    input.push_str("SUMMARY:s\nEND:VEVENT\nEND:VCALENDAR\n");
    let parsed = parse_calendar(&input).unwrap();
    assert_eq!(parsed.events.len(), 1);
    assert_eq!(parsed.events[0].summary, "s");
}

#[test]
fn parse_calendar_preserves_japanese_utf8_across_fold() {
    // Multi-byte UTF-8 split across a fold boundary must reassemble
    // correctly. The boundary lands between bytes, not between chars,
    // but since the folding-marker whitespace is single-byte ASCII
    // and we drop only that single byte, surrounding multi-byte
    // sequences survive intact.
    let mut input = String::from("BEGIN:VCALENDAR\r\nVERSION:2.0\r\nPRODID:-//mh//EN\r\n");
    input.push_str("BEGIN:VEVENT\r\n");
    input.push_str("UID:e1\r\nDTSTAMP:20260101T000000Z\r\n");
    input.push_str("DTSTART;VALUE=DATE:20260429\r\nDTEND;VALUE=DATE:20260430\r\n");
    input.push_str("SUMMARY:憲法\r\n 記念日\r\n");
    input.push_str("END:VEVENT\r\nEND:VCALENDAR\r\n");
    let parsed = parse_calendar(&input).unwrap();
    assert_eq!(parsed.events[0].summary, "憲法記念日");
}

// ADR-019 Step 1 — LogicalLine dispatch + parse error line numbers.

#[test]
fn invalid_dtstamp_error_message_carries_line_number() {
    // The bogus DTSTAMP is on logical line 6 (post-unfold, 1-based).
    let mut input = String::from("BEGIN:VCALENDAR\r\n"); // line 1
    input.push_str("VERSION:2.0\r\n"); // line 2
    input.push_str("PRODID:-//mh//EN\r\n"); // line 3
    input.push_str("BEGIN:VEVENT\r\n"); // line 4
    input.push_str("UID:e1\r\n"); // line 5
    input.push_str("DTSTAMP:NOT-A-DATE\r\n"); // line 6 — error here
    input.push_str("DTSTART;VALUE=DATE:20260429\r\n");
    input.push_str("DTEND;VALUE=DATE:20260430\r\n");
    input.push_str("SUMMARY:s\r\nEND:VEVENT\r\nEND:VCALENDAR\r\n");
    let err = parse_calendar(&input).unwrap_err();
    let msg = err.to_string();
    assert!(
        msg.contains("at line 6"),
        "expected 'at line 6' in error: {msg}"
    );
    assert!(
        msg.contains("DTSTAMP"),
        "expected DTSTAMP property name in error: {msg}"
    );
}

#[test]
fn missing_required_field_error_carries_end_vevent_line() {
    // VEVENT body has no DTSTAMP; the END:VEVENT line is where we
    // discover the missing required field.
    let mut input = String::from("BEGIN:VCALENDAR\r\n"); // line 1
    input.push_str("VERSION:2.0\r\n"); // line 2
    input.push_str("PRODID:-//mh//EN\r\n"); // line 3
    input.push_str("BEGIN:VEVENT\r\n"); // line 4
    input.push_str("UID:e1\r\n"); // line 5
    input.push_str("DTSTART;VALUE=DATE:20260429\r\n"); // line 6
    input.push_str("DTEND;VALUE=DATE:20260430\r\n"); // line 7
    input.push_str("SUMMARY:s\r\n"); // line 8
    input.push_str("END:VEVENT\r\n"); // line 9 — END:VEVENT
    input.push_str("END:VCALENDAR\r\n");
    let err = parse_calendar(&input).unwrap_err();
    let msg = err.to_string();
    assert!(msg.contains("at line 9"), "expected 'at line 9': {msg}");
    assert!(msg.contains("missing DTSTAMP"));
}

#[test]
fn dispatch_handles_property_with_extra_params() {
    // UID;X-FOO=bar:abc-123 must still set uid; the old strip_prefix
    // dispatcher would have missed this because of the inline param.
    let mut input = String::from("BEGIN:VCALENDAR\r\nVERSION:2.0\r\nPRODID:-//mh//EN\r\n");
    input.push_str("BEGIN:VEVENT\r\n");
    input.push_str("UID;X-FOO=bar:event-uid-with-param\r\n");
    input.push_str("DTSTAMP:20260101T000000Z\r\n");
    input.push_str("DTSTART;VALUE=DATE:20260429\r\nDTEND;VALUE=DATE:20260430\r\n");
    input.push_str("SUMMARY:s\r\nEND:VEVENT\r\nEND:VCALENDAR\r\n");
    let parsed = parse_calendar(&input).unwrap();
    assert_eq!(parsed.events[0].uid, "event-uid-with-param");
}

#[test]
fn dispatch_handles_value_date_param_in_any_position() {
    // DTSTART;TZID=Asia/Tokyo;VALUE=DATE:20260429 — VALUE=DATE is the
    // second param, not the first. With LogicalLine the param scan is
    // order-independent.
    let mut input = String::from("BEGIN:VCALENDAR\r\nVERSION:2.0\r\nPRODID:-//mh//EN\r\n");
    input.push_str("BEGIN:VEVENT\r\n");
    input.push_str("UID:e1\r\nDTSTAMP:20260101T000000Z\r\n");
    input.push_str("DTSTART;TZID=Asia/Tokyo;VALUE=DATE:20260429\r\n");
    input.push_str("DTEND;VALUE=DATE:20260430\r\n");
    input.push_str("SUMMARY:s\r\nEND:VEVENT\r\nEND:VCALENDAR\r\n");
    let parsed = parse_calendar(&input).unwrap();
    assert_eq!(
        parsed.events[0].dtstart,
        Date::from_ymd_opt(2026, 4, 29).unwrap()
    );
}

// ADR-019 Step 2 — TEXT escape decode/encode applied to typed fields.

#[test]
fn summary_with_comma_round_trips_via_escape() {
    let mut event = make_event("rt-esc-comma", (2026, 4, 29), (2026, 4, 30), "");
    event.summary = "Lunch, dinner, snack".to_string();
    let cal = format_calendar(&vcal(vec![event.copy()]));
    // Wire form has escaped commas.
    assert!(cal.contains(r"SUMMARY:Lunch\, dinner\, snack"));
    let parsed = parse_calendar(&cal).unwrap();
    // Parsed summary has them decoded back.
    assert_eq!(parsed.events[0].summary, "Lunch, dinner, snack");
}

#[test]
fn summary_with_semicolon_round_trips_via_escape() {
    let mut event = make_event("rt-esc-semi", (2026, 4, 29), (2026, 4, 30), "");
    event.summary = "Q1; Q2".to_string();
    let cal = format_calendar(&vcal(vec![event.copy()]));
    assert!(cal.contains(r"SUMMARY:Q1\; Q2"));
    let parsed = parse_calendar(&cal).unwrap();
    assert_eq!(parsed.events[0].summary, "Q1; Q2");
}

#[test]
fn summary_with_newline_round_trips_via_escape() {
    let mut event = make_event("rt-esc-nl", (2026, 4, 29), (2026, 4, 30), "");
    event.summary = "Line1\nLine2".to_string();
    let cal = format_calendar(&vcal(vec![event.copy()]));
    assert!(cal.contains(r"SUMMARY:Line1\nLine2"));
    let parsed = parse_calendar(&cal).unwrap();
    assert_eq!(parsed.events[0].summary, "Line1\nLine2");
}

#[test]
fn summary_with_backslash_round_trips_via_escape() {
    let mut event = make_event("rt-esc-bs", (2026, 4, 29), (2026, 4, 30), "");
    event.summary = r"path\to\file".to_string();
    let cal = format_calendar(&vcal(vec![event.copy()]));
    assert!(cal.contains(r"SUMMARY:path\\to\\file"));
    let parsed = parse_calendar(&cal).unwrap();
    assert_eq!(parsed.events[0].summary, r"path\to\file");
}

#[test]
fn categories_with_commas_in_items_round_trip() {
    // An item with a literal comma must survive split + decode.
    let mut event = make_event("rt-cat-comma", (2026, 4, 29), (2026, 4, 30), "x");
    event.categories = vec!["work, project A".to_string(), "personal".to_string()];
    let cal = format_calendar(&vcal(vec![event.copy()]));
    assert!(cal.contains(r"CATEGORIES:work\, project A,personal"));
    let parsed = parse_calendar(&cal).unwrap();
    assert_eq!(parsed.events[0].categories.len(), 2);
    assert_eq!(parsed.events[0].categories[0], "work, project A");
    assert_eq!(parsed.events[0].categories[1], "personal");
}

#[test]
fn raw_property_value_is_not_escape_decoded() {
    // RawProperty.value stays raw per ADR-018 — escape interpretation
    // only applies to typed TEXT fields. An X- property's value
    // preserves the backslash.
    let mut input = String::from("BEGIN:VCALENDAR\r\nVERSION:2.0\r\nPRODID:-//mh//EN\r\n");
    input.push_str("BEGIN:VEVENT\r\n");
    input.push_str("UID:e1\r\nDTSTAMP:20260101T000000Z\r\n");
    input.push_str("DTSTART;VALUE=DATE:20260429\r\nDTEND;VALUE=DATE:20260430\r\n");
    input.push_str("SUMMARY:s\r\n");
    input.push_str(r"X-CUSTOM-FOO:value with \,comma");
    input.push_str("\r\nEND:VEVENT\r\nEND:VCALENDAR\r\n");
    let parsed = parse_calendar(&input).unwrap();
    let rp = &parsed.events[0].unknown[0];
    assert_eq!(rp.name, "X-CUSTOM-FOO");
    assert_eq!(rp.value, r"value with \,comma"); // raw, not decoded
}

#[test]
fn mod_vtimezone_format_round_trip_yields_same_structure() {
    let cal = VCalendar {
        version: "2.0".to_string(),
        prodid: "-//mh//EN".to_string(),
        calscale: None,
        method: None,
        events: vec![],
        unrecognized_components: vec![RawComponent {
            name: "VTIMEZONE".to_string(),
            properties: vec![RawProperty {
                name: "TZID".to_string(),
                params: vec![],
                value: "Asia/Tokyo".to_string(),
                source_index: 1,
            }],
            sub_components: vec![],
        }],
    };
    let s = format_calendar(&cal);
    let reparsed = parse_calendar(&s).unwrap();
    assert_eq!(reparsed.unrecognized_components.len(), 1);
    assert_eq!(reparsed.unrecognized_components[0].name, "VTIMEZONE");
    assert_eq!(
        reparsed.unrecognized_components[0].properties[0].value,
        "Asia/Tokyo"
    );
}


#[test]
fn parser_parse_indices_single() {
    assert_eq!(parse_indices("3", 5).unwrap(), vec![3]);
}

#[test]
fn parser_parse_indices_comma() {
    assert_eq!(parse_indices("4,6", 10).unwrap(), vec![4, 6]);
}

#[test]
fn parser_parse_indices_range() {
    assert_eq!(parse_indices("6-10", 12).unwrap(), vec![6, 7, 8, 9, 10]);
}

#[test]
fn parser_parse_indices_mixed() {
    assert_eq!(parse_indices("1,3-5,8", 10).unwrap(), vec![1, 3, 4, 5, 8]);
}

#[test]
fn parser_parse_indices_dedup() {
    assert_eq!(parse_indices("3,3,3", 5).unwrap(), vec![3]);
}

#[test]
fn parser_parse_indices_out_of_range() {
    assert!(parse_indices("0", 5).is_err());
    assert!(parse_indices("6", 5).is_err());
}

#[test]
fn parser_parse_indices_invalid_range() {
    assert!(parse_indices("5-3", 10).is_err());
}

#[test]
fn parser_parse_raw_property_uppercases_name_and_keys() {
    let p = parse_raw_property("x-custom-foo;lang=en:hello", 1).unwrap();
    assert_eq!(p.name, "X-CUSTOM-FOO");
    assert_eq!(p.params, vec![("LANG".to_string(), "en".to_string())]);
    assert_eq!(p.value, "hello");
}

#[test]
fn parser_parse_raw_property_strips_quotes_from_param_value() {
    let p = parse_raw_property(r#"X-FOO;LANG="ja-JP":val"#, 1).unwrap();
    assert_eq!(p.params, vec![("LANG".to_string(), "ja-JP".to_string())]);
}

#[test]
fn parser_parse_raw_property_returns_none_when_no_colon() {
    assert!(parse_raw_property("X-NOCOLON", 1).is_none());
}

#[test]
fn parse_indices_error_messages_name_the_failure() {
    let msg = |s: &str, max: usize| parse_indices(s, max).unwrap_err().to_string();
    assert_eq!(msg("x", 5), "parse error: Invalid number: x");
    assert_eq!(msg("7", 5), "parse error: Index 7 out of range (1-5)");
    assert_eq!(msg("2-9", 5), "parse error: Index out of range (1-5)");
    assert_eq!(msg("4-2", 5), "parse error: Invalid range: 4-2");
    assert_eq!(msg("a-2", 5), "parse error: Invalid number: a");
    assert_eq!(msg("", 5), "parse error: Invalid number: ");
}

#[test]
fn parse_indices_accepts_spaces_and_plus_sign() {
    assert_eq!(parse_indices(" 2 , +3 - 4 ", 5).unwrap(), vec![2, 3, 4]);
    assert_eq!(parse_indices("5,1", 5).unwrap(), vec![1, 5]);
}

#[test]
fn missing_calendar_start_is_an_error() {
    let err = parse_calendar("VERSION:2.0\r\n").unwrap_err();
    assert_eq!(err.to_string(), "parse error: missing BEGIN:VCALENDAR");
}

#[test]
fn raw_component_block_upper_cases_its_name() {
    let lines: Vec<Vec<char>> = [
        "TZID:Asia/Tokyo",
        "BEGIN:STANDARD",
        "TZNAME:JST",
        "END:STANDARD",
        "END:VTIMEZONE",
        "END:VCALENDAR",
    ]
    .iter()
    .map(|l| l.chars().collect())
    .collect();
    let (comp, next) =
        icskit::parser::parse_raw_component_block("vtimezone".to_string(), &lines, 0);
    assert_eq!(next, 5);
    assert_eq!(
        comp,
        RawComponent {
            name: "VTIMEZONE".to_string(),
            properties: vec![RawProperty {
                name: "TZID".to_string(),
                params: vec![],
                value: "Asia/Tokyo".to_string(),
                source_index: 1,
            }],
            sub_components: vec![RawComponent {
                name: "STANDARD".to_string(),
                properties: vec![RawProperty {
                    name: "TZNAME".to_string(),
                    params: vec![],
                    value: "JST".to_string(),
                    source_index: 1,
                }],
                sub_components: vec![],
            }],
        }
    );
}

#[test]
fn bom_and_crlf_leave_the_parse_unchanged() {
    let lf = "BEGIN:VCALENDAR\nVERSION:2.0\nPRODID:-//x//y\nBEGIN:VEVENT\nUID:e1\nDTSTAMP:20260101T000000Z\nDTSTART;VALUE=DATE:20260429\nDTEND;VALUE=DATE:20260430\nSUMMARY:s\nEND:VEVENT\nEND:VCALENDAR\n";
    let crlf = lf.replace('\n', "\r\n");
    let with_bom = format!("\u{feff}{crlf}");
    let a = parse_calendar(lf).unwrap();
    let b = parse_calendar(&crlf).unwrap();
    let c = parse_calendar(&with_bom).unwrap();
    assert_eq!(a, b);
    assert_eq!(a, c);
    assert_eq!(a.events[0].summary, "s");
}
