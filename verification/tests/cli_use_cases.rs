use icskit::calendar::format_calendar;
use icskit::cli::error::MhError;
use icskit::cli::icons::read_icon;
use icskit::cli::use_cases::{
    add_event, apply_edit, apply_remove, can_add, can_edit, list_text, remove_renders, EditPatch,
};
use icskit::date::{first_date, Date};
use icskit::event::EventClass;
use icskit::parser::parse_calendar;
use icskit::profile::microsoft::MsBusyStatus;
use icskit::vcalendar::VCalendar;

fn ymd(y: i32, m: u32, d: u32) -> Date {
    Date::from_ymd_opt(y, m, d).unwrap()
}

/// A fresh calendar, as `init` writes it.
fn init() -> VCalendar {
    VCalendar::new("-//icscli//EN")
}

/// Save and load again.
fn reload(cal: &VCalendar) -> VCalendar {
    parse_calendar(&format_calendar(cal)).unwrap()
}

#[allow(clippy::too_many_arguments)]
fn add(
    cal: VCalendar,
    summary: &str,
    start: Date,
    end: Option<Date>,
    busystatus: MsBusyStatus,
    class: Option<EventClass>,
    categories: Vec<String>,
    icon: Option<String>,
) -> Result<VCalendar, MhError> {
    add_event(cal, summary.to_string(), start, end, busystatus, class, categories, icon)
        .map(|(c, _)| reload(&c))
}

fn add_free(cal: VCalendar, summary: &str, start: Date) -> VCalendar {
    add(cal, summary, start, None, MsBusyStatus::Free, None, vec![], None).unwrap()
}

fn add_free_with_end(cal: VCalendar, summary: &str, start: Date, end: Date) -> VCalendar {
    add(cal, summary, start, Some(end), MsBusyStatus::Free, None, vec![], None).unwrap()
}

#[test]
fn use_cases_init_creates_valid_ics() {
    let cal = reload(&init());
    assert_eq!(cal.prodid, "-//icscli//EN");
    assert_eq!(cal.version, "2.0");
    assert!(cal.events.is_empty());
}

#[test]
fn use_cases_add_one_event() {
    let cal = add_free(init(), "元日", ymd(2026, 1, 1));
    assert_eq!(cal.events.len(), 1);
    assert_eq!(cal.events[0].summary, "元日");
    assert!(!cal.events[0].uid.is_empty());
}

#[test]
fn use_cases_add_two_events_distinct_uids() {
    let cal = add_free(init(), "元日", ymd(2026, 1, 1));
    let cal = add_free(cal, "建国記念の日", ymd(2026, 2, 11));
    assert_eq!(cal.events.len(), 2);
    assert_ne!(cal.events[0].uid, cal.events[1].uid);
}

#[test]
fn use_cases_list_returns_numbered_lines() {
    let cal = add_free(init(), "元日", ymd(2026, 1, 1));
    let cal = add_free_with_end(cal, "年末年始", ymd(2026, 12, 29), ymd(2027, 1, 3));
    let output = list_text(&cal, &[], false);
    assert!(output.contains("1: 2026-01-01 : 元日"));
    assert!(output.contains("2: 2026-12-29 to 2027-01-03 : 年末年始"));
}

#[test]
fn use_cases_add_end_before_start_errors() {
    let result = add(
        init(),
        "invalid",
        ymd(2026, 3, 1),
        Some(ymd(2026, 2, 1)),
        MsBusyStatus::Free,
        None,
        vec![],
        None,
    );
    assert!(matches!(result, Err(MhError::InvalidInput(_))));
}

#[test]
fn use_cases_remove_by_summary() {
    let cal = add_free(init(), "元日", ymd(2026, 1, 1));
    let cal = add_free(cal, "建国記念の日", ymd(2026, 2, 11));
    let (cal, _) = apply_remove(&cal, Some("元日"), None, true).unwrap().unwrap();
    let output = list_text(&reload(&cal), &[], false);
    assert!(!output.contains("元日"));
    assert!(output.contains("建国記念の日"));
}

#[test]
fn use_cases_remove_by_index() {
    let cal = add_free(init(), "元日", ymd(2026, 1, 1));
    let cal = add_free(cal, "建国記念の日", ymd(2026, 2, 11));
    let (cal, _) = apply_remove(&cal, None, Some("1"), true).unwrap().unwrap();
    let output = list_text(&reload(&cal), &[], false);
    assert!(!output.contains("元日"));
    assert!(output.contains("建国記念の日"));
}

#[test]
fn use_cases_add_with_busystatus_and_class() {
    let cal = add(
        init(),
        "不在",
        ymd(2026, 8, 1),
        None,
        MsBusyStatus::Oof,
        Some(EventClass::Private),
        vec![],
        None,
    )
    .unwrap();
    let event = &cal.events[0];
    assert_eq!(
        event.microsoft.as_ref().and_then(|m| m.busystatus),
        Some(MsBusyStatus::Oof)
    );
    assert_eq!(event.class, Some(EventClass::Private));
}

#[test]
fn edit_replaces_summary() {
    let cal = add_free(init(), "元日", ymd(2026, 1, 1));
    let patch = EditPatch { summary: Some("New Year".to_string()), ..EditPatch::default() };
    let cal = reload(&apply_edit(cal, 1, patch).unwrap());
    assert_eq!(cal.events[0].summary, "New Year");
}

#[test]
fn edit_replaces_start_date() {
    let cal = add_free(init(), "元日", ymd(2026, 1, 1));
    let patch = EditPatch { start: Some(ymd(2027, 1, 1)), ..EditPatch::default() };
    let cal = reload(&apply_edit(cal, 1, patch).unwrap());
    assert_eq!(cal.events[0].dtstart, ymd(2027, 1, 1));
}

#[test]
fn edit_replaces_busystatus() {
    let cal = add_free(init(), "Travel", ymd(2026, 8, 1));
    let patch = EditPatch { busystatus: Some(MsBusyStatus::Oof), ..EditPatch::default() };
    let cal = reload(&apply_edit(cal, 1, patch).unwrap());
    assert_eq!(
        cal.events[0].microsoft.as_ref().and_then(|m| m.busystatus),
        Some(MsBusyStatus::Oof)
    );
}

#[test]
fn edit_clears_icon() {
    let cal = add(
        init(),
        "Travel",
        ymd(2026, 8, 1),
        None,
        MsBusyStatus::Free,
        None,
        vec![],
        Some("airplane".to_string()),
    )
    .unwrap();
    assert_eq!(read_icon(&cal.events[0]), Some("airplane"));
    let patch = EditPatch { clear_icon: true, ..EditPatch::default() };
    let cal = reload(&apply_edit(cal, 1, patch).unwrap());
    assert_eq!(read_icon(&cal.events[0]), None);
}

#[test]
fn edit_replaces_categories() {
    let cal = add(
        init(),
        "Mtg",
        ymd(2026, 8, 1),
        None,
        MsBusyStatus::Free,
        None,
        vec!["old".to_string()],
        None,
    )
    .unwrap();
    let patch = EditPatch {
        categories: Some(vec!["work".to_string(), "important".to_string()]),
        clear_categories: true,
        ..EditPatch::default()
    };
    let cal = reload(&apply_edit(cal, 1, patch).unwrap());
    assert_eq!(cal.events[0].categories, vec!["work", "important"]);
}

#[test]
fn edit_out_of_range_returns_not_found() {
    let cal = add_free(init(), "元日", ymd(2026, 1, 1));
    let patch = EditPatch { summary: Some("ignored".to_string()), ..EditPatch::default() };
    let result = apply_edit(cal, 99, patch);
    assert!(matches!(result, Err(MhError::NotFound(_))));
}

#[test]
fn edit_end_before_start_errors() {
    let cal = add_free(init(), "Trip", ymd(2026, 6, 1));
    let patch = EditPatch {
        start: Some(ymd(2026, 6, 10)),
        end: Some(ymd(2026, 6, 5)),
        ..EditPatch::default()
    };
    let result = apply_edit(cal, 1, patch);
    assert!(matches!(result, Err(MhError::InvalidInput(_))));
}

#[test]
fn split_keeps_events_matching_every_predicate() {
    let cal = add_free(init(), "a", ymd(2026, 1, 1));
    let cal = add_free_with_end(cal, "b", ymd(2026, 3, 30), ymd(2026, 4, 2));
    let cal = add_free(cal, "c", ymd(2026, 6, 1));
    let q1 = icskit::cli::use_cases::apply_split(&cal, Some(ymd(2026, 1, 1)), Some(ymd(2026, 3, 31)), &vec![])
        .unwrap();
    let names: Vec<_> = q1.events.iter().map(|e| e.summary.as_str()).collect();
    assert_eq!(names, vec!["a", "b"]);
    let uid_b = cal.events[1].uid.clone();
    let just_b = icskit::cli::use_cases::apply_split(&cal, Some(ymd(2026, 1, 1)), None, &vec![uid_b])
        .unwrap();
    assert_eq!(just_b.events.len(), 1);
    assert_eq!(just_b.events[0].summary, "b");
    assert_eq!(just_b.prodid, "-//icscli//EN");
    assert!(matches!(
        icskit::cli::use_cases::apply_split(&cal, None, None, &vec![]),
        Err(MhError::InvalidInput(_))
    ));
}

#[test]
fn guards_refuse_out_of_range_dates() {
    assert!(can_add(&ymd(2026, 1, 1), &None));
    assert!(!can_add(&ymd(262142, 12, 31), &None));
    assert!(can_add(&ymd(2026, 1, 2), &Some(ymd(2026, 1, 1))));
    let cal = add_free(init(), "a", ymd(2026, 1, 1));
    let far = EditPatch { start: Some(ymd(262142, 12, 31)), ..EditPatch::default() };
    assert!(!can_edit(&cal, 1, &far));
    assert!(can_edit(&cal, 5, &far));
    let ok = EditPatch { icon: Some("x".to_string()), ..EditPatch::default() };
    assert!(can_edit(&cal, 1, &ok));
}

#[test]
fn added_event_gets_a_version_4_uuid_and_a_valid_stamp() {
    let cal = add_free(init(), "x", ymd(2026, 1, 1));
    let uid = &cal.events[0].uid;
    let chars: Vec<char> = uid.chars().collect();
    assert_eq!(chars.len(), 36);
    for (i, c) in chars.iter().enumerate() {
        if i == 8 || i == 13 || i == 18 || i == 23 {
            assert_eq!(*c, '-');
        } else {
            assert!(c.is_ascii_hexdigit() && !c.is_ascii_uppercase());
        }
    }
    assert_eq!(chars[14], '4');
    assert!(matches!(chars[19], '8' | '9' | 'a' | 'b'));
    let stamp = cal.events[0].dtstamp;
    assert!(stamp.hour < 24 && stamp.minute < 60 && stamp.second < 60);
    assert!(Date::from_ymd_opt(stamp.date.year, stamp.date.month, stamp.date.day).is_some());
}

#[test]
fn inclusive_end_is_stored_one_day_later_and_shown_back() {
    let cal = add_free_with_end(init(), "break", ymd(2026, 12, 29), ymd(2026, 12, 31));
    assert_eq!(cal.events[0].dtend, ymd(2027, 1, 1));
    assert!(list_text(&cal, &[], false).contains("2026-12-29 to 2026-12-31 : break"));
    let single = add_free(init(), "day", ymd(2024, 2, 29));
    assert_eq!(single.events[0].dtend, ymd(2024, 3, 1));
    assert!(list_text(&single, &[], false).contains("2024-02-29 : day"));
}

#[test]
fn remove_renders_looks_only_at_the_events_it_reports() {
    let cal = add_free(add_free(init(), "a", ymd(2026, 1, 1)), "b", ymd(2026, 1, 2));
    let mut cal = cal;
    cal.events[0].dtend = first_date();
    assert!(!remove_renders(&cal, Some("a"), None));
    assert!(remove_renders(&cal, Some("b"), None));
    assert!(!remove_renders(&cal, None, Some("1")));
    assert!(!remove_renders(&cal, None, Some("1-2")));
    assert!(remove_renders(&cal, None, Some("2")));
    assert!(remove_renders(&cal, None, Some("7")));
    assert!(remove_renders(&cal, Some("a"), Some("1")));
    assert!(remove_renders(&cal, None, None));
    let (rest, desc) = apply_remove(&cal, Some("b"), None, false).unwrap().unwrap();
    assert_eq!(rest.events.len(), 1);
    assert_eq!(desc, "2026-01-02 : b");
}

#[test]
fn edit_with_end_before_start_needs_no_icon_number() {
    let make = || {
        let mut cal = add_free(init(), "trip", ymd(2026, 5, 10));
        cal.events[0].unknown.push(icskit::raw::RawProperty {
            name: "X-LAST".to_string(),
            params: vec![],
            value: "v".to_string(),
            source_index: u32::MAX,
        });
        cal
    };
    let cal = make();
    let backwards = EditPatch {
        end: Some(ymd(2026, 5, 1)),
        icon: Some("🏖".to_string()),
        ..EditPatch::default()
    };
    assert!(can_edit(&cal, 1, &backwards));
    assert!(matches!(apply_edit(make(), 1, backwards), Err(MhError::InvalidInput(_))));
    let forwards = EditPatch {
        end: Some(ymd(2026, 5, 12)),
        icon: Some("🏖".to_string()),
        ..EditPatch::default()
    };
    assert!(!can_edit(&cal, 1, &forwards));
}
