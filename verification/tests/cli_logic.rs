use icskit::cli::display::format_event_line;
use icskit::cli::error::MhError;
use icskit::cli::icons::{format_icons_list, read_icon, write_icon, ICON_PROPERTY};
use icskit::cli::input::parse_date;
use icskit::cli::presentation::{CliBusyStatus, CliEventClass, SortField};
use icskit::cli::use_cases::{
    add_needs_prompt, apply_add, apply_edit, apply_remove, end_from_answer, list_text,
    remove_by_answer, summary_from_answer, EditPatch, RunContext,
};
use icskit::date::{Date, DateTime};
use icskit::event::{EventClass, VEvent};
use icskit::profile::microsoft::MsBusyStatus;
use icskit::query::SortKey;
use icskit::vcalendar::VCalendar;

fn make_event(uid: &str, start: (i32, u32, u32), end: (i32, u32, u32), summary: &str) -> VEvent {
    VEvent {
        uid: uid.to_string(),
        dtstamp: DateTime {
            date: Date { year: 2026, month: 3, day: 27 },
            hour: 0,
            minute: 0,
            second: 0,
            nanosecond: 0,
        },
        dtstart: Date::from_ymd_opt(start.0, start.1, start.2).unwrap(),
        dtend: Date::from_ymd_opt(end.0, end.1, end.2).unwrap(),
        summary: summary.to_string(),
        transp: None,
        class: None,
        categories: vec![],
        microsoft: None,
        google: None,
        icloud: None,
        unknown: vec![],
        unrecognized_components: vec![],
    }
}

fn ymd(y: i32, m: u32, d: u32) -> Date {
    Date::from_ymd_opt(y, m, d).unwrap()
}

fn stamp() -> DateTime {
    DateTime { date: ymd(2026, 1, 1), hour: 12, minute: 0, second: 0, nanosecond: 0 }
}

#[test]
fn single_day() {
    let event = make_event("x", (2026, 1, 1), (2026, 1, 2), "元日");
    assert_eq!(format_event_line(&event), "2026-01-01 : 元日");
}

#[test]
fn multi_day() {
    let event = make_event("y", (2026, 12, 29), (2027, 1, 4), "年末年始");
    assert_eq!(format_event_line(&event), "2026-12-29 to 2027-01-03 : 年末年始");
}

#[test]
fn with_icon() {
    let mut event = make_event("x", (2026, 6, 15), (2026, 6, 16), "出張");
    write_icon(&mut event, "airplane".to_string());
    assert_eq!(format_event_line(&event), "2026-06-15 : 出張 [airplane]");
}

#[test]
fn icon_is_replaced_not_duplicated() {
    let mut event = make_event("x", (2026, 6, 15), (2026, 6, 16), "出張");
    write_icon(&mut event, "airplane".to_string());
    write_icon(&mut event, "star".to_string());
    assert_eq!(event.unknown.len(), 1);
    assert_eq!(event.unknown[0].name, ICON_PROPERTY);
    assert_eq!(event.unknown[0].source_index, 1);
    assert_eq!(read_icon(&event), Some("star"));
}

#[test]
fn icons_list_pads_names() {
    let text = format_icons_list();
    let lines: Vec<&str> = text.split('\n').collect();
    assert_eq!(lines.len(), 12);
    assert_eq!(lines[0], "airplane     出張・旅行");
    assert_eq!(lines[11], "music        音楽・ライブ");
}

#[test]
fn parse_date_accepts_both_forms() {
    assert_eq!(parse_date("2026-01-05").unwrap(), ymd(2026, 1, 5));
    assert_eq!(parse_date("2026/1/5").unwrap(), ymd(2026, 1, 5));
    assert_eq!(parse_date("2026/+02/28").unwrap(), ymd(2026, 2, 28));
    assert_eq!(
        parse_date("2026/2/30").unwrap_err(),
        "invalid date '2026/2/30' (expected YYYY-MM-DD or YYYY/M/D)"
    );
    assert!(parse_date("tomorrow").is_err());
}

#[test]
fn option_mappings() {
    assert_eq!(SortField::Summary.to_sort_key(), SortKey::Summary);
    assert_eq!(CliBusyStatus::Working.to_busystatus(), MsBusyStatus::WorkingElsewhere);
    assert_eq!(CliEventClass::Confidential.to_event_class(), EventClass::Confidential);
}

#[test]
fn error_display_texts() {
    assert_eq!(MhError::io("a.ics", "denied").to_string(), "I/O error on a.ics: denied");
    assert_eq!(MhError::already_exists("a.ics").to_string(), "file already exists: a.ics");
    assert_eq!(MhError::InvalidInput("x".to_string()).to_string(), "invalid input: x");
    assert_eq!(MhError::NotFound("y".to_string()).to_string(), "not found: y");
    assert_eq!(MhError::Conflict("z".to_string()).to_string(), "conflicting arguments: z");
}

#[test]
fn run_context_defaults_allow_prompts() {
    let ctx = RunContext::default();
    assert!(!ctx.quiet);
    assert!(ctx.allow_prompts);
}

#[test]
fn add_without_arguments_needs_prompts() {
    assert_eq!(add_needs_prompt(true, true, false).unwrap(), false);
    assert_eq!(add_needs_prompt(false, true, true).unwrap(), true);
    assert!(matches!(add_needs_prompt(true, false, false), Err(MhError::InvalidInput(_))));
    assert!(matches!(summary_from_answer("   \n"), Err(MhError::InvalidInput(_))));
    assert_eq!(summary_from_answer(" 元日 \n").unwrap(), "元日");
    assert_eq!(end_from_answer("\n").unwrap(), None);
    assert_eq!(end_from_answer("2026/1/3\n").unwrap(), Some(ymd(2026, 1, 3)));
}

#[test]
fn add_end_is_inclusive() {
    let cal = VCalendar::new("-//icscli//EN");
    let (cal, ev) = apply_add(
        cal,
        "u1".to_string(),
        stamp(),
        "年末年始".to_string(),
        ymd(2026, 12, 29),
        Some(ymd(2027, 1, 3)),
        MsBusyStatus::Oof,
        Some(EventClass::Private),
        vec!["休暇".to_string()],
        Some("vacation".to_string()),
    )
    .unwrap();
    assert_eq!(cal.events.len(), 1);
    assert_eq!(ev.dtend, ymd(2027, 1, 4));
    assert_eq!(cal.events[0], ev);
    assert_eq!(read_icon(&ev), Some("vacation"));
    assert_eq!(ev.microsoft.as_ref().unwrap().busystatus, Some(MsBusyStatus::Oof));
    assert_eq!(format_event_line(&ev), "2026-12-29 to 2027-01-03 : 年末年始 [vacation]");
}

#[test]
fn add_end_before_start_errors() {
    let cal = VCalendar::new("-//icscli//EN");
    let r = apply_add(
        cal,
        "u1".to_string(),
        stamp(),
        "x".to_string(),
        ymd(2026, 5, 10),
        Some(ymd(2026, 5, 9)),
        MsBusyStatus::Free,
        None,
        vec![],
        None,
    );
    match r {
        Err(MhError::InvalidInput(m)) => assert_eq!(m, "--end must not be before --start"),
        _ => panic!("expected InvalidInput"),
    }
}

#[test]
fn edit_moves_event_and_keeps_length() {
    let cal = VCalendar { events: vec![make_event("a", (2026, 5, 3), (2026, 5, 6), "連休")], ..VCalendar::new("-//x//EN") };
    let patch = EditPatch { start: Some(ymd(2026, 12, 30)), ..EditPatch::default() };
    let cal = apply_edit(cal, 1, patch).unwrap();
    assert_eq!(cal.events[0].dtstart, ymd(2026, 12, 30));
    assert_eq!(cal.events[0].dtend, ymd(2027, 1, 2));
}

#[test]
fn edit_rejects_bad_index_and_end_before_start() {
    let cal = VCalendar { events: vec![make_event("a", (2026, 5, 3), (2026, 5, 6), "連休")], ..VCalendar::new("-//x//EN") };
    match apply_edit(cal.copy(), 2, EditPatch::default()) {
        Err(MhError::NotFound(m)) => assert_eq!(m, "Index 2 out of range (1-1)"),
        _ => panic!("expected NotFound"),
    }
    let patch = EditPatch { end: Some(ymd(2026, 5, 1)), ..EditPatch::default() };
    assert!(matches!(apply_edit(cal, 1, patch), Err(MhError::InvalidInput(_))));
}

#[test]
fn edit_replaces_fields_and_clears_icon() {
    let mut ev = make_event("a", (2026, 5, 3), (2026, 5, 4), "old");
    write_icon(&mut ev, "star".to_string());
    ev.categories = vec!["a".to_string()];
    let cal = VCalendar { events: vec![ev], ..VCalendar::new("-//x//EN") };
    let patch = EditPatch {
        summary: Some("new".to_string()),
        end: Some(ymd(2026, 5, 5)),
        busystatus: Some(MsBusyStatus::Busy),
        class: Some(EventClass::Public),
        clear_categories: true,
        clear_icon: true,
        ..EditPatch::default()
    };
    let cal = apply_edit(cal, 1, patch).unwrap();
    let e = &cal.events[0];
    assert_eq!(e.summary, "new");
    assert_eq!(e.dtend, ymd(2026, 5, 6));
    assert_eq!(e.class, Some(EventClass::Public));
    assert!(e.categories.is_empty());
    assert_eq!(read_icon(e), None);
    assert_eq!(e.microsoft.as_ref().unwrap().busystatus, Some(MsBusyStatus::Busy));
}

#[test]
fn list_returns_numbered_lines() {
    let cal = VCalendar {
        events: vec![
            make_event("b", (2026, 2, 11), (2026, 2, 12), "建国記念の日"),
            make_event("a", (2026, 1, 1), (2026, 1, 2), "元日"),
        ],
        ..VCalendar::new("-//x//EN")
    };
    assert_eq!(list_text(&cal, &[], false), "1: 2026-02-11 : 建国記念の日\n2: 2026-01-01 : 元日");
    assert_eq!(list_text(&cal, &[SortKey::Start], false), "1: 2026-01-01 : 元日\n2: 2026-02-11 : 建国記念の日");
    assert_eq!(list_text(&VCalendar::new("-//x//EN"), &[], false), "");
}

#[test]
fn remove_decisions() {
    let cal = VCalendar {
        events: vec![
            make_event("a", (2026, 1, 1), (2026, 1, 2), "A"),
            make_event("b", (2026, 2, 1), (2026, 2, 2), "B"),
            make_event("c", (2026, 3, 1), (2026, 3, 2), "A"),
        ],
        ..VCalendar::new("-//x//EN")
    };
    assert!(matches!(apply_remove(&cal, Some("A"), Some("1"), true), Err(MhError::Conflict(_))));
    let (c, desc) = apply_remove(&cal, Some("A"), None, true).unwrap().unwrap();
    assert_eq!(c.events.len(), 1);
    assert_eq!(desc, "2026-01-01 : A, 2026-03-01 : A");
    let (c, desc) = apply_remove(&cal, None, Some("3,1"), true).unwrap().unwrap();
    assert_eq!(c.events.len(), 1);
    assert_eq!(c.events[0].uid, "b");
    assert_eq!(desc, "2026-01-01 : A, 2026-03-01 : A");
    assert!(matches!(apply_remove(&cal, None, Some("9"), true), Err(MhError::Parse(_))));
    assert!(matches!(apply_remove(&cal, Some("Z"), None, true), Err(MhError::NotFound(_))));
    assert!(matches!(apply_remove(&cal, None, None, false), Err(MhError::InvalidInput(_))));
    assert!(apply_remove(&cal, None, None, true).unwrap().is_none());
    assert!(matches!(
        apply_remove(&VCalendar::new("-//x//EN"), None, None, true),
        Err(MhError::NotFound(_))
    ));
    assert!(remove_by_answer(&cal, " q \n").unwrap().is_none());
    assert!(remove_by_answer(&cal, "\n").unwrap().is_none());
    let (c, _) = remove_by_answer(&cal, "2\n").unwrap().unwrap();
    assert_eq!(c.events.len(), 2);
}

#[test]
fn format_event_line_single_day() {
    let event = make_event("x", (2026, 1, 1), (2026, 1, 2), "元日");
    assert_eq!(format_event_line(&event), "2026-01-01 : 元日");
}

#[test]
fn format_event_line_multi_day() {
    let event = make_event("y", (2026, 12, 29), (2027, 1, 4), "年末年始");
    assert_eq!(
        format_event_line(&event),
        "2026-12-29 to 2027-01-03 : 年末年始"
    );
}

#[test]
fn format_event_line_with_icon() {
    let mut event = make_event("x", (2026, 6, 15), (2026, 6, 16), "出張");
    write_icon(&mut event, "airplane".to_string());
    assert_eq!(format_event_line(&event), "2026-06-15 : 出張 [airplane]");
}
