use icskit::date::{Date, DateTime};
use icskit::event::VEvent;
use icskit::tui::keymap::Intent;
use icskit::tui::screens::timeline::{all_displayable, Granularity, Row, TimelineScreen};
use icskit::tui::screens::ScreenAction;

fn make_event(start: (i32, u32, u32), end: (i32, u32, u32), summary: &str) -> VEvent {
    VEvent {
        uid: format!("uid-{summary}"),
        dtstamp: DateTime {
            date: Date { year: 2026, month: 6, day: 3 },
            hour: 0,
            minute: 0,
            second: 0,
            nanosecond: 0,
        },
        dtstart: Date::from_ymd_opt(start.0, start.1, start.2).unwrap(),
        dtend: Date::from_ymd_opt(end.0, end.1, end.2).unwrap(),
        summary: summary.to_string(),
        transp: None,
        class: None,
        categories: vec![],
        microsoft: None,
        google: None,
        icloud: None,
        unknown: vec![],
        unrecognized_components: vec![],
    }
}

fn three_events_in_three_months() -> Vec<VEvent> {
    vec![
        make_event((2026, 1, 1), (2026, 1, 2), "元日"),
        make_event((2026, 2, 11), (2026, 2, 12), "建国"),
        make_event((2026, 5, 3), (2026, 5, 7), "連休"),
    ]
}

fn row_texts(s: &TimelineScreen) -> Vec<String> {
    s.rows()
        .iter()
        .map(|r| match r {
            Row::Header(h) => format!("# {h}"),
            Row::Event { text, .. } => text.clone(),
        })
        .collect()
}

#[test]
fn empty_events_yields_no_selection() {
    let s = TimelineScreen::from_events(&[], "h.ics");
    assert_eq!(s.event_count(), 0);
    assert_eq!(s.selected_event_index(), None);
}

#[test]
fn from_events_starts_on_first_event() {
    let s = TimelineScreen::from_events(&three_events_in_three_months(), "h.ics");
    assert_eq!(s.event_count(), 3);
    assert_eq!(s.selected_event_index(), Some(0));
    assert_eq!(s.granularity(), Granularity::Month);
}

#[test]
fn nav_down_advances_across_groups() {
    let mut s = TimelineScreen::from_events(&three_events_in_three_months(), "h.ics");
    s.handle(Intent::NavDown);
    assert_eq!(s.selected_event_index(), Some(1));
    s.handle(Intent::NavDown);
    assert_eq!(s.selected_event_index(), Some(2));
    s.handle(Intent::NavDown);
    assert_eq!(s.selected_event_index(), Some(2));
}

#[test]
fn timeline_nav_top_and_bottom_jump_to_ends() {
    let mut s = TimelineScreen::from_events(&three_events_in_three_months(), "h.ics");
    s.handle(Intent::NavBottom);
    assert_eq!(s.selected_event_index(), Some(2));
    s.handle(Intent::NavTop);
    assert_eq!(s.selected_event_index(), Some(0));
}

#[test]
fn cycle_granularity_toggles_month_and_week() {
    let mut s = TimelineScreen::from_events(&three_events_in_three_months(), "h.ics");
    assert_eq!(s.granularity(), Granularity::Month);
    s.handle(Intent::CycleGranularity);
    assert_eq!(s.granularity(), Granularity::Week);
    s.handle(Intent::CycleGranularity);
    assert_eq!(s.granularity(), Granularity::Month);
}

#[test]
fn cycle_granularity_preserves_selection_by_uid() {
    let mut s = TimelineScreen::from_events(&three_events_in_three_months(), "h.ics");
    s.handle(Intent::NavDown);
    assert_eq!(s.selected_event_index(), Some(1));
    s.handle(Intent::CycleGranularity);
    assert_eq!(s.selected_event_index(), Some(1));
}

#[test]
fn quit_intent_returns_quit_cancel_is_noop() {
    let mut s = TimelineScreen::from_events(&three_events_in_three_months(), "h.ics");
    assert_eq!(s.handle(Intent::Quit), ScreenAction::Quit);
    assert_eq!(s.handle(Intent::Cancel), ScreenAction::Continue);
}

#[test]
fn timeline_list_specific_intents_are_no_ops() {
    let mut s = TimelineScreen::from_events(&three_events_in_three_months(), "h.ics");
    assert_eq!(s.handle(Intent::OpenRemove), ScreenAction::Continue);
    assert_eq!(s.handle(Intent::ToggleMark), ScreenAction::Continue);
    assert_eq!(s.handle(Intent::Confirm), ScreenAction::Continue);
    assert_eq!(s.handle(Intent::NavLeft), ScreenAction::Continue);
    assert_eq!(s.handle(Intent::NavRight), ScreenAction::Continue);
}

#[test]
fn events_in_same_month_share_one_header() {
    let events = vec![
        make_event((2026, 1, 1), (2026, 1, 2), "a"),
        make_event((2026, 1, 15), (2026, 1, 16), "b"),
        make_event((2026, 2, 1), (2026, 2, 2), "c"),
    ];
    let s = TimelineScreen::from_events(&events, "h.ics");
    let header_count = s
        .rows()
        .iter()
        .filter(|r| matches!(r, Row::Header(_)))
        .count();
    assert_eq!(header_count, 2);
}

#[test]
fn rows_are_sorted_and_labelled() {
    let events = vec![
        make_event((2026, 5, 3), (2026, 5, 7), "連休"),
        make_event((2026, 1, 1), (2026, 1, 2), "元日"),
    ];
    let s = TimelineScreen::from_events(&events, "h.ics");
    assert_eq!(
        row_texts(&s),
        vec![
            "# 2026-01  January 2026".to_string(),
            "  01-01  元日".to_string(),
            "# 2026-05  May 2026".to_string(),
            "  05-03 ─ 05-06  連休".to_string(),
        ]
    );
    assert_eq!(s.selected_row(), Some(1));
}

#[test]
fn week_grouping_labels_the_monday() {
    let events = vec![
        make_event((2026, 5, 15), (2026, 5, 16), "a"),
        make_event((2026, 5, 17), (2026, 5, 18), "b"),
        make_event((2026, 5, 18), (2026, 5, 19), "c"),
    ];
    let mut s = TimelineScreen::from_events(&events, "h.ics");
    assert!(s.can_handle(Intent::CycleGranularity));
    s.handle(Intent::CycleGranularity);
    assert_eq!(
        row_texts(&s),
        vec![
            "# Week of 2026-05-11".to_string(),
            "  05-15  a".to_string(),
            "  05-17  b".to_string(),
            "# Week of 2026-05-18".to_string(),
            "  05-18  c".to_string(),
        ]
    );
}

#[test]
fn events_with_equal_start_keep_their_order_by_end() {
    let events = vec![
        make_event((2026, 1, 1), (2026, 1, 5), "long"),
        make_event((2026, 1, 1), (2026, 1, 2), "short"),
    ];
    let s = TimelineScreen::from_events(&events, "h.ics");
    let texts = row_texts(&s);
    assert_eq!(texts[1], "  01-01  short");
    assert_eq!(texts[2], "  01-01 ─ 01-04  long");
}

#[test]
fn displayable_checks_dates() {
    assert!(all_displayable(&three_events_in_three_months()));
    let mut bad = make_event((2026, 1, 1), (2026, 1, 2), "x");
    bad.dtstart = Date { year: 2026, month: 2, day: 30 };
    assert!(!all_displayable(&[bad]));
}
