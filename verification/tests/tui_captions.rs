use icskit::date::{Date, DateTime};
use icskit::event::VEvent;
use icskit::tui::keymap::Intent;
use icskit::tui::screens::captions::{
    binding_keys, form_error_line, form_field_label, form_status, grid_detail, grid_detail_title,
    grid_status, grid_title, help_lines, help_status, list_empty_hint, list_rows, list_status,
    list_title, picker_text, timeline_empty_hint, timeline_status, timeline_title, HelpLine,
};
use icskit::tui::screens::grid::GridScreen;
use icskit::tui::screens::timeline::TimelineScreen;
use icskit::tui::screens::{AddForm, HelpScreen, ListScreen};
use icskit::tui::text_input::TextInput;

fn day(y: i32, m: u32, d: u32) -> Date {
    Date::from_ymd_opt(y, m, d).unwrap()
}

fn make_event(start: (i32, u32, u32), end: (i32, u32, u32), summary: &str) -> VEvent {
    VEvent {
        uid: format!("uid-{summary}"),
        dtstamp: DateTime { date: day(2026, 6, 2), hour: 0, minute: 0, second: 0, nanosecond: 0 },
        dtstart: day(start.0, start.1, start.2),
        dtend: day(end.0, end.1, end.2),
        summary: summary.to_string(),
        transp: None,
        class: None,
        categories: vec![],
        microsoft: None,
        google: None,
        icloud: None,
        unknown: vec![],
        unrecognized_components: vec![],
    }
}

fn items(xs: &[&str]) -> Vec<String> {
    xs.iter().map(|s| s.to_string()).collect()
}

#[test]
fn list_title_and_status_in_browse() {
    let s = ListScreen::with_items(items(&["alpha", "beta"]), "cal.ics");
    assert_eq!(list_title(&s), "lazyics — events");
    assert_eq!(
        list_status(&s),
        "cal.ics  |  2 event(s)  |  / search  a add  e edit  d remove  ? help"
    );
    assert_eq!(list_empty_hint(&s), None);
    assert_eq!(
        list_rows(&s),
        vec![("alpha".to_string(), false), ("beta".to_string(), false)]
    );
}

#[test]
fn list_remove_mode_prefixes_rows_with_their_marks() {
    let mut s = ListScreen::with_items(items(&["alpha", "beta", "gamma"]), "cal.ics");
    s.handle(Intent::OpenRemove);
    s.handle(Intent::NavDown);
    s.handle(Intent::ToggleMark);
    assert_eq!(list_title(&s), "lazyics — REMOVE (1 marked)");
    assert_eq!(
        list_rows(&s),
        vec![
            ("[ ] alpha".to_string(), false),
            ("[x] beta".to_string(), true),
            ("[ ] gamma".to_string(), false),
        ]
    );
    assert_eq!(
        list_status(&s),
        "REMOVE  |  1 marked / 3 of 3  |  space toggle  Enter confirm  Esc cancel"
    );
}

#[test]
fn list_search_and_committed_filter_texts() {
    let mut s = ListScreen::with_items(items(&["Alpha", "beta", "alps"]), "cal.ics");
    s.handle(Intent::OpenSearch);
    s.handle(Intent::TypeChar('a'));
    s.handle(Intent::TypeChar('l'));
    assert_eq!(list_title(&s), "lazyics — events  (live: 2 of 3)");
    assert_eq!(list_status(&s), "Search  |  type to filter  Enter commit  Esc cancel");
    s.handle(Intent::SubmitForm);
    assert_eq!(list_title(&s), "lazyics — events  (2 of 3)");
    assert_eq!(
        list_status(&s),
        "cal.ics  |  [filter: al] 2 of 3  |  / search  Esc-via-/ clear"
    );
}

#[test]
fn list_empty_hints() {
    let empty = ListScreen::with_items(vec![], "cal.ics");
    assert_eq!(
        list_empty_hint(&empty),
        Some("No events.\n\nUse `icscli add --summary ... --start ...` to create one.".to_string())
    );
    let mut s = ListScreen::with_items(items(&["alpha"]), "cal.ics");
    s.handle(Intent::OpenSearch);
    s.handle(Intent::TypeChar('z'));
    assert_eq!(
        list_empty_hint(&s),
        Some("No events match the filter (1 total — Esc to clear).".to_string())
    );
}

#[test]
fn list_status_shows_the_transient_message_first() {
    let mut s = ListScreen::with_items(items(&["alpha"]), "cal.ics");
    s.set_transient_status("Removed 1 event(s).");
    assert_eq!(list_status(&s), "Removed 1 event(s).");
}

#[test]
fn timeline_texts() {
    let events = vec![make_event((2026, 5, 3), (2026, 5, 4), "a")];
    let s = TimelineScreen::from_events(&events, "cal.ics");
    assert_eq!(timeline_title(&s), "lazyics — timeline (month)");
    assert_eq!(timeline_empty_hint(&s), None);
    assert_eq!(
        timeline_status(&s),
        "cal.ics  |  1 event(s)  |  month unit  |  Tab/1/2/3 view  u unit  q quit"
    );
    let empty = TimelineScreen::from_events(&[], "cal.ics");
    assert_eq!(
        timeline_empty_hint(&empty),
        Some("No events.\n\nPress 1 for List, 2 Timeline, 3 Grid.".to_string())
    );
}

#[test]
fn grid_texts_in_month_and_week_view() {
    let events = vec![
        make_event((2026, 5, 14), (2026, 5, 16), "Trip"),
        make_event((2026, 5, 15), (2026, 5, 16), "Dinner"),
    ];
    let mut s = GridScreen::from_events_with_today(&events, "cal.ics", day(2026, 5, 15));
    assert_eq!(grid_title(&s), "lazyics — grid (2026-05)");
    assert_eq!(grid_detail_title(&s), "Events on 2026-05-15");
    assert_eq!(grid_detail(&s), "• Trip\n• Dinner");
    assert_eq!(
        grid_status(&s),
        "cal.ics  |  month unit  |  Tab/1/2/3 view  h/l day  j/k week  u unit  q quit"
    );
    s.handle(Intent::CycleGranularity);
    assert_eq!(grid_title(&s), "lazyics — grid (week of 2026-05-11)");
    s.handle(Intent::NavRight);
    s.handle(Intent::NavRight);
    assert_eq!(grid_detail(&s), "(no events)");
}

#[test]
fn form_texts() {
    let mut f = AddForm::new("cal.ics");
    assert_eq!(form_field_label(0), "Summary (required)");
    assert_eq!(form_field_label(1), "Start date YYYY-MM-DD (required)");
    assert_eq!(form_field_label(6), "Icon (optional)");
    assert_eq!(picker_text("free", true), "◀ free ▶");
    assert_eq!(picker_text("free", false), "  free  ");
    assert_eq!(form_error_line(&f), None);
    assert_eq!(
        form_status(&f),
        "cal.ics  |  Add event  |  Tab/Shift+Tab field  ←/→ cursor/cycle  Ctrl+S or Enter submit  Esc cancel"
    );
    f.handle(Intent::SubmitForm);
    let banner = form_error_line(&f).unwrap();
    assert!(banner.starts_with("⚠ "));
    assert_eq!(&banner["⚠ ".len()..], f.error().unwrap());
}

#[test]
fn help_texts() {
    let lines = help_lines();
    assert_eq!(lines.len(), 32);
    assert_eq!(lines[0], HelpLine::Header("Global"));
    assert_eq!(lines[1], HelpLine::Binding("q | Ctrl+C", "Quit"));
    assert_eq!(lines[4], HelpLine::Blank);
    assert_eq!(binding_keys("q | Ctrl+C"), format!("{:<22}", "q | Ctrl+C"));
    assert_eq!(binding_keys("q | Ctrl+C").chars().count(), 22);
    let h = HelpScreen::new("cal.ics");
    assert_eq!(help_status(&h), "? close help  q quit");
}

#[test]
fn text_input_splits_at_the_cursor() {
    let mut t = TextInput::new();
    for c in "héllo".chars() {
        t.insert_char(c);
    }
    t.move_left();
    t.move_left();
    assert_eq!(t.before_cursor(), "hél");
    assert_eq!(t.after_cursor(), "lo");
}
