use icskit::date::{Date, DateTime};
use icskit::event::VEvent;
use icskit::tui::keymap::Intent;
use icskit::tui::screens::{ListScreen, ScreenAction};

fn make_event(start: (i32, u32, u32), end: (i32, u32, u32), summary: &str) -> VEvent {
    VEvent {
        uid: format!("uid-{summary}"),
        dtstamp: DateTime {
            date: Date { year: 2026, month: 6, day: 2 },
            hour: 0,
            minute: 0,
            second: 0,
            nanosecond: 0,
        },
        dtstart: Date::from_ymd_opt(start.0, start.1, start.2).unwrap(),
        dtend: Date::from_ymd_opt(end.0, end.1, end.2).unwrap(),
        summary: summary.to_string(),
        transp: None,
        class: None,
        categories: vec![],
        microsoft: None,
        google: None,
        icloud: None,
        unknown: vec![],
        unrecognized_components: vec![],
    }
}

fn three_events() -> Vec<VEvent> {
    vec![
        make_event((2026, 1, 1), (2026, 1, 2), "a"),
        make_event((2026, 2, 11), (2026, 2, 12), "b"),
        make_event((2026, 5, 3), (2026, 5, 7), "c"),
    ]
}

fn distinct_summaries() -> Vec<VEvent> {
    vec![
        make_event((2026, 1, 1), (2026, 1, 2), "元日"),
        make_event((2026, 2, 11), (2026, 2, 12), "建国記念の日"),
        make_event((2026, 5, 3), (2026, 5, 7), "連休"),
        make_event((2026, 5, 10), (2026, 5, 11), "Travel"),
    ]
}

#[test]
fn from_events_formats_each_row_via_icscli_display() {
    let events = vec![
        make_event((2026, 1, 1), (2026, 1, 2), "元日"),
        make_event((2026, 12, 29), (2027, 1, 4), "年末年始"),
    ];
    let s = ListScreen::from_events(&events, "h.ics");
    assert_eq!(s.item_count(), 2);
    assert_eq!(s.selected(), Some(0));
}

#[test]
fn from_events_empty_has_no_selection() {
    let s = ListScreen::from_events(&[], "empty.ics");
    assert_eq!(s.item_count(), 0);
    assert_eq!(s.selected(), None);
}

#[test]
fn nav_intents_are_no_ops_on_empty_screen() {
    let mut s = ListScreen::from_events(&[], "empty.ics");
    assert_eq!(s.handle(Intent::NavDown), ScreenAction::Continue);
    assert_eq!(s.handle(Intent::NavTop), ScreenAction::Continue);
    assert_eq!(s.handle(Intent::NavBottom), ScreenAction::Continue);
    assert_eq!(s.selected(), None);
}

#[test]
fn placeholder_selects_first_item() {
    let s = ListScreen::placeholder("test.ics");
    assert_eq!(s.selected(), Some(0));
    assert_eq!(s.item_count(), 3);
}

#[test]
fn nav_down_advances_until_last() {
    let mut s = ListScreen::placeholder("test.ics");
    s.handle(Intent::NavDown);
    assert_eq!(s.selected(), Some(1));
    s.handle(Intent::NavDown);
    assert_eq!(s.selected(), Some(2));
    s.handle(Intent::NavDown);
    assert_eq!(s.selected(), Some(2));
}

#[test]
fn nav_up_stops_at_zero() {
    let mut s = ListScreen::placeholder("test.ics");
    s.handle(Intent::NavUp);
    assert_eq!(s.selected(), Some(0));
}

#[test]
fn list_nav_top_and_bottom_jump_to_ends() {
    let mut s = ListScreen::placeholder("test.ics");
    s.handle(Intent::NavBottom);
    assert_eq!(s.selected(), Some(s.item_count() - 1));
    s.handle(Intent::NavTop);
    assert_eq!(s.selected(), Some(0));
}

#[test]
fn quit_intent_returns_quit_action() {
    let mut s = ListScreen::placeholder("test.ics");
    assert_eq!(s.handle(Intent::Quit), ScreenAction::Quit);
}

#[test]
fn non_quit_intent_returns_continue() {
    let mut s = ListScreen::placeholder("test.ics");
    assert_eq!(s.handle(Intent::NavDown), ScreenAction::Continue);
    assert_eq!(s.handle(Intent::NavTop), ScreenAction::Continue);
}

#[test]
fn open_remove_enters_remove_mode_when_non_empty() {
    let mut s = ListScreen::from_events(&three_events(), "h.ics");
    assert!(!s.is_remove_mode());
    s.handle(Intent::OpenRemove);
    assert!(s.is_remove_mode());
}

#[test]
fn open_remove_is_noop_on_empty_screen() {
    let mut s = ListScreen::from_events(&[], "h.ics");
    s.handle(Intent::OpenRemove);
    assert!(!s.is_remove_mode());
}

#[test]
fn cancel_in_browse_is_noop() {
    let mut s = ListScreen::from_events(&three_events(), "h.ics");
    assert_eq!(s.handle(Intent::Cancel), ScreenAction::Continue);
}

#[test]
fn cancel_in_remove_returns_to_browse_and_clears_marks() {
    let mut s = ListScreen::from_events(&three_events(), "h.ics");
    s.handle(Intent::OpenRemove);
    s.handle(Intent::ToggleMark);
    assert_eq!(s.marked(), vec![0]);
    assert_eq!(s.handle(Intent::Cancel), ScreenAction::Continue);
    assert!(!s.is_remove_mode());
    assert_eq!(s.marked(), Vec::<usize>::new());
}

#[test]
fn toggle_mark_in_browse_is_noop() {
    let mut s = ListScreen::from_events(&three_events(), "h.ics");
    s.handle(Intent::ToggleMark);
    assert_eq!(s.marked(), Vec::<usize>::new());
}

#[test]
fn toggle_mark_in_remove_adds_then_removes() {
    let mut s = ListScreen::from_events(&three_events(), "h.ics");
    s.handle(Intent::OpenRemove);
    s.handle(Intent::ToggleMark);
    assert_eq!(s.marked(), vec![0]);
    s.handle(Intent::NavDown);
    s.handle(Intent::ToggleMark);
    assert_eq!(s.marked(), vec![0, 1]);
    s.handle(Intent::NavUp);
    s.handle(Intent::ToggleMark);
    assert_eq!(s.marked(), vec![1]);
}

#[test]
fn confirm_with_no_marks_is_noop() {
    let mut s = ListScreen::from_events(&three_events(), "h.ics");
    s.handle(Intent::OpenRemove);
    assert_eq!(s.handle(Intent::Confirm), ScreenAction::Continue);
    assert!(s.is_remove_mode());
}

#[test]
fn confirm_with_marks_returns_remove_by_indices_one_based() {
    let mut s = ListScreen::from_events(&three_events(), "h.ics");
    s.handle(Intent::OpenRemove);
    s.handle(Intent::ToggleMark);
    s.handle(Intent::NavDown);
    s.handle(Intent::NavDown);
    s.handle(Intent::ToggleMark);
    assert_eq!(
        s.handle(Intent::Confirm),
        ScreenAction::RemoveByIndices(vec![1, 3])
    );
}

#[test]
fn confirm_in_browse_mode_is_noop() {
    let mut s = ListScreen::from_events(&three_events(), "h.ics");
    assert_eq!(s.handle(Intent::Confirm), ScreenAction::Continue);
}

#[test]
fn transient_status_is_cleared_on_next_intent() {
    let mut s = ListScreen::from_events(&three_events(), "h.ics");
    s.set_transient_status("Removed 1 event(s).");
    assert_eq!(s.transient_status(), Some("Removed 1 event(s)."));
    s.handle(Intent::NavDown);
    assert_eq!(s.transient_status(), None);
}

#[test]
fn open_search_enters_search_mode_and_is_modal() {
    let mut s = ListScreen::from_events(&distinct_summaries(), "h.ics");
    assert!(!s.is_search_mode());
    s.handle(Intent::OpenSearch);
    assert!(s.is_search_mode());
}

#[test]
fn open_search_is_noop_in_remove_mode() {
    let mut s = ListScreen::from_events(&distinct_summaries(), "h.ics");
    s.handle(Intent::OpenRemove);
    s.handle(Intent::OpenSearch);
    assert!(s.is_remove_mode());
    assert!(!s.is_search_mode());
}

#[test]
fn typing_in_search_live_filters() {
    let mut s = ListScreen::from_events(&distinct_summaries(), "h.ics");
    s.handle(Intent::OpenSearch);
    for c in "trav".chars() {
        s.handle(Intent::TypeChar(c));
    }
    assert_eq!(s.filtered_indices().len(), 1);
}

#[test]
fn submit_commits_filter_and_returns_to_browse() {
    let mut s = ListScreen::from_events(&distinct_summaries(), "h.ics");
    s.handle(Intent::OpenSearch);
    for c in "連".chars() {
        s.handle(Intent::TypeChar(c));
    }
    s.handle(Intent::SubmitForm);
    assert!(!s.is_search_mode());
    assert_eq!(s.filter(), Some("連"));
    assert_eq!(s.filtered_indices().len(), 1);
}

#[test]
fn cancel_restores_previous_filter() {
    let mut s = ListScreen::from_events(&distinct_summaries(), "h.ics");
    s.handle(Intent::OpenSearch);
    s.handle(Intent::TypeChar('連'));
    s.handle(Intent::SubmitForm);
    assert_eq!(s.filter(), Some("連"));
    s.handle(Intent::OpenSearch);
    for c in "trav".chars() {
        s.handle(Intent::TypeChar(c));
    }
    s.handle(Intent::Cancel);
    assert!(!s.is_search_mode());
    assert_eq!(s.filter(), Some("連"));
}

#[test]
fn empty_submit_clears_filter() {
    let mut s = ListScreen::from_events(&distinct_summaries(), "h.ics");
    s.handle(Intent::OpenSearch);
    s.handle(Intent::TypeChar('連'));
    s.handle(Intent::SubmitForm);
    assert_eq!(s.filter(), Some("連"));
    s.handle(Intent::OpenSearch);
    s.handle(Intent::Backspace);
    s.handle(Intent::SubmitForm);
    assert!(s.filter().is_none());
}

#[test]
fn nav_in_filtered_browse_stays_within_filtered_count() {
    let mut s = ListScreen::from_events(&distinct_summaries(), "h.ics");
    s.handle(Intent::OpenSearch);
    s.handle(Intent::TypeChar('日'));
    s.handle(Intent::SubmitForm);
    assert_eq!(s.filtered_indices().len(), 2);
    s.handle(Intent::NavBottom);
    assert_eq!(s.selected(), Some(1));
    s.handle(Intent::NavDown);
    assert_eq!(s.selected(), Some(1));
}

#[test]
fn open_edit_reports_original_index_not_filtered() {
    let mut s = ListScreen::from_events(&distinct_summaries(), "h.ics");
    s.handle(Intent::OpenSearch);
    s.handle(Intent::TypeChar('連'));
    s.handle(Intent::SubmitForm);
    assert_eq!(s.filtered_indices(), vec![2]);
    match s.handle(Intent::OpenEdit) {
        ScreenAction::OpenEdit { event_index } => assert_eq!(event_index, 3),
        other => panic!("expected OpenEdit{{3}}, got {other:?}"),
    }
}

#[test]
fn toggle_mark_uses_original_index_under_filter() {
    let mut s = ListScreen::from_events(&distinct_summaries(), "h.ics");
    s.handle(Intent::OpenSearch);
    s.handle(Intent::TypeChar('日'));
    s.handle(Intent::SubmitForm);
    s.handle(Intent::OpenRemove);
    s.handle(Intent::ToggleMark);
    assert_eq!(s.marked(), vec![0]);
    s.handle(Intent::NavDown);
    s.handle(Intent::ToggleMark);
    assert_eq!(s.marked(), vec![0, 1]);
    match s.handle(Intent::Confirm) {
        ScreenAction::RemoveByIndices(idx) => assert_eq!(idx, vec![1, 2]),
        other => panic!("got {other:?}"),
    }
}

#[test]
fn empty_filter_match_clamps_selection_to_none() {
    let mut s = ListScreen::from_events(&distinct_summaries(), "h.ics");
    s.handle(Intent::OpenSearch);
    for c in "zzzzz".chars() {
        s.handle(Intent::TypeChar(c));
    }
    assert_eq!(s.filtered_indices().len(), 0);
    assert_eq!(s.selected(), None);
}

#[test]
fn search_is_case_insensitive_and_committed_lowercase() {
    let mut s = ListScreen::from_events(&distinct_summaries(), "h.ics");
    s.handle(Intent::OpenSearch);
    for c in " TRAVEL ".chars() {
        s.handle(Intent::TypeChar(c));
    }
    s.handle(Intent::SubmitForm);
    assert_eq!(s.filter(), Some("travel"));
    assert_eq!(s.filtered_indices(), vec![3]);
}

#[test]
fn rows_use_the_cli_line_format() {
    let events = vec![make_event((2026, 5, 3), (2026, 5, 7), "連休")];
    let mut s = ListScreen::from_events(&events, "h.ics");
    s.handle(Intent::OpenSearch);
    for c in "2026-05-03 to 2026-05-06".chars() {
        s.handle(Intent::TypeChar(c));
    }
    assert_eq!(s.filtered_indices(), vec![0]);
}

#[test]
fn toggling_twice_restores_marks() {
    let mut s = ListScreen::from_events(&three_events(), "h.ics");
    s.handle(Intent::OpenRemove);
    s.handle(Intent::NavDown);
    s.handle(Intent::ToggleMark);
    s.handle(Intent::ToggleMark);
    assert_eq!(s.marked(), Vec::<usize>::new());
}

#[test]
fn open_add_in_browse_and_help_anywhere() {
    let mut s = ListScreen::from_events(&three_events(), "h.ics");
    assert_eq!(
        s.handle(Intent::OpenAdd),
        ScreenAction::OpenAdd { start_hint: None, end_hint: None }
    );
    assert_eq!(s.handle(Intent::OpenHelp), ScreenAction::OpenHelp);
    s.handle(Intent::OpenRemove);
    assert_eq!(s.handle(Intent::OpenAdd), ScreenAction::Continue);
}
