use icskit::date::{Date, DateTime};
use icskit::event::VEvent;
use icskit::tui::args::{parse_args, Launch, LaunchArgs, DEFAULT_FILE};
use icskit::tui::error::LazyicsError;
use icskit::tui::keymap::Intent;
use icskit::tui::screens::timeline::TimelineScreen;
use icskit::tui::screens::{AddForm, HelpScreen, ListScreen, ScreenAction, ViewKind};
use icskit::cli::use_cases::EditPatch;
use icskit::tui::session::{
    added_status, change_name, change_status, edited_status, failed_status, join_indices,
    remember_view, removed_status, route_intent, step_after, Change, Routing, Screen, Step,
};

fn args(v: &[&str]) -> Vec<String> {
    v.iter().map(|s| s.to_string()).collect()
}

fn run_args(v: &[&str]) -> LaunchArgs {
    match parse_args(&args(v)).unwrap() {
        Launch::Run(a) => a,
        _ => panic!("expected arguments to run with"),
    }
}

#[test]
fn parse_args_defaults_when_empty() {
    let a = run_args(&[]);
    assert_eq!(a.file, DEFAULT_FILE);
    assert!(a.log.is_none());
}

#[test]
fn parse_args_reads_file_flag() {
    let a = run_args(&["--file", "holidays.ics"]);
    assert_eq!(a.file, "holidays.ics");
}

#[test]
fn parse_args_short_file_flag() {
    let a = run_args(&["-f", "h.ics"]);
    assert_eq!(a.file, "h.ics");
}

#[test]
fn parse_args_reads_log_flag() {
    let a = run_args(&["--log", "/tmp/lazyics.log"]);
    assert_eq!(a.log, Some("/tmp/lazyics.log".to_string()));
}

#[test]
fn parse_args_combined_flags() {
    let a = run_args(&["--file", "h.ics", "--log", "h.log"]);
    assert_eq!(a.file, "h.ics");
    assert_eq!(a.log, Some("h.log".to_string()));
}

#[test]
fn parse_args_missing_value_errors() {
    let err = parse_args(&args(&["--file"])).err().unwrap();
    assert!(matches!(err, LazyicsError::InvalidArgs(_)));
}

#[test]
fn parse_args_unknown_flag_errors() {
    let err = parse_args(&args(&["--nope"])).err().unwrap();
    assert!(matches!(err, LazyicsError::InvalidArgs(_)));
}

#[test]
fn parse_args_messages_and_early_exits() {
    match parse_args(&args(&["-f"])) {
        Err(LazyicsError::InvalidArgs(m)) => assert_eq!(m, "-f requires a value"),
        _ => panic!(),
    }
    match parse_args(&args(&["--log"])) {
        Err(LazyicsError::InvalidArgs(m)) => assert_eq!(m, "--log requires a path"),
        _ => panic!(),
    }
    match parse_args(&args(&["--nope"])) {
        Err(LazyicsError::InvalidArgs(m)) => assert_eq!(m, "unknown argument: --nope"),
        _ => panic!(),
    }
    assert!(matches!(parse_args(&args(&["-h", "--nope"])), Ok(Launch::Help)));
    assert!(matches!(parse_args(&args(&["--version"])), Ok(Launch::Version)));
    assert_eq!(run_args(&["-f", "a.ics", "-f", "b.ics"]).file, "b.ics");
}

#[test]
fn tab_and_number_keys_switch_views_only_on_views() {
    assert_eq!(
        route_intent(Some(ViewKind::List), Intent::CycleView),
        Routing::SwitchTo(ViewKind::Timeline)
    );
    assert_eq!(
        route_intent(Some(ViewKind::Grid), Intent::CycleView),
        Routing::SwitchTo(ViewKind::List)
    );
    assert_eq!(
        route_intent(Some(ViewKind::List), Intent::SwitchView(ViewKind::Grid)),
        Routing::SwitchTo(ViewKind::Grid)
    );
    assert_eq!(
        route_intent(Some(ViewKind::Grid), Intent::SwitchView(ViewKind::Grid)),
        Routing::Ignore
    );
    assert_eq!(route_intent(None, Intent::CycleView), Routing::Deliver);
    assert_eq!(route_intent(Some(ViewKind::List), Intent::NavDown), Routing::Deliver);
}

#[test]
fn overlays_remember_the_view_they_were_opened_from() {
    let open = ScreenAction::OpenHelp;
    assert_eq!(remember_view(ViewKind::List, Some(ViewKind::Grid), &open), ViewKind::Grid);
    assert_eq!(remember_view(ViewKind::List, None, &open), ViewKind::List);
    assert_eq!(
        remember_view(ViewKind::Timeline, Some(ViewKind::Grid), &ScreenAction::Continue),
        ViewKind::Timeline
    );
    let add = ScreenAction::OpenAdd { start_hint: None, end_hint: None };
    assert_eq!(remember_view(ViewKind::List, Some(ViewKind::Timeline), &add), ViewKind::Timeline);
}

#[test]
fn status_messages() {
    assert_eq!(removed_status(2), "Removed 2 event(s).");
    assert_eq!(
        added_status("元日", &Date::from_ymd_opt(2026, 1, 1).unwrap()),
        "Added: 元日 on 2026-01-01"
    );
    assert_eq!(edited_status(Some("Trip"), 3), "Edited: Trip");
    assert_eq!(edited_status(None, 3), "Edited: event #3");
    assert_eq!(failed_status("Remove", "boom"), "Remove failed: boom");
    assert_eq!(join_indices(&vec![1, 3, 10]), "1,3,10");
    assert_eq!(join_indices(&vec![]), "");
}

fn one_event() -> VEvent {
    VEvent {
        uid: "u1".to_string(),
        dtstamp: DateTime {
            date: Date { year: 2026, month: 1, day: 1 },
            hour: 0,
            minute: 0,
            second: 0,
            nanosecond: 0,
        },
        dtstart: Date::from_ymd_opt(2026, 1, 1).unwrap(),
        dtend: Date::from_ymd_opt(2026, 1, 2).unwrap(),
        summary: "元日".to_string(),
        transp: None,
        class: None,
        categories: vec![],
        microsoft: None,
        google: None,
        icloud: None,
        unknown: vec![],
        unrecognized_components: vec![],
    }
}

#[test]
fn screen_dispatch_and_kinds() {
    let mut list = Screen::List(ListScreen::from_events(&[one_event()], "h.ics"));
    assert_eq!(list.kind(), Some(ViewKind::List));
    assert!(!list.is_modal());
    assert!(list.can_handle(Intent::OpenSearch));
    list.handle(Intent::OpenSearch);
    assert!(list.is_modal());
    list.set_transient_status("hi");
    assert_eq!(list.file_label(), "h.ics");

    let mut timeline = Screen::Timeline(TimelineScreen::from_events(&[one_event()], "h.ics"));
    assert_eq!(timeline.kind(), Some(ViewKind::Timeline));
    assert_eq!(timeline.handle(Intent::Quit), ScreenAction::Quit);

    let mut form = Screen::Form(AddForm::new("h.ics"));
    assert_eq!(form.kind(), None);
    assert!(form.is_modal());
    assert_eq!(form.handle(Intent::Cancel), ScreenAction::DismissForm);

    let mut help = Screen::Help(HelpScreen::new("h.ics"));
    assert_eq!(help.kind(), None);
    assert!(!help.is_modal());
    assert_eq!(help.handle(Intent::OpenHelp), ScreenAction::DismissHelp);
}

#[test]
fn removal_redraws_the_view_on_display_and_reports_the_count() {
    let step = step_after(Some(ViewKind::Grid), ViewKind::List, ScreenAction::RemoveByIndices(vec![1, 3]));
    assert_eq!(
        step,
        Step::Apply { change: Change::Remove(vec![1, 3]), then: ViewKind::Grid }
    );
    if let Step::Apply { change, .. } = step {
        assert_eq!(change_status(&change), "Removed 2 event(s).");
        assert_eq!(change_name(&change), "Remove");
    }
}

#[test]
fn dismissing_an_overlay_returns_to_the_remembered_view() {
    assert_eq!(
        step_after(None, ViewKind::Timeline, ScreenAction::DismissForm),
        Step::Show(ViewKind::Timeline)
    );
    assert_eq!(
        step_after(None, ViewKind::Grid, ScreenAction::DismissHelp),
        Step::Show(ViewKind::Grid)
    );
    assert_eq!(step_after(Some(ViewKind::List), ViewKind::List, ScreenAction::Quit), Step::Quit);
    assert_eq!(
        step_after(Some(ViewKind::List), ViewKind::List, ScreenAction::OpenHelp),
        Step::ShowHelp
    );
    assert_eq!(
        step_after(
            Some(ViewKind::List),
            ViewKind::List,
            ScreenAction::OpenEdit { event_index: 2 }
        ),
        Step::NoEditForm
    );
}

#[test]
fn submitted_edit_reports_the_new_summary_or_the_index() {
    let patch = EditPatch {
        summary: None,
        start: None,
        end: None,
        busystatus: None,
        class: None,
        categories: None,
        clear_categories: false,
        icon: None,
        clear_icon: false,
    };
    let step = step_after(
        None,
        ViewKind::List,
        ScreenAction::SubmitEdit { event_index: 4, patch },
    );
    match step {
        Step::Apply { change, then } => {
            assert_eq!(then, ViewKind::List);
            assert_eq!(change_status(&change), "Edited: event #4");
            assert_eq!(change_name(&change), "Edit");
        }
        _ => panic!("expected a change"),
    }
}
