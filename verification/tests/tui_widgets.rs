use icskit::date::Date;
use icskit::event::EventClass;
use icskit::profile::microsoft::MsBusyStatus;
use icskit::tui::keymap::{
    Intent, KeyCode, KeyEvent, KeyEventKind, KeymapMode, MOD_CONTROL, MOD_NONE, MOD_SHIFT,
};
use icskit::tui::screens::add_form::{BUSY, CATEGORIES, CLASS, FIELD_COUNT, START, SUMMARY};
use icskit::tui::screens::{AddForm, HelpScreen, ScreenAction, ViewKind};
use icskit::tui::text_input::TextInput;

// ---------- text input ----------

#[test]
fn new_is_empty_with_cursor_zero() {
    let t = TextInput::new();
    assert!(t.is_empty());
    assert_eq!(t.cursor(), 0);
    assert_eq!(t.value(), "");
}

#[test]
fn with_value_places_cursor_at_end() {
    let t = TextInput::with_value("hello");
    assert_eq!(t.value(), "hello");
    assert_eq!(t.cursor(), 5);
}

#[test]
fn insert_char_appends_and_advances() {
    let mut t = TextInput::new();
    t.insert_char('a');
    t.insert_char('b');
    t.insert_char('c');
    assert_eq!(t.value(), "abc");
    assert_eq!(t.cursor(), 3);
}

#[test]
fn insert_char_in_middle() {
    let mut t = TextInput::with_value("ac");
    t.move_left();
    assert_eq!(t.cursor(), 1);
    t.insert_char('b');
    assert_eq!(t.value(), "abc");
    assert_eq!(t.cursor(), 2);
}

#[test]
fn backspace_removes_previous_char() {
    let mut t = TextInput::with_value("abc");
    t.backspace();
    assert_eq!(t.value(), "ab");
    assert_eq!(t.cursor(), 2);
}

#[test]
fn backspace_at_start_is_noop() {
    let mut t = TextInput::with_value("abc");
    t.move_home();
    t.backspace();
    assert_eq!(t.value(), "abc");
    assert_eq!(t.cursor(), 0);
}

#[test]
fn move_left_clamps_at_zero() {
    let mut t = TextInput::with_value("a");
    t.move_left();
    t.move_left();
    assert_eq!(t.cursor(), 0);
}

#[test]
fn move_right_clamps_at_end() {
    let mut t = TextInput::with_value("ab");
    t.move_right();
    t.move_right();
    t.move_right();
    assert_eq!(t.cursor(), 2);
}

#[test]
fn home_and_end_jump_to_bounds() {
    let mut t = TextInput::with_value("hello");
    t.move_home();
    assert_eq!(t.cursor(), 0);
    t.move_end();
    assert_eq!(t.cursor(), 5);
}

#[test]
fn unicode_chars_use_char_offsets_not_bytes() {
    let mut t = TextInput::new();
    t.insert_char('元');
    t.insert_char('日');
    assert_eq!(t.value(), "元日");
    assert_eq!(t.cursor(), 2);
    assert_eq!(t.len_chars(), 2);
    t.backspace();
    assert_eq!(t.value(), "元");
    assert_eq!(t.cursor(), 1);
}

#[test]
fn unicode_insert_in_middle() {
    let mut t = TextInput::with_value("ac");
    t.move_left();
    t.insert_char('元');
    assert_eq!(t.value(), "a元c");
}

#[test]
fn clear_resets_everything() {
    let mut t = TextInput::with_value("hello");
    t.clear();
    assert!(t.is_empty());
    assert_eq!(t.cursor(), 0);
}

#[test]
fn set_value_resets_cursor_to_end() {
    let mut t = TextInput::with_value("a");
    t.set_value("hello");
    assert_eq!(t.value(), "hello");
    assert_eq!(t.cursor(), 5);
}

#[test]
fn backspace_after_insert_restores_text_and_cursor() {
    let mut t = TextInput::with_value("abc");
    t.move_left();
    let before = (t.value(), t.cursor());
    t.insert_char('x');
    assert_eq!(t.value(), "abxc");
    t.backspace();
    assert_eq!((t.value(), t.cursor()), before);
}

// ---------- views ----------

#[test]
fn view_kind_cycle() {
    assert_eq!(ViewKind::List.next(), ViewKind::Timeline);
    assert_eq!(ViewKind::Timeline.next(), ViewKind::Grid);
    assert_eq!(ViewKind::Grid.next(), ViewKind::List);
}

#[test]
fn view_kind_from_number() {
    assert_eq!(ViewKind::from_number(1), Some(ViewKind::List));
    assert_eq!(ViewKind::from_number(2), Some(ViewKind::Timeline));
    assert_eq!(ViewKind::from_number(3), Some(ViewKind::Grid));
    assert_eq!(ViewKind::from_number(0), None);
    assert_eq!(ViewKind::from_number(4), None);
}

#[test]
fn three_cycles_return_to_the_same_view() {
    for v in [ViewKind::List, ViewKind::Timeline, ViewKind::Grid] {
        assert_eq!(v.next().next().next(), v);
    }
}

// ---------- help overlay ----------

#[test]
fn esc_dismisses_help() {
    let mut s = HelpScreen::new("h.ics");
    assert_eq!(s.handle(Intent::Cancel), ScreenAction::DismissHelp);
}

#[test]
fn question_mark_intent_toggles_close() {
    let mut s = HelpScreen::new("h.ics");
    assert_eq!(s.handle(Intent::OpenHelp), ScreenAction::DismissHelp);
}

#[test]
fn help_quit_force_exits() {
    let mut s = HelpScreen::new("h.ics");
    assert_eq!(s.handle(Intent::Quit), ScreenAction::Quit);
}

#[test]
fn nav_intents_are_no_ops() {
    let mut s = HelpScreen::new("h.ics");
    assert_eq!(s.handle(Intent::NavDown), ScreenAction::Continue);
    assert_eq!(s.handle(Intent::NavUp), ScreenAction::Continue);
    assert_eq!(s.handle(Intent::CycleView), ScreenAction::Continue);
    assert_eq!(s.file_label(), "h.ics");
}

// ---------- add form ----------

fn type_string(form: &mut AddForm, s: &str) {
    for c in s.chars() {
        form.handle(Intent::TypeChar(c));
    }
}

fn ymd(y: i32, m: u32, d: u32) -> Date {
    Date::from_ymd_opt(y, m, d).unwrap()
}

#[test]
fn new_starts_on_summary_with_defaults() {
    let f = AddForm::new("h.ics");
    assert_eq!(f.focus(), SUMMARY);
    assert_eq!(f.busystatus(), MsBusyStatus::Free);
    assert_eq!(f.class(), None);
    assert!(f.error().is_none());
}

#[test]
fn next_field_advances_and_wraps() {
    let mut f = AddForm::new("h.ics");
    for i in 1..FIELD_COUNT {
        f.handle(Intent::NextField);
        assert_eq!(f.focus(), i);
    }
    f.handle(Intent::NextField);
    assert_eq!(f.focus(), 0);
}

#[test]
fn prev_field_wraps_backward() {
    let mut f = AddForm::new("h.ics");
    f.handle(Intent::PrevField);
    assert_eq!(f.focus(), FIELD_COUNT - 1);
}

#[test]
fn type_char_inserts_into_focused_text_field() {
    let mut f = AddForm::new("h.ics");
    type_string(&mut f, "元日");
    assert_eq!(f.summary.value(), "元日");
    f.handle(Intent::NextField);
    type_string(&mut f, "2026-01-01");
    assert_eq!(f.start.value(), "2026-01-01");
    assert_eq!(f.summary.value(), "元日");
}

#[test]
fn space_cycles_busystatus_when_focused() {
    let mut f = AddForm::new("h.ics");
    for _ in 0..BUSY {
        f.handle(Intent::NextField);
    }
    assert_eq!(f.focus(), BUSY);
    assert_eq!(f.busystatus(), MsBusyStatus::Free);
    f.handle(Intent::TypeChar(' '));
    assert_eq!(f.busystatus(), MsBusyStatus::Tentative);
    f.handle(Intent::NavRight);
    assert_eq!(f.busystatus(), MsBusyStatus::Busy);
    f.handle(Intent::NavLeft);
    assert_eq!(f.busystatus(), MsBusyStatus::Tentative);
}

#[test]
fn class_cycles_through_options_including_unset() {
    let mut f = AddForm::new("h.ics");
    for _ in 0..CLASS {
        f.handle(Intent::NextField);
    }
    assert_eq!(f.class(), None);
    f.handle(Intent::NavRight);
    assert_eq!(f.class(), Some(EventClass::Public));
    f.handle(Intent::NavRight);
    assert_eq!(f.class(), Some(EventClass::Private));
    f.handle(Intent::NavRight);
    assert_eq!(f.class(), Some(EventClass::Confidential));
    f.handle(Intent::NavRight);
    assert_eq!(f.class(), None);
}

#[test]
fn cancel_dismisses_form() {
    let mut f = AddForm::new("h.ics");
    assert_eq!(f.handle(Intent::Cancel), ScreenAction::DismissForm);
}

#[test]
fn add_form_quit_force_exits() {
    let mut f = AddForm::new("h.ics");
    assert_eq!(f.handle(Intent::Quit), ScreenAction::Quit);
}

#[test]
fn submit_with_empty_summary_records_error() {
    let mut f = AddForm::new("h.ics");
    let action = f.handle(Intent::SubmitForm);
    assert_eq!(action, ScreenAction::Continue);
    assert!(f.error().unwrap().contains("Summary"));
}

#[test]
fn submit_with_invalid_start_records_error() {
    let mut f = AddForm::new("h.ics");
    type_string(&mut f, "元日");
    f.handle(Intent::NextField);
    type_string(&mut f, "nonsense");
    let action = f.handle(Intent::SubmitForm);
    assert_eq!(action, ScreenAction::Continue);
    assert!(f.error().unwrap().to_lowercase().contains("start"));
}

#[test]
fn submit_minimal_required_fields_produces_request() {
    let mut f = AddForm::new("h.ics");
    type_string(&mut f, "元日");
    f.handle(Intent::NextField);
    type_string(&mut f, "2026-01-01");
    match f.handle(Intent::SubmitForm) {
        ScreenAction::SubmitAdd(req) => {
            assert_eq!(req.summary, "元日");
            assert_eq!(req.start, ymd(2026, 1, 1));
            assert_eq!(req.end, None);
            assert_eq!(req.busystatus, MsBusyStatus::Free);
            assert_eq!(req.class, None);
            assert!(req.categories.is_empty());
            assert_eq!(req.icon, None);
        }
        other => panic!("expected SubmitAdd, got {other:?}"),
    }
}

#[test]
fn submit_full_form_populates_all_fields() {
    let mut f = AddForm::new("h.ics");
    type_string(&mut f, "Travel");
    f.handle(Intent::NextField);
    type_string(&mut f, "2026-05-10");
    f.handle(Intent::NextField);
    type_string(&mut f, "2026-05-12");
    f.handle(Intent::NextField);
    f.handle(Intent::TypeChar(' '));
    f.handle(Intent::TypeChar(' '));
    f.handle(Intent::TypeChar(' '));
    f.handle(Intent::NextField);
    f.handle(Intent::NavRight);
    f.handle(Intent::NavRight);
    f.handle(Intent::NextField);
    type_string(&mut f, "work, travel");
    f.handle(Intent::NextField);
    type_string(&mut f, "airplane");

    match f.handle(Intent::SubmitForm) {
        ScreenAction::SubmitAdd(req) => {
            assert_eq!(req.summary, "Travel");
            assert_eq!(req.start, ymd(2026, 5, 10));
            assert_eq!(req.end, Some(ymd(2026, 5, 12)));
            assert_eq!(req.busystatus, MsBusyStatus::Oof);
            assert_eq!(req.class, Some(EventClass::Private));
            assert_eq!(
                req.categories,
                vec!["work".to_string(), "travel".to_string()]
            );
            assert_eq!(req.icon, Some("airplane".to_string()));
        }
        other => panic!("expected SubmitAdd, got {other:?}"),
    }
}

#[test]
fn submit_with_end_before_start_records_error() {
    let mut f = AddForm::new("h.ics");
    type_string(&mut f, "x");
    f.handle(Intent::NextField);
    type_string(&mut f, "2026-05-10");
    f.handle(Intent::NextField);
    type_string(&mut f, "2026-05-01");
    let action = f.handle(Intent::SubmitForm);
    assert_eq!(action, ScreenAction::Continue);
    assert!(f.error().unwrap().to_lowercase().contains("end"));
}

#[test]
fn categories_split_and_trim() {
    let mut f = AddForm::new("h.ics");
    type_string(&mut f, "x");
    f.handle(Intent::NextField);
    type_string(&mut f, "2026-01-01");
    for _ in 0..(CATEGORIES - START) {
        f.handle(Intent::NextField);
    }
    type_string(&mut f, "  work , , travel  ,  ");
    match f.handle(Intent::SubmitForm) {
        ScreenAction::SubmitAdd(req) => {
            assert_eq!(
                req.categories,
                vec!["work".to_string(), "travel".to_string()]
            );
        }
        _ => panic!(),
    }
}

#[test]
fn editing_clears_error() {
    let mut f = AddForm::new("h.ics");
    f.handle(Intent::SubmitForm);
    assert!(f.error().is_some());
    f.handle(Intent::TypeChar('a'));
    assert!(f.error().is_none());
}

#[test]
fn busystatus_wraps_backward_from_free() {
    let mut f = AddForm::new("h.ics");
    for _ in 0..BUSY {
        f.handle(Intent::NextField);
    }
    f.handle(Intent::NavLeft);
    assert_eq!(f.busystatus(), MsBusyStatus::WorkingElsewhere);
}

#[test]
fn backspace_in_summary_removes_last_char() {
    let mut f = AddForm::new("h.ics");
    type_string(&mut f, "ab");
    f.handle(Intent::Backspace);
    assert_eq!(f.summary.value(), "a");
}

// ---------- keymap ----------

fn press(code: KeyCode, modifiers: u8) -> KeyEvent {
    KeyEvent { code, modifiers, kind: KeyEventKind::Press }
}

fn release(code: KeyCode) -> KeyEvent {
    KeyEvent { code, modifiers: MOD_NONE, kind: KeyEventKind::Release }
}

#[test]
fn q_lowercase_quits_in_browse() {
    assert_eq!(
        icskit::tui::keymap::map(press(KeyCode::Char('q'), MOD_NONE), KeymapMode::Browse),
        Some(Intent::Quit)
    );
}

#[test]
fn q_in_form_is_a_typed_character() {
    assert_eq!(
        icskit::tui::keymap::map(press(KeyCode::Char('q'), MOD_NONE), KeymapMode::Form),
        Some(Intent::TypeChar('q'))
    );
}

#[test]
fn esc_emits_cancel_in_both_modes() {
    for mode in [KeymapMode::Browse, KeymapMode::Form] {
        assert_eq!(icskit::tui::keymap::map(press(KeyCode::Esc, MOD_NONE), mode), Some(Intent::Cancel));
    }
}

#[test]
fn ctrl_c_quits_in_both_modes() {
    for mode in [KeymapMode::Browse, KeymapMode::Form] {
        assert_eq!(
            icskit::tui::keymap::map(press(KeyCode::Char('c'), MOD_CONTROL), mode),
            Some(Intent::Quit)
        );
    }
}

#[test]
fn tab_cycles_view_in_browse_navigates_fields_in_form() {
    assert_eq!(
        icskit::tui::keymap::map(press(KeyCode::Tab, MOD_NONE), KeymapMode::Browse),
        Some(Intent::CycleView)
    );
    assert_eq!(
        icskit::tui::keymap::map(press(KeyCode::Tab, MOD_NONE), KeymapMode::Form),
        Some(Intent::NextField)
    );
}

#[test]
fn backtab_navigates_back_in_form() {
    assert_eq!(
        icskit::tui::keymap::map(press(KeyCode::BackTab, MOD_NONE), KeymapMode::Form),
        Some(Intent::PrevField)
    );
}

#[test]
fn enter_in_form_submits() {
    assert_eq!(
        icskit::tui::keymap::map(press(KeyCode::Enter, MOD_NONE), KeymapMode::Form),
        Some(Intent::SubmitForm)
    );
}

#[test]
fn ctrl_s_in_form_submits() {
    assert_eq!(
        icskit::tui::keymap::map(press(KeyCode::Char('s'), MOD_CONTROL), KeymapMode::Form),
        Some(Intent::SubmitForm)
    );
}

#[test]
fn backspace_in_form_deletes() {
    assert_eq!(
        icskit::tui::keymap::map(press(KeyCode::Backspace, MOD_NONE), KeymapMode::Form),
        Some(Intent::Backspace)
    );
}

#[test]
fn arrows_in_form_move_cursor_or_field() {
    assert_eq!(
        icskit::tui::keymap::map(press(KeyCode::Left, MOD_NONE), KeymapMode::Form),
        Some(Intent::NavLeft)
    );
    assert_eq!(
        icskit::tui::keymap::map(press(KeyCode::Down, MOD_NONE), KeymapMode::Form),
        Some(Intent::NextField)
    );
    assert_eq!(
        icskit::tui::keymap::map(press(KeyCode::Up, MOD_NONE), KeymapMode::Form),
        Some(Intent::PrevField)
    );
}

#[test]
fn question_mark_opens_help_in_browse_types_in_form() {
    assert_eq!(
        icskit::tui::keymap::map(press(KeyCode::Char('?'), MOD_SHIFT), KeymapMode::Browse),
        Some(Intent::OpenHelp)
    );
    assert_eq!(
        icskit::tui::keymap::map(press(KeyCode::Char('?'), MOD_SHIFT), KeymapMode::Form),
        Some(Intent::TypeChar('?'))
    );
}

#[test]
fn e_opens_edit_in_browse_types_e_in_form() {
    assert_eq!(
        icskit::tui::keymap::map(press(KeyCode::Char('e'), MOD_NONE), KeymapMode::Browse),
        Some(Intent::OpenEdit)
    );
    assert_eq!(
        icskit::tui::keymap::map(press(KeyCode::Char('e'), MOD_NONE), KeymapMode::Form),
        Some(Intent::TypeChar('e'))
    );
}

#[test]
fn a_opens_add_in_browse_types_a_in_form() {
    assert_eq!(
        icskit::tui::keymap::map(press(KeyCode::Char('a'), MOD_NONE), KeymapMode::Browse),
        Some(Intent::OpenAdd)
    );
    assert_eq!(
        icskit::tui::keymap::map(press(KeyCode::Char('a'), MOD_NONE), KeymapMode::Form),
        Some(Intent::TypeChar('a'))
    );
}

#[test]
fn release_events_ignored_in_both_modes() {
    for mode in [KeymapMode::Browse, KeymapMode::Form] {
        assert_eq!(icskit::tui::keymap::map(release(KeyCode::Char('q')), mode), None);
        assert_eq!(icskit::tui::keymap::map(release(KeyCode::Tab), mode), None);
    }
}

#[test]
fn d_and_x_open_remove_in_browse_type_in_form() {
    assert_eq!(
        icskit::tui::keymap::map(press(KeyCode::Char('d'), MOD_NONE), KeymapMode::Browse),
        Some(Intent::OpenRemove)
    );
    assert_eq!(
        icskit::tui::keymap::map(press(KeyCode::Char('d'), MOD_NONE), KeymapMode::Form),
        Some(Intent::TypeChar('d'))
    );
}

#[test]
fn space_in_browse_marks_in_form_types() {
    assert_eq!(
        icskit::tui::keymap::map(press(KeyCode::Char(' '), MOD_NONE), KeymapMode::Browse),
        Some(Intent::ToggleMark)
    );
    assert_eq!(
        icskit::tui::keymap::map(press(KeyCode::Char(' '), MOD_NONE), KeymapMode::Form),
        Some(Intent::TypeChar(' '))
    );
}

#[test]
fn number_keys_switch_view_in_browse() {
    assert_eq!(
        icskit::tui::keymap::map(press(KeyCode::Char('1'), MOD_NONE), KeymapMode::Browse),
        Some(Intent::SwitchView(ViewKind::List))
    );
    assert_eq!(
        icskit::tui::keymap::map(press(KeyCode::Char('2'), MOD_NONE), KeymapMode::Browse),
        Some(Intent::SwitchView(ViewKind::Timeline))
    );
    assert_eq!(
        icskit::tui::keymap::map(press(KeyCode::Char('3'), MOD_NONE), KeymapMode::Browse),
        Some(Intent::SwitchView(ViewKind::Grid))
    );
}

#[test]
fn number_keys_type_digits_in_form() {
    assert_eq!(
        icskit::tui::keymap::map(press(KeyCode::Char('1'), MOD_NONE), KeymapMode::Form),
        Some(Intent::TypeChar('1'))
    );
    assert_eq!(
        icskit::tui::keymap::map(press(KeyCode::Char('5'), MOD_NONE), KeymapMode::Form),
        Some(Intent::TypeChar('5'))
    );
}

#[test]
fn u_cycles_granularity_in_browse_types_in_form() {
    assert_eq!(
        icskit::tui::keymap::map(press(KeyCode::Char('u'), MOD_NONE), KeymapMode::Browse),
        Some(Intent::CycleGranularity)
    );
    assert_eq!(
        icskit::tui::keymap::map(press(KeyCode::Char('u'), MOD_NONE), KeymapMode::Form),
        Some(Intent::TypeChar('u'))
    );
}

#[test]
fn shift_d_confirms_in_browse() {
    assert_eq!(
        icskit::tui::keymap::map(press(KeyCode::Char('D'), MOD_SHIFT), KeymapMode::Browse),
        Some(Intent::Confirm)
    );
}

#[test]
fn shift_uppercase_letter_types_in_form() {
    assert_eq!(
        icskit::tui::keymap::map(press(KeyCode::Char('A'), MOD_SHIFT), KeymapMode::Form),
        Some(Intent::TypeChar('A'))
    );
}

#[test]
fn help_transient_status_is_cleared_on_next_intent() {
    let mut h = HelpScreen::new("cal.ics");
    assert_eq!(h.transient_status(), None);
    h.set_transient_status("saved");
    assert_eq!(h.transient_status(), Some("saved"));
    assert_eq!(h.file_label(), "cal.ics");
    h.handle(Intent::NavDown);
    assert_eq!(h.transient_status(), None);
}

#[test]
fn add_form_transient_status_is_cleared_on_next_intent() {
    let mut f = AddForm::new("cal.ics");
    assert_eq!(f.transient_status(), None);
    f.set_transient_status("Added.");
    assert_eq!(f.transient_status(), Some("Added."));
    f.handle(Intent::NextField);
    assert_eq!(f.transient_status(), None);
}
