use icskit::lint::diagnostic::{run_exit_code, shown};
use icskit::lint::{exit_code_for, lint, Diagnostic, Severity};


#[test]
fn exit_code_clean_is_zero() {
    assert_eq!(exit_code_for(&[], false), 0);
}

#[test]
fn exit_code_only_info_is_zero() {
    let diags = vec![Diagnostic::new("test/info", Severity::Info, "fyi")];
    assert_eq!(exit_code_for(&diags, false), 0);
}

#[test]
fn exit_code_warning_is_one() {
    let diags = vec![Diagnostic::new("test/warn", Severity::Warning, "uh")];
    assert_eq!(exit_code_for(&diags, false), 1);
}

#[test]
fn exit_code_error_is_two() {
    let diags = vec![Diagnostic::new("test/err", Severity::Error, "no")];
    assert_eq!(exit_code_for(&diags, false), 2);
}

#[test]
fn exit_code_warning_promoted_with_w_flag() {
    let diags = vec![Diagnostic::new("test/warn", Severity::Warning, "uh")];
    assert_eq!(exit_code_for(&diags, true), 2);
}

#[test]
fn exit_code_error_dominates_warning() {
    let diags = vec![
        Diagnostic::new("test/warn", Severity::Warning, "uh"),
        Diagnostic::new("test/err", Severity::Error, "no"),
    ];
    assert_eq!(exit_code_for(&diags, false), 2);
}



#[test]
fn empty_calendar_lint_is_currently_clean() {
    let diags = lint("BEGIN:VCALENDAR\r\nVERSION:2.0\r\nPRODID:-//x//y\r\nEND:VCALENDAR\r\n");
    assert!(
        diags.is_empty(),
        "scaffolding stage: no rules registered yet; got {:?}",
        diags
    );
}


#[test]
fn quiet_hides_info_and_unreadable_input_exits_three() {
    let info = Diagnostic::new("a/info", Severity::Info, "i");
    let warn = Diagnostic::new("a/warn", Severity::Warning, "w");
    assert!(!shown(&info, true));
    assert!(shown(&info, false));
    assert!(shown(&warn, true));
    assert_eq!(run_exit_code(&[warn.clone()], false, true), 3);
    assert_eq!(run_exit_code(&[warn.clone()], false, false), 1);
    assert_eq!(run_exit_code(&[warn], true, false), 2);
    assert_eq!(run_exit_code(&[info], false, false), 0);
}
