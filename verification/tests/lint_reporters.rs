use icskit::lint::reporter::github::{encode_message, severity_keyword};
use icskit::lint::reporter::json::severity_name;
use icskit::lint::reporter::{Format, GithubReporter, HumanReporter, JsonReporter, Report, Reporter};
use icskit::lint::{Diagnostic, Severity};

#[test]
fn human_writes_path_severity_rule_message() {
    let path = String::from("a.ics");
    let diag = Diagnostic::new("X/y", Severity::Error, "boom").with_line(42);
    let s = HumanReporter.render(&[(path, diag)]);
    assert_eq!(s, "a.ics:42: error: [X/y] boom\n");
}

#[test]
fn human_omits_line_when_unknown() {
    let path = String::from("a.ics");
    let diag = Diagnostic::new("X/y", Severity::Warning, "fyi");
    assert_eq!(HumanReporter.render(&[(path, diag)]), "a.ics: warning: [X/y] fyi\n");
}

#[test]
fn github_emits_command_with_line() {
    let path = String::from("a.ics");
    let diag = Diagnostic::new("RFC5545/required-uid", Severity::Error, "boom").with_line(42);
    let s = GithubReporter.render(&[(path, diag)]);
    assert_eq!(s, "::error file=a.ics,line=42,title=RFC5545/required-uid::boom\n");
}

#[test]
fn github_omits_line_when_unknown() {
    let path = String::from("a.ics");
    let diag = Diagnostic::new("text/bom", Severity::Info, "fyi");
    let s = GithubReporter.render(&[(path, diag)]);
    assert_eq!(s, "::notice file=a.ics,title=text/bom::fyi\n");
}

#[test]
fn github_maps_severities_to_workflow_keywords() {
    assert_eq!(severity_keyword(Severity::Info), "notice");
    assert_eq!(severity_keyword(Severity::Warning), "warning");
    assert_eq!(severity_keyword(Severity::Error), "error");
}

#[test]
fn github_encodes_percent_and_newlines_in_message() {
    let path = String::from("a.ics");
    let diag = Diagnostic::new("X/y", Severity::Warning, "first line\nsecond line with 50% off");
    let s = GithubReporter.render(&[(path, diag)]);
    assert!(s.contains("first line%0Asecond line with 50%25 off"), "expected escaped body in {s:?}");
    assert!(s.ends_with('\n'));
}

#[test]
fn github_encodes_carriage_return() {
    let diag = Diagnostic::new("X/y", Severity::Error, "a\r\nb%");
    let s = GithubReporter.render(&[(String::from("f.ics"), diag)]);
    assert_eq!(s, "::error file=f.ics,title=X/y::a%0D%0Ab%25\n");
}

#[test]
fn reporters_render_batches_in_order() {
    let batch = vec![
        (String::from("a.ics"), Diagnostic::new("r/1", Severity::Info, "one").with_line(1)),
        (String::from("b.ics"), Diagnostic::new("r/2", Severity::Error, "two")),
    ];
    assert_eq!(HumanReporter.render(&batch), "a.ics:1: info: [r/1] one\nb.ics: error: [r/2] two\n");
    assert_eq!(HumanReporter.render(&[]), "");
}

#[test]
fn json_emits_array_with_required_keys() {
    let path = String::from("a.ics");
    let diag = Diagnostic::new("X/y", Severity::Error, "boom").with_line(42);
    let rows = JsonReporter.rows(&[(path, diag)]);
    assert_eq!(rows.len(), 1);
    let row = &rows[0];
    assert_eq!(row.file, "a.ics");
    assert_eq!(row.line, Some(42));
    assert_eq!(row.rule, "X/y");
    assert_eq!(row.severity, "error");
    assert_eq!(row.message, "boom");
}

#[test]
fn json_omits_line_when_unknown() {
    let path = String::from("a.ics");
    let diag = Diagnostic::new("X/y", Severity::Warning, "fyi");
    let rows = JsonReporter.rows(&[(path, diag)]);
    assert!(rows[0].line.is_none());
}

#[test]
fn json_empty_input_yields_empty_array() {
    let rows = JsonReporter.rows(&[]);
    assert_eq!(rows.len(), 0);
}

#[test]
fn json_serializes_severity_as_lowercase() {
    let path = String::from("a.ics");
    let diags = vec![
        (path.clone(), Diagnostic::new("a/info", Severity::Info, "i")),
        (path.clone(), Diagnostic::new("a/warn", Severity::Warning, "w")),
        (path, Diagnostic::new("a/err", Severity::Error, "e")),
    ];
    let rows = JsonReporter.rows(&diags);
    assert_eq!(rows[0].severity, "info");
    assert_eq!(rows[1].severity, "warning");
    assert_eq!(rows[2].severity, "error");
}

#[test]
fn json_severity_names_differ_from_github_keywords_only_for_info() {
    assert_eq!(severity_name(Severity::Info), "info");
    assert_eq!(severity_keyword(Severity::Info), "notice");
    assert_eq!(severity_name(Severity::Warning), severity_keyword(Severity::Warning));
}

#[test]
fn each_format_reports_with_its_own_reporter() {
    let batch = vec![(String::from("a.ics"), Diagnostic::new("X/y", Severity::Error, "boom").with_line(3))];
    match Format::Human.report(&batch) {
        Report::Text(t) => assert_eq!(t, HumanReporter.render(&batch)),
        Report::Rows(_) => panic!("human gives text"),
    }
    match Format::Github.report(&batch) {
        Report::Text(t) => assert_eq!(t, "::error file=a.ics,line=3,title=X/y::boom\n"),
        Report::Rows(_) => panic!("github gives text"),
    }
    match Format::Json.report(&batch) {
        Report::Rows(rows) => assert_eq!(rows, JsonReporter.rows(&batch)),
        Report::Text(_) => panic!("json gives rows"),
    }
}

#[test]
fn encoded_message_is_one_line_and_decodes_back() {
    let input = "50% \r\n%0A done";
    let out = encode_message(input);
    assert_eq!(out, "50%25 %0D%0A%250A done");
    assert!(!out.contains('\r') && !out.contains('\n'));
    assert_eq!(out.replace("%0A", "\n").replace("%0D", "\r").replace("%25", "%"), input);
}
