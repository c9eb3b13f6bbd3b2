use icskit::lint::rules::text::contains_unescaped;
use icskit::lint::{lint, Severity};


fn vevent_with(properties: &str) -> String {
    let mut s = String::from("BEGIN:VCALENDAR\r\nVERSION:2.0\r\nPRODID:-//x//y\r\n");
    s.push_str("BEGIN:VEVENT\r\n");
    s.push_str(properties);
    s.push_str("END:VEVENT\r\nEND:VCALENDAR\r\n");
    s
}

const PROPS_BEFORE_SUMMARY: &str = "\
UID:e1\r\n\
DTSTAMP:20260101T000000Z\r\n\
DTSTART;VALUE=DATE:20260429\r\n\
DTEND;VALUE=DATE:20260430\r\n";

// ---------- contains_unescaped helper ----------

#[test]
fn contains_unescaped_finds_bare_comma() {
    assert!(contains_unescaped("foo,bar", ','));
}

#[test]
fn contains_unescaped_skips_escaped_comma() {
    assert!(!contains_unescaped(r"foo\,bar", ','));
}

#[test]
fn contains_unescaped_finds_comma_after_escaped_backslash() {
    // `\\,` = escaped backslash, then unescaped comma.
    assert!(contains_unescaped(r"foo\\,bar", ','));
}

#[test]
fn contains_unescaped_skips_comma_after_three_backslashes() {
    // `\\\,` = escaped backslash + escaped comma → no fire.
    assert!(!contains_unescaped(r"foo\\\,bar", ','));
}

#[test]
fn contains_unescaped_returns_false_when_needle_absent() {
    assert!(!contains_unescaped("foobar", ','));
}

// ---------- text/bom ----------

#[test]
fn calendar_without_bom_does_not_trigger_bom() {
    let mut props = String::from(PROPS_BEFORE_SUMMARY);
    props.push_str("SUMMARY:no bom here\r\n");
    let diags = lint(&vevent_with(&props));
    assert!(
        !diags.iter().any(|d| d.rule == "text/bom"),
        "got {:?}",
        diags
    );
}

#[test]
fn calendar_with_leading_bom_triggers_bom() {
    let mut src = String::from("\u{FEFF}BEGIN:VCALENDAR\r\nVERSION:2.0\r\nPRODID:-//x//y\r\n");
    src.push_str("BEGIN:VEVENT\r\n");
    src.push_str(PROPS_BEFORE_SUMMARY);
    src.push_str("SUMMARY:s\r\nEND:VEVENT\r\nEND:VCALENDAR\r\n");
    let diags = lint(&src);
    let hits: Vec<_> = diags.iter().filter(|d| d.rule == "text/bom").collect();
    assert_eq!(hits.len(), 1, "got {:?}", diags);
    assert_eq!(hits[0].severity, Severity::Info);
    assert_eq!(hits[0].line, Some(1));
}

// ---------- text/double-escape ----------

#[test]
fn properly_escaped_summary_does_not_trigger_double_escape() {
    let mut props = String::from(PROPS_BEFORE_SUMMARY);
    props.push_str("SUMMARY:Lunch\\, dinner\r\n");
    let diags = lint(&vevent_with(&props));
    assert!(
        !diags.iter().any(|d| d.rule == "text/double-escape"),
        "got {:?}",
        diags
    );
}

#[test]
fn double_escaped_summary_triggers_double_escape() {
    // `\\\\,` in Rust source = `\\,` in actual ICS text = the
    // double-escape signature.
    let mut props = String::from(PROPS_BEFORE_SUMMARY);
    props.push_str("SUMMARY:Lunch\\\\, dinner\r\n");
    let diags = lint(&vevent_with(&props));
    let hits: Vec<_> = diags
        .iter()
        .filter(|d| d.rule == "text/double-escape")
        .collect();
    assert_eq!(hits.len(), 1, "got {:?}", diags);
    assert_eq!(hits[0].severity, Severity::Warning);
}

#[test]
fn double_escaped_semicolon_triggers_double_escape() {
    let mut props = String::from(PROPS_BEFORE_SUMMARY);
    props.push_str("SUMMARY:Q1\\\\; Q2\r\n");
    let diags = lint(&vevent_with(&props));
    let hits: Vec<_> = diags
        .iter()
        .filter(|d| d.rule == "text/double-escape")
        .collect();
    assert_eq!(hits.len(), 1, "got {:?}", diags);
}

// ---------- text/unescaped-comma-in-summary ----------

#[test]
fn properly_escaped_comma_does_not_trigger_unescaped_comma() {
    let mut props = String::from(PROPS_BEFORE_SUMMARY);
    props.push_str("SUMMARY:Lunch\\, dinner\r\n");
    let diags = lint(&vevent_with(&props));
    assert!(
        !diags
            .iter()
            .any(|d| d.rule == "text/unescaped-comma-in-summary"),
        "got {:?}",
        diags
    );
}

#[test]
fn unescaped_comma_in_summary_triggers_rule() {
    let mut props = String::from(PROPS_BEFORE_SUMMARY);
    props.push_str("SUMMARY:Lunch, dinner\r\n");
    let diags = lint(&vevent_with(&props));
    let hits: Vec<_> = diags
        .iter()
        .filter(|d| d.rule == "text/unescaped-comma-in-summary")
        .collect();
    assert_eq!(hits.len(), 1, "got {:?}", diags);
    assert_eq!(hits[0].severity, Severity::Warning);
}

// ---------- text/unescaped-semicolon-in-summary ----------

#[test]
fn properly_escaped_semicolon_does_not_trigger_unescaped_semicolon() {
    let mut props = String::from(PROPS_BEFORE_SUMMARY);
    props.push_str("SUMMARY:Q1\\; Q2\r\n");
    let diags = lint(&vevent_with(&props));
    assert!(
        !diags
            .iter()
            .any(|d| d.rule == "text/unescaped-semicolon-in-summary"),
        "got {:?}",
        diags
    );
}

#[test]
fn unescaped_semicolon_in_summary_triggers_rule() {
    let mut props = String::from(PROPS_BEFORE_SUMMARY);
    props.push_str("SUMMARY:Q1; Q2\r\n");
    let diags = lint(&vevent_with(&props));
    let hits: Vec<_> = diags
        .iter()
        .filter(|d| d.rule == "text/unescaped-semicolon-in-summary")
        .collect();
    assert_eq!(hits.len(), 1, "got {:?}", diags);
    assert_eq!(hits[0].severity, Severity::Warning);
}

