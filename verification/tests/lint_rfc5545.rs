use icskit::lint::{lint, Severity};


fn vevent_with(properties: &str) -> String {
    let mut s = String::from("BEGIN:VCALENDAR\r\nVERSION:2.0\r\nPRODID:-//x//y\r\n");
    s.push_str("BEGIN:VEVENT\r\n");
    s.push_str(properties);
    s.push_str("END:VEVENT\r\nEND:VCALENDAR\r\n");
    s
}

const REQUIRED_FIELDS_AFTER_UID: &str = "\
DTSTAMP:20260101T000000Z\r\n\
DTSTART;VALUE=DATE:20260429\r\n\
DTEND;VALUE=DATE:20260430\r\n\
SUMMARY:s\r\n";

#[test]
fn vevent_with_uid_passes_required_uid() {
    let mut props = String::from("UID:event-1\r\n");
    props.push_str(REQUIRED_FIELDS_AFTER_UID);
    let diags = lint(&vevent_with(&props));
    assert!(
        !diags.iter().any(|d| d.rule == "RFC5545/required-uid"),
        "no required-uid diagnostic expected; got {:?}",
        diags
    );
}

#[test]
fn vevent_without_uid_triggers_required_uid() {
    // UID line omitted; ics-core's typed parser tolerates this (uid
    // becomes empty string) so the rule fires.
    let diags = lint(&vevent_with(REQUIRED_FIELDS_AFTER_UID));
    let hits: Vec<_> = diags
        .iter()
        .filter(|d| d.rule == "RFC5545/required-uid")
        .collect();
    assert_eq!(hits.len(), 1, "exactly one diagnostic; got {:?}", diags);
    assert_eq!(hits[0].severity, Severity::Error);
    assert!(hits[0].message.contains("VEVENT #1"));
}

#[test]
fn vevent_with_whitespace_only_uid_triggers_required_uid() {
    let mut props = String::from("UID:   \r\n");
    props.push_str(REQUIRED_FIELDS_AFTER_UID);
    let diags = lint(&vevent_with(&props));
    let hits: Vec<_> = diags
        .iter()
        .filter(|d| d.rule == "RFC5545/required-uid")
        .collect();
    assert_eq!(hits.len(), 1);
}

#[test]
fn vevent_without_dtstamp_triggers_required_dtstamp() {
    // ics-core's typed parser would error on missing DTSTAMP; icslint
    // catches it via the raw walker so the fail-fast surfaces as a
    // RFC5545/required-dtstamp diagnostic instead of just parse-error.
    let props = "\
UID:e1\r\n\
DTSTART;VALUE=DATE:20260429\r\n\
DTEND;VALUE=DATE:20260430\r\n\
SUMMARY:s\r\n";
    let diags = lint(&vevent_with(props));
    let hits: Vec<_> = diags
        .iter()
        .filter(|d| d.rule == "RFC5545/required-dtstamp")
        .collect();
    assert_eq!(hits.len(), 1, "got {:?}", diags);
    assert_eq!(hits[0].severity, Severity::Error);
    assert!(hits[0].message.contains("VEVENT #1"));
}

#[test]
fn vevent_with_dtstamp_passes_required_dtstamp() {
    let mut props = String::from("UID:e1\r\n");
    props.push_str(REQUIRED_FIELDS_AFTER_UID);
    let diags = lint(&vevent_with(&props));
    assert!(
        !diags.iter().any(|d| d.rule == "RFC5545/required-dtstamp"),
        "got {:?}",
        diags
    );
}

#[test]
fn vevent_with_duplicate_summary_triggers_duplicate_summary() {
    let mut props = String::from("UID:e1\r\n");
    props.push_str("DTSTAMP:20260101T000000Z\r\n");
    props.push_str("DTSTART;VALUE=DATE:20260429\r\n");
    props.push_str("DTEND;VALUE=DATE:20260430\r\n");
    props.push_str("SUMMARY:original\r\n");
    props.push_str("SUMMARY:overwritten\r\n");
    let diags = lint(&vevent_with(&props));
    let hits: Vec<_> = diags
        .iter()
        .filter(|d| d.rule == "RFC5545/duplicate-summary")
        .collect();
    assert_eq!(hits.len(), 1, "got {:?}", diags);
    assert_eq!(hits[0].severity, Severity::Error);
    assert!(
        hits[0].message.contains("2 SUMMARY occurrences"),
        "expected count phrase; got {:?}",
        hits[0].message
    );
}

#[test]
fn vevent_with_single_summary_passes_duplicate_summary() {
    let mut props = String::from("UID:e1\r\n");
    props.push_str(REQUIRED_FIELDS_AFTER_UID);
    let diags = lint(&vevent_with(&props));
    assert!(
        !diags.iter().any(|d| d.rule == "RFC5545/duplicate-summary"),
        "got {:?}",
        diags
    );
}

#[test]
fn duplicate_summary_diagnostic_points_at_second_occurrence_line() {
    // Lines 1..3 = VCALENDAR header, 4 = BEGIN:VEVENT,
    // 5 = UID, 6 = DTSTAMP, 7 = DTSTART, 8 = DTEND,
    // 9 = first SUMMARY, 10 = second SUMMARY.
    let mut input = String::from("BEGIN:VCALENDAR\r\nVERSION:2.0\r\nPRODID:-//x//y\r\n");
    input.push_str("BEGIN:VEVENT\r\n");
    input.push_str("UID:e1\r\n");
    input.push_str("DTSTAMP:20260101T000000Z\r\n");
    input.push_str("DTSTART;VALUE=DATE:20260429\r\n");
    input.push_str("DTEND;VALUE=DATE:20260430\r\n");
    input.push_str("SUMMARY:original\r\n");
    input.push_str("SUMMARY:overwritten\r\n");
    input.push_str("END:VEVENT\r\nEND:VCALENDAR\r\n");
    let diags = lint(&input);
    let hit = diags
        .iter()
        .find(|d| d.rule == "RFC5545/duplicate-summary")
        .unwrap();
    assert_eq!(hit.line, Some(10));
}

#[test]
fn second_vevent_without_uid_is_reported_with_its_index() {
    let mut input = String::from("BEGIN:VCALENDAR\r\nVERSION:2.0\r\nPRODID:-//x//y\r\n");
    // Event 1 — fine.
    input.push_str("BEGIN:VEVENT\r\nUID:ok-1\r\n");
    input.push_str(REQUIRED_FIELDS_AFTER_UID);
    input.push_str("END:VEVENT\r\n");
    // Event 2 — missing UID.
    input.push_str("BEGIN:VEVENT\r\n");
    input.push_str(REQUIRED_FIELDS_AFTER_UID);
    input.push_str("END:VEVENT\r\n");
    input.push_str("END:VCALENDAR\r\n");
    let diags = lint(&input);
    let hits: Vec<_> = diags
        .iter()
        .filter(|d| d.rule == "RFC5545/required-uid")
        .collect();
    assert_eq!(hits.len(), 1);
    assert!(
        hits[0].message.contains("VEVENT #2"),
        "second-event index expected; got {:?}",
        hits[0].message
    );
}

// ---------- RFC5545/required-dtstart ----------

#[test]
fn vevent_with_dtstart_passes_required_dtstart() {
    let mut props = String::from("UID:e1\r\n");
    props.push_str(REQUIRED_FIELDS_AFTER_UID);
    let diags = lint(&vevent_with(&props));
    assert!(
        !diags.iter().any(|d| d.rule == "RFC5545/required-dtstart"),
        "got {:?}",
        diags
    );
}

#[test]
fn vevent_without_dtstart_triggers_required_dtstart() {
    // ics-core's typed parser would error on missing DTSTART; icslint
    // catches it via the raw walker so the failure surfaces as a
    // RFC5545/required-dtstart diagnostic alongside the parse-error.
    let props = "\
UID:e1\r\n\
DTSTAMP:20260101T000000Z\r\n\
DTEND;VALUE=DATE:20260430\r\n\
SUMMARY:s\r\n";
    let diags = lint(&vevent_with(props));
    let hits: Vec<_> = diags
        .iter()
        .filter(|d| d.rule == "RFC5545/required-dtstart")
        .collect();
    assert_eq!(hits.len(), 1, "got {:?}", diags);
    assert_eq!(hits[0].severity, Severity::Error);
    assert!(hits[0].message.contains("VEVENT #1"));
}

// ---------- RFC5545/duplicate-dtstart ----------

#[test]
fn vevent_with_single_dtstart_passes_duplicate_dtstart() {
    let mut props = String::from("UID:e1\r\n");
    props.push_str(REQUIRED_FIELDS_AFTER_UID);
    let diags = lint(&vevent_with(&props));
    assert!(
        !diags.iter().any(|d| d.rule == "RFC5545/duplicate-dtstart"),
        "got {:?}",
        diags
    );
}

#[test]
fn vevent_with_duplicate_dtstart_triggers_duplicate_dtstart() {
    let mut props = String::from("UID:e1\r\n");
    props.push_str("DTSTAMP:20260101T000000Z\r\n");
    props.push_str("DTSTART;VALUE=DATE:20260429\r\n");
    props.push_str("DTSTART;VALUE=DATE:20260501\r\n");
    props.push_str("DTEND;VALUE=DATE:20260430\r\n");
    props.push_str("SUMMARY:s\r\n");
    let diags = lint(&vevent_with(&props));
    let hits: Vec<_> = diags
        .iter()
        .filter(|d| d.rule == "RFC5545/duplicate-dtstart")
        .collect();
    assert_eq!(hits.len(), 1, "got {:?}", diags);
    assert_eq!(hits[0].severity, Severity::Error);
    assert!(
        hits[0].message.contains("2 DTSTART occurrences"),
        "expected count phrase; got {:?}",
        hits[0].message
    );
}

// ---------- RFC5545/conflicting-end-and-duration ----------

#[test]
fn vevent_with_only_dtend_passes_conflicting_rule() {
    let mut props = String::from("UID:e1\r\n");
    props.push_str(REQUIRED_FIELDS_AFTER_UID);
    let diags = lint(&vevent_with(&props));
    assert!(
        !diags
            .iter()
            .any(|d| d.rule == "RFC5545/conflicting-end-and-duration"),
        "got {:?}",
        diags
    );
}

#[test]
fn vevent_with_both_dtend_and_duration_triggers_conflicting_rule() {
    let mut props = String::from("UID:e1\r\n");
    props.push_str("DTSTAMP:20260101T000000Z\r\n");
    props.push_str("DTSTART;VALUE=DATE:20260429\r\n");
    props.push_str("DTEND;VALUE=DATE:20260430\r\n");
    props.push_str("DURATION:P1D\r\n");
    props.push_str("SUMMARY:s\r\n");
    let diags = lint(&vevent_with(&props));
    let hits: Vec<_> = diags
        .iter()
        .filter(|d| d.rule == "RFC5545/conflicting-end-and-duration")
        .collect();
    assert_eq!(hits.len(), 1, "got {:?}", diags);
    assert_eq!(hits[0].severity, Severity::Error);
    assert!(hits[0].message.contains("VEVENT #1"));
    assert!(hits[0].message.contains("DTEND and DURATION"));
}

// ---------- RFC5545/end-before-start ----------

#[test]
fn vevent_with_dtend_after_dtstart_passes_end_before_start() {
    let mut props = String::from("UID:e1\r\n");
    props.push_str(REQUIRED_FIELDS_AFTER_UID);
    let diags = lint(&vevent_with(&props));
    assert!(
        !diags.iter().any(|d| d.rule == "RFC5545/end-before-start"),
        "got {:?}",
        diags
    );
}

#[test]
fn vevent_with_dtend_equal_to_dtstart_triggers_end_before_start() {
    // DATE-valued events have DTEND as the non-inclusive end; DTEND ==
    // DTSTART means a zero-duration event, which most clients drop.
    let mut props = String::from("UID:e1\r\n");
    props.push_str("DTSTAMP:20260101T000000Z\r\n");
    props.push_str("DTSTART;VALUE=DATE:20260429\r\n");
    props.push_str("DTEND;VALUE=DATE:20260429\r\n");
    props.push_str("SUMMARY:s\r\n");
    let diags = lint(&vevent_with(&props));
    let hits: Vec<_> = diags
        .iter()
        .filter(|d| d.rule == "RFC5545/end-before-start")
        .collect();
    assert_eq!(hits.len(), 1, "got {:?}", diags);
    assert_eq!(hits[0].severity, Severity::Error);
    assert!(hits[0].message.contains("VEVENT #1"));
}

#[test]
fn vevent_with_dtend_before_dtstart_triggers_end_before_start() {
    let mut props = String::from("UID:e1\r\n");
    props.push_str("DTSTAMP:20260101T000000Z\r\n");
    props.push_str("DTSTART;VALUE=DATE:20260501\r\n");
    props.push_str("DTEND;VALUE=DATE:20260429\r\n");
    props.push_str("SUMMARY:s\r\n");
    let diags = lint(&vevent_with(&props));
    let hits: Vec<_> = diags
        .iter()
        .filter(|d| d.rule == "RFC5545/end-before-start")
        .collect();
    assert_eq!(hits.len(), 1, "got {:?}", diags);
    assert_eq!(hits[0].severity, Severity::Error);
}

// ---------- RFC5545/empty-summary ----------

#[test]
fn vevent_with_nonempty_summary_passes_empty_summary() {
    let mut props = String::from("UID:e1\r\n");
    props.push_str(REQUIRED_FIELDS_AFTER_UID);
    let diags = lint(&vevent_with(&props));
    assert!(
        !diags.iter().any(|d| d.rule == "RFC5545/empty-summary"),
        "got {:?}",
        diags
    );
}

#[test]
fn vevent_without_summary_does_not_trigger_empty_summary() {
    // SUMMARY is optional; absence is not a violation.
    let props = "\
UID:e1\r\n\
DTSTAMP:20260101T000000Z\r\n\
DTSTART;VALUE=DATE:20260429\r\n\
DTEND;VALUE=DATE:20260430\r\n";
    let diags = lint(&vevent_with(props));
    assert!(
        !diags.iter().any(|d| d.rule == "RFC5545/empty-summary"),
        "got {:?}",
        diags
    );
}

#[test]
fn vevent_with_empty_summary_triggers_empty_summary() {
    let mut props = String::from("UID:e1\r\n");
    props.push_str("DTSTAMP:20260101T000000Z\r\n");
    props.push_str("DTSTART;VALUE=DATE:20260429\r\n");
    props.push_str("DTEND;VALUE=DATE:20260430\r\n");
    props.push_str("SUMMARY:\r\n");
    let diags = lint(&vevent_with(&props));
    let hits: Vec<_> = diags
        .iter()
        .filter(|d| d.rule == "RFC5545/empty-summary")
        .collect();
    assert_eq!(hits.len(), 1, "got {:?}", diags);
    assert_eq!(hits[0].severity, Severity::Warning);
    assert!(hits[0].message.contains("VEVENT #1"));
}

#[test]
fn vevent_with_whitespace_only_summary_triggers_empty_summary() {
    let mut props = String::from("UID:e1\r\n");
    props.push_str("DTSTAMP:20260101T000000Z\r\n");
    props.push_str("DTSTART;VALUE=DATE:20260429\r\n");
    props.push_str("DTEND;VALUE=DATE:20260430\r\n");
    props.push_str("SUMMARY:   \r\n");
    let diags = lint(&vevent_with(&props));
    let hits: Vec<_> = diags
        .iter()
        .filter(|d| d.rule == "RFC5545/empty-summary")
        .collect();
    assert_eq!(hits.len(), 1, "got {:?}", diags);
    assert_eq!(hits[0].severity, Severity::Warning);
}

