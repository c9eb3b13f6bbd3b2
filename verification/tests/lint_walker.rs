use icskit::lint::walker::walk_vevents;


#[test]
fn empty_calendar_yields_no_scans() {
    let src = "BEGIN:VCALENDAR\r\nVERSION:2.0\r\nPRODID:-//x//y\r\nEND:VCALENDAR\r\n";
    assert!(walk_vevents(src).is_empty());
}

#[test]
fn single_vevent_collects_all_properties() {
    let mut src = String::from("BEGIN:VCALENDAR\r\nVERSION:2.0\r\nPRODID:-//x//y\r\n");
    src.push_str("BEGIN:VEVENT\r\n");
    src.push_str("UID:e1\r\nDTSTAMP:20260101T000000Z\r\n");
    src.push_str("DTSTART;VALUE=DATE:20260429\r\nDTEND;VALUE=DATE:20260430\r\n");
    src.push_str("SUMMARY:s\r\nEND:VEVENT\r\nEND:VCALENDAR\r\n");
    let scans = walk_vevents(&src);
    assert_eq!(scans.len(), 1);
    let names: Vec<_> = scans[0]
        .properties
        .iter()
        .map(|p| p.name.as_str())
        .collect();
    assert_eq!(names, vec!["UID", "DTSTAMP", "DTSTART", "DTEND", "SUMMARY"]);
}

#[test]
fn duplicate_summary_is_visible_in_scan() {
    let mut src = String::from("BEGIN:VCALENDAR\r\nVERSION:2.0\r\nPRODID:-//x//y\r\n");
    src.push_str("BEGIN:VEVENT\r\n");
    src.push_str("UID:e1\r\nDTSTAMP:20260101T000000Z\r\n");
    src.push_str("DTSTART;VALUE=DATE:20260429\r\nDTEND;VALUE=DATE:20260430\r\n");
    src.push_str("SUMMARY:one\r\n");
    src.push_str("SUMMARY:two\r\n");
    src.push_str("END:VEVENT\r\nEND:VCALENDAR\r\n");
    let scans = walk_vevents(&src);
    assert_eq!(scans[0].count("SUMMARY"), 2);
}

#[test]
fn nested_valarm_properties_do_not_leak_to_vevent_scope() {
    let mut src = String::from("BEGIN:VCALENDAR\r\nVERSION:2.0\r\nPRODID:-//x//y\r\n");
    src.push_str("BEGIN:VEVENT\r\n");
    src.push_str("UID:e1\r\nDTSTAMP:20260101T000000Z\r\n");
    src.push_str("DTSTART;VALUE=DATE:20260429\r\nDTEND;VALUE=DATE:20260430\r\n");
    src.push_str("SUMMARY:s\r\n");
    src.push_str("BEGIN:VALARM\r\n");
    src.push_str("ACTION:DISPLAY\r\n");
    src.push_str("DESCRIPTION:reminder\r\n");
    src.push_str("END:VALARM\r\n");
    src.push_str("END:VEVENT\r\nEND:VCALENDAR\r\n");
    let scans = walk_vevents(&src);
    let names: Vec<_> = scans[0]
        .properties
        .iter()
        .map(|p| p.name.as_str())
        .collect();
    assert_eq!(names, vec!["UID", "DTSTAMP", "DTSTART", "DTEND", "SUMMARY"]);
}

#[test]
fn line_numbers_track_unfolded_position() {
    // Use \r\n line endings so the unfolder produces one logical line per
    // physical line; the property of interest is on logical line 6.
    let mut src = String::from("BEGIN:VCALENDAR\r\n"); // 1
    src.push_str("VERSION:2.0\r\n"); // 2
    src.push_str("PRODID:-//x//y\r\n"); // 3
    src.push_str("BEGIN:VEVENT\r\n"); // 4
    src.push_str("UID:e1\r\n"); // 5
    src.push_str("DTSTAMP:20260101T000000Z\r\n"); // 6
    src.push_str("DTSTART;VALUE=DATE:20260429\r\n"); // 7
    src.push_str("DTEND;VALUE=DATE:20260430\r\n"); // 8
    src.push_str("SUMMARY:s\r\nEND:VEVENT\r\nEND:VCALENDAR\r\n");
    let scans = walk_vevents(&src);
    assert_eq!(scans[0].begin_line, 4);
    assert_eq!(scans[0].lines_of("DTSTAMP"), vec![6]);
}

#[test]
fn two_vevents_each_get_own_scan() {
    let mut src = String::from("BEGIN:VCALENDAR\r\nVERSION:2.0\r\nPRODID:-//x//y\r\n");
    src.push_str("BEGIN:VEVENT\r\nUID:e1\r\nDTSTAMP:20260101T000000Z\r\nEND:VEVENT\r\n");
    src.push_str("BEGIN:VEVENT\r\nUID:e2\r\nEND:VEVENT\r\n");
    src.push_str("END:VCALENDAR\r\n");
    let scans = walk_vevents(&src);
    assert_eq!(scans.len(), 2);
    assert!(scans[0].has("DTSTAMP"));
    assert!(!scans[1].has("DTSTAMP"));
}


#[test]
fn property_lines_increase_after_the_begin_line() {
    let mut src = String::from("BEGIN:VCALENDAR\r\nVERSION:2.0\r\n");
    src.push_str("BEGIN:VEVENT\r\nSUMMARY:a\r\nX-A:1\r\n folded\r\nSUMMARY:b\r\n");
    src.push_str("BEGIN:VALARM\r\nSUMMARY:alarm\r\nEND:VALARM\r\nSUMMARY:c\r\nEND:VEVENT\r\nEND:VCALENDAR\r\n");
    let scans = walk_vevents(&src);
    assert_eq!(scans.len(), 1);
    assert_eq!(scans[0].begin_line, 3);
    assert_eq!(scans[0].lines_of("SUMMARY"), vec![4, 6, 10]);
}
