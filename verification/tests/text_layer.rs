use icskit::error::Error;
use icskit::escape::{decode_text, encode_text, join_text_list, split_text_list};
use icskit::line::parse_logical_line;
use icskit::unfold::{strip_bom, unfold};

#[test]
fn display_without_line_or_property() {
    let err = Error::parse("VEVENT missing DTSTAMP");
    assert_eq!(err.to_string(), "parse error: VEVENT missing DTSTAMP");
}

#[test]
fn display_with_line_only() {
    let err = Error::parse_at_line(42, "VEVENT missing DTSTAMP");
    assert_eq!(err.to_string(), "parse error at line 42: VEVENT missing DTSTAMP");
}

#[test]
fn display_with_line_and_property() {
    let err = Error::parse_at(42, "DTSTAMP", "Invalid value");
    assert_eq!(err.to_string(), "parse error at line 42 [DTSTAMP]: Invalid value");
}

#[test]
fn decode_passes_unescaped_text_through() {
    assert_eq!(decode_text("hello world"), "hello world");
}

#[test]
fn decode_handles_each_recognized_escape() {
    assert_eq!(decode_text(r"a\\b"), r"a\b");
    assert_eq!(decode_text(r"a\;b"), "a;b");
    assert_eq!(decode_text(r"a\,b"), "a,b");
    assert_eq!(decode_text(r"a\nb"), "a\nb");
    assert_eq!(decode_text(r"a\Nb"), "a\nb");
}

#[test]
fn decode_preserves_unknown_escape_sequences() {
    assert_eq!(decode_text(r"a\Xb"), r"a\Xb");
}

#[test]
fn decode_handles_trailing_lone_backslash() {
    assert_eq!(decode_text(r"abc\"), r"abc\");
}

#[test]
fn encode_escapes_each_reserved_character() {
    assert_eq!(encode_text(r"a\b"), r"a\\b");
    assert_eq!(encode_text("a;b"), r"a\;b");
    assert_eq!(encode_text("a,b"), r"a\,b");
    assert_eq!(encode_text("a\nb"), r"a\nb");
}

#[test]
fn encode_passes_plain_text_through_unchanged() {
    assert_eq!(encode_text("hello 憲法記念日"), "hello 憲法記念日");
}

#[test]
fn decode_then_encode_is_stable_round_trip() {
    let original = r"Meeting, with \;semicolon and \,comma";
    let once = decode_text(original);
    let twice = encode_text(&once);
    let thrice = decode_text(&twice);
    assert_eq!(once, thrice);
}

#[test]
fn split_text_list_basic() {
    assert_eq!(split_text_list("WORK,PERSONAL,HOLIDAY"), vec!["WORK", "PERSONAL", "HOLIDAY"]);
}

#[test]
fn split_text_list_respects_escaped_comma() {
    assert_eq!(split_text_list(r"a\,b,c"), vec!["a,b", "c"]);
}

#[test]
fn split_text_list_handles_single_item() {
    assert_eq!(split_text_list("solo"), vec!["solo"]);
}

#[test]
fn join_text_list_escapes_per_item() {
    let items = vec!["a,b".to_string(), "c;d".to_string()];
    assert_eq!(join_text_list(&items), r"a\,b,c\;d");
}

#[test]
fn list_round_trip_preserves_items_with_special_chars() {
    let items = vec!["work, project A".to_string(), "personal".to_string()];
    let encoded = join_text_list(&items);
    let decoded = split_text_list(&encoded);
    assert_eq!(decoded, items);
}

#[test]
fn encode_then_decode_gives_back_any_text() {
    for s in ["", "plain", "a,b;c\\d\ne", "\\\\,,;;", "末尾\\"] {
        assert_eq!(decode_text(&encode_text(s)), s);
    }
}

#[test]
fn basic_name_value() {
    let ll = parse_logical_line("UID:abc-123").unwrap();
    assert_eq!(ll.name, "UID");
    assert!(ll.params.is_empty());
    assert_eq!(ll.value, "abc-123");
}

#[test]
fn name_uppercase_normalization() {
    let ll = parse_logical_line("uid:abc").unwrap();
    assert_eq!(ll.name, "UID");
}

#[test]
fn single_param() {
    let ll = parse_logical_line("DTSTART;VALUE=DATE:20260101").unwrap();
    assert_eq!(ll.name, "DTSTART");
    assert_eq!(ll.params, vec![("VALUE".to_string(), "DATE".to_string())]);
    assert_eq!(ll.value, "20260101");
}

#[test]
fn multiple_params_preserve_order() {
    let ll = parse_logical_line("DTSTART;TZID=Asia/Tokyo;VALUE=DATE-TIME:20260101T090000").unwrap();
    assert_eq!(
        ll.params,
        vec![
            ("TZID".to_string(), "Asia/Tokyo".to_string()),
            ("VALUE".to_string(), "DATE-TIME".to_string()),
        ]
    );
    assert_eq!(ll.value, "20260101T090000");
}

#[test]
fn param_keys_uppercase_values_keep_case() {
    let ll = parse_logical_line("X-FOO;lang=ja-JP:hello").unwrap();
    assert_eq!(ll.params, vec![("LANG".to_string(), "ja-JP".to_string())]);
}

#[test]
fn quoted_param_value_strips_quotes() {
    let ll = parse_logical_line(r#"X-FOO;LANG="ja-JP":hello"#).unwrap();
    assert_eq!(ll.params, vec![("LANG".to_string(), "ja-JP".to_string())]);
}

#[test]
fn missing_colon_yields_none() {
    assert!(parse_logical_line("UIDabc").is_none());
}

#[test]
fn empty_name_yields_none() {
    assert!(parse_logical_line(":value").is_none());
}

#[test]
fn empty_value_is_ok() {
    let ll = parse_logical_line("UID:").unwrap();
    assert_eq!(ll.value, "");
}

#[test]
fn to_raw_property_copies_name_params_and_assigns_index() {
    let ll = parse_logical_line("X-CUSTOM-FOO;LANG=en:hello").unwrap();
    let rp = ll.to_raw_property(7);
    assert_eq!(rp.name, "X-CUSTOM-FOO");
    assert_eq!(rp.params, vec![("LANG".to_string(), "en".to_string())]);
    assert_eq!(rp.value, "hello");
    assert_eq!(rp.source_index, 7);
}

#[test]
fn value_can_contain_colon() {
    let ll = parse_logical_line("DESCRIPTION:Meeting at 10:00").unwrap();
    assert_eq!(ll.value, "Meeting at 10:00");
}

#[test]
fn multibyte_utf8_in_value() {
    let ll = parse_logical_line("SUMMARY:憲法記念日").unwrap();
    assert_eq!(ll.value, "憲法記念日");
}

#[test]
fn strip_bom_removes_leading_bom_only() {
    assert_eq!(strip_bom("\u{FEFF}HELLO"), "HELLO");
    assert_eq!(strip_bom("HELLO"), "HELLO");
    assert_eq!(strip_bom("HEL\u{FEFF}LO"), "HEL\u{FEFF}LO");
}

#[test]
fn unfold_passes_through_single_lines() {
    let input = "BEGIN:VCALENDAR\r\nVERSION:2.0\r\nEND:VCALENDAR\r\n";
    assert_eq!(unfold(input), vec!["BEGIN:VCALENDAR", "VERSION:2.0", "END:VCALENDAR"]);
}

#[test]
fn unfold_joins_space_continuation() {
    assert_eq!(unfold("A:long-value-folded\r\n here\r\n"), vec!["A:long-value-foldedhere"]);
}

#[test]
fn unfold_joins_tab_continuation() {
    assert_eq!(unfold("A:long-value-folded\r\n\there\r\n"), vec!["A:long-value-foldedhere"]);
}

#[test]
fn unfold_joins_multiple_continuations() {
    assert_eq!(unfold("A:part1\r\n part2\r\n part3\r\n"), vec!["A:part1part2part3"]);
}

#[test]
fn unfold_accepts_lf_only_line_terminators() {
    assert_eq!(unfold("A:foo\nB:bar\n"), vec!["A:foo", "B:bar"]);
}

#[test]
fn unfold_strips_leading_bom() {
    let input = "\u{FEFF}BEGIN:VCALENDAR\r\nEND:VCALENDAR\r\n";
    assert_eq!(unfold(input), vec!["BEGIN:VCALENDAR", "END:VCALENDAR"]);
}

#[test]
fn unfold_preserves_utf8_in_continuation() {
    assert_eq!(unfold("SUMMARY:憲法\r\n 記念日\r\n"), vec!["SUMMARY:憲法記念日"]);
}

#[test]
fn unfold_drops_trailing_empty_logical_line() {
    assert_eq!(unfold("A:foo\r\n"), vec!["A:foo"]);
}

#[test]
fn unfold_of_empty_input_is_empty() {
    assert!(unfold("").is_empty());
    assert!(unfold("\r\n\r\n").is_empty());
}
