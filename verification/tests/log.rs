use switchyard::log::{
    inclusive_split_ok, line_spans_ok, level_color, line_spans, split_leading_whitespace, split_once_inclusive_whitespace,
    LogBufferInner, SpanStyle, TermColor, MAX_LOG_LINES,
};

#[test]
fn splits_after_first_whitespace() {
    assert_eq!(
        split_once_inclusive_whitespace("2024-01-01T00:00:00Z  INFO hello"),
        Some(("2024-01-01T00:00:00Z ", " INFO hello"))
    );
    assert_eq!(split_once_inclusive_whitespace("nospace"), None);
    assert_eq!(split_once_inclusive_whitespace("a\tb"), Some(("a\t", "b")));
}

#[test]
fn splits_leading_whitespace() {
    assert_eq!(split_leading_whitespace("  INFO x"), Some(("  ", "INFO x")));
    assert_eq!(split_leading_whitespace("INFO"), Some(("", "INFO")));
    assert_eq!(split_leading_whitespace("   "), None);
    assert_eq!(split_leading_whitespace(""), None);
}

#[test]
fn colours_log_levels() {
    assert_eq!(level_color("ERROR"), TermColor::Red);
    assert_eq!(level_color(" WARN "), TermColor::Yellow);
    assert_eq!(level_color("INFO "), TermColor::Green);
    assert_eq!(level_color("DEBUG"), TermColor::Blue);
    assert_eq!(level_color("TRACE"), TermColor::Magenta);
    assert_eq!(level_color("info"), TermColor::White);
}

#[test]
fn cuts_a_log_line_into_styled_pieces() {
    let spans = line_spans("2024-01-01T00:00:00Z  WARN something odd");
    let pieces: Vec<(String, SpanStyle)> =
        spans.into_iter().map(|s| (s.text, s.style)).collect();
    assert_eq!(
        pieces,
        vec![
            ("2024-01-01T00:00:00Z ".to_string(), SpanStyle::Colored(TermColor::DarkGray)),
            (" ".to_string(), SpanStyle::Plain),
            ("WARN ".to_string(), SpanStyle::Colored(TermColor::Yellow)),
            ("something odd".to_string(), SpanStyle::Colored(TermColor::White)),
        ]
    );
}

#[test]
fn draws_unsplittable_lines_whole() {
    let spans = line_spans("plain");
    assert_eq!(spans.len(), 1);
    assert_eq!(spans[0].text, "plain");
    assert_eq!(spans[0].style, SpanStyle::Colored(TermColor::White));

    let spans = line_spans("stamp rest");
    let pieces: Vec<(String, SpanStyle)> =
        spans.into_iter().map(|s| (s.text, s.style)).collect();
    assert_eq!(
        pieces,
        vec![
            ("stamp ".to_string(), SpanStyle::Colored(TermColor::DarkGray)),
            ("rest".to_string(), SpanStyle::Colored(TermColor::White)),
        ]
    );
}

#[test]
fn buffer_collects_lines_and_the_current_line() {
    let mut buffer = LogBufferInner::new();
    buffer.write_text("first\nsec");
    assert_eq!(buffer.lines(), vec!["first", "sec"]);
    buffer.write_text("ond\n");
    assert_eq!(buffer.lines(), vec!["first", "second"]);
    assert_eq!(buffer.current, "");
}

#[test]
fn buffer_keeps_only_the_newest_lines() {
    let mut buffer = LogBufferInner::new();
    for i in 0..(MAX_LOG_LINES + 5) {
        buffer.write_text(&format!("line {i}\n"));
    }
    let lines = buffer.lines();
    assert_eq!(lines.len(), MAX_LOG_LINES);
    assert_eq!(lines[0], "line 5");
    assert_eq!(lines[MAX_LOG_LINES - 1], format!("line {}", MAX_LOG_LINES + 4));
}

#[test]
fn buffer_takes_bytes_and_replaces_invalid_utf8() {
    let mut buffer = LogBufferInner::new();
    assert_eq!(buffer.write("héllo\n".as_bytes()), 7);
    assert_eq!(buffer.write(&[b'a', 0xff, b'\n']), 3);
    assert_eq!(buffer.lines(), vec!["héllo".to_string(), "a\u{fffd}".to_string()]);
}

#[test]
fn tells_which_lines_can_be_coloured() {
    assert!(line_spans_ok("2024-01-01T00:00:00Z  INFO hello"));
    assert!(line_spans_ok("plain"));
    assert!(!line_spans_ok("a\u{3000}b"));
    assert!(!line_spans_ok("stamp  INFO\u{3000}message"));
    assert!(inclusive_split_ok("no-space"));
    assert!(!inclusive_split_ok("x\u{2003}y"));
}

#[test]
fn writes_split_at_newlines_across_calls() {
    let mut buffer = LogBufferInner::new();
    buffer.write_text("a\n");
    buffer.write_text("\nb");
    buffer.write_text("c");
    assert_eq!(buffer.lines(), vec!["a".to_string(), String::new(), "bc".to_string()]);
}
