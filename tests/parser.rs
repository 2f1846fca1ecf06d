use ue_log_tail::parser::{classify_line, parse_line, parse_log_components, Severity};

#[test]
fn category_and_timestamp_example() {
    let l = parse_line("[2024.01.01-12.00.00:000][0]LogRenderer: Warning: shader compile slow");
    assert_eq!(l.timestamp.as_deref(), Some("2024.01.01-12.00.00:000"));
    assert_eq!(l.category.as_deref(), Some("LogRenderer"));
    assert_eq!(l.message, "Warning: shader compile slow");
    assert_eq!(l.severity, Severity::Warning);
    assert_eq!(l.text, "[2024.01.01-12.00.00:000][0]LogRenderer: Warning: shader compile slow");
}

#[test]
fn plain_line_keeps_raw_text_as_message() {
    let l = parse_line("  just some text without structure");
    assert_eq!(l.timestamp, None);
    assert_eq!(l.category, None);
    assert_eq!(l.message, "  just some text without structure");
    assert_eq!(l.severity, Severity::Normal);
}

#[test]
fn spaced_token_before_colon_is_no_category() {
    let (ts, cat, msg) = parse_log_components("[12:00] not a category: text");
    assert_eq!(ts.as_deref(), Some("12:00"));
    assert_eq!(cat, None);
    assert_eq!(msg, "not a category: text");
}

#[test]
fn category_without_timestamp_and_repeated_colons() {
    let (ts, cat, msg) = parse_log_components("LogInit:   Display ready");
    assert_eq!(ts, None);
    assert_eq!(cat.as_deref(), Some("LogInit"));
    assert_eq!(msg, "Display ready");
    let (_, cat, msg) = parse_log_components("A::b");
    assert_eq!(cat.as_deref(), Some("A"));
    assert_eq!(msg, ":b");
}

#[test]
fn leading_whitespace_without_timestamp_is_no_category() {
    let (ts, cat, msg) = parse_log_components(" Cat: x");
    assert_eq!(ts, None);
    assert_eq!(cat, None);
    assert_eq!(msg, " Cat: x");
}

#[test]
fn empty_token_before_colon_is_no_category() {
    let (_, cat, msg) = parse_log_components(": leading colon");
    assert_eq!(cat, None);
    assert_eq!(msg, ": leading colon");
}

#[test]
fn unclosed_bracket_is_no_timestamp() {
    let (ts, cat, msg) = parse_log_components("[unclosed LogX: y");
    assert_eq!(ts, None);
    assert_eq!(cat, None);
    assert_eq!(msg, "[unclosed LogX: y");
}

#[test]
fn second_bracket_group_is_skipped_with_whitespace() {
    let (ts, cat, msg) = parse_log_components("[t1] [ 42 ]  LogNet: hello");
    assert_eq!(ts.as_deref(), Some("t1"));
    assert_eq!(cat.as_deref(), Some("LogNet"));
    assert_eq!(msg, "hello");
}

#[test]
fn error_wins_over_warning_case_insensitive() {
    assert_eq!(classify_line("WARNING and ERROR both"), Severity::Error);
    assert_eq!(classify_line("a Warning here"), Severity::Warning);
    assert_eq!(classify_line("all good"), Severity::Normal);
    assert_eq!(classify_line("LogTemp: ErRoR"), Severity::Error);
}

#[test]
fn reparsing_message_does_not_strip_again() {
    let first = parse_line("[2024.01.01-12.00.00:000][7]LogCook: Display: Cooked");
    assert_eq!(first.message, "Display: Cooked");
    let second = parse_line(&first.message);
    assert_eq!(second.timestamp, None);
    assert_eq!(second.category.as_deref(), Some("Display"));
    assert_eq!(second.message, "Cooked");
    let plain = parse_line("nothing to strip here");
    let again = parse_line(&plain.message);
    assert_eq!(again.message, plain.message);
    assert_eq!(again.category, None);
    assert_eq!(again.timestamp, None);
}

#[test]
fn display_text_prefers_message_when_parsed() {
    let a = parse_line("LogA: body");
    assert_eq!(a.display_text(), "body");
    let b = parse_line("no fields");
    assert_eq!(b.display_text(), "no fields");
}
