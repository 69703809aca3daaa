use logpipe::formatters::{JsonFormatter, TextFormatter};

#[test]
fn test_text_formatter() {
    let formatter = TextFormatter::new(Some("{level}: {message}".to_string()));
    let formatted = formatter.format(
        "INFO",
        "Test message",
        "{\"key\":\"value\"}",
        "2024-01-01T00:00:00+00:00",
    );
    assert_eq!(formatted, "INFO: Test message");
}

#[test]
fn text_formatter_default_pattern_substitutes_all_placeholders() {
    let formatter = TextFormatter::new(None);
    let formatted = formatter.format("WARN", "disk low", "{}", "T0");
    assert_eq!(formatted, "T0 [WARN] - disk low - {}");
}

#[test]
fn json_formatter_renders_members_in_order() {
    let formatter = JsonFormatter;
    let formatted = formatter.format("INFO", "m", "{}", "T0");
    assert_eq!(
        formatted,
        "{\"timestamp\":\"T0\",\"level\":\"INFO\",\"message\":\"m\",\"metadata\":{}}"
    );
}

#[test]
fn json_formatter_escapes_quotes_and_backslashes() {
    let formatter = JsonFormatter;
    let formatted = formatter.format("INFO", "say \"hi\" \\ bye", "{}", "T0");
    assert_eq!(
        formatted,
        "{\"timestamp\":\"T0\",\"level\":\"INFO\",\"message\":\"say \\\"hi\\\" \\\\ bye\",\"metadata\":{}}"
    );
}

#[test]
fn json_formatter_escapes_control_characters() {
    let formatter = JsonFormatter;
    let formatted = formatter.format("INFO", "line1\nline2\ttab\rdone", "{}", "T0");
    assert_eq!(
        formatted,
        "{\"timestamp\":\"T0\",\"level\":\"INFO\",\"message\":\"line1\\u000aline2\\u0009tab\\u000ddone\",\"metadata\":{}}"
    );
}
