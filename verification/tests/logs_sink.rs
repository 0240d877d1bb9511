use macgyver_rs::logs::sink::{format_line, passes, Sink};
use macgyver_rs::logs::LogRecord;

fn record(label: &str, text: &str) -> LogRecord {
    LogRecord { source_label: label.to_string(), text: text.to_string() }
}

#[test]
fn line_has_context_label_and_text() {
    assert_eq!(format_line("PROD", "prod-api", "started"), "PROD - prod-api - started");
    assert_eq!(format_line("", "", ""), " -  - ");
}

#[test]
fn pattern_is_literal_and_case_sensitive() {
    let sink = Sink::new("CTX".to_string(), Some("ERROR".to_string()));
    assert_eq!(sink.emit(&record("l", "404 error")), None);
    assert_eq!(
        sink.emit(&record("l", "ERROR: timeout")),
        Some("CTX - l - ERROR: timeout".to_string())
    );
}

#[test]
fn pattern_is_no_regular_expression() {
    let sink = Sink::new("CTX".to_string(), Some("a.c".to_string()));
    assert_eq!(sink.emit(&record("l", "abc")), None);
    assert_eq!(sink.emit(&record("l", "xa.cx")), Some("CTX - l - xa.cx".to_string()));
}

#[test]
fn without_pattern_every_record_is_shown() {
    let sink = Sink::new("CTX".to_string(), None);
    assert_eq!(sink.emit(&record("l", "anything\n")), Some("CTX - l - anything".to_string()));
    assert_eq!(sink.emit(&record("l", "")), Some("CTX - l - ".to_string()));
}

#[test]
fn exactly_one_line_end_is_stripped() {
    let sink = Sink::new("CTX".to_string(), None);
    assert_eq!(sink.emit(&record("l", "a\n\n")), Some("CTX - l - a\n".to_string()));
    assert_eq!(sink.emit(&record("l", "a")), Some("CTX - l - a".to_string()));
    assert_eq!(sink.emit(&record("l", "\n")), Some("CTX - l - ".to_string()));
}

#[test]
fn pattern_is_sought_in_the_stripped_text() {
    let sink = Sink::new("CTX".to_string(), Some("end\n".to_string()));
    assert_eq!(sink.emit(&record("l", "the end\n")), None);
    assert_eq!(sink.emit(&record("l", "the end\n\n")), Some("CTX - l - the end\n".to_string()));
}

#[test]
fn empty_pattern_admits_everything() {
    let sink = Sink::new("CTX".to_string(), Some(String::new()));
    assert_eq!(sink.emit(&record("l", "x\n")), Some("CTX - l - x".to_string()));
}

#[test]
fn passes_tells_what_the_filter_admits() {
    assert!(passes(&None, "whatever"));
    assert!(passes(&Some("ERROR".to_string()), "an ERROR here"));
    assert!(!passes(&Some("ERROR".to_string()), "an error here"));
    assert!(!passes(&Some("ERROR".to_string()), ""));
}
