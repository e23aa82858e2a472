use davit::classify::Generation;
use davit::logparse::{parse_line, stream_error_record, LogRecord};

fn parsed(line: &str) -> LogRecord {
    parse_line(line, String::from("pod-a"), Generation::New)
}

#[test]
fn json_line_with_severity_message_timestamp() {
    let r = parsed(r#"{"severity":"ERROR","message":"boom","timestamp":"2024-01-01T10:00:00Z"}"#);
    assert_eq!(r.severity.as_deref(), Some("ERROR"));
    assert_eq!(r.message, "boom");
    assert_eq!(r.timestamp.as_deref(), Some("2024-01-01T10:00:00Z"));
}

#[test]
fn plain_text_line_keeps_raw_message() {
    let r = parsed("plain text");
    assert!(r.severity.is_none());
    assert!(r.timestamp.is_none());
    assert_eq!(r.message, "plain text");
}

#[test]
fn empty_line_parses_to_empty_message() {
    let r = parsed("");
    assert!(r.severity.is_none());
    assert!(r.timestamp.is_none());
    assert_eq!(r.message, "");
}

#[test]
fn malformed_json_falls_back_to_raw_line() {
    let r = parsed(r#"{"severity": "ERROR", "message": "#);
    assert!(r.severity.is_none());
    assert_eq!(r.message, r#"{"severity": "ERROR", "message":"#);
}

#[test]
fn level_key_is_second_choice_and_upper_cased() {
    let r = parsed(r#"{"level":"warn","msg":"low disk"}"#);
    assert_eq!(r.severity.as_deref(), Some("WARN"));
    assert_eq!(r.message, "low disk");
}

#[test]
fn severity_key_shadows_level_even_when_not_a_string() {
    let r = parsed(r#"{"severity":3,"level":"info","message":"m"}"#);
    assert!(r.severity.is_none());
    assert_eq!(r.message, "m");
}

#[test]
fn time_key_is_second_timestamp_choice() {
    let r = parsed(r#"{"time":"2024-02-02T01:02:03Z","message":"m"}"#);
    assert_eq!(r.timestamp.as_deref(), Some("2024-02-02T01:02:03Z"));
}

#[test]
fn text_payload_and_nested_fields_message() {
    let r = parsed(r#"{"textPayload":"from gcp"}"#);
    assert_eq!(r.message, "from gcp");
    let r = parsed(r#"{"fields":{"message":"nested"}}"#);
    assert_eq!(r.message, "nested");
}

#[test]
fn json_without_message_keys_keeps_trimmed_line() {
    let r = parsed("  {\"other\":1}  ");
    assert_eq!(r.message, "{\"other\":1}");
}

#[test]
fn line_is_trimmed_before_parsing() {
    let r = parsed("   spaced out \t");
    assert_eq!(r.message, "spaced out");
}

#[test]
fn record_keeps_pod_and_generation() {
    let r = parse_line("x", String::from("web-42"), Generation::Old);
    assert_eq!(r.source_pod, "web-42");
    assert_eq!(r.generation, Generation::Old);
}

#[test]
fn display_line_formats_pod_clock_level_message() {
    let r = LogRecord {
        source_pod: String::from("my-app-5c9d-xyz89"),
        generation: Generation::New,
        timestamp: Some(String::from("2024-01-01T10:00:00.123Z")),
        severity: Some(String::from("WARN")),
        message: String::from("hello"),
    };
    assert_eq!(r.display_line(), "[xyz89] 10:00:00 WARN hello");
}

#[test]
fn display_line_defaults_to_info_without_timestamp() {
    let r = LogRecord {
        source_pod: String::from("solo"),
        generation: Generation::Old,
        timestamp: None,
        severity: None,
        message: String::from("m"),
    };
    assert_eq!(r.display_line(), "[solo] INFO m");
}

#[test]
fn stream_error_record_is_one_error_line() {
    let r = stream_error_record(String::from("pod-b"), Generation::Old, "connection reset");
    assert_eq!(r.severity.as_deref(), Some("ERROR"));
    assert!(r.timestamp.is_none());
    assert_eq!(r.message, "Error streaming logs: connection reset");
    assert_eq!(r.source_pod, "pod-b");
    assert_eq!(r.generation, Generation::Old);
}
