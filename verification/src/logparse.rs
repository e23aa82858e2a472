//! Best-effort parsing of raw log lines into structured records, and the
//! formatting of a record into its display line.
//!
//! A line that parses as a JSON object yields severity, timestamp and message
//! fields through a chain of extraction rules; any other line — empty,
//! malformed, or non-JSON — falls back to the trimmed raw text as the
//! message. Parsing never fails the caller, whatever the input.

use vstd::prelude::*;
use crate::classify::Generation;
use crate::text;

verus! {

/// Whether `key` is present at the top level of `s` parsed as a JSON
/// document, and, when it is, the string it holds (`Some(None)` when the key
/// is present but holds a non-string value; `None` when `s` is not valid
/// JSON or has no such key).
pub uninterp spec fn json_field(s: Seq<char>, key: Seq<char>) -> Option<Option<Seq<char>>>;

/// Like `json_field`, for the field `inner` of the object held by the
/// top-level field `outer`.
pub uninterp spec fn json_field2(
    s: Seq<char>,
    outer: Seq<char>,
    inner: Seq<char>,
) -> Option<Option<Seq<char>>>;

/// The upper-case form of a string, as `str::to_uppercase` computes it.
pub uninterp spec fn upper_of(s: Seq<char>) -> Seq<char>;

/// Relies on serde_json::from_str::<Value>, Value::get and Value::as_str:
/// `get` on a parsed document looks a key up in the top-level object (`None`
/// for non-objects and absent keys), and `as_str` gives the string a
/// `Value::String` holds. The outcome is a function of the document text and
/// the key alone.
#[verifier::external_body]
fn json_field_value(raw: &str, key: &str) -> (r: Option<Option<String>>)
    ensures
        r.deep_view() == json_field(raw@, key@),
{
    match serde_json::from_str::<serde_json::Value>(raw) {
        Ok(v) => v.get(key).map(|x| x.as_str().map(|s| s.to_string())),
        Err(_) => None,
    }
}

/// Relies on serde_json::from_str::<Value>, Value::get and Value::as_str, as
/// `json_field_value` does, one level deeper.
#[verifier::external_body]
fn json_field2_value(raw: &str, outer: &str, inner: &str) -> (r: Option<Option<String>>)
    ensures
        r.deep_view() == json_field2(raw@, outer@, inner@),
{
    match serde_json::from_str::<serde_json::Value>(raw) {
        Ok(v) => v.get(outer).and_then(|f| f.get(inner)).map(|x| x.as_str().map(|s| s.to_string())),
        Err(_) => None,
    }
}

/// Relies on str::to_uppercase: the result depends on the characters alone,
/// and an empty string stays empty.
#[verifier::external_body]
fn to_upper(s: &str) -> (r: String)
    ensures
        r@ == upper_of(s@),
        s@.len() == 0 ==> r@.len() == 0,
{
    s.to_uppercase()
}

/// One structured log record, produced from one raw line by a tail worker
/// and owned by the merge buffer once sent.
pub struct LogRecord {
    pub source_pod: String,
    pub generation: Generation,
    pub timestamp: Option<String>,
    pub severity: Option<String>,
    pub message: String,
}

/// The mathematical value of a `LogRecord`.
pub ghost struct LogRecordV {
    pub source_pod: Seq<char>,
    pub generation: Generation,
    pub timestamp: Option<Seq<char>>,
    pub severity: Option<Seq<char>>,
    pub message: Seq<char>,
}

impl View for LogRecord {
    type V = LogRecordV;

    open spec fn view(&self) -> LogRecordV {
        LogRecordV {
            source_pod: self.source_pod@,
            generation: self.generation,
            timestamp: self.timestamp.deep_view(),
            severity: self.severity.deep_view(),
            message: self.message@,
        }
    }
}

/// The severity of a trimmed line: the first present of the keys `severity`
/// and `level`, upper-cased, and only when that key holds a string.
pub open spec fn severity_spec(raw: Seq<char>) -> Option<Seq<char>> {
    match json_field(raw, "severity"@) {
        Some(v) => match v {
            Some(s) => Some(upper_of(s)),
            None => None,
        },
        None => match json_field(raw, "level"@) {
            Some(v) => match v {
                Some(s) => Some(upper_of(s)),
                None => None,
            },
            None => None,
        },
    }
}

/// The timestamp of a trimmed line: the first present of the keys
/// `timestamp` and `time`, and only when that key holds a string.
pub open spec fn timestamp_spec(raw: Seq<char>) -> Option<Seq<char>> {
    match json_field(raw, "timestamp"@) {
        Some(v) => v,
        None => match json_field(raw, "time"@) {
            Some(v) => v,
            None => None,
        },
    }
}

/// The first present of the keys `message`, `msg`, `textPayload` and the
/// nested `fields.message`.
pub open spec fn message_found(raw: Seq<char>) -> Option<Option<Seq<char>>> {
    match json_field(raw, "message"@) {
        Some(v) => Some(v),
        None => match json_field(raw, "msg"@) {
            Some(v) => Some(v),
            None => match json_field(raw, "textPayload"@) {
                Some(v) => Some(v),
                None => json_field2(raw, "fields"@, "message"@),
            },
        },
    }
}

/// The message of a trimmed line: the extracted message field when one is
/// present and holds a string, else the trimmed raw line itself.
pub open spec fn message_spec(raw: Seq<char>) -> Seq<char> {
    match message_found(raw) {
        Some(v) => match v {
            Some(m) => m,
            None => raw,
        },
        None => raw,
    }
}

/// What parsing one raw line yields, with the worker's pod name and
/// generation attached.
pub open spec fn parse_line_spec(
    line: Seq<char>,
    pod: Seq<char>,
    generation: Generation,
) -> LogRecordV {
    let raw = text::trim_seq(line);
    LogRecordV {
        source_pod: pod,
        generation,
        timestamp: timestamp_spec(raw),
        severity: severity_spec(raw),
        message: message_spec(raw),
    }
}

/// Parses one raw log line. Total: every input, empty or malformed included,
/// yields a record, never an error.
pub fn parse_line(line: &str, pod: String, generation: Generation) -> (r: LogRecord)
    ensures
        r@ == parse_line_spec(line@, pod@, generation),
{
    let trimmed = text::trim_str(line);

    let severity_raw = match json_field_value(trimmed, "severity") {
        Some(v) => Some(v),
        None => json_field_value(trimmed, "level"),
    };
    let severity = match severity_raw {
        Some(Some(s)) => Some(to_upper(s.as_str())),
        _ => None,
    };

    let timestamp = match json_field_value(trimmed, "timestamp") {
        Some(v) => v,
        None => match json_field_value(trimmed, "time") {
            Some(v) => v,
            None => None,
        },
    };

    let found = match json_field_value(trimmed, "message") {
        Some(v) => Some(v),
        None => match json_field_value(trimmed, "msg") {
            Some(v) => Some(v),
            None => match json_field_value(trimmed, "textPayload") {
                Some(v) => Some(v),
                None => json_field2_value(trimmed, "fields", "message"),
            },
        },
    };
    let message = match found {
        Some(Some(m)) => m,
        _ => trimmed.to_owned(),
    };

    LogRecord { source_pod: pod, generation, timestamp, severity, message }
}

/// The record a worker emits when its log stream fails to open or read:
/// exactly one synthetic line of severity `ERROR` naming the failure.
pub fn stream_error_record(pod: String, generation: Generation, detail: &str) -> (r: LogRecord)
    ensures
        r@.source_pod == pod@,
        r@.generation == generation,
        r@.timestamp is None,
        r@.severity == Some("ERROR"@),
        r@.message == "Error streaming logs: "@ + detail@,
{
    let mut message = String::from_str("Error streaming logs: ");
    message.append(detail);
    LogRecord {
        source_pod: pod,
        generation,
        timestamp: None,
        severity: Some(String::from_str("ERROR")),
        message,
    }
}

/// The display line of a record: the last `-`-separated segment of the pod
/// name in brackets, then the clock part of the timestamp when one is
/// present, then the severity (`INFO` when absent), then the message.
pub open spec fn display_line_spec(r: LogRecordV) -> Seq<char> {
    let pod_id = text::tail_after_last(r.source_pod, '-');
    let clock = match r.timestamp {
        Some(t) => text::head_before_first(text::tail_after_last(t, 'T'), '.') + " "@,
        None => Seq::<char>::empty(),
    };
    let level = match r.severity {
        Some(s) => s,
        None => "INFO"@,
    };
    "["@ + pod_id + "] "@ + clock + level + " "@ + r.message
}

impl LogRecord {
    /// Formats the record for the display buffers.
    pub fn display_line(&self) -> (r: String)
        ensures
            r@ == display_line_spec(self@),
    {
        let mut out = String::from_str("[");
        out.append(text::last_segment(self.source_pod.as_str(), '-'));
        out.append("] ");
        match &self.timestamp {
            Some(t) => {
                let after_date = text::last_segment(t.as_str(), 'T');
                let clock = text::first_segment(after_date, '.');
                out.append(clock);
                out.append(" ");
            },
            None => {},
        }
        match &self.severity {
            Some(s) => out.append(s.as_str()),
            None => out.append("INFO"),
        }
        out.append(" ");
        out.append(self.message.as_str());
        out
    }
}

} // verus!
