use davit::buffer::GenerationBuffer;
use davit::classify::{classify, Generation};
use davit::logparse::LogRecord;
use davit::render::{header_line, line_style, pod_line, LogStyle};
use davit::session::{InputEvent, LoopState, PodRecord, PodSnapshot, Session};

fn snapshot(name: &str, phase: &str, image: Option<&str>) -> PodSnapshot {
    PodSnapshot {
        name: Some(String::from(name)),
        phase: Some(String::from(phase)),
        image: image.map(String::from),
    }
}

fn new_session() -> Session {
    Session::new(
        String::from("app"),
        String::from("staging"),
        String::from("v2"),
        None,
        None,
        String::from("main"),
    )
}

#[test]
fn classify_contains_tag_is_new() {
    assert_eq!(classify("gcr.io/proj/app:v2", "v2"), Generation::New);
}

#[test]
fn classify_without_tag_is_old() {
    assert_eq!(classify("gcr.io/proj/app:v1", "v2"), Generation::Old);
}

#[test]
fn classify_is_deterministic() {
    let a = classify("gcr.io/proj/app:v10", "v1");
    let b = classify("gcr.io/proj/app:v10", "v1");
    assert_eq!(a, b);
    // substring containment: v1 also matches the v10 tag
    assert_eq!(a, Generation::New);
}

#[test]
fn discovery_spawns_each_pod_at_most_once() {
    let mut s = new_session();
    let first = s.discovery_tick(Some(vec![
        snapshot("web-1", "Running", Some("gcr.io/proj/app:v2")),
        snapshot("web-2", "Running", Some("gcr.io/proj/app:v1")),
    ]));
    assert_eq!(first.len(), 2);
    assert_eq!(first[0].pod_name, "web-1");
    assert_eq!(first[0].generation, Generation::New);
    assert_eq!(first[1].pod_name, "web-2");
    assert_eq!(first[1].generation, Generation::Old);

    // The same pods listed again: nothing new is spawned.
    let second = s.discovery_tick(Some(vec![
        snapshot("web-1", "Running", Some("gcr.io/proj/app:v2")),
        snapshot("web-2", "Running", Some("gcr.io/proj/app:v1")),
        snapshot("web-3", "Pending", Some("gcr.io/proj/app:v2")),
    ]));
    assert!(second.is_empty());

    // A pod only spawns once it is Running.
    let third = s.discovery_tick(Some(vec![snapshot("web-3", "Running", Some(
        "gcr.io/proj/app:v2",
    ))]));
    assert_eq!(third.len(), 1);
    assert_eq!(third[0].pod_name, "web-3");
}

#[test]
fn discovery_replaces_roster_wholesale() {
    let mut s = new_session();
    s.discovery_tick(Some(vec![
        snapshot("web-1", "Running", Some("gcr.io/proj/app:v2")),
        snapshot("web-2", "Pending", None),
    ]));
    assert_eq!(s.pods.len(), 2);
    assert_eq!(s.pods[1].name, "web-2");
    assert_eq!(s.pods[1].generation, Generation::Old);
    s.discovery_tick(Some(vec![snapshot("web-9", "Running", Some("other:v1"))]));
    assert_eq!(s.pods.len(), 1);
    assert_eq!(s.pods[0].name, "web-9");
}

#[test]
fn discovery_skips_failed_tick() {
    let mut s = new_session();
    s.discovery_tick(Some(vec![snapshot("web-1", "Running", Some("gcr.io/proj/app:v2"))]));
    let spawns = s.discovery_tick(None);
    assert!(spawns.is_empty());
    assert_eq!(s.pods.len(), 1);
    assert_eq!(s.pods[0].name, "web-1");
}

#[test]
fn discovery_defaults_for_missing_fields() {
    let mut s = new_session();
    s.discovery_tick(Some(vec![PodSnapshot { name: None, phase: None, image: None }]));
    assert_eq!(s.pods.len(), 1);
    assert_eq!(s.pods[0].name, "");
    assert_eq!(s.pods[0].phase, "Unknown");
    assert_eq!(s.pods[0].generation, Generation::Old);
}

#[test]
fn ingest_routes_by_generation() {
    let mut s = new_session();
    s.ingest_record(LogRecord {
        source_pod: String::from("web-1"),
        generation: Generation::New,
        timestamp: None,
        severity: None,
        message: String::from("new side"),
    });
    s.ingest_record(LogRecord {
        source_pod: String::from("web-2"),
        generation: Generation::Old,
        timestamp: None,
        severity: None,
        message: String::from("old side"),
    });
    assert_eq!(s.new_buffer.len(), 1);
    assert_eq!(s.old_buffer.len(), 1);
    assert_eq!(s.new_buffer.entry(0).as_str(), "[1] INFO new side");
    assert_eq!(s.old_buffer.entry(0).as_str(), "[2] INFO old side");
}

#[test]
fn buffer_evicts_oldest_at_capacity() {
    let mut b = GenerationBuffer::new();
    let mut i = 0u32;
    while i <= 100 {
        b.append_line(format!("entry-{}", i));
        i += 1;
    }
    // 101 appends: the first entry is gone, the last is present.
    assert_eq!(b.len(), 100);
    assert!(!b.contains_line("entry-0"));
    assert!(b.contains_line("entry-100"));
    assert_eq!(b.entry(0).as_str(), "entry-1");
    assert_eq!(b.entry(99).as_str(), "entry-100");
}

#[test]
fn visible_lines_newest_first_at_most_fifty() {
    let mut b = GenerationBuffer::new();
    let mut i = 0u32;
    while i < 60 {
        b.append_line(format!("line-{}", i));
        i += 1;
    }
    let v = b.visible_lines();
    assert_eq!(v.len(), 50);
    assert_eq!(v[0], "line-59");
    assert_eq!(v[49], "line-10");

    let mut small = GenerationBuffer::new();
    small.append_line(String::from("only"));
    let v = small.visible_lines();
    assert_eq!(v, vec![String::from("only")]);
}

#[test]
fn quit_key_terminates_running_loop() {
    let mut s = new_session();
    assert_eq!(s.state, LoopState::Running);
    let quit = s.handle_event(InputEvent::Key('q'));
    assert!(quit);
    assert_eq!(s.state, LoopState::Terminated);
}

#[test]
fn other_events_are_ignored() {
    let mut s = new_session();
    assert!(!s.handle_event(InputEvent::Key('x')));
    assert!(!s.handle_event(InputEvent::Other));
    assert_eq!(s.state, LoopState::Running);
}

#[test]
fn pod_line_shows_generation_prefix() {
    let p = PodRecord {
        name: String::from("web-1"),
        phase: String::from("Running"),
        generation: Generation::New,
    };
    assert_eq!(pod_line(&p), " [NEW] web-1 -> Running");
    let p = PodRecord {
        name: String::from("web-2"),
        phase: String::from("Terminating"),
        generation: Generation::Old,
    };
    assert_eq!(pod_line(&p), " [OLD] web-2 -> Terminating");
}

#[test]
fn header_line_names_rollout() {
    assert_eq!(
        header_line("app", "staging", "v2"),
        " Davit Rollout: app | Env: staging | Tag: v2 (Press 'q' to exit)"
    );
}

#[test]
fn log_style_by_severity_words() {
    assert_eq!(line_style("[a] ERROR boom"), LogStyle::Error);
    assert_eq!(line_style("[a] FATAL boom"), LogStyle::Error);
    assert_eq!(line_style("[a] WARN careful"), LogStyle::Warn);
    assert_eq!(line_style("[a] INFO fine"), LogStyle::Plain);
}
