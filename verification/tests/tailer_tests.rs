use vlaude_core::tail::{
    read_incremental, PollOutcome, SessionWatchEvent, SessionWatcher,
};

const LINE1: &str = "{\"type\":\"user\",\"message\":\"hello\"}\n";
const LINE2: &str = "{\"type\":\"assistant\",\"message\":\"world\"}\n";

#[test]
fn test_session_watcher_basic() {
    let watcher = SessionWatcher::new();
    assert_eq!(watcher.session_count(), 0);
    assert!(!watcher.has_sessions());
}

#[test]
fn test_watch_and_unwatch() {
    let mut watcher = SessionWatcher::new();
    watcher.watch_session(
        "test-session",
        "/tmp/test-session.jsonl",
        "/test/project",
        LINE1.len() as u64,
    );
    assert_eq!(watcher.session_count(), 1);
    watcher.unwatch_session("test-session");
    assert_eq!(watcher.session_count(), 0);
}

#[test]
fn test_incremental_read() {
    let mut watcher = SessionWatcher::new();
    let initial = LINE1.len() as u64;
    watcher.watch_session("test-session", "/tmp/test-session.jsonl", "/test/project", initial);

    // First check: nothing appended since the watch began.
    let events = watcher.apply_poll(
        "test-session",
        PollOutcome::Read { file_size: initial, appended: Vec::new() },
    );
    assert!(events.is_empty());

    // New content appended after the recorded offset.
    let events = watcher.apply_poll(
        "test-session",
        PollOutcome::Read {
            file_size: initial + LINE2.len() as u64,
            appended: LINE2.as_bytes().to_vec(),
        },
    );
    assert_eq!(events.len(), 1);
    if let SessionWatchEvent::NewMessage { message, .. } = &events[0] {
        assert_eq!(message["type"], "assistant");
    } else {
        panic!("Expected NewMessage event");
    }
}

#[test]
fn test_two_appended_lines_in_order() {
    let mut watcher = SessionWatcher::new();
    let preexisting = 3 * LINE1.len() as u64;
    watcher.watch_session("S", "/u/a/S.jsonl", "/u/a", preexisting);

    let appended = format!("{}{}", LINE1, LINE2);
    let events = watcher.apply_poll(
        "S",
        PollOutcome::Read {
            file_size: preexisting + appended.len() as u64,
            appended: appended.into_bytes(),
        },
    );
    assert_eq!(events.len(), 2);
    match (&events[0], &events[1]) {
        (
            SessionWatchEvent::NewMessage { message: m1, session_id: s1, .. },
            SessionWatchEvent::NewMessage { message: m2, session_id: s2, .. },
        ) => {
            assert_eq!(s1.as_str(), "S");
            assert_eq!(s2.as_str(), "S");
            assert_eq!(m1["type"], "user");
            assert_eq!(m2["type"], "assistant");
        },
        _ => panic!("Expected two NewMessage events"),
    }

    // Once unwatched, nothing is reported any more.
    watcher.unwatch_session("S");
    let events = watcher.apply_poll(
        "S",
        PollOutcome::Read { file_size: 1000, appended: vec![b'x'] },
    );
    assert!(events.is_empty());
    assert_eq!(watcher.session_count(), 0);
}

#[test]
fn test_partial_line_not_consumed() {
    let data = b"{\"a\":1}\n{\"b\":2".to_vec();
    let (records, consumed) = read_incremental(&data);
    assert_eq!(records.len(), 1);
    assert_eq!(consumed, 8);
    assert_eq!(records[0]["a"], 1);
}

#[test]
fn test_blank_and_malformed_lines_skipped() {
    let data = b"\n   \nnot json\n{\"ok\":true}\n".to_vec();
    let (records, consumed) = read_incremental(&data);
    assert_eq!(records.len(), 1);
    assert_eq!(consumed, data.len());
    assert_eq!(records[0]["ok"], true);
}

#[test]
fn test_truncation_resets_offset() {
    let mut watcher = SessionWatcher::new();
    watcher.watch_session("S", "/u/a/S.jsonl", "/u/a", 100);
    // The file shrank: the watch skips to its end and reports nothing.
    let events = watcher.apply_poll(
        "S",
        PollOutcome::Read { file_size: 10, appended: Vec::new() },
    );
    assert!(events.is_empty());
    // From the reset offset, a fresh append is seen exactly once.
    let events = watcher.apply_poll(
        "S",
        PollOutcome::Read {
            file_size: 10 + LINE1.len() as u64,
            appended: LINE1.as_bytes().to_vec(),
        },
    );
    assert_eq!(events.len(), 1);
}

#[test]
fn test_missing_file_drops_watch() {
    let mut watcher = SessionWatcher::new();
    watcher.watch_session("S", "/u/a/S.jsonl", "/u/a", 0);
    let events = watcher.apply_poll("S", PollOutcome::Missing);
    assert_eq!(events.len(), 1);
    match &events[0] {
        SessionWatchEvent::SessionDeleted { session_id, project_path } => {
            assert_eq!(session_id.as_str(), "S");
            assert_eq!(project_path.as_str(), "/u/a");
        },
        _ => panic!("Expected SessionDeleted event"),
    }
    assert_eq!(watcher.session_count(), 0);
}

#[test]
fn test_read_error_reported() {
    let mut watcher = SessionWatcher::new();
    watcher.watch_session("S", "/u/a/S.jsonl", "/u/a", 0);
    let events = watcher.apply_poll(
        "S",
        PollOutcome::ReadError { message: "permission denied".to_string() },
    );
    assert_eq!(events.len(), 1);
    assert!(matches!(&events[0], SessionWatchEvent::Error { .. }));
    assert_eq!(watcher.session_count(), 1);
}

#[test]
fn test_poll_targets_reports_offsets() {
    let mut watcher = SessionWatcher::new();
    watcher.watch_session("a", "/p/a.jsonl", "/p", 5);
    watcher.watch_session("b", "/p/b.jsonl", "/p", 9);
    let targets = watcher.poll_targets();
    assert_eq!(targets.len(), 2);
    assert_eq!(targets[0].session_id, "a");
    assert_eq!(targets[0].last_position, 5);
    assert_eq!(targets[1].session_id, "b");
    assert_eq!(targets[1].last_position, 9);
}

#[test]
fn test_offset_clamped_at_observed_size() {
    // Even when a caller hands more bytes than the observed size admits,
    // the recorded offset never passes the observed end of the file.
    let mut watcher = SessionWatcher::new();
    watcher.watch_session("S", "/u/a/S.jsonl", "/u/a", 0);
    let events = watcher.apply_poll(
        "S",
        PollOutcome::Read { file_size: 5, appended: b"{}\n{}\n{}\n".to_vec() },
    );
    assert_eq!(events.len(), 3);
    let targets = watcher.poll_targets();
    assert_eq!(targets[0].last_position, 5);
}
