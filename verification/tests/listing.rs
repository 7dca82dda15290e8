use session_logs::index::{list_sessions, SessionFile};

fn file(name: &str, lines: Vec<&str>) -> SessionFile {
    SessionFile {
        name: String::from(name),
        lines: lines.into_iter().map(String::from).collect(),
    }
}

fn meta_line(id: &str, cwd: &str, ts: &str) -> String {
    format!(
        "{{\"type\":\"session_meta\",\"timestamp\":\"{}\",\"payload\":{{\"id\":\"{}\",\"cwd\":\"{}\",\"timestamp\":\"{}\"}}}}",
        ts, id, cwd, ts
    )
}

fn user_line(ts: &str, text: &str) -> String {
    format!(
        "{{\"type\":\"response_item\",\"timestamp\":\"{}\",\"payload\":{{\"type\":\"message\",\"role\":\"user\",\"content\":[{{\"type\":\"input_text\",\"text\":\"{}\"}}]}}}}",
        ts, text
    )
}

fn assistant_line(ts: &str, text: &str) -> String {
    format!(
        "{{\"type\":\"response_item\",\"timestamp\":\"{}\",\"payload\":{{\"type\":\"message\",\"role\":\"assistant\",\"content\":[{{\"type\":\"output_text\",\"text\":\"{}\"}}]}}}}",
        ts, text
    )
}

#[test]
fn missing_root_yields_empty_listing() {
    let r = list_sessions(None, "/ws", None);
    assert!(r.is_empty());
}

#[test]
fn empty_file_set_yields_empty_listing() {
    let files: Vec<SessionFile> = Vec::new();
    let r = list_sessions(Some(&files), "/ws", None);
    assert!(r.is_empty());
}

#[test]
fn one_session_with_meta_and_message() {
    let f = file(
        "a.jsonl",
        vec![
            "{\"type\":\"session_meta\",\"timestamp\":\"2024-01-01T00:00:00Z\",\"payload\":{\"id\":\"abc\",\"cwd\":\"/ws\",\"timestamp\":\"2024-01-01T00:00:00Z\"}}",
            "{\"type\":\"response_item\",\"timestamp\":\"2024-01-01T00:05:00Z\",\"payload\":{\"type\":\"message\",\"role\":\"user\",\"content\":[{\"type\":\"input_text\",\"text\":\"hi\"}]}}",
        ],
    );
    let files = vec![f];
    let r = list_sessions(Some(&files), "/ws", None);
    assert_eq!(r.len(), 1);
    assert_eq!(r[0].id, "abc");
    assert_eq!(r[0].cwd, "/ws");
    assert_eq!(r[0].preview, "hi");
    assert_eq!(r[0].created_at, Some(1_704_067_200_000));
    assert_eq!(r[0].updated_at, Some(1_704_067_500_000));
    assert_eq!(r[0].source, "session");
}

#[test]
fn assistant_text_wins_preview_over_user_text() {
    let f = file(
        "a.jsonl",
        vec![
            &meta_line("abc", "/ws", "2024-01-01T00:00:00Z"),
            &user_line("2024-01-01T00:01:00Z", "question"),
            &assistant_line("2024-01-01T00:02:00Z", "answer one"),
            &assistant_line("2024-01-01T00:03:00Z", "answer two"),
        ],
    );
    let files = vec![f];
    let r = list_sessions(Some(&files), "/ws", None);
    assert_eq!(r.len(), 1);
    assert_eq!(r[0].preview, "answer two");
}

#[test]
fn blank_message_does_not_update_preview() {
    let f = file(
        "a.jsonl",
        vec![
            &meta_line("abc", "/ws", "2024-01-01T00:00:00Z"),
            &assistant_line("2024-01-01T00:02:00Z", "real answer"),
            &assistant_line("2024-01-01T00:03:00Z", "   "),
        ],
    );
    let files = vec![f];
    let r = list_sessions(Some(&files), "/ws", None);
    assert_eq!(r.len(), 1);
    assert_eq!(r[0].preview, "real answer");
}

#[test]
fn later_session_meta_cwd_wins() {
    let f = file(
        "a.jsonl",
        vec![
            &meta_line("abc", "/first", "2024-01-01T00:00:00Z"),
            &meta_line("abc", "/second", "2024-01-01T00:01:00Z"),
        ],
    );
    let files = vec![f];
    assert_eq!(list_sessions(Some(&files), "/second", None).len(), 1);
    assert!(list_sessions(Some(&files), "/first", None).is_empty());
}

#[test]
fn workspace_filter_is_case_and_slash_insensitive() {
    let f = file("a.jsonl", vec![&meta_line("abc", "C:/Work/Proj", "2024-01-01T00:00:00Z")]);
    let files = vec![f];
    let r = list_sessions(Some(&files), "c:\\WORK\\proj", None);
    assert_eq!(r.len(), 1);
    // the caller's own spelling is echoed back
    assert_eq!(r[0].cwd, "c:\\WORK\\proj");
    assert!(list_sessions(Some(&files), "c:\\other", None).is_empty());
}

#[test]
fn files_without_cwd_or_id_are_skipped() {
    let no_meta = file("a.jsonl", vec![&user_line("2024-01-01T00:01:00Z", "hi")]);
    let no_id = file(
        "b.jsonl",
        vec!["{\"type\":\"session_meta\",\"payload\":{\"cwd\":\"/ws\"}}"],
    );
    let files = vec![no_meta, no_id];
    assert!(list_sessions(Some(&files), "/ws", None).is_empty());
}

#[test]
fn unparsable_lines_are_skipped() {
    let f = file(
        "a.jsonl",
        vec![
            "this is not json",
            &meta_line("abc", "/ws", "2024-01-01T00:00:00Z"),
            "{truncated",
        ],
    );
    let files = vec![f];
    assert_eq!(list_sessions(Some(&files), "/ws", None).len(), 1);
}

#[test]
fn sessions_sort_newest_first() {
    let older = file("old.jsonl", vec![&meta_line("old", "/ws", "2024-01-01T00:00:00Z")]);
    let newer = file("new.jsonl", vec![&meta_line("new", "/ws", "2024-06-01T00:00:00Z")]);
    let files = vec![older, newer];
    let r = list_sessions(Some(&files), "/ws", None);
    assert_eq!(r.len(), 2);
    assert_eq!(r[0].id, "new");
    assert_eq!(r[1].id, "old");
}

#[test]
fn limit_of_one_keeps_the_most_recent() {
    let older = file("old.jsonl", vec![&meta_line("old", "/ws", "2024-01-01T00:00:00Z")]);
    let newer = file("new.jsonl", vec![&meta_line("new", "/ws", "2024-06-01T00:00:00Z")]);
    let files = vec![older, newer];
    let r = list_sessions(Some(&files), "/ws", Some(1));
    assert_eq!(r.len(), 1);
    assert_eq!(r[0].id, "new");
}

#[test]
fn limit_larger_than_result_keeps_everything() {
    let f = file("a.jsonl", vec![&meta_line("abc", "/ws", "2024-01-01T00:00:00Z")]);
    let files = vec![f];
    assert_eq!(list_sessions(Some(&files), "/ws", Some(10)).len(), 1);
    assert_eq!(list_sessions(Some(&files), "/ws", Some(0)).len(), 0);
}

#[test]
fn session_without_any_timestamp_sorts_last() {
    let dated = file("a.jsonl", vec![&meta_line("dated", "/ws", "2024-01-01T00:00:00Z")]);
    let undated = file(
        "b.jsonl",
        vec!["{\"type\":\"session_meta\",\"payload\":{\"id\":\"undated\",\"cwd\":\"/ws\"}}"],
    );
    let files = vec![undated, dated];
    let r = list_sessions(Some(&files), "/ws", None);
    assert_eq!(r.len(), 2);
    assert_eq!(r[0].id, "dated");
    assert_eq!(r[1].id, "undated");
    assert_eq!(r[1].updated_at, None);
}

#[test]
fn numeric_timestamps_feed_the_running_maximum() {
    let f = file(
        "a.jsonl",
        vec![
            "{\"type\":\"session_meta\",\"timestamp\":1704067200,\"payload\":{\"id\":\"abc\",\"cwd\":\"/ws\",\"timestamp\":1704067200}}",
            "{\"type\":\"other\",\"timestamp\":1704067500000}",
        ],
    );
    let files = vec![f];
    let r = list_sessions(Some(&files), "/ws", None);
    assert_eq!(r.len(), 1);
    assert_eq!(r[0].created_at, Some(1_704_067_200_000));
    assert_eq!(r[0].updated_at, Some(1_704_067_500_000));
}
