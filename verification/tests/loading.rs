use session_logs::index::SessionFile;
use session_logs::load::{find_session_file, load_session, ThreadItem};

fn file(name: &str, lines: Vec<&str>) -> SessionFile {
    SessionFile {
        name: String::from(name),
        lines: lines.into_iter().map(String::from).collect(),
    }
}

fn meta_line(cwd: &str, ts: &str) -> String {
    format!(
        "{{\"type\":\"session_meta\",\"timestamp\":\"{}\",\"payload\":{{\"id\":\"abc\",\"cwd\":\"{}\",\"timestamp\":\"{}\"}}}}",
        ts, cwd, ts
    )
}

fn message_line(role: &str, text: &str, id: Option<&str>) -> String {
    let id_part = match id {
        Some(i) => format!("\"id\":\"{}\",", i),
        None => String::new(),
    };
    format!(
        "{{\"type\":\"response_item\",\"payload\":{{{}\"type\":\"message\",\"role\":\"{}\",\"content\":[{{\"type\":\"input_text\",\"text\":\"{}\"}}]}}}}",
        id_part, role, text
    )
}

#[test]
fn missing_root_yields_none() {
    assert!(load_session(None, "abc").is_none());
}

#[test]
fn unmatched_identifier_yields_none() {
    let files = vec![file("rollout-xyz.jsonl", vec![])];
    assert!(load_session(Some(&files), "abc").is_none());
}

#[test]
fn reconstructs_items_in_file_order() {
    let f = file(
        "rollout-abc.jsonl",
        vec![
            &meta_line("/ws", "2024-01-01T00:00:00Z"),
            &message_line("user", "question", Some("u1")),
            &message_line("assistant", "answer", Some("a1")),
            "{\"type\":\"response_item\",\"payload\":{\"type\":\"reasoning\",\"summary\":\"sum\",\"content\":\"why\"}}",
        ],
    );
    let files = vec![f];
    let t = load_session(Some(&files), "abc").expect("thread");
    assert_eq!(t.id, "abc");
    assert_eq!(t.cwd.as_deref(), Some("/ws"));
    assert_eq!(t.preview, "answer");
    assert_eq!(t.created_at, Some(1_704_067_200_000));
    assert_eq!(t.updated_at, Some(1_704_067_200_000));
    assert_eq!(t.turn_id, "turn-abc-0");
    assert_eq!(t.items.len(), 3);
    match &t.items[0] {
        ThreadItem::UserMessage { id, text } => {
            assert_eq!(id, "u1");
            assert_eq!(text, "question");
        }
        _ => panic!("expected a user message first"),
    }
    match &t.items[1] {
        ThreadItem::AgentMessage { id, text } => {
            assert_eq!(id, "a1");
            assert_eq!(text, "answer");
        }
        _ => panic!("expected an agent message second"),
    }
    match &t.items[2] {
        ThreadItem::Reasoning { id, summary, content } => {
            // third payload-bearing record, counted from zero
            assert_eq!(id, "session-abc-2");
            assert_eq!(summary, "sum");
            assert_eq!(content, "why");
        }
        _ => panic!("expected a reasoning item third"),
    }
}

#[test]
fn blank_message_is_dropped_but_still_counted() {
    let f = file(
        "rollout-abc.jsonl",
        vec![
            &message_line("assistant", "   ", None),
            "{\"type\":\"response_item\",\"payload\":{\"type\":\"reasoning\"}}",
        ],
    );
    let files = vec![f];
    let t = load_session(Some(&files), "abc").expect("thread");
    assert_eq!(t.preview, "");
    assert_eq!(t.items.len(), 1);
    match &t.items[0] {
        ThreadItem::Reasoning { id, summary, content } => {
            // the blank message consumed index zero
            assert_eq!(id, "session-abc-1");
            assert_eq!(summary, "");
            assert_eq!(content, "");
        }
        _ => panic!("expected a reasoning item"),
    }
}

#[test]
fn substring_match_takes_first_file_in_order() {
    let first = file(
        "2024-rollout-abc.jsonl",
        vec![&message_line("assistant", "from first", None)],
    );
    let second = file(
        "rollout-abc-copy.jsonl",
        vec![&message_line("assistant", "from second", None)],
    );
    let files = vec![first, second];
    let t = load_session(Some(&files), "abc").expect("thread");
    assert_eq!(t.preview, "from first");
}

#[test]
fn find_session_file_picks_first_matching_name() {
    let names = vec![
        String::from("rollout-xyz.jsonl"),
        String::from("rollout-abc.jsonl"),
        String::from("abc-copy.jsonl"),
    ];
    assert_eq!(find_session_file(&names, "abc"), Some(1));
    assert_eq!(find_session_file(&names, "xyz"), Some(0));
    assert_eq!(find_session_file(&names, "nope"), None);
    assert_eq!(find_session_file(&names, ""), Some(0));
}

#[test]
fn missing_metadata_defaults() {
    let f = file("abc.jsonl", vec![&message_line("user", "hello", None)]);
    let files = vec![f];
    let t = load_session(Some(&files), "abc").expect("thread");
    assert_eq!(t.cwd, None);
    assert_eq!(t.created_at, None);
    assert_eq!(t.updated_at, None);
    assert_eq!(t.preview, "");
    assert_eq!(t.items.len(), 1);
    match &t.items[0] {
        ThreadItem::UserMessage { id, .. } => assert_eq!(id, "session-abc-0"),
        _ => panic!("expected a user message"),
    }
}

#[test]
fn updated_at_falls_back_to_created_at() {
    let f = file(
        "abc.jsonl",
        vec!["{\"type\":\"session_meta\",\"payload\":{\"id\":\"abc\",\"cwd\":\"/ws\",\"timestamp\":\"2024-01-01T00:00:00Z\"}}"],
    );
    let files = vec![f];
    let t = load_session(Some(&files), "abc").expect("thread");
    assert_eq!(t.created_at, Some(1_704_067_200_000));
    assert_eq!(t.updated_at, Some(1_704_067_200_000));
}

#[test]
fn unknown_payload_types_are_ignored_but_counted() {
    let f = file(
        "abc.jsonl",
        vec![
            "{\"type\":\"response_item\",\"payload\":{\"type\":\"tool_call\"}}",
            &message_line("user", "hi", None),
        ],
    );
    let files = vec![f];
    let t = load_session(Some(&files), "abc").expect("thread");
    assert_eq!(t.items.len(), 1);
    match &t.items[0] {
        ThreadItem::UserMessage { id, .. } => assert_eq!(id, "session-abc-1"),
        _ => panic!("expected a user message"),
    }
}
