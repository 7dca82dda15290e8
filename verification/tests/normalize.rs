use session_logs::path::normalize_windows_path;
use session_logs::scan::is_session_log_name;

#[test]
fn normalize_lowercases_and_flips_slashes() {
    assert_eq!(normalize_windows_path("C:/Work/Proj"), "c:\\work\\proj");
    assert_eq!(normalize_windows_path("c:\\work\\proj"), "c:\\work\\proj");
}

#[test]
fn normalize_trims_surrounding_whitespace() {
    assert_eq!(normalize_windows_path("  /ws  "), "\\ws");
    assert_eq!(normalize_windows_path("\t/ws\n"), "\\ws");
}

#[test]
fn normalize_strips_long_path_prefix() {
    assert_eq!(normalize_windows_path("\\\\?\\C:\\X"), "c:\\x");
    assert_eq!(normalize_windows_path("C:\\X"), "c:\\x");
}

#[test]
fn normalize_empty_input_stays_empty() {
    assert_eq!(normalize_windows_path(""), "");
    assert_eq!(normalize_windows_path("   "), "");
}

#[test]
fn normalize_is_idempotent_on_ordinary_paths() {
    let once = normalize_windows_path("  \\\\?\\C:/Some Dir/Proj ");
    let twice = normalize_windows_path(&once);
    assert_eq!(once, twice);
    let once = normalize_windows_path("/home/user/ws");
    let twice = normalize_windows_path(&once);
    assert_eq!(once, twice);
}

#[test]
fn equivalent_workspace_paths_normalize_equal() {
    let a = normalize_windows_path("C:/Users/Dev/Ws");
    let b = normalize_windows_path("c:\\users\\dev\\ws");
    let c = normalize_windows_path("\\\\?\\C:\\USERS\\DEV\\WS");
    assert_eq!(a, b);
    assert_eq!(b, c);
}

#[test]
fn log_extension_filter() {
    assert!(is_session_log_name("a.jsonl"));
    assert!(is_session_log_name("rollout-2024.jsonl"));
    assert!(is_session_log_name("..jsonl"));
    assert!(!is_session_log_name(".jsonl"));
    assert!(!is_session_log_name("a.json"));
    assert!(!is_session_log_name("jsonl"));
    assert!(!is_session_log_name("a.jsonl.bak"));
}
