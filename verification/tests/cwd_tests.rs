use pi_gui::cwd::{decide_cwd_action, fallback_cwd, resolve_session_cwd, CwdAction};
use pi_gui::sessions::{effective_cwd_action, check_cwd_path, create_session_with_id, cwd_target, fork_error, finish_fork, push_fork_record};
use pi_gui::state::default_state;
use pi_gui::actor::{selected_session, user_message_event};

#[test]
fn test_decide_cwd_noop_when_same_path() {
    let a = decide_cwd_action(Some("/old/sess.jsonl"), "/work", Some("/work"));
    assert!(matches!(a, CwdAction::NoOp));
}

#[test]
fn test_decide_cwd_set_in_place_when_no_session_file() {
    let a = decide_cwd_action(None, "/work", Some("/elsewhere"));
    assert!(matches!(a, CwdAction::SetInPlace));
}

#[test]
fn test_decide_cwd_fork_when_has_session_file_and_diff_cwd() {
    let a = decide_cwd_action(Some("/old/sess.jsonl"), "/new/work", Some("/old/work"));
    assert!(matches!(a, CwdAction::Fork));
}

#[test]
fn test_decide_cwd_fork_when_has_file_but_no_current_cwd() {
    let a = decide_cwd_action(Some("/old/sess.jsonl"), "/new/work", None);
    assert!(matches!(a, CwdAction::Fork));
}

#[test]
fn test_resolve_session_cwd_prefers_session_cwd() {
    let cwd = resolve_session_cwd(Some("/usr/local"), Some("/work".to_string()), Some("/home/u".to_string()));
    assert_eq!(cwd, "/usr/local");
}

#[test]
fn test_resolve_session_cwd_falls_back_to_current_dir() {
    let cwd = resolve_session_cwd(None, Some("/work".to_string()), Some("/home/u".to_string()));
    assert!(!cwd.is_empty());
    assert_eq!(cwd, "/work");
}

#[test]
fn test_resolve_session_cwd_empty_string_falls_back() {
    let cwd = resolve_session_cwd(Some(""), Some("/work".to_string()), None);
    assert!(!cwd.is_empty());
    assert_eq!(cwd, "/work");
}

#[test]
fn cwd_falls_back_to_home_then_tmp() {
    assert_eq!(resolve_session_cwd(None, None, Some("/home/u".to_string())), "/home/u/.pi-rs");
    assert_eq!(resolve_session_cwd(Some(""), None, None), "/tmp");
    assert_eq!(fallback_cwd(None, Some("/h".to_string())), "/h/.pi-rs");
    assert_eq!(fallback_cwd(Some("/w".to_string()), Some("/h".to_string())), "/w");
    assert_eq!(fallback_cwd(None, None), "/tmp");
}

#[test]
fn same_cwd_is_noop_without_history_too() {
    let a = decide_cwd_action(None, "/work", Some("/work"));
    assert!(matches!(a, CwdAction::NoOp));
}

#[test]
fn fork_falls_back_to_in_place_when_file_missing() {
    assert!(matches!(effective_cwd_action(CwdAction::Fork, false), CwdAction::SetInPlace));
    assert!(matches!(effective_cwd_action(CwdAction::Fork, true), CwdAction::Fork));
    assert!(matches!(effective_cwd_action(CwdAction::NoOp, false), CwdAction::NoOp));
}

#[test]
fn cwd_change_inputs_and_errors() {
    let mut s = default_state();
    create_session_with_id(&mut s, "a".to_string(), "T", "now".to_string());
    assert_eq!(cwd_target(&s, "a"), Ok((None, None, "T".to_string())));
    assert_eq!(cwd_target(&s, "zz"), Err("Session not found".to_string()));
    assert_eq!(check_cwd_path("/x", false), Err("Working directory does not exist or is not a directory: /x".to_string()));
    assert_eq!(check_cwd_path("/x", true), Ok(()));
    assert_eq!(fork_error("boom"), "Failed to fork session: boom");
}

#[test]
fn failed_forks_roll_back() {
    let mut s = default_state();
    create_session_with_id(&mut s, "old".to_string(), "T", "now".to_string());
    push_fork_record(&mut s, "new".to_string(), "T", "/w", "now".to_string());
    let rev = s.revision;
    assert_eq!(finish_fork(&mut s, "new", "old", Err("spawn failed".to_string())), Err("spawn failed".to_string()));
    assert_eq!(s.selected_session_id, "old");
    assert_eq!(s.sessions.len(), 1);
    assert_eq!(s.revision, rev + 1);
    push_fork_record(&mut s, "new2".to_string(), "T", "/w", "now".to_string());
    assert_eq!(finish_fork(&mut s, "new2", "old", Ok(())), Err("Failed to persist session file for forked session".to_string()));
    assert_eq!(s.sessions.len(), 1);
    push_fork_record(&mut s, "new3".to_string(), "T", "/w", "now".to_string());
    s.sessions[1].session_file = Some("/f.jsonl".to_string());
    assert_eq!(finish_fork(&mut s, "new3", "old", Ok(())), Ok(()));
    assert_eq!(s.selected_session_id, "new3");
}

#[test]
fn commands_need_a_selected_session() {
    let mut s = default_state();
    assert_eq!(selected_session(&s), Err("No session".to_string()));
    s.selected_session_id = "x".to_string();
    assert_eq!(selected_session(&s), Ok("x".to_string()));
    let e = user_message_event("x", "hi", 42);
    assert_eq!(e.event_type, "user_message");
    assert_eq!(e.session_id, "x");
    assert!(matches!(&e.data, pi_gui::json::Json::Object(m) if m.len() == 2));
}
