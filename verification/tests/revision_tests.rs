use pi_gui::document::{remove_composer_attachment, remove_queued_message, steer_queued_message};
use pi_gui::json::Json;
use pi_gui::sessions::{agent_session_id, create_agent_session_record, create_session_with_id, finish_fork, fork_copy_outcome, fork_start, fresh_session_id, push_fork_record, ForkStart};
use pi_gui::git::diff_run_result;
use pi_gui::state::default_state;
use pi_gui::text::trim;
use pi_gui::transcript::{serialize_event, serialize_session_event, AgentEvent, SessionEvent};
use pi_gui::tree::truncate;

fn v(j: &Json) -> serde_json::Value {
    match j {
        Json::Null => serde_json::Value::Null,
        Json::Bool(b) => serde_json::Value::Bool(*b),
        Json::Number(n) => serde_json::from_str(n).unwrap(),
        Json::Str(s) => serde_json::Value::String(s.clone()),
        Json::Array(a) => serde_json::Value::Array(a.iter().map(v).collect()),
        Json::Object(m) => {
            let mut o = serde_json::Map::new();
            for (k, x) in m {
                o.insert(k.clone(), v(x));
            }
            serde_json::Value::Object(o)
        }
    }
}

fn conv(x: &serde_json::Value) -> Json {
    match x {
        serde_json::Value::Null => Json::Null,
        serde_json::Value::Bool(b) => Json::Bool(*b),
        serde_json::Value::Number(n) => Json::Number(n.to_string()),
        serde_json::Value::String(s) => Json::Str(s.clone()),
        serde_json::Value::Array(a) => Json::Array(a.iter().map(conv).collect()),
        serde_json::Value::Object(m) => Json::Object(m.iter().map(|(k, x)| (k.clone(), conv(x))).collect()),
    }
}

fn j(text: &str) -> Json {
    conv(&serde_json::from_str(text).unwrap())
}

fn p(text: &str) -> serde_json::Value {
    serde_json::from_str(text).unwrap()
}

#[test]
fn message_update_payload_is_the_event_itself() {
    let e = j(r#"{"type":"text_delta","delta":"hi"}"#);
    let (et, d) = serialize_session_event(&SessionEvent::MessageUpdate { assistant_message_event: j(r#"{"type":"text_delta","delta":"hi"}"#) });
    assert_eq!(et, "message_update");
    assert_eq!(v(&d), v(&e));
    let (et, d) = serialize_event(&AgentEvent::MessageUpdate { assistant_message_event: Json::Null });
    assert_eq!(et, "message_update");
    assert_eq!(v(&d), serde_json::Value::Null);
}

#[test]
fn failed_fork_restores_the_prior_selection() {
    let mut s = default_state();
    create_session_with_id(&mut s, "b".to_string(), "B", "now".to_string());
    create_session_with_id(&mut s, "a".to_string(), "A", "now".to_string());
    // the working directory of "b" changes while "a" is selected
    push_fork_record(&mut s, "new".to_string(), "B", "/w", "now".to_string());
    assert_eq!(s.selected_session_id, "new");
    assert_eq!(finish_fork(&mut s, "new", "a", Err("copy failed".to_string())), Err("copy failed".to_string()));
    assert_eq!(s.selected_session_id, "a");
    assert_eq!(s.sessions.iter().map(|r| r.id.as_str()).collect::<Vec<_>>(), vec!["b", "a"]);
}

#[test]
fn agent_sessions_get_uuid_ids() {
    assert_eq!(agent_session_id("123e4567-e89b-12d3-a456-426614174000"), "sess-123e4567-e89b-12d3-a456-426614174000");
    let mut s = default_state();
    let sid = create_agent_session_record(&mut s, Some("/f.jsonl".to_string()));
    assert!(sid.starts_with("sess-"));
    assert_eq!(sid.len(), 41);
    assert_eq!(s.selected_session_id, sid);
    let rec = &s.sessions[0];
    assert_eq!(rec.id, sid);
    assert_eq!(rec.title, "New thread");
    assert_eq!(rec.status, "idle");
    assert_eq!(rec.session_file, Some("/f.jsonl".to_string()));
    assert_eq!(rec.cwd, None);
    assert!(rec.updated_at.ends_with('Z'));
    let other = create_agent_session_record(&mut s, None);
    assert_ne!(other, sid);
    assert!(fresh_session_id().starts_with("sess-"));
}

#[test]
fn trim_drops_unicode_white_space() {
    assert_eq!(trim("  a b \t\n"), "a b");
    assert_eq!(trim("\u{3000}x\u{a0}"), "x");
    assert_eq!(trim(" \n "), "");
    assert_eq!(trim(""), "");
    assert_eq!(trim("…"), "…");
}

#[test]
fn truncating_twice_is_truncating_once() {
    let once = truncate("  a long label here  ", 6);
    assert_eq!(once, "a long…");
    assert_eq!(truncate(&once, 6), once);
    assert_eq!(truncate("x", 0), "…");
    assert_eq!(truncate("…", 0), "…");
    assert_eq!(truncate(" ok ", 5), "ok");
}

#[test]
fn reaching_a_missing_list_adds_it_as_null() {
    let mut doc = j("{}");
    remove_composer_attachment(&mut doc, "a");
    assert_eq!(v(&doc), p(r#"{"composerAttachments":null}"#));
    let mut nothing = Json::Null;
    remove_queued_message(&mut nothing, "q");
    assert_eq!(v(&nothing), p(r#"{"queuedComposerMessages":null}"#));
    let mut other = j(r#"{"queuedComposerMessages":3}"#);
    steer_queued_message(&mut other, "q");
    assert_eq!(v(&other), p(r#"{"queuedComposerMessages":3}"#));
}

#[test]
fn agent_session_uuid_has_the_v4_form() {
    let mut s = default_state();
    let sid = create_agent_session_record(&mut s, None);
    let u: Vec<char> = sid["sess-".len()..].chars().collect();
    assert_eq!(u.len(), 36);
    for (i, c) in u.iter().enumerate() {
        if i == 8 || i == 13 || i == 18 || i == 23 {
            assert_eq!(*c, '-');
        } else {
            assert!(c.is_ascii_digit() || ('a'..='f').contains(c));
        }
    }
    assert_eq!(u[14], '4');
    assert!(['8', '9', 'a', 'b'].contains(&u[19]));
}

#[test]
fn fork_starts_from_the_history_file() {
    assert!(matches!(fork_start(None), ForkStart::StartSelected));
    assert!(matches!(fork_start(Some(String::new())), ForkStart::StartSelected));
    match fork_start(Some("/old/s.jsonl".to_string())) {
        ForkStart::ForkFrom(f) => assert_eq!(f, "/old/s.jsonl"),
        ForkStart::StartSelected => panic!("expected a fork from the file"),
    }
    assert_eq!(fork_copy_outcome(Ok(Ok(()))), Ok(()));
    assert_eq!(fork_copy_outcome(Ok(Err("spawn".to_string()))), Err("spawn".to_string()));
    assert_eq!(fork_copy_outcome(Err("no file".to_string())), Err("Failed to fork session: no file".to_string()));
}

#[test]
fn diff_runs_become_text_or_errors() {
    assert_eq!(diff_run_result(Ok(b"+a\n".to_vec())), Ok("+a\n".to_string()));
    assert_eq!(diff_run_result(Ok(vec![0xff])), Ok("\u{fffd}".to_string()));
    assert_eq!(diff_run_result(Err("not found".to_string())), Err("git diff failed: not found".to_string()));
}
