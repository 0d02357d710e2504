use pi_gui::json::Json;
use pi_gui::transcript::{
    apply_event_status, build_display_transcript, display_transcript_at, event_status, find_tool_result,
    serialize_event, serialize_session_event, transcript_payload, AgentEvent, AgentMessage, SessionEvent,
};
use pi_gui::state::default_state;
use pi_gui::sessions::create_session_with_id;

fn v(j: &Json) -> serde_json::Value {
    match j {
        Json::Null => serde_json::Value::Null,
        Json::Bool(b) => serde_json::Value::Bool(*b),
        Json::Number(n) => serde_json::from_str(n).unwrap(),
        Json::Str(s) => serde_json::Value::String(s.clone()),
        Json::Array(a) => serde_json::Value::Array(a.iter().map(v).collect()),
        Json::Object(m) => {
            let mut o = serde_json::Map::new();
            for (k, x) in m {
                o.insert(k.clone(), v(x));
            }
            serde_json::Value::Object(o)
        }
    }
}

fn j(text: &str) -> Json {
    fn conv(x: &serde_json::Value) -> Json {
        match x {
            serde_json::Value::Null => Json::Null,
            serde_json::Value::Bool(b) => Json::Bool(*b),
            serde_json::Value::Number(n) => Json::Number(n.to_string()),
            serde_json::Value::String(s) => Json::Str(s.clone()),
            serde_json::Value::Array(a) => Json::Array(a.iter().map(conv).collect()),
            serde_json::Value::Object(m) => Json::Object(m.iter().map(|(k, x)| (k.clone(), conv(x))).collect()),
        }
    }
    conv(&serde_json::from_str(text).unwrap())
}

fn p(text: &str) -> serde_json::Value {
    serde_json::from_str(text).unwrap()
}

#[test]
fn transcript_merges_tool_results_onto_calls() {
    let msgs = vec![
        AgentMessage::User { content: vec![j(r#"{"type":"text","text":"hi"}"#)], timestamp: 1_700_000_000_000 },
        AgentMessage::Assistant {
            content: vec![
                j(r#"{"type":"text","text":"ok "}"#),
                j(r#"{"type":"toolCall","id":"t1","name":"read"}"#),
            ],
            timestamp: 1_700_000_001_500,
        },
        AgentMessage::ToolResult { tool_call_id: "t1".to_string(), content: vec![j(r#"{"type":"text","text":"done"}"#)], is_error: false },
        AgentMessage::Other,
    ];
    let t = display_transcript_at(&msgs, "NOW");
    assert_eq!(t.len(), 2);
    assert_eq!(v(&t[0]), p(r#"{"id":"msg-1700000000000","kind":"message","role":"user","text":"hi","content":[{"type":"text","text":"hi"}],"createdAt":"2023-11-14T22:13:20Z"}"#));
    assert_eq!(v(&t[1]), p(r#"{"id":"msg-1700000001500","kind":"message","role":"assistant","text":"ok ","content":[{"type":"text","text":"ok "},{"type":"toolCall","id":"t1","name":"read","status":"success","result":"done","isError":false}],"createdAt":"2023-11-14T22:13:21Z"}"#));
}

#[test]
fn last_tool_result_wins() {
    let msgs = vec![
        AgentMessage::ToolResult { tool_call_id: "a".to_string(), content: vec![j(r#"{"type":"text","text":"first"}"#)], is_error: false },
        AgentMessage::ToolResult { tool_call_id: "a".to_string(), content: vec![j(r#"{"type":"text","text":"second"}"#)], is_error: true },
    ];
    assert_eq!(find_tool_result(&msgs, "a"), Some(("second".to_string(), true)));
    assert_eq!(find_tool_result(&msgs, "b"), None);
}

#[test]
fn unrenderable_time_uses_now() {
    let msgs = vec![AgentMessage::User { content: vec![], timestamp: i64::MAX }];
    let t = display_transcript_at(&msgs, "NOW");
    assert_eq!(v(&t[0])["createdAt"], p(r#""NOW""#));
    let u = build_display_transcript(&msgs);
    assert_eq!(u.len(), 1);
}

#[test]
fn negative_time_truncates_toward_zero() {
    let msgs = vec![AgentMessage::User { content: vec![], timestamp: -1500 }];
    let t = display_transcript_at(&msgs, "NOW");
    assert_eq!(v(&t[0])["createdAt"], p(r#""1969-12-31T23:59:59Z""#));
    assert_eq!(v(&t[0])["id"], p(r#""msg--1500""#));
}

#[test]
fn session_events_serialize_with_their_types() {
    let (et, d) = serialize_session_event(&SessionEvent::AgentStart);
    assert_eq!(et, "agent_start");
    assert_eq!(v(&d), p("{}"));
    let (et, d) = serialize_session_event(&SessionEvent::ToolExecutionEnd {
        tool_call_id: "c".to_string(),
        tool_name: "bash".to_string(),
        result: j(r#""out""#),
        is_error: true,
    });
    assert_eq!(et, "tool_execution_end");
    assert_eq!(v(&d), p(r#"{"tool_call_id":"c","tool_name":"bash","result":"out","is_error":true}"#));
    let (et, d) = serialize_session_event(&SessionEvent::AutoRetryEnd { success: false, attempt: j("2"), final_error: j("null") });
    assert_eq!(et, "auto_retry_end");
    assert_eq!(v(&d), p(r#"{"success":false,"attempt":2,"final_error":null}"#));
}

#[test]
fn core_events_serialize_with_their_types() {
    let (et, d) = serialize_event(&AgentEvent::AgentEnd { messages: j("[]") });
    assert_eq!(et, "agent_end");
    assert_eq!(v(&d), p(r#"{"messages":[]}"#));
}

#[test]
fn event_status_follows_runs_and_turns() {
    assert_eq!(event_status("agent_start"), Some("running"));
    assert_eq!(event_status("turn_start"), Some("running"));
    assert_eq!(event_status("agent_end"), Some("idle"));
    assert_eq!(event_status("turn_end"), Some("idle"));
    assert_eq!(event_status("message_end"), None);
}

#[test]
fn apply_event_status_counts_changes() {
    let mut s = default_state();
    create_session_with_id(&mut s, "s1".to_string(), "t", "2024-01-01T00:00:00Z".to_string());
    let rev = s.revision;
    apply_event_status(&mut s, "s1", "agent_start");
    assert_eq!(s.sessions[0].status, "running");
    assert_eq!(s.revision, rev + 1);
    apply_event_status(&mut s, "s1", "message_update");
    assert_eq!(s.revision, rev + 1);
    apply_event_status(&mut s, "s1", "turn_end");
    assert_eq!(s.sessions[0].status, "idle");
}

#[test]
fn empty_transcript_is_not_announced() {
    assert!(transcript_payload("s", vec![]).is_none());
    let pl = transcript_payload("s", vec![j("1")]).unwrap();
    assert_eq!(v(&pl), p(r#"{"sessionId":"s","transcript":[1]}"#));
}
