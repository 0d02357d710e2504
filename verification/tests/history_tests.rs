use pi_gui::history::{first_user_text, json_as_i64, saved_session_record, session_title, transcript_from_entries};
use pi_gui::json::Json;
use pi_gui::tree::EntryKind;

fn j(text: &str) -> Json {
    fn conv(x: &serde_json::Value) -> Json {
        match x {
            serde_json::Value::Null => Json::Null,
            serde_json::Value::Bool(b) => Json::Bool(*b),
            serde_json::Value::Number(n) => Json::Number(n.to_string()),
            serde_json::Value::String(s) => Json::Str(s.clone()),
            serde_json::Value::Array(a) => Json::Array(a.iter().map(conv).collect()),
            serde_json::Value::Object(m) => Json::Object(m.iter().map(|(k, x)| (k.clone(), conv(x))).collect()),
        }
    }
    conv(&serde_json::from_str(text).unwrap())
}

fn v(j: &Json) -> serde_json::Value {
    match j {
        Json::Null => serde_json::Value::Null,
        Json::Bool(b) => serde_json::Value::Bool(*b),
        Json::Number(n) => serde_json::from_str(n).unwrap(),
        Json::Str(s) => serde_json::Value::String(s.clone()),
        Json::Array(a) => serde_json::Value::Array(a.iter().map(v).collect()),
        Json::Object(m) => {
            let mut o = serde_json::Map::new();
            for (k, x) in m {
                o.insert(k.clone(), v(x));
            }
            serde_json::Value::Object(o)
        }
    }
}

fn p(text: &str) -> serde_json::Value {
    serde_json::from_str(text).unwrap()
}

#[test]
fn integers_read_as_i64() {
    assert_eq!(json_as_i64(&Json::Number("123".to_string())), Some(123));
    assert_eq!(json_as_i64(&Json::Number("-5".to_string())), Some(-5));
    assert_eq!(json_as_i64(&Json::Number("1.5".to_string())), None);
    assert_eq!(json_as_i64(&Json::Number("9223372036854775807".to_string())), Some(i64::MAX));
    assert_eq!(json_as_i64(&Json::Number("9223372036854775808".to_string())), None);
    assert_eq!(json_as_i64(&Json::Number("-9223372036854775808".to_string())), Some(i64::MIN));
    assert_eq!(json_as_i64(&Json::Number("-".to_string())), None);
    assert_eq!(json_as_i64(&Json::Str("1".to_string())), None);
}

#[test]
fn first_user_text_reads_plain_string_content() {
    let lines = vec![
        Some(j(r#"{"type":"session","id":"x"}"#)),
        Some(j(r#"{"type":"message","message":{"role":"assistant","content":"no"}}"#)),
        Some(j(r#"{"type":"message","message":{"role":"user","content":"hello"}}"#)),
    ];
    assert_eq!(first_user_text(&lines), Some("hello".to_string()));
}

#[test]
fn first_user_text_reads_content_blocks() {
    let lines = vec![Some(j(r#"{"type":"message","message":{"role":"user","content":[{"type":"text","text":"a"},{"type":"image"},{"type":"text","text":"b"}]}}"#))];
    assert_eq!(first_user_text(&lines), Some("ab".to_string()));
}

#[test]
fn first_user_text_stops_at_first_user_message() {
    let lines = vec![
        Some(j(r#"{"type":"message","message":{"role":"user","content":""}}"#)),
        Some(j(r#"{"type":"message","message":{"role":"user","content":"later"}}"#)),
    ];
    assert_eq!(first_user_text(&lines), None);
}

#[test]
fn first_user_text_gives_up_on_bad_line() {
    let lines = vec![None, Some(j(r#"{"type":"message","message":{"role":"user","content":"x"}}"#))];
    assert_eq!(first_user_text(&lines), None);
    let no_role = vec![Some(j(r#"{"type":"message","message":{"content":"x"}}"#))];
    assert_eq!(first_user_text(&no_role), None);
}

#[test]
fn session_titles_fall_back_in_order() {
    assert_eq!(session_title(Some("Named".to_string()), "first", None, None), "Named");
    let long: String = std::iter::repeat('x').take(70).collect();
    assert_eq!(session_title(None, &long, None, None).chars().count(), 60);
    assert_eq!(session_title(None, "(no messages)", Some("from file".to_string()), None), "from file");
    assert_eq!(session_title(None, "", None, Some("stem".to_string())), "stem");
    assert_eq!(session_title(None, "", None, None), "Untitled");
}

#[test]
fn saved_record_is_idle_and_resumable() {
    let r = saved_session_record("id".to_string(), "t".to_string(), "m".to_string(), "/p.jsonl".to_string());
    assert_eq!(r.status, "idle");
    assert_eq!(r.session_file, Some("/p.jsonl".to_string()));
    assert!(!r.has_unseen_update);
}

#[test]
fn transcript_from_entries_numbers_shown_messages() {
    let entries = vec![
        EntryKind::Message { message: j(r#"{"role":"user","content":[{"type":"text","text":"q"}],"timestamp":1700000000000}"#) },
        EntryKind::Compaction { summary: "s".to_string() },
        EntryKind::Message { message: j(r#"{"role":"toolResult","content":[]}"#) },
        EntryKind::Message { message: j(r#"{"role":"assistant","content":"plain"}"#) },
    ];
    let t = transcript_from_entries(&entries, "NOW");
    assert_eq!(t.len(), 2);
    assert_eq!(v(&t[0]), p(r#"{"id":"msg-0","kind":"message","role":"user","text":"q","createdAt":"2023-11-14T22:13:20Z"}"#));
    assert_eq!(v(&t[1]), p(r#"{"id":"msg-1","kind":"message","role":"assistant","text":"","createdAt":"1970-01-01T00:00:00Z"}"#));
}
