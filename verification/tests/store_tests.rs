use pi_gui::actor::{default_session_model, model_to_set, navigate_reply, session_info, slash_commands, BuiltinCommand, CommandSource, SessionCommandInfo, model_json};
use pi_gui::json::Json;
use pi_gui::providers::{delete_custom_provider, get_custom_provider, list_custom_providers, set_custom_provider};
use pi_gui::sessions::{archive_session_at, create_session_with_id, adopt_runtime_session_id, rename_session_by_id};
use pi_gui::state::default_state;
use pi_gui::model::{set_default_model, get_default_model};
use pi_gui::composer::{remove_composer_attachment, set_composer_attachments, steer_queued_message, update_composer_draft};

fn v(j: &Json) -> serde_json::Value {
    match j {
        Json::Null => serde_json::Value::Null,
        Json::Bool(b) => serde_json::Value::Bool(*b),
        Json::Number(n) => serde_json::from_str(n).unwrap(),
        Json::Str(s) => serde_json::Value::String(s.clone()),
        Json::Array(a) => serde_json::Value::Array(a.iter().map(v).collect()),
        Json::Object(m) => {
            let mut o = serde_json::Map::new();
            for (k, x) in m {
                o.insert(k.clone(), v(x));
            }
            serde_json::Value::Object(o)
        }
    }
}

fn j(text: &str) -> Json {
    fn conv(x: &serde_json::Value) -> Json {
        match x {
            serde_json::Value::Null => Json::Null,
            serde_json::Value::Bool(b) => Json::Bool(*b),
            serde_json::Value::Number(n) => Json::Number(n.to_string()),
            serde_json::Value::String(s) => Json::Str(s.clone()),
            serde_json::Value::Array(a) => Json::Array(a.iter().map(conv).collect()),
            serde_json::Value::Object(m) => Json::Object(m.iter().map(|(k, x)| (k.clone(), conv(x))).collect()),
        }
    }
    conv(&serde_json::from_str(text).unwrap())
}

fn members(text: &str) -> Vec<(String, Json)> {
    match j(text) {
        Json::Object(m) => m,
        _ => panic!("not an object"),
    }
}

fn p(text: &str) -> serde_json::Value {
    serde_json::from_str(text).unwrap()
}

#[test]
fn slash_menu_lists_builtins_then_session_commands() {
    let b = vec![BuiltinCommand { name: "compact".to_string(), description: j(r#""Compact""#), argument_hint: Json::Null }];
    let s = vec![
        SessionCommandInfo { name: "goal".to_string(), description: j(r#""Goal""#), source: CommandSource::Extension },
        SessionCommandInfo { name: "review".to_string(), description: Json::Null, source: CommandSource::Prompt },
        SessionCommandInfo { name: "pdf".to_string(), description: Json::Null, source: CommandSource::Skill },
    ];
    let l = slash_commands(&b, &s);
    assert_eq!(l.len(), 4);
    assert_eq!(v(&l[0]), p(r#"{"name":"compact","description":"Compact","argumentHint":null,"source":"builtin"}"#));
    assert_eq!(v(&l[1]), p(r#"{"name":"goal","description":"Goal","source":"extension"}"#));
    assert_eq!(v(&l[2])["source"], p(r#""prompt""#));
    assert_eq!(v(&l[3])["source"], p(r#""skill""#));
}

#[test]
fn command_replies() {
    assert_eq!(navigate_reply(true, "e1"), Ok(()));
    assert_eq!(navigate_reply(false, "e1"), Err("entry 'e1' not found".to_string()));
    assert_eq!(model_to_set(Some(7), "p", "m"), Ok(7));
    assert_eq!(model_to_set(None::<i32>, "p", "m"), Err("model 'p/m' not found".to_string()));
    assert_eq!(v(&model_json("anthropic", "big-model")), p(r#"{"provider":"anthropic","modelId":"big-model"}"#));
}

#[test]
fn session_info_reports_found_sessions() {
    let mut s = default_state();
    create_session_with_id(&mut s, "s1".to_string(), "Title", "t".to_string());
    assert_eq!(v(&session_info(&s, "nope", 0, None, Json::Null)), p(r#"{"id":"nope","found":false}"#));
    let info = session_info(&s, "s1", 3, Some("2024".to_string()), j(r#"{"provider":null,"modelId":null}"#));
    assert_eq!(v(&info), p(r#"{"id":"s1","found":true,"title":"Title","cwd":null,"sessionFile":null,"messageCount":3,"createdAt":"2024","model":{"provider":null,"modelId":null}}"#));
    set_default_model(&mut s, "openai", "m-one");
    assert_eq!(v(&default_session_model(&s)), p(r#"{"provider":"openai","modelId":"m-one"}"#));
}

#[test]
fn custom_provider_write_then_read() {
    let cfg = j(r#"{"id":"m1","provider":"acme","baseUrl":"http://x","apiKeyEnvVar":"ACME_KEY"}"#);
    let (map, entry) = set_custom_provider(Vec::new(), &cfg).unwrap();
    assert_eq!(v(&entry), p(r#"{"id":"m1","provider":"acme","api":"openai-completions","baseUrl":"http://x","name":"m1"}"#));
    let mut o = serde_json::Map::new();
    for (k, x) in &map {
        o.insert(k.clone(), v(x));
    }
    let doc = serde_json::Value::Object(o);
    assert_eq!(doc["providers"]["acme"]["apiKey"], p(r#""${ACME_KEY}""#));
    assert_eq!(doc["providers"]["acme"]["models"], p(r#"[{"id":"m1","name":"m1"}]"#));
    let got = get_custom_provider(&map, "m1").unwrap();
    assert_eq!(v(&got), v(&entry));
    assert_eq!(list_custom_providers(&map).len(), 1);
}

#[test]
fn custom_provider_errors() {
    assert_eq!(set_custom_provider(Vec::new(), &j(r#"{"provider":"x"}"#)).unwrap_err(), "missing provider id");
    assert_eq!(set_custom_provider(Vec::new(), &j(r#"{"id":"x"}"#)).unwrap_err(), "missing provider");
    assert_eq!(set_custom_provider(members(r#"{"providers":[]}"#), &j(r#"{"id":"m","provider":"p"}"#)).unwrap_err(), "invalid models.json format");
    assert_eq!(delete_custom_provider(Vec::new(), "m").unwrap_err(), "provider 'm' not found");
}

#[test]
fn delete_then_lookup_finds_nothing() {
    let map = members(r#"{"providers":{"acme":{"models":[{"id":"m1"},{"id":"m2"}]},"other":{"models":[{"id":"m1"}]}}}"#);
    let after = delete_custom_provider(map, "m1").unwrap();
    assert!(get_custom_provider(&after, "m1").is_none());
    assert!(get_custom_provider(&after, "m2").is_some());
}

#[test]
fn provider_without_models_lists_itself() {
    let map = members(r#"{"providers":{"solo":{"name":"Solo","api":"anthropic"}}}"#);
    let l = list_custom_providers(&map);
    assert_eq!(v(&l[0]), p(r#"{"id":"solo","provider":"solo","api":"anthropic","baseUrl":"","name":"Solo"}"#));
}

#[test]
fn sessions_archive_and_adopt() {
    let mut s = default_state();
    create_session_with_id(&mut s, "a".to_string(), "A", "t".to_string());
    create_session_with_id(&mut s, "b".to_string(), "", "t".to_string());
    assert_eq!(s.sessions[1].title, "New thread");
    assert_eq!(s.selected_session_id, "b");
    archive_session_at(&mut s, "b", "when".to_string());
    assert_eq!(s.sessions[1].archived_at, Some("when".to_string()));
    assert_eq!(s.selected_session_id, "a");
    adopt_runtime_session_id(&mut s, "real", Some("/f.jsonl".to_string()));
    assert_eq!(s.selected_session_id, "real");
    assert_eq!(s.sessions[0].id, "real");
    assert_eq!(s.sessions[0].session_file, Some("/f.jsonl".to_string()));
    rename_session_by_id(&mut s, "real", "Renamed");
    assert_eq!(s.sessions[0].title, "Renamed");
}

#[test]
fn composer_edits() {
    let mut s = default_state();
    update_composer_draft(&mut s, "hello");
    assert_eq!(s.composer_draft, "hello");
    assert_eq!(s.composer_draft_sync_source, Some("state".to_string()));
    assert_eq!(s.composer_draft_sync_nonce, 1);
    set_composer_attachments(&mut s, j(r#"[{"id":"a"},{"id":"b"},{"id":"a"}]"#));
    remove_composer_attachment(&mut s, "a");
    assert_eq!(s.composer_attachments.len(), 1);
    s.queued_composer_messages = vec![j(r#"{"id":"q1","mode":"queue"}"#)];
    steer_queued_message(&mut s, "q1");
    assert_eq!(v(&s.queued_composer_messages[0]), p(r#"{"id":"q1","mode":"steer"}"#));
}

#[test]
fn default_model_snapshot() {
    let s = default_state();
    let d = v(&get_default_model(&s));
    assert_eq!(d["defaultThinkingLevel"], p(r#""normal""#));
}
