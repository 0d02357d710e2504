use pi_gui::doc_commands::{
    active_terminal_panel, apply_thread_settings, bump_doc_revision, initial_document, initial_document_at,
    mark_selected_idle, reorder_pinned_sessions, session_request, set_active_view, set_sidebar_collapsed,
    thread_prompt, thread_workspace, with_default_runtime,
};
use pi_gui::document::{ensure_runtime, set_default_model};
use pi_gui::json::Json;

fn v(j: &Json) -> serde_json::Value {
    match j {
        Json::Null => serde_json::Value::Null,
        Json::Bool(b) => serde_json::Value::Bool(*b),
        Json::Number(n) => serde_json::from_str(n).unwrap(),
        Json::Str(s) => serde_json::Value::String(s.clone()),
        Json::Array(a) => serde_json::Value::Array(a.iter().map(v).collect()),
        Json::Object(m) => {
            let mut o = serde_json::Map::new();
            for (k, x) in m {
                o.insert(k.clone(), v(x));
            }
            serde_json::Value::Object(o)
        }
    }
}

fn conv(x: &serde_json::Value) -> Json {
    match x {
        serde_json::Value::Null => Json::Null,
        serde_json::Value::Bool(b) => Json::Bool(*b),
        serde_json::Value::Number(n) => Json::Number(n.to_string()),
        serde_json::Value::String(s) => Json::Str(s.clone()),
        serde_json::Value::Array(a) => Json::Array(a.iter().map(conv).collect()),
        serde_json::Value::Object(m) => Json::Object(m.iter().map(|(k, x)| (k.clone(), conv(x))).collect()),
    }
}

fn j(text: &str) -> Json {
    conv(&serde_json::from_str(text).unwrap())
}

fn p(text: &str) -> serde_json::Value {
    serde_json::from_str(text).unwrap()
}

#[test]
fn fresh_document_starts_at_revision_one() {
    let doc = v(&initial_document_at("2024-01-01T00:00:00Z"));
    assert_eq!(doc["revision"], 1);
    assert_eq!(doc["selectedWorkspaceId"], "ws-default");
    assert_eq!(doc["activeView"], "threads");
    assert_eq!(doc["globalModelSettings"]["enabledModelPatterns"].as_array().unwrap().len(), 0);
    assert!(doc["runtimeByWorkspace"].as_object().unwrap().is_empty());
    assert_eq!(
        doc["workspaces"],
        p(r#"[{"id":"ws-default","name":"default","path":"/tmp","lastOpenedAt":"2024-01-01T00:00:00Z","kind":"primary","sessions":[]}]"#)
    );
    assert_eq!(doc["notificationPreferences"], p(r#"{"backgroundCompletion":true,"backgroundFailure":true,"attentionNeeded":true}"#));
    assert_eq!(doc["modelSettingsScopeMode"], "app-global");
    assert_eq!(doc["composerDraftSyncNonce"], 0);
    assert_eq!(doc["lastError"], serde_json::Value::Null);
    let now = v(&initial_document());
    assert_eq!(now["revision"], 1);
    assert!(now["workspaces"][0]["lastOpenedAt"].as_str().unwrap().ends_with('Z'));
}

#[test]
fn default_model_recorded_for_a_new_workspace() {
    let mut doc = initial_document_at("t");
    ensure_runtime(&mut doc, "ws-new");
    set_default_model(&mut doc, "ws-new", "openrouter", "free");
    let d = v(&doc);
    assert_eq!(d["runtimeByWorkspace"]["ws-new"]["settings"]["defaultProvider"], "openrouter");
    assert_eq!(d["runtimeByWorkspace"]["ws-new"]["settings"]["defaultModelId"], "free");
}

#[test]
fn revision_counts_up() {
    let mut doc = initial_document_at("t");
    bump_doc_revision(&mut doc);
    bump_doc_revision(&mut doc);
    assert_eq!(v(&doc)["revision"], 3);
    let mut bare = j("{}");
    bump_doc_revision(&mut bare);
    assert_eq!(v(&bare), p(r#"{"revision":1}"#));
    let mut text = j(r#"{"revision":"7"}"#);
    bump_doc_revision(&mut text);
    assert_eq!(v(&text)["revision"], 1);
}

#[test]
fn view_commands_edit_the_document() {
    let mut doc = j("{}");
    set_active_view(&mut doc, "settings");
    set_sidebar_collapsed(&mut doc, true);
    reorder_pinned_sessions(&mut doc, &vec!["b".to_string(), "a".to_string()]);
    assert_eq!(v(&doc), p(r#"{"activeView":"settings","sidebarCollapsed":true,"pinnedSessionOrder":["b","a"]}"#));
    with_default_runtime(&mut doc, j(r#"{"models":[]}"#));
    assert_eq!(v(&doc)["runtimeByWorkspace"], p(r#"{"ws-default":{"models":[]}}"#));
    assert_eq!(
        v(&active_terminal_panel("w", "scope", "t1")),
        p(r#"{"workspaceId":"w","rootKey":"scope","activeSessionId":"t1","sessions":[]}"#)
    );
}

#[test]
fn new_thread_requests() {
    let (ws, title) = session_request(&j(r#"{"workspaceId":"w1"}"#));
    assert_eq!((ws.as_str(), title.as_str()), ("w1", "New thread"));
    let (ws, title) = session_request(&j(r#"{"workspaceId":3,"title":"Plan"}"#));
    assert_eq!((ws.as_str(), title.as_str()), ("ws-default", "Plan"));
    let input = j(r#"{"rootWorkspaceId":"w","provider":"p","thinkingLevel":"high","prompt":"go"}"#);
    assert_eq!(thread_workspace(&input), "w");
    let mut doc = j("{}");
    apply_thread_settings(&mut doc, "w", &input);
    assert_eq!(
        v(&doc),
        p(r#"{"runtimeByWorkspace":{"w":{"settings":{"defaultProvider":"p","defaultModelId":"","defaultThinkingLevel":"high"}}}}"#)
    );
    assert_eq!(thread_prompt(&input), Some("go".to_string()));
    assert_eq!(thread_prompt(&j(r#"{"prompt":""}"#)), None);
    assert_eq!(thread_workspace(&j("{}")), "ws-default");
}

#[test]
fn cancelled_run_leaves_selected_session_idle() {
    let mut doc = j(r#"{"selectedSessionId":"s","workspaces":[{"sessions":[{"id":"s","status":"running"},{"id":"t","status":"running"}]}]}"#);
    mark_selected_idle(&mut doc);
    assert_eq!(v(&doc)["workspaces"][0]["sessions"], p(r#"[{"id":"s","status":"idle"},{"id":"t","status":"running"}]"#));
}
