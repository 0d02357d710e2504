use pi_gui::document::{
    archive_session, cancel_queued_edit, create_session_at, edit_queued_message, ensure_runtime, json_as_u64, next_id_at,
    remove_composer_attachment, select_session, set_default_model, set_default_thinking_level, set_sess_status,
    set_session_model, set_session_pinned, steer_queued_message, stub_navigate_result, stub_session_tree,
    stub_terminal_panel, unarchive_session, update_composer_draft, probe_custom_provider_models,
};
use pi_gui::json::Json;

fn v(j: &Json) -> serde_json::Value {
    match j {
        Json::Null => serde_json::Value::Null,
        Json::Bool(b) => serde_json::Value::Bool(*b),
        Json::Number(n) => serde_json::from_str(n).unwrap(),
        Json::Str(s) => serde_json::Value::String(s.clone()),
        Json::Array(a) => serde_json::Value::Array(a.iter().map(v).collect()),
        Json::Object(m) => {
            let mut o = serde_json::Map::new();
            for (k, x) in m {
                o.insert(k.clone(), v(x));
            }
            serde_json::Value::Object(o)
        }
    }
}

fn j(text: &str) -> Json {
    fn conv(x: &serde_json::Value) -> Json {
        match x {
            serde_json::Value::Null => Json::Null,
            serde_json::Value::Bool(b) => Json::Bool(*b),
            serde_json::Value::Number(n) => Json::Number(n.to_string()),
            serde_json::Value::String(s) => Json::Str(s.clone()),
            serde_json::Value::Array(a) => Json::Array(a.iter().map(conv).collect()),
            serde_json::Value::Object(m) => Json::Object(m.iter().map(|(k, x)| (k.clone(), conv(x))).collect()),
        }
    }
    conv(&serde_json::from_str(text).unwrap())
}

fn p(text: &str) -> serde_json::Value {
    serde_json::from_str(text).unwrap()
}

#[test]
fn document_composer_edits() {
    let mut doc = j(r#"{"composerDraftSyncNonce":4,"composerAttachments":[{"id":"a"},{"id":"b"}],"queuedComposerMessages":[{"id":"q","mode":"queue"}]}"#);
    update_composer_draft(&mut doc, "hi");
    assert_eq!(v(&doc)["composerDraft"], p(r#""hi""#));
    assert_eq!(v(&doc)["composerDraftSyncSource"], p(r#""state""#));
    assert_eq!(v(&doc)["composerDraftSyncNonce"], p("5"));
    remove_composer_attachment(&mut doc, "a");
    assert_eq!(v(&doc)["composerAttachments"], p(r#"[{"id":"b"}]"#));
    edit_queued_message(&mut doc, "q", Some("draft"));
    assert_eq!(v(&doc)["editingQueuedMessageId"], p(r#""q""#));
    assert_eq!(v(&doc)["composerDraft"], p(r#""draft""#));
    cancel_queued_edit(&mut doc);
    assert_eq!(v(&doc)["editingQueuedMessageId"], p("null"));
    steer_queued_message(&mut doc, "q");
    assert_eq!(v(&doc)["queuedComposerMessages"][0]["mode"], p(r#""steer""#));
    let mut fresh = j("{}");
    update_composer_draft(&mut fresh, "x");
    assert_eq!(v(&fresh)["composerDraftSyncNonce"], p("1"));
}

#[test]
fn document_sessions() {
    let mut doc = j(r#"{"workspaces":[{"id":"w","sessions":[]}],"selectedSessionId":""}"#);
    create_session_at(&mut doc, "w", "sess-1", "", "t0");
    assert_eq!(v(&doc)["workspaces"][0]["sessions"][0], p(r#"{"id":"sess-1","title":"New thread","updatedAt":"t0","preview":"","status":"idle","hasUnseenUpdate":false}"#));
    assert_eq!(v(&doc)["selectedSessionId"], p(r#""sess-1""#));
    let target = j(r#"{"workspaceId":"w","sessionId":"sess-1"}"#);
    archive_session(&mut doc, &target, "t1");
    assert_eq!(v(&doc)["workspaces"][0]["sessions"][0]["archivedAt"], p(r#""t1""#));
    unarchive_session(&mut doc, &target);
    assert_eq!(v(&doc)["workspaces"][0]["sessions"][0]["archivedAt"], p("null"));
    set_session_pinned(&mut doc, &target, true, "t2");
    assert_eq!(v(&doc)["workspaces"][0]["sessions"][0]["pinnedAt"], p(r#""t2""#));
    set_session_model(&mut doc, "w", "sess-1", "p", "m");
    assert_eq!(v(&doc)["workspaces"][0]["sessions"][0]["config"], p(r#"{"provider":"p","modelId":"m"}"#));
    set_sess_status(&mut doc, "sess-1", "running");
    assert_eq!(v(&doc)["workspaces"][0]["sessions"][0]["status"], p(r#""running""#));
    select_session(&mut doc, &j(r#"{"workspaceId":"w2"}"#));
    assert_eq!(v(&doc)["selectedWorkspaceId"], p(r#""w2""#));
    assert_eq!(v(&doc)["selectedSessionId"], p(r#""sess-1""#));
}

#[test]
fn first_workspace_gets_a_sessions_member_when_indexed() {
    let mut doc = j(r#"{"workspaces":[{"id":"w"}]}"#);
    set_sess_status(&mut doc, "x", "idle");
    assert_eq!(v(&doc)["workspaces"][0], p(r#"{"id":"w","sessions":null}"#));
}

#[test]
fn document_runtime_settings() {
    let mut doc = j(r#"{}"#);
    ensure_runtime(&mut doc, "w");
    assert_eq!(v(&doc), p(r#"{"runtimeByWorkspace":{"w":{"settings":{}}}}"#));
    set_default_model(&mut doc, "w", "p", "m");
    set_default_thinking_level(&mut doc, "x", "high");
    assert_eq!(v(&doc), p(r#"{"runtimeByWorkspace":{"w":{"settings":{"defaultProvider":"p","defaultModelId":"m"}},"x":{"settings":{"defaultThinkingLevel":"high"}}}}"#));
}

#[test]
fn document_stubs_and_ids() {
    assert_eq!(v(&stub_session_tree()), p(r#"{"id":"","label":"root","children":[]}"#));
    assert_eq!(v(&stub_navigate_result(&j("{}"))), p(r#"{"state":{},"result":{"cancelled":false}}"#));
    assert_eq!(v(&stub_terminal_panel("w", "r")), p(r#"{"workspaceId":"w","rootKey":"r","activeSessionId":"","sessions":[]}"#));
    assert_eq!(v(&probe_custom_provider_models()), p(r#"{"ok":false,"error":"not available"}"#));
    assert_eq!(next_id_at("ws", 17), "ws-17");
    assert_eq!(json_as_u64(&j("18446744073709551615")), Some(u64::MAX));
    assert_eq!(json_as_u64(&j("-1")), None);
}
