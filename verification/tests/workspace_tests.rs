use pi_gui::actor::{found_or_error, selected_transcript};
use pi_gui::git::{stage_args, stage_result};
use pi_gui::json::Json;
use pi_gui::runtime::{models_listing, providers_listing, ModelEntry, ProviderEntry};
use pi_gui::workspace::{add_workspace, remove_workspace, rename_workspace, reorder_workspaces, select_workspace, workspace_path};
use pi_gui::worktree::{list_worktrees, worktree_add_args, worktree_remove_args, worktree_result};

fn v(j: &Json) -> serde_json::Value {
    match j {
        Json::Null => serde_json::Value::Null,
        Json::Bool(b) => serde_json::Value::Bool(*b),
        Json::Number(n) => serde_json::from_str(n).unwrap(),
        Json::Str(s) => serde_json::Value::String(s.clone()),
        Json::Array(a) => serde_json::Value::Array(a.iter().map(v).collect()),
        Json::Object(m) => {
            let mut o = serde_json::Map::new();
            for (k, x) in m {
                o.insert(k.clone(), v(x));
            }
            serde_json::Value::Object(o)
        }
    }
}

fn j(text: &str) -> Json {
    fn conv(x: &serde_json::Value) -> Json {
        match x {
            serde_json::Value::Null => Json::Null,
            serde_json::Value::Bool(b) => Json::Bool(*b),
            serde_json::Value::Number(n) => Json::Number(n.to_string()),
            serde_json::Value::String(s) => Json::Str(s.clone()),
            serde_json::Value::Array(a) => Json::Array(a.iter().map(conv).collect()),
            serde_json::Value::Object(m) => Json::Object(m.iter().map(|(k, x)| (k.clone(), conv(x))).collect()),
        }
    }
    conv(&serde_json::from_str(text).unwrap())
}

fn p(text: &str) -> serde_json::Value {
    serde_json::from_str(text).unwrap()
}

fn ids(doc: &Json) -> Vec<String> {
    v(doc)["workspaces"].as_array().unwrap().iter().map(|w| w["id"].as_str().unwrap_or("").to_string()).collect()
}

#[test]
fn workspaces_are_added_and_renamed() {
    let mut doc = j(r#"{"workspaces":[],"selectedWorkspaceId":""}"#);
    add_workspace(&mut doc, "ws-1", "/home/u/proj", "now");
    assert_eq!(v(&doc)["workspaces"][0], p(r#"{"id":"ws-1","name":"proj","path":"/home/u/proj","lastOpenedAt":"now","kind":"primary","sessions":[]}"#));
    rename_workspace(&mut doc, "ws-1", "Project");
    assert_eq!(v(&doc)["workspaces"][0]["name"], p(r#""Project""#));
    rename_workspace(&mut doc, "ws-9", "X");
    assert_eq!(ids(&doc), vec!["ws-1".to_string()]);
    select_workspace(&mut doc, "ws-1");
    assert_eq!(v(&doc)["selectedWorkspaceId"], p(r#""ws-1""#));
    assert_eq!(workspace_path(&doc, "ws-1"), Some("/home/u/proj".to_string()));
    assert_eq!(workspace_path(&doc, "ws-2"), None);
}

#[test]
fn removing_the_selected_workspace_moves_the_selection() {
    let mut doc = j(r#"{"workspaces":[{"id":"a"},{"id":"b"},{"id":"c"}],"selectedWorkspaceId":"a"}"#);
    remove_workspace(&mut doc, "a");
    assert_eq!(ids(&doc), vec!["b".to_string(), "c".to_string()]);
    assert_eq!(v(&doc)["selectedWorkspaceId"], p(r#""b""#));
    remove_workspace(&mut doc, "c");
    assert_eq!(v(&doc)["selectedWorkspaceId"], p(r#""b""#));
    remove_workspace(&mut doc, "b");
    assert_eq!(v(&doc)["selectedWorkspaceId"], p(r#""""#));
}

#[test]
fn reorder_follows_the_given_ids() {
    let mut doc = j(r#"{"workspaces":[{"id":"a","n":1},{"id":"b"},{"id":"a","n":2}]}"#);
    reorder_workspaces(&mut doc, &vec!["b".to_string(), "x".to_string(), "a".to_string()]);
    assert_eq!(v(&doc)["workspaces"], p(r#"[{"id":"b"},{"id":"a","n":2}]"#));
}

#[test]
fn worktree_porcelain_is_read_in_blocks() {
    let out = b"worktree /repo\nHEAD abc\nbranch refs/heads/main\n\nworktree /repo/wt\nHEAD def\ndetached\n\nworktree /bare\nbare\n";
    let l = list_worktrees(true, out);
    assert_eq!(l.len(), 3);
    assert_eq!(v(&l[0]), p(r#"{"path":"/repo","head":"abc","branch":"main"}"#));
    assert_eq!(v(&l[1]), p(r#"{"path":"/repo/wt","head":"def","detached":true}"#));
    assert_eq!(v(&l[2]), p(r#"{"path":"/bare","bare":true}"#));
    assert!(list_worktrees(false, out).is_empty());
}

#[test]
fn worktree_commands() {
    assert_eq!(worktree_add_args("/t", Some("dev")), vec!["worktree", "add", "/t", "dev"]);
    assert_eq!(worktree_add_args("/t", None), vec!["worktree", "add", "/t"]);
    assert_eq!(worktree_remove_args("/t"), vec!["worktree", "remove", "/t"]);
    assert_eq!(v(&worktree_result("add", true, b"", "/t").unwrap()), p(r#"{"path":"/t","success":true}"#));
    assert_eq!(worktree_result("remove", false, b"fatal: no", "/t").unwrap_err(), "git worktree remove: fatal: no");
    assert_eq!(stage_args("f"), vec!["add", "--", "f"]);
    assert_eq!(stage_result(false, b"bad"), Err("git add failed: bad".to_string()));
    assert_eq!(stage_result(true, b""), Ok(()));
}

#[test]
fn selected_transcript_prefers_live_messages() {
    assert!(selected_transcript("", vec![j("1")], vec![]).is_none());
    assert_eq!(v(&selected_transcript("s", vec![j("1")], vec![j("2")]).unwrap()), p(r#"{"sessionId":"s","transcript":[1]}"#));
    assert_eq!(v(&selected_transcript("s", vec![], vec![j("2")]).unwrap()), p(r#"{"sessionId":"s","transcript":[2]}"#));
    assert!(selected_transcript("s", vec![], vec![]).is_none());
    assert_eq!(found_or_error(None, "skill", "pdf").unwrap_err(), "skill 'pdf' not found");
    assert_eq!(v(&found_or_error(Some(j("3")), "skill", "pdf").unwrap()), p("3"));
}

#[test]
fn model_and_provider_listings() {
    let ps = vec![ProviderEntry {
        id: "groq".to_string(),
        builtin_name: Some("Groq".to_string()),
        key_value: Some("placeholder".to_string()),
        models: vec![ModelEntry { id: "m".to_string(), name: "M".to_string() }],
    }];
    assert_eq!(v(&models_listing(&ps)), p(r#"{"models":[{"providerId":"groq","modelId":"m","label":"M","available":false}]}"#));
    assert_eq!(v(&providers_listing(&ps)), p(r#"{"providers":[{"id":"groq","name":"Groq","hasAuth":false}]}"#));
}
