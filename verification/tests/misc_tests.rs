use pi_gui::files::{git_marker, git_probe_step, GitProbe, score_entry, resolve_scope, scoped_display_path, expand_home, file_completions};
use pi_gui::git::{get_file_diff, DiffAction, list_workspace_files, get_changed_files, read_workspace_file};
use pi_gui::json::Json;
use pi_gui::terminal::{find_terminal, shell_or_default, terminal_output};
use pi_gui::timeline::build_session_tree;
use pi_gui::transcript::AgentMessage;
use pi_gui::tree::{entry_info, truncate, EntryKind, TreeNode, tree_json};

fn v(j: &Json) -> serde_json::Value {
    match j {
        Json::Null => serde_json::Value::Null,
        Json::Bool(b) => serde_json::Value::Bool(*b),
        Json::Number(n) => serde_json::from_str(n).unwrap(),
        Json::Str(s) => serde_json::Value::String(s.clone()),
        Json::Array(a) => serde_json::Value::Array(a.iter().map(v).collect()),
        Json::Object(m) => {
            let mut o = serde_json::Map::new();
            for (k, x) in m {
                o.insert(k.clone(), v(x));
            }
            serde_json::Value::Object(o)
        }
    }
}

fn p(text: &str) -> serde_json::Value {
    serde_json::from_str(text).unwrap()
}

fn text_block(t: &str) -> Json {
    Json::Object(vec![("type".to_string(), Json::Str("text".to_string())), ("text".to_string(), Json::Str(t.to_string()))])
}

#[test]
fn git_probe_walks_up() {
    assert!(matches!(git_probe_step("/a/b", true), GitProbe::Found));
    assert!(matches!(git_probe_step("/a/b", false), GitProbe::Check(p) if p == "/a"));
    assert!(matches!(git_probe_step("/", false), GitProbe::NotFound));
    assert_eq!(git_marker("/a"), "/a/.git");
}

#[test]
fn terminals_are_found_by_id() {
    let ids = vec!["t1".to_string(), "t2".to_string()];
    assert_eq!(find_terminal(&ids, "t2"), Ok(1));
    assert_eq!(find_terminal(&ids, "t9"), Err("terminal not found".to_string()));
    assert_eq!(shell_or_default(None), "/bin/zsh");
    assert_eq!(shell_or_default(Some("/bin/bash".to_string())), "/bin/bash");
    assert_eq!(v(&terminal_output("t1", b"ok\xff")), p(r#"{"sessionId":"t1","data":"ok\ufffd"}"#));
}

#[test]
fn session_tree_previews_are_cut_by_bytes() {
    let long: String = std::iter::repeat('é').take(50).collect();
    let msgs = vec![
        AgentMessage::User { content: vec![text_block("hi")], timestamp: 5 },
        AgentMessage::Assistant { content: vec![text_block(&long)], timestamp: 6 },
        AgentMessage::Other,
    ];
    let t = v(&build_session_tree("s", &msgs));
    assert_eq!(t["id"], p(r#""s""#));
    assert_eq!(t["label"], p(r#""root""#));
    assert_eq!(t["leafId"], p(r#""3""#));
    assert_eq!(t["roots"][0], p(r#"{"id":"msg-0","kind":"message","role":"user","title":"user at 5","preview":"hi","children":[]}"#));
    assert_eq!(t["roots"][1]["preview"].as_str().unwrap(), format!("{long}…"));
    assert_eq!(t["roots"][2]["title"], p(r#""system at 0""#));
}

#[test]
fn tree_labels() {
    assert_eq!(truncate("  hello  ", 3), "hel…");
    assert_eq!(truncate("hi", 3), "hi");
    let (k, l) = entry_info(&EntryKind::ModelChange { provider: "p".to_string(), model_id: "m".to_string() });
    assert_eq!((k.as_str(), l.as_str()), ("model_change", "Model: p/m"));
    let (k, l) = entry_info(&EntryKind::Label { label: None });
    assert_eq!((k.as_str(), l.as_str()), ("label", "Label"));
    let node = TreeNode {
        id: "n1".to_string(),
        parent_id: None,
        timestamp: "t".to_string(),
        entry: EntryKind::SessionInfo { name: Some("x".to_string()) },
        children: vec![],
    };
    let t = tree_json(&vec![node], Some("n1"));
    assert_eq!(v(&t[0]), p(r#"{"id":"n1","parentId":null,"kind":"session_info","label":"Session: x","timestamp":"t","current":true,"children":[]}"#));
}

#[test]
fn diff_tries_worktree_then_index_then_untracked() {
    let r0: Vec<Result<String, String>> = vec![];
    assert!(matches!(get_file_diff("f", &r0), DiffAction::Run(a) if a == vec!["diff", "--", "f"]));
    let r1 = vec![Ok(" \n".to_string())];
    assert!(matches!(get_file_diff("f", &r1), DiffAction::Run(a) if a == vec!["diff", "--cached", "--", "f"]));
    let r2 = vec![Ok("".to_string()), Err("e".to_string())];
    assert!(matches!(get_file_diff("f", &r2), DiffAction::Run(a) if a == vec!["diff", "--no-index", "--", "/dev/null", "f"]));
    let r3 = vec![Ok("".to_string()), Ok("".to_string()), Ok("".to_string())];
    assert!(matches!(get_file_diff("f", &r3), DiffAction::Done(Ok(d)) if d.is_empty()));
    let done = vec![Ok("+x".to_string())];
    assert!(matches!(get_file_diff("f", &done), DiffAction::Done(Ok(d)) if d == "+x"));
}

#[test]
fn files_and_scoring() {
    assert_eq!(expand_home("~/x", Some("/home/u")), "/home/u/x");
    assert_eq!(expand_home("~", None), ".");
    assert_eq!(scoped_display_path("src/", "a.rs"), "src/a.rs");
    assert!(score_entry("src/main.rs", "main", false) > 0);
    assert_eq!(score_entry("src/main.rs", "zzz", false), 0);
    let (base, q) = resolve_scope("/w", "src/ma", None);
    assert_eq!(base, "/w/src/");
    assert_eq!(q, "ma");
    let entries = vec![("main.rs".to_string(), false), (".git/HEAD".to_string(), false), ("docs".to_string(), true)];
    let r = file_completions("/w", "", None, &entries);
    assert_eq!(r.len(), 2);
    assert_eq!(v(&r[0])["isDir"], p("true"));
}

#[test]
fn git_outputs() {
    assert_eq!(list_workspace_files(true, b"b\na\n"), vec!["a".to_string(), "b".to_string()]);
    assert!(list_workspace_files(false, b"a\n").is_empty());
    let ch = get_changed_files(true, b" M src/a.rs\n?? new.txt\n");
    assert_eq!(ch.len(), 2);
    let pv = read_workspace_file("f", true, 3, b"abc");
    assert_eq!(v(&pv), p(r#"{"path":"f","content":"abc","truncated":false,"binary":false,"sizeBytes":3}"#));
    let bin = read_workspace_file("f", true, 3, b"a\0c");
    assert_eq!(v(&bin)["binary"], p("true"));
}
