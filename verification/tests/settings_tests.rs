use pi_gui::json::Json;
use pi_gui::settings::{general_settings_json, setting_change, GeneralSettings, SettingChange};
use pi_gui::persistence::{merge_into, restore_state, slim_state};
use pi_gui::export::{export_format, trust_json, ExportFormat};

fn v(j: &Json) -> serde_json::Value {
    match j {
        Json::Null => serde_json::Value::Null,
        Json::Bool(b) => serde_json::Value::Bool(*b),
        Json::Number(n) => serde_json::from_str(n).unwrap(),
        Json::Str(s) => serde_json::Value::String(s.clone()),
        Json::Array(a) => serde_json::Value::Array(a.iter().map(v).collect()),
        Json::Object(m) => {
            let mut o = serde_json::Map::new();
            for (k, x) in m {
                o.insert(k.clone(), v(x));
            }
            serde_json::Value::Object(o)
        }
    }
}

fn j(text: &str) -> Json {
    fn conv(x: &serde_json::Value) -> Json {
        match x {
            serde_json::Value::Null => Json::Null,
            serde_json::Value::Bool(b) => Json::Bool(*b),
            serde_json::Value::Number(n) => Json::Number(n.to_string()),
            serde_json::Value::String(s) => Json::Str(s.clone()),
            serde_json::Value::Array(a) => Json::Array(a.iter().map(conv).collect()),
            serde_json::Value::Object(m) => Json::Object(m.iter().map(|(k, x)| (k.clone(), conv(x))).collect()),
        }
    }
    conv(&serde_json::from_str(text).unwrap())
}

fn p(text: &str) -> serde_json::Value {
    serde_json::from_str(text).unwrap()
}

#[test]
fn setting_changes_are_checked() {
    assert!(matches!(setting_change("compactionEnabled", &Json::Bool(true)), Ok(SettingChange::CompactionEnabled(true))));
    assert_eq!(setting_change("compactionEnabled", &j(r#""yes""#)).unwrap_err(), "compactionEnabled must be a bool");
    assert_eq!(setting_change("retryEnabled", &Json::Null).unwrap_err(), "retryEnabled must be a bool");
    assert_eq!(setting_change("hideThinkingBlock", &Json::Null).unwrap_err(), "hideThinkingBlock must be a bool");
    assert_eq!(setting_change("quietStartup", &Json::Null).unwrap_err(), "quietStartup must be a bool");
    assert_eq!(setting_change("defaultThinkingLevel", &Json::Bool(true)).unwrap_err(), "defaultThinkingLevel must be a string");
    assert_eq!(setting_change("theme", &Json::Bool(true)).unwrap_err(), "theme must be a string");
    assert_eq!(setting_change("volume", &Json::Null).unwrap_err(), "unknown setting 'volume'");
    assert!(matches!(setting_change("theme", &j(r#""dark""#)), Ok(SettingChange::Theme(t)) if t == "dark"));
}

#[test]
fn blank_shell_path_clears_it() {
    assert!(matches!(setting_change("shellPath", &j(r#""   ""#)), Ok(SettingChange::ShellPath(None))));
    assert!(matches!(setting_change("shellPath", &Json::Bool(true)), Ok(SettingChange::ShellPath(None))));
    assert!(matches!(setting_change("shellPath", &j(r#"" /bin/fish ""#)), Ok(SettingChange::ShellPath(Some(p))) if p == " /bin/fish "));
}

#[test]
fn general_settings_snapshot() {
    let g = GeneralSettings {
        default_thinking_level: None,
        compaction_enabled: true,
        compaction_reserve_tokens: 16384,
        compaction_keep_recent_tokens: 20000,
        retry_enabled: false,
        hide_thinking_block: true,
        shell_path: None,
        quiet_startup: false,
        theme: Some("dark".to_string()),
    };
    let r = general_settings_json(&g, "/a", "/a/settings.json", "/a/sessions", "0.1.0");
    assert_eq!(v(&r), p(r#"{"defaultThinkingLevel":"normal","compactionEnabled":true,"compactionReserveTokens":16384,"compactionKeepRecentTokens":20000,"retryEnabled":false,"hideThinkingBlock":true,"shellPath":null,"quietStartup":false,"theme":"dark","paths":{"agentDir":"/a","settingsPath":"/a/settings.json","sessionsDir":"/a/sessions"},"version":"0.1.0"}"#));
}

#[test]
fn deep_merge_lets_patch_win_recursively() {
    let base = j(r#"{"a":1,"b":{"x":1,"y":2},"c":[1]}"#);
    let patch = j(r#"{"b":{"y":3,"z":4},"c":{"k":true},"d":null}"#);
    let m = merge_into(&base, &patch);
    assert_eq!(v(&m), p(r#"{"a":1,"b":{"x":1,"y":3,"z":4},"c":{"k":true},"d":null}"#));
    assert_eq!(v(&merge_into(&base, &j("5"))), p("5"));
    assert_eq!(v(&merge_into(&j("5"), &patch)), v(&patch));
}

#[test]
fn slim_state_round_trips_the_selection() {
    let mut s = restore_state(None);
    assert_eq!(s.selected_session_id, "");
    s.selected_session_id = "abc".to_string();
    let doc = slim_state(&s);
    assert_eq!(v(&doc), p(r#"{"selectedSessionId":"abc"}"#));
    let r = restore_state(Some(doc));
    assert_eq!(r.selected_session_id, "abc");
    assert_eq!(r.revision, 1);
    assert_eq!(restore_state(Some(j(r#"{"selectedSessionId":""}"#))).selected_session_id, "");
    assert_eq!(restore_state(Some(j(r#"{"selectedSessionId":3}"#))).selected_session_id, "");
}

#[test]
fn export_formats_and_trust() {
    assert_eq!(export_format("html"), Ok(ExportFormat::Html));
    assert_eq!(export_format("jsonl"), Ok(ExportFormat::Jsonl));
    assert_eq!(export_format("pdf"), Err("unsupported export format 'pdf'".to_string()));
    assert_eq!(v(&trust_json("/w", Some(true))), p(r#"{"cwd":"/w","decision":true}"#));
    assert_eq!(v(&trust_json("/w", None)), p(r#"{"cwd":"/w","decision":null}"#));
}
