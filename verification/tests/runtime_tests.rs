use pi_gui::json::Json;
use pi_gui::runtime::{
    default_model_key, display_name, env_key_for_provider, key_counts, pick_model, provider_env_keys, runtime_snapshot,
    ModelEntry, ProviderEntry,
};

fn v(j: &Json) -> serde_json::Value {
    match j {
        Json::Null => serde_json::Value::Null,
        Json::Bool(b) => serde_json::Value::Bool(*b),
        Json::Number(n) => serde_json::from_str(n).unwrap(),
        Json::Str(s) => serde_json::Value::String(s.clone()),
        Json::Array(a) => serde_json::Value::Array(a.iter().map(v).collect()),
        Json::Object(m) => {
            let mut o = serde_json::Map::new();
            for (k, x) in m {
                o.insert(k.clone(), v(x));
            }
            serde_json::Value::Object(o)
        }
    }
}

fn p(text: &str) -> serde_json::Value {
    serde_json::from_str(text).unwrap()
}

#[test]
fn env_keys_cover_the_known_providers() {
    let keys = provider_env_keys();
    assert_eq!(keys.len(), 16);
    assert_eq!(keys[0], ("anthropic", "ANTHROPIC_API_KEY"));
    assert_eq!(keys[11], ("github-copilot", "COPILOT_API_KEY"));
    assert_eq!(keys[15], ("kimi-coding", "KIMI_CODING_API_KEY"));
    assert_eq!(env_key_for_provider("openai"), Some("OPENAI_API_KEY"));
    assert_eq!(env_key_for_provider("huggingface"), Some("HF_API_KEY"));
    assert_eq!(env_key_for_provider("nobody"), None);
}

#[test]
fn placeholder_and_empty_keys_do_not_count() {
    assert!(key_counts(Some("sk-1")));
    assert!(!key_counts(Some("")));
    assert!(!key_counts(Some("placeholder")));
    assert!(!key_counts(None));
}

#[test]
fn display_names_capitalize_ascii_ids() {
    assert_eq!(display_name(Some("OpenAI"), "openai"), "OpenAI");
    assert_eq!(display_name(None, "foo"), "Foo");
    assert_eq!(display_name(None, "élan"), "élan");
    assert_eq!(display_name(None, "1x"), "1x");
    assert_eq!(display_name(None, ""), "");
}

#[test]
fn snapshot_lists_providers_and_models() {
    let ps = vec![ProviderEntry {
        id: "acme".to_string(),
        builtin_name: None,
        key_value: Some("k".to_string()),
        models: vec![
            ModelEntry { id: "m1".to_string(), name: "".to_string() },
            ModelEntry { id: "m2".to_string(), name: "Model Two".to_string() },
        ],
    }];
    let s = runtime_snapshot(&ps, Some("acme".to_string()), None, Some("high".to_string()));
    assert_eq!(s.providers.len(), 1);
    assert_eq!(v(&s.providers[0]), p(r#"{"id":"acme","name":"Acme","hasAuth":true}"#));
    assert_eq!(v(&s.models[0]), p(r#"{"providerId":"acme","modelId":"m1","providerName":"Acme","label":"m1","available":true}"#));
    assert_eq!(v(&s.models[1])["label"], p(r#""Model Two""#));
    assert!(s.skills.is_empty() && s.commands.is_empty());
    assert_eq!(s.settings.default_provider, Some("acme".to_string()));
    assert_eq!(s.settings.default_model_id, None);
    assert_eq!(s.settings.default_thinking_level, Some("high".to_string()));
}

#[test]
fn model_choice_falls_back() {
    assert_eq!(pick_model(Some(1), vec![2], vec![3]), 1);
    assert_eq!(pick_model(None, vec![2, 4], vec![3]), 2);
    assert_eq!(pick_model(None::<i32>, vec![], vec![3, 5]), 3);
    assert_eq!(default_model_key(&Some("p".to_string()), &Some("m".to_string())), Some(("p".to_string(), "m".to_string())));
    assert_eq!(default_model_key(&Some("p".to_string()), &None), None);
}
