use pi_gui::extensions::{extension_name, get_extension, list_extensions};
use pi_gui::json::Json;
use pi_gui::skills::{get_skill, list_skills, skill_json, skill_scope, Skill, SkillScope};

fn v(j: &Json) -> serde_json::Value {
    match j {
        Json::Null => serde_json::Value::Null,
        Json::Bool(b) => serde_json::Value::Bool(*b),
        Json::Number(n) => serde_json::from_str(n).unwrap(),
        Json::Str(s) => serde_json::Value::String(s.clone()),
        Json::Array(a) => serde_json::Value::Array(a.iter().map(v).collect()),
        Json::Object(m) => {
            let mut o = serde_json::Map::new();
            for (k, x) in m {
                o.insert(k.clone(), v(x));
            }
            serde_json::Value::Object(o)
        }
    }
}

fn p(text: &str) -> serde_json::Value {
    serde_json::from_str(text).unwrap()
}

fn s(x: &str) -> String {
    x.to_string()
}

#[test]
fn test_skill_scope_mapping() {
    assert_eq!(skill_scope(&SkillScope::User), "global");
    assert_eq!(skill_scope(&SkillScope::Project), "workspace");
    assert_eq!(skill_scope(&SkillScope::Temporary), "custom");
}

#[test]
fn extension_names_strip_the_stamp() {
    assert_eq!(extension_name("<builtin:goal>"), "goal");
    assert_eq!(extension_name("<builtin:<builtin:x>>"), "x");
    assert_eq!(extension_name("plain"), "plain");
    assert_eq!(extension_name("<builtin:"), "");
}

#[test]
fn extensions_are_grouped_sorted_and_unique() {
    let tools = vec![(s("<builtin:zeta>"), s("t1")), (s("<builtin:goal>"), s("set_goal")), (s("<builtin:goal>"), s("get_goal"))];
    let cmds = vec![(s("<builtin:goal>"), s("goal"), s("Set a goal")), (s("<builtin:alpha>"), s("a"), s("A"))];
    let l = list_extensions(&tools, &cmds);
    assert_eq!(l.len(), 3);
    assert_eq!(v(&l[0]), p(r#"{"name":"alpha","location":"builtin","tools":[],"commands":[{"name":"a","description":"A"}]}"#));
    assert_eq!(v(&l[1]), p(r#"{"name":"goal","location":"builtin","tools":["set_goal","get_goal"],"commands":[{"name":"goal","description":"Set a goal"}]}"#));
    assert_eq!(v(&l[2]), p(r#"{"name":"zeta","location":"builtin","tools":["t1"],"commands":[]}"#));
    let g = get_extension(&tools, &cmds, "goal").unwrap();
    assert_eq!(v(&g)["name"], p(r#""goal""#));
    assert!(get_extension(&tools, &cmds, "nope").is_none());
}

fn skill(name: &str, scope: SkillScope, dir: &str) -> Skill {
    Skill {
        name: s(name),
        description: s("d"),
        file_path: format!("{dir}/SKILL.md"),
        base_dir: s(dir),
        scope,
        disable_model_invocation: false,
    }
}

#[test]
fn skills_sort_by_scope_then_name_stably() {
    let skills = vec![
        skill("b", SkillScope::Project, "/1"),
        skill("a", SkillScope::User, "/2"),
        skill("a", SkillScope::Project, "/3"),
        skill("a", SkillScope::Project, "/4"),
        skill("z", SkillScope::Temporary, "/5"),
    ];
    let l = list_skills(&skills);
    let order: Vec<(String, String)> = l.iter().map(|x| {
        let y = v(x);
        (y["scope"].as_str().unwrap().to_string(), y["baseDir"].as_str().unwrap().to_string())
    }).collect();
    assert_eq!(order, vec![
        (s("custom"), s("/5")),
        (s("global"), s("/2")),
        (s("workspace"), s("/3")),
        (s("workspace"), s("/4")),
        (s("workspace"), s("/1")),
    ]);
    assert_eq!(v(&get_skill(&skills, "a").unwrap())["baseDir"], p(r#""/2""#));
    assert!(get_skill(&skills, "q").is_none());
}

#[test]
fn skill_json_has_frontend_fields() {
    let j = skill_json(&skill("x", SkillScope::User, "/d"));
    assert_eq!(v(&j), p(r#"{"name":"x","description":"d","filePath":"/d/SKILL.md","baseDir":"/d","scope":"global","disableModelInvocation":false}"#));
}
