//! The General settings tab: the snapshot it shows and the checks on a
//! change before it is applied to the settings file.
use vstd::prelude::*;
use crate::text::{owned, str_eq, concat3, trim, spec_trim, u64_to_dec, dec_nat};
use crate::json::{Json, JsonV, json_view, jstr, object3, object8};

verus! {

/// One change of a general setting, checked and ready to apply.
#[derive(Debug)]
pub enum SettingChange {
    DefaultThinkingLevel(String),
    CompactionEnabled(bool),
    RetryEnabled(bool),
    HideThinkingBlock(bool),
    /// `None` clears the setting.
    ShellPath(Option<String>),
    QuietStartup(bool),
    Theme(String),
}

/// The model of a checked change.
pub enum SettingChangeV {
    DefaultThinkingLevel(Seq<char>),
    CompactionEnabled(bool),
    RetryEnabled(bool),
    HideThinkingBlock(bool),
    ShellPath(Option<Seq<char>>),
    QuietStartup(bool),
    Theme(Seq<char>),
}

pub open spec fn change_view(c: SettingChange) -> SettingChangeV {
    match c {
        SettingChange::DefaultThinkingLevel(s) => SettingChangeV::DefaultThinkingLevel(s@),
        SettingChange::CompactionEnabled(b) => SettingChangeV::CompactionEnabled(b),
        SettingChange::RetryEnabled(b) => SettingChangeV::RetryEnabled(b),
        SettingChange::HideThinkingBlock(b) => SettingChangeV::HideThinkingBlock(b),
        SettingChange::ShellPath(p) => SettingChangeV::ShellPath(match p {
            Some(s) => Some(s@),
            None => None,
        }),
        SettingChange::QuietStartup(b) => SettingChangeV::QuietStartup(b),
        SettingChange::Theme(s) => SettingChangeV::Theme(s@),
    }
}

/// The change that setting `key` to `value` makes, or why it is refused: a
/// string setting needs a string, a switch needs a bool, the shell path is
/// cleared by anything but a string with a non-blank character, and an
/// unknown key is refused.
pub open spec fn spec_setting_change(key: Seq<char>, value: JsonV) -> Result<SettingChangeV, Seq<char>> {
    if key == "defaultThinkingLevel"@ {
        match value {
            JsonV::Str(s) => Ok(SettingChangeV::DefaultThinkingLevel(s)),
            _ => Err("defaultThinkingLevel must be a string"@),
        }
    } else if key == "compactionEnabled"@ {
        match value {
            JsonV::Bool(b) => Ok(SettingChangeV::CompactionEnabled(b)),
            _ => Err("compactionEnabled must be a bool"@),
        }
    } else if key == "retryEnabled"@ {
        match value {
            JsonV::Bool(b) => Ok(SettingChangeV::RetryEnabled(b)),
            _ => Err("retryEnabled must be a bool"@),
        }
    } else if key == "hideThinkingBlock"@ {
        match value {
            JsonV::Bool(b) => Ok(SettingChangeV::HideThinkingBlock(b)),
            _ => Err("hideThinkingBlock must be a bool"@),
        }
    } else if key == "shellPath"@ {
        Ok(SettingChangeV::ShellPath(match value {
            JsonV::Str(s) => if spec_trim(s).len() > 0 { Some(s) } else { None },
            _ => None,
        }))
    } else if key == "quietStartup"@ {
        match value {
            JsonV::Bool(b) => Ok(SettingChangeV::QuietStartup(b)),
            _ => Err("quietStartup must be a bool"@),
        }
    } else if key == "theme"@ {
        match value {
            JsonV::Str(s) => Ok(SettingChangeV::Theme(s)),
            _ => Err("theme must be a string"@),
        }
    } else {
        Err("unknown setting '"@ + key + "'"@)
    }
}

fn bool_of(value: &Json, err: &str) -> (r: Result<bool, String>)
    ensures
        match r {
            Ok(b) => value@ == JsonV::Bool(b),
            Err(e) => !(value@ is Bool) && e@ == err@,
        },
{
    match value {
        Json::Bool(b) => Ok(*b),
        _ => Err(owned(err)),
    }
}

fn str_of(value: &Json, err: &str) -> (r: Result<String, String>)
    ensures
        match r {
            Ok(s) => value@ == JsonV::Str(s@),
            Err(e) => !(value@ is Str) && e@ == err@,
        },
{
    match value {
        Json::Str(s) => Ok(s.clone()),
        _ => Err(owned(err)),
    }
}

/// Check setting `key` to `value` and give the change to apply.
pub fn setting_change(key: &str, value: &Json) -> (r: Result<SettingChange, String>)
    ensures
        match r {
            Ok(c) => spec_setting_change(key@, value@) == Ok::<SettingChangeV, Seq<char>>(change_view(c)),
            Err(e) => spec_setting_change(key@, value@) == Err::<SettingChangeV, Seq<char>>(e@),
        },
{
    if str_eq(key, "defaultThinkingLevel") {
        match str_of(value, "defaultThinkingLevel must be a string") {
            Ok(s) => Ok(SettingChange::DefaultThinkingLevel(s)),
            Err(e) => Err(e),
        }
    } else if str_eq(key, "compactionEnabled") {
        match bool_of(value, "compactionEnabled must be a bool") {
            Ok(b) => Ok(SettingChange::CompactionEnabled(b)),
            Err(e) => Err(e),
        }
    } else if str_eq(key, "retryEnabled") {
        match bool_of(value, "retryEnabled must be a bool") {
            Ok(b) => Ok(SettingChange::RetryEnabled(b)),
            Err(e) => Err(e),
        }
    } else if str_eq(key, "hideThinkingBlock") {
        match bool_of(value, "hideThinkingBlock must be a bool") {
            Ok(b) => Ok(SettingChange::HideThinkingBlock(b)),
            Err(e) => Err(e),
        }
    } else if str_eq(key, "shellPath") {
        let p = match value {
            Json::Str(s) => {
                let t = trim(s.as_str());
                if t.as_str().unicode_len() > 0 { Some(s.clone()) } else { None }
            },
            _ => None,
        };
        Ok(SettingChange::ShellPath(p))
    } else if str_eq(key, "quietStartup") {
        match bool_of(value, "quietStartup must be a bool") {
            Ok(b) => Ok(SettingChange::QuietStartup(b)),
            Err(e) => Err(e),
        }
    } else if str_eq(key, "theme") {
        match str_of(value, "theme must be a string") {
            Ok(s) => Ok(SettingChange::Theme(s)),
            Err(e) => Err(e),
        }
    } else {
        Err(concat3("unknown setting '", key, "'"))
    }
}

/// The general settings as the settings file gives them.
pub struct GeneralSettings {
    pub default_thinking_level: Option<String>,
    pub compaction_enabled: bool,
    pub compaction_reserve_tokens: u64,
    pub compaction_keep_recent_tokens: u64,
    pub retry_enabled: bool,
    pub hide_thinking_block: bool,
    pub shell_path: Option<String>,
    pub quiet_startup: bool,
    pub theme: Option<String>,
}

pub open spec fn ostr_json(o: Option<String>) -> JsonV {
    match o {
        Some(s) => JsonV::Str(s@),
        None => JsonV::Null,
    }
}

/// The General tab's snapshot: the settings (thinking level `normal` when
/// unset) and, for the About tab, the agent paths and the version.
pub open spec fn spec_general_settings_json(
    g: GeneralSettings,
    agent_dir: Seq<char>,
    settings_path: Seq<char>,
    sessions_dir: Seq<char>,
    version: Seq<char>,
) -> JsonV {
    JsonV::Object(seq![
        ("defaultThinkingLevel"@, JsonV::Str(match g.default_thinking_level {
            Some(l) => l@,
            None => "normal"@,
        })),
        ("compactionEnabled"@, JsonV::Bool(g.compaction_enabled)),
        ("compactionReserveTokens"@, JsonV::Number(dec_nat(g.compaction_reserve_tokens as nat))),
        ("compactionKeepRecentTokens"@, JsonV::Number(dec_nat(g.compaction_keep_recent_tokens as nat))),
        ("retryEnabled"@, JsonV::Bool(g.retry_enabled)),
        ("hideThinkingBlock"@, JsonV::Bool(g.hide_thinking_block)),
        ("shellPath"@, ostr_json(g.shell_path)),
        ("quietStartup"@, JsonV::Bool(g.quiet_startup)),
        ("theme"@, ostr_json(g.theme)),
        ("paths"@, JsonV::Object(seq![
            ("agentDir"@, JsonV::Str(agent_dir)),
            ("settingsPath"@, JsonV::Str(settings_path)),
            ("sessionsDir"@, JsonV::Str(sessions_dir)),
        ])),
        ("version"@, JsonV::Str(version)),
    ])
}

fn ostr_json_exec(o: &Option<String>) -> (r: Json)
    ensures
        r@ == ostr_json(*o),
{
    match o {
        Some(s) => Json::Str(s.clone()),
        None => Json::Null,
    }
}

/// The General tab's snapshot.
pub fn general_settings_json(
    g: &GeneralSettings,
    agent_dir: &str,
    settings_path: &str,
    sessions_dir: &str,
    version: &str,
) -> (r: Json)
    ensures
        r@ == spec_general_settings_json(*g, agent_dir@, settings_path@, sessions_dir@, version@),
{
    let level = match &g.default_thinking_level {
        Some(l) => l.clone(),
        None => owned("normal"),
    };
    let paths = object3("agentDir", jstr(agent_dir), "settingsPath", jstr(settings_path), "sessionsDir", jstr(sessions_dir));
    let mut m: Vec<(String, Json)> = Vec::new();
    m.push((owned("defaultThinkingLevel"), Json::Str(level)));
    m.push((owned("compactionEnabled"), Json::Bool(g.compaction_enabled)));
    m.push((owned("compactionReserveTokens"), Json::Number(u64_to_dec(g.compaction_reserve_tokens))));
    m.push((owned("compactionKeepRecentTokens"), Json::Number(u64_to_dec(g.compaction_keep_recent_tokens))));
    m.push((owned("retryEnabled"), Json::Bool(g.retry_enabled)));
    m.push((owned("hideThinkingBlock"), Json::Bool(g.hide_thinking_block)));
    m.push((owned("shellPath"), ostr_json_exec(&g.shell_path)));
    m.push((owned("quietStartup"), Json::Bool(g.quiet_startup)));
    m.push((owned("theme"), ostr_json_exec(&g.theme)));
    m.push((owned("paths"), paths));
    m.push((owned("version"), jstr(version)));
    proof {
        crate::json::lemma_view_object(m);
        assert(crate::json::members_view(m@) =~= spec_general_settings_json(*g, agent_dir@, settings_path@, sessions_dir@, version@)->Object_0);
    }
    Json::Object(m)
}

} // verus!
