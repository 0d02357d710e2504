//! The desktop UI state: session records, model settings, composer and view
//! fields, with their mathematical models.
use vstd::prelude::*;
use crate::json::{Json, JsonV, json_view, items_view};

verus! {

/// One session as the sidebar shows it.
#[derive(Debug)]
pub struct SessionRecord {
    pub id: String,
    pub title: String,
    pub updated_at: String,
    pub preview: String,
    pub status: String,
    pub has_unseen_update: bool,
    pub session_file: Option<String>,
    pub archived_at: Option<String>,
    pub config: Option<Json>,
    pub thinking_level: Option<String>,
    pub cwd: Option<String>,
}

/// Model/provider defaults shared by every session.
#[derive(Debug)]
pub struct GlobalModelSettings {
    pub enabled_model_patterns: Vec<String>,
    pub default_provider: Option<String>,
    pub default_model_id: Option<String>,
    pub default_thinking_level: Option<String>,
}

/// The settings part of a runtime snapshot.
#[derive(Debug)]
pub struct RuntimeSettings {
    pub enabled_model_patterns: Vec<String>,
    pub default_provider: Option<String>,
    pub default_model_id: Option<String>,
    pub default_thinking_level: Option<String>,
}

/// Models, providers, skills and commands known to the agent runtime.
#[derive(Debug)]
pub struct RuntimeSnapshot {
    pub models: Vec<Json>,
    pub providers: Vec<Json>,
    pub skills: Vec<Json>,
    pub commands: Vec<Json>,
    pub settings: RuntimeSettings,
}

/// The whole UI state the frontend renders.
#[derive(Debug)]
pub struct DesktopState {
    pub revision: u64,
    pub sessions: Vec<SessionRecord>,
    pub selected_session_id: String,
    pub runtime: RuntimeSnapshot,
    pub global_model_settings: GlobalModelSettings,
    pub theme_mode: String,
    pub theme_preset_id: String,
    pub active_view: String,
    pub sidebar_collapsed: bool,
    pub composer_draft: String,
    pub composer_draft_sync_source: Option<String>,
    pub composer_draft_sync_nonce: u64,
    pub composer_attachments: Vec<Json>,
    pub editing_queued_message_id: Option<String>,
    pub queued_composer_messages: Vec<Json>,
    pub notification_preferences: Option<Json>,
    pub integrated_terminal_shell: Option<String>,
    pub enable_transparency: Option<bool>,
    pub model_settings_scope_mode: Option<String>,
}

pub struct SessionRecordV {
    pub id: Seq<char>,
    pub title: Seq<char>,
    pub updated_at: Seq<char>,
    pub preview: Seq<char>,
    pub status: Seq<char>,
    pub has_unseen_update: bool,
    pub session_file: Option<Seq<char>>,
    pub archived_at: Option<Seq<char>>,
    pub config: Option<JsonV>,
    pub thinking_level: Option<Seq<char>>,
    pub cwd: Option<Seq<char>>,
}

pub struct ModelSettingsV {
    pub enabled_model_patterns: Seq<Seq<char>>,
    pub default_provider: Option<Seq<char>>,
    pub default_model_id: Option<Seq<char>>,
    pub default_thinking_level: Option<Seq<char>>,
}

pub struct RuntimeSnapshotV {
    pub models: Seq<JsonV>,
    pub providers: Seq<JsonV>,
    pub skills: Seq<JsonV>,
    pub commands: Seq<JsonV>,
    pub settings: ModelSettingsV,
}

pub struct DesktopStateV {
    pub revision: u64,
    pub sessions: Seq<SessionRecordV>,
    pub selected_session_id: Seq<char>,
    pub runtime: RuntimeSnapshotV,
    pub global_model_settings: ModelSettingsV,
    pub theme_mode: Seq<char>,
    pub theme_preset_id: Seq<char>,
    pub active_view: Seq<char>,
    pub sidebar_collapsed: bool,
    pub composer_draft: Seq<char>,
    pub composer_draft_sync_source: Option<Seq<char>>,
    pub composer_draft_sync_nonce: u64,
    pub composer_attachments: Seq<JsonV>,
    pub editing_queued_message_id: Option<Seq<char>>,
    pub queued_composer_messages: Seq<JsonV>,
    pub notification_preferences: Option<JsonV>,
    pub integrated_terminal_shell: Option<Seq<char>>,
    pub enable_transparency: Option<bool>,
    pub model_settings_scope_mode: Option<Seq<char>>,
}

pub open spec fn ostr(o: Option<String>) -> Option<Seq<char>> {
    match o {
        Some(s) => Some(s@),
        None => None,
    }
}

pub open spec fn ojson(o: Option<Json>) -> Option<JsonV> {
    match o {
        Some(j) => Some(json_view(j)),
        None => None,
    }
}

pub open spec fn strs_view(v: Seq<String>) -> Seq<Seq<char>> {
    Seq::new(v.len(), |i: int| v[i]@)
}

impl View for SessionRecord {
    type V = SessionRecordV;

    open spec fn view(&self) -> SessionRecordV {
        SessionRecordV {
            id: self.id@,
            title: self.title@,
            updated_at: self.updated_at@,
            preview: self.preview@,
            status: self.status@,
            has_unseen_update: self.has_unseen_update,
            session_file: ostr(self.session_file),
            archived_at: ostr(self.archived_at),
            config: ojson(self.config),
            thinking_level: ostr(self.thinking_level),
            cwd: ostr(self.cwd),
        }
    }
}

pub open spec fn records_view(v: Seq<SessionRecord>) -> Seq<SessionRecordV> {
    Seq::new(v.len(), |i: int| v[i]@)
}

impl View for GlobalModelSettings {
    type V = ModelSettingsV;

    open spec fn view(&self) -> ModelSettingsV {
        ModelSettingsV {
            enabled_model_patterns: strs_view(self.enabled_model_patterns@),
            default_provider: ostr(self.default_provider),
            default_model_id: ostr(self.default_model_id),
            default_thinking_level: ostr(self.default_thinking_level),
        }
    }
}

impl View for RuntimeSettings {
    type V = ModelSettingsV;

    open spec fn view(&self) -> ModelSettingsV {
        ModelSettingsV {
            enabled_model_patterns: strs_view(self.enabled_model_patterns@),
            default_provider: ostr(self.default_provider),
            default_model_id: ostr(self.default_model_id),
            default_thinking_level: ostr(self.default_thinking_level),
        }
    }
}

impl View for RuntimeSnapshot {
    type V = RuntimeSnapshotV;

    open spec fn view(&self) -> RuntimeSnapshotV {
        RuntimeSnapshotV {
            models: items_view(self.models@),
            providers: items_view(self.providers@),
            skills: items_view(self.skills@),
            commands: items_view(self.commands@),
            settings: self.settings@,
        }
    }
}

impl View for DesktopState {
    type V = DesktopStateV;

    open spec fn view(&self) -> DesktopStateV {
        DesktopStateV {
            revision: self.revision,
            sessions: records_view(self.sessions@),
            selected_session_id: self.selected_session_id@,
            runtime: self.runtime@,
            global_model_settings: self.global_model_settings@,
            theme_mode: self.theme_mode@,
            theme_preset_id: self.theme_preset_id@,
            active_view: self.active_view@,
            sidebar_collapsed: self.sidebar_collapsed,
            composer_draft: self.composer_draft@,
            composer_draft_sync_source: ostr(self.composer_draft_sync_source),
            composer_draft_sync_nonce: self.composer_draft_sync_nonce,
            composer_attachments: items_view(self.composer_attachments@),
            editing_queued_message_id: ostr(self.editing_queued_message_id),
            queued_composer_messages: items_view(self.queued_composer_messages@),
            notification_preferences: ojson(self.notification_preferences),
            integrated_terminal_shell: ostr(self.integrated_terminal_shell),
            enable_transparency: self.enable_transparency,
            model_settings_scope_mode: ostr(self.model_settings_scope_mode),
        }
    }
}

/// Empty model settings.
pub open spec fn empty_settings() -> ModelSettingsV {
    ModelSettingsV {
        enabled_model_patterns: Seq::empty(),
        default_provider: None,
        default_model_id: None,
        default_thinking_level: None,
    }
}

/// The state of a fresh start.
pub open spec fn spec_default_state() -> DesktopStateV {
    DesktopStateV {
        revision: 1,
        sessions: Seq::empty(),
        selected_session_id: Seq::empty(),
        runtime: RuntimeSnapshotV {
            models: Seq::empty(),
            providers: Seq::empty(),
            skills: Seq::empty(),
            commands: Seq::empty(),
            settings: empty_settings(),
        },
        global_model_settings: empty_settings(),
        theme_mode: "system"@,
        theme_preset_id: "default"@,
        active_view: "threads"@,
        sidebar_collapsed: false,
        composer_draft: Seq::empty(),
        composer_draft_sync_source: None,
        composer_draft_sync_nonce: 0,
        composer_attachments: Seq::empty(),
        editing_queued_message_id: None,
        queued_composer_messages: Seq::empty(),
        notification_preferences: None,
        integrated_terminal_shell: None,
        enable_transparency: None,
        model_settings_scope_mode: None,
    }
}

fn empty_global_settings() -> (g: GlobalModelSettings)
    ensures
        g@ == empty_settings(),
{
    let g = GlobalModelSettings {
        enabled_model_patterns: Vec::new(),
        default_provider: None,
        default_model_id: None,
        default_thinking_level: None,
    };
    assert(g@.enabled_model_patterns =~= Seq::<Seq<char>>::empty());
    g
}

fn empty_runtime_settings() -> (g: RuntimeSettings)
    ensures
        g@ == empty_settings(),
{
    let g = RuntimeSettings {
        enabled_model_patterns: Vec::new(),
        default_provider: None,
        default_model_id: None,
        default_thinking_level: None,
    };
    assert(g@.enabled_model_patterns =~= Seq::<Seq<char>>::empty());
    g
}

/// An empty runtime snapshot.
pub fn empty_runtime() -> (r: RuntimeSnapshot)
    ensures
        r@ == spec_default_state().runtime,
{
    let r = RuntimeSnapshot {
        models: Vec::new(),
        providers: Vec::new(),
        skills: Vec::new(),
        commands: Vec::new(),
        settings: empty_runtime_settings(),
    };
    assert(r@.models =~= Seq::<JsonV>::empty());
    assert(r@.providers =~= Seq::<JsonV>::empty());
    assert(r@.skills =~= Seq::<JsonV>::empty());
    assert(r@.commands =~= Seq::<JsonV>::empty());
    r
}

/// The state of a fresh start: revision 1, no sessions, nothing selected,
/// system theme, the threads view.
pub fn default_state() -> (s: DesktopState)
    ensures
        s@ == spec_default_state(),
{
    let s = DesktopState {
        revision: 1,
        sessions: Vec::new(),
        selected_session_id: String::new(),
        runtime: empty_runtime(),
        global_model_settings: empty_global_settings(),
        theme_mode: "system".to_owned(),
        theme_preset_id: "default".to_owned(),
        active_view: "threads".to_owned(),
        sidebar_collapsed: false,
        composer_draft: String::new(),
        composer_draft_sync_source: None,
        composer_draft_sync_nonce: 0,
        composer_attachments: Vec::new(),
        editing_queued_message_id: None,
        queued_composer_messages: Vec::new(),
        notification_preferences: None,
        integrated_terminal_shell: None,
        enable_transparency: None,
        model_settings_scope_mode: None,
    };
    assert(s@.sessions =~= Seq::<SessionRecordV>::empty());
    assert(s@.composer_attachments =~= Seq::<JsonV>::empty());
    assert(s@.queued_composer_messages =~= Seq::<JsonV>::empty());
    s
}

} // verus!
