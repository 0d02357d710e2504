//! The document store's first document and the view-level commands that edit
//! it: revision counting, the active view, the sidebar, pinned order, new
//! threads and cancelled runs.
use vstd::prelude::*;
use crate::text::{owned, u64_to_dec, dec_nat};
use crate::json::{Json, JsonV, json_view, items_view, members_view, lemma_view_array, lemma_view_object,
    jstr, empty_object, empty_array, object1, object3, object4};
use crate::document::{json_u64, json_as_u64, set_in2, assign_in2, runtime_settable, spec_set_runtime_setting,
    first_workspace_settable, spec_set_status_doc, target_str};

verus! {

/// The notification preferences of a fresh document: every kind on.
pub open spec fn fresh_notification_prefs() -> JsonV {
    JsonV::Object(seq![
        ("backgroundCompletion"@, JsonV::Bool(true)),
        ("backgroundFailure"@, JsonV::Bool(true)),
        ("attentionNeeded"@, JsonV::Bool(true)),
    ])
}

/// The default workspace of a fresh document, opened at `now`.
pub open spec fn fresh_workspace(now: Seq<char>) -> JsonV {
    JsonV::Object(seq![
        ("id"@, JsonV::Str("ws-default"@)),
        ("name"@, JsonV::Str("default"@)),
        ("path"@, JsonV::Str("/tmp"@)),
        ("lastOpenedAt"@, JsonV::Str(now)),
        ("kind"@, JsonV::Str("primary"@)),
        ("sessions"@, JsonV::Array(Seq::empty())),
    ])
}

/// The document of a fresh start at time `now`: revision 1, one default
/// workspace at `/tmp` with no sessions, the threads view, an empty
/// composer, no runtimes, every notification on, app-global model
/// settings with no patterns, the system theme.
pub open spec fn spec_initial_document(now: Seq<char>) -> JsonV {
    JsonV::Object(seq![
        ("revision"@, JsonV::Number("1"@)),
        ("workspaces"@, JsonV::Array(seq![fresh_workspace(now)])),
        ("worktreesByWorkspace"@, JsonV::Object(Seq::empty())),
        ("selectedWorkspaceId"@, JsonV::Str("ws-default"@)),
        ("selectedSessionId"@, JsonV::Str(""@)),
        ("activeView"@, JsonV::Str("threads"@)),
        ("composerDraft"@, JsonV::Str(""@)),
        ("composerDraftSyncSource"@, JsonV::Str("state"@)),
        ("composerDraftSyncNonce"@, JsonV::Number("0"@)),
        ("composerAttachments"@, JsonV::Array(Seq::empty())),
        ("queuedComposerMessages"@, JsonV::Array(Seq::empty())),
        ("runtimeByWorkspace"@, JsonV::Object(Seq::empty())),
        ("sessionCommandsBySession"@, JsonV::Object(Seq::empty())),
        ("sessionExtensionUiBySession"@, JsonV::Object(Seq::empty())),
        ("extensionCommandCompatibilityByWorkspace"@, JsonV::Object(Seq::empty())),
        ("orchestrationChildren"@, JsonV::Array(Seq::empty())),
        ("notificationPreferences"@, fresh_notification_prefs()),
        ("integratedTerminalShell"@, JsonV::Str(""@)),
        ("lastViewedAtBySession"@, JsonV::Object(Seq::empty())),
        ("pinnedAtBySession"@, JsonV::Object(Seq::empty())),
        ("pinnedSessionOrder"@, JsonV::Array(Seq::empty())),
        ("workspaceOrder"@, JsonV::Array(Seq::empty())),
        ("modelSettingsScopeMode"@, JsonV::Str("app-global"@)),
        ("globalModelSettings"@, JsonV::Object(seq![("enabledModelPatterns"@, JsonV::Array(Seq::empty()))])),
        ("themeMode"@, JsonV::Str("system"@)),
        ("themePresetId"@, JsonV::Str("default"@)),
        ("sidebarCollapsed"@, JsonV::Bool(false)),
        ("enableTransparency"@, JsonV::Bool(false)),
        ("lastError"@, JsonV::Null),
    ])
}

fn fresh_workspace_json(now: &str) -> (r: Json)
    ensures
        r@ == fresh_workspace(now@),
{
    let mut m: Vec<(String, Json)> = Vec::new();
    m.push((owned("id"), jstr("ws-default")));
    m.push((owned("name"), jstr("default")));
    m.push((owned("path"), jstr("/tmp")));
    m.push((owned("lastOpenedAt"), jstr(now)));
    m.push((owned("kind"), jstr("primary")));
    m.push((owned("sessions"), empty_array()));
    proof {
        lemma_view_object(m);
        assert(members_view(m@) =~= fresh_workspace(now@)->Object_0);
    }
    Json::Object(m)
}

fn one_item(x: Json) -> (r: Json)
    ensures
        r@ == JsonV::Array(seq![x@]),
{
    let mut v: Vec<Json> = Vec::new();
    v.push(x);
    proof {
        lemma_view_array(v);
        assert(items_view(v@) =~= seq![x@]);
    }
    Json::Array(v)
}

/// The document of a fresh start, its workspace opened at `now`.
#[verifier::rlimit(40)]
pub fn initial_document_at(now: &str) -> (r: Json)
    ensures
        r@ == spec_initial_document(now@),
{
    let mut m: Vec<(String, Json)> = Vec::new();
    m.push((owned("revision"), Json::Number(owned("1"))));
    m.push((owned("workspaces"), one_item(fresh_workspace_json(now))));
    m.push((owned("worktreesByWorkspace"), empty_object()));
    m.push((owned("selectedWorkspaceId"), jstr("ws-default")));
    m.push((owned("selectedSessionId"), jstr("")));
    m.push((owned("activeView"), jstr("threads")));
    m.push((owned("composerDraft"), jstr("")));
    m.push((owned("composerDraftSyncSource"), jstr("state")));
    m.push((owned("composerDraftSyncNonce"), Json::Number(owned("0"))));
    m.push((owned("composerAttachments"), empty_array()));
    m.push((owned("queuedComposerMessages"), empty_array()));
    m.push((owned("runtimeByWorkspace"), empty_object()));
    m.push((owned("sessionCommandsBySession"), empty_object()));
    m.push((owned("sessionExtensionUiBySession"), empty_object()));
    m.push((owned("extensionCommandCompatibilityByWorkspace"), empty_object()));
    m.push((owned("orchestrationChildren"), empty_array()));
    m.push((owned("notificationPreferences"), object3(
        "backgroundCompletion", Json::Bool(true),
        "backgroundFailure", Json::Bool(true),
        "attentionNeeded", Json::Bool(true))));
    m.push((owned("integratedTerminalShell"), jstr("")));
    m.push((owned("lastViewedAtBySession"), empty_object()));
    m.push((owned("pinnedAtBySession"), empty_object()));
    m.push((owned("pinnedSessionOrder"), empty_array()));
    m.push((owned("workspaceOrder"), empty_array()));
    m.push((owned("modelSettingsScopeMode"), jstr("app-global")));
    m.push((owned("globalModelSettings"), object1("enabledModelPatterns", empty_array())));
    m.push((owned("themeMode"), jstr("system")));
    m.push((owned("themePresetId"), jstr("default")));
    m.push((owned("sidebarCollapsed"), Json::Bool(false)));
    m.push((owned("enableTransparency"), Json::Bool(false)));
    m.push((owned("lastError"), Json::Null));
    proof {
        lemma_view_object(m);
        assert(members_view(m@) =~= spec_initial_document(now@)->Object_0);
    }
    Json::Object(m)
}

/// The document of a fresh start, its workspace opened now.
pub fn initial_document() -> (r: Json)
    ensures
        exists|now: Seq<char>| crate::clock::is_clock_text(now) && r@ == spec_initial_document(now),
{
    let now = crate::clock::now_iso();
    initial_document_at(now.as_str())
}

/// A document with workspace `ws-default`'s runtime set to `snapshot`, as a
/// store started with a runtime has it.
pub fn with_default_runtime(doc: &mut Json, snapshot: Json)
    requires
        old(doc)@.settable(),
        old(doc)@.get("runtimeByWorkspace"@).settable(),
    ensures
        final(doc)@ == set_in2(old(doc)@, "runtimeByWorkspace"@, "ws-default"@, snapshot@),
{
    assign_in2(doc, "runtimeByWorkspace", "ws-default", snapshot);
}

/// The revision a document holds (0 when it holds no unsigned number).
pub open spec fn doc_revision(doc: JsonV) -> int {
    match json_u64(doc.get("revision"@)) {
        Some(n) => n,
        None => 0,
    }
}

/// Count the document's revision up by one, as every store edit does.
pub fn bump_doc_revision(doc: &mut Json)
    requires
        old(doc)@.settable(),
        doc_revision(old(doc)@) < 0xffff_ffff_ffff_ffff,
    ensures
        final(doc)@ == old(doc)@.set("revision"@, JsonV::Number(dec_nat((doc_revision(old(doc)@) + 1) as nat))),
{
    let n: u64 = match doc.get("revision") {
        Some(r) => match json_as_u64(r) {
            Some(v) => v,
            None => 0,
        },
        None => 0,
    };
    doc.set("revision", Json::Number(u64_to_dec(n + 1)));
}

/// A fresh document is at revision 1.
pub proof fn lemma_fresh_revision(now: Seq<char>)
    ensures
        doc_revision(spec_initial_document(now)) == 1,
{
    let m = spec_initial_document(now)->Object_0;
    assert(crate::json::key_at(m, "revision"@, 0));
    crate::json::lemma_first_key(m, "revision"@, 0);
    reveal_strlit("1");
    crate::history::lemma_dec_nat_digits(1);
    assert(crate::text::dec_nat(1) =~= "1"@);
}

/// Each count-up of the revision reads back as one more than before.
pub proof fn lemma_bump_adds_one(doc: JsonV)
    requires
        doc.settable(),
        doc_revision(doc) < 0xffff_ffff_ffff_ffff,
    ensures
        doc_revision(doc.set("revision"@, JsonV::Number(dec_nat((doc_revision(doc) + 1) as nat))))
            == doc_revision(doc) + 1,
{
    match doc.get("revision"@) {
        JsonV::Number(t) => if t.len() > 0 && crate::history::all_digits(t) {
            crate::history::lemma_digits_nonneg(t);
        },
        _ => {},
    }
    let k = (doc_revision(doc) + 1) as nat;
    crate::json::lemma_get_set_same(doc, "revision"@, JsonV::Number(dec_nat(k)));
    crate::history::lemma_dec_nat_digits(k);
}

/// Show view `view`.
pub fn set_active_view(doc: &mut Json, view: &str)
    requires
        old(doc)@.settable(),
    ensures
        final(doc)@ == old(doc)@.set("activeView"@, JsonV::Str(view@)),
{
    doc.set("activeView", jstr(view));
}

/// Collapse or expand the sidebar.
pub fn set_sidebar_collapsed(doc: &mut Json, collapsed: bool)
    requires
        old(doc)@.settable(),
    ensures
        final(doc)@ == old(doc)@.set("sidebarCollapsed"@, JsonV::Bool(collapsed)),
{
    doc.set("sidebarCollapsed", Json::Bool(collapsed));
}

/// The strings of `v` as JSON string values.
pub open spec fn str_items(v: Seq<Seq<char>>) -> Seq<JsonV> {
    Seq::new(v.len(), |i: int| JsonV::Str(v[i]))
}

/// A JSON array of the given strings, in order.
pub fn string_array(v: &Vec<String>) -> (r: Json)
    ensures
        r@ == JsonV::Array(str_items(crate::state::strs_view(v@))),
{
    let mut out: Vec<Json> = Vec::new();
    let mut i: usize = 0;
    while i < v.len()
        invariant
            i <= v.len(),
            items_view(out@) =~= str_items(crate::state::strs_view(v@)).take(i as int),
        decreases v.len() - i,
    {
        let x = jstr(v[i].as_str());
        proof { crate::json::lemma_items_push(out@, x); }
        out.push(x);
        i = i + 1;
    }
    proof {
        lemma_view_array(out);
        assert(str_items(crate::state::strs_view(v@)).take(v.len() as int) =~= str_items(crate::state::strs_view(v@)));
    }
    Json::Array(out)
}

/// Put the pinned sessions in the given order.
pub fn reorder_pinned_sessions(doc: &mut Json, order: &Vec<String>)
    requires
        old(doc)@.settable(),
    ensures
        final(doc)@ == old(doc)@.set("pinnedSessionOrder"@, JsonV::Array(str_items(crate::state::strs_view(order@)))),
{
    doc.set("pinnedSessionOrder", string_array(order));
}

/// The placeholder terminal panel of a workspace with terminal
/// `terminal_id` made its active session.
pub fn active_terminal_panel(workspace_id: &str, root_key: &str, terminal_id: &str) -> (r: Json)
    ensures
        r@ == JsonV::Object(seq![
            ("workspaceId"@, JsonV::Str(workspace_id@)),
            ("rootKey"@, JsonV::Str(root_key@)),
            ("activeSessionId"@, JsonV::Str(terminal_id@)),
            ("sessions"@, JsonV::Array(Seq::empty())),
        ]),
{
    object4("workspaceId", jstr(workspace_id), "rootKey", jstr(root_key), "activeSessionId", jstr(terminal_id), "sessions", empty_array())
}

/// The text of `j` when it is a string, else `dflt`.
pub open spec fn str_or(j: JsonV, dflt: Seq<char>) -> Seq<char> {
    match j {
        JsonV::Str(s) => s,
        _ => dflt,
    }
}

fn string_or(j: Option<&Json>, dflt: &str) -> (r: String)
    ensures
        r@ == str_or(match j { Some(x) => x@, None => JsonV::Null }, dflt@),
{
    match j {
        Some(Json::Str(s)) => s.clone(),
        _ => owned(dflt),
    }
}

/// The workspace and title of a new-session request: `workspaceId` and
/// `title` where they are strings, else `ws-default` and `New thread`.
pub fn session_request(input: &Json) -> (r: (String, String))
    ensures
        r.0@ == str_or(input@.get("workspaceId"@), "ws-default"@),
        r.1@ == str_or(input@.get("title"@), "New thread"@),
{
    (string_or(input.get("workspaceId"), "ws-default"), string_or(input.get("title"), "New thread"))
}

/// The workspace a new thread starts in: `rootWorkspaceId` where it is a
/// string, else `ws-default`.
pub fn thread_workspace(input: &Json) -> (r: String)
    ensures
        r@ == str_or(input@.get("rootWorkspaceId"@), "ws-default"@),
{
    string_or(input.get("rootWorkspaceId"), "ws-default")
}

/// The document with a new thread's model choices recorded as workspace
/// `ws`'s defaults: the provider (with `modelId`, or `""`) when the request
/// names one, then the thinking level when it names one.
pub open spec fn spec_thread_settings(doc: JsonV, ws: Seq<char>, input: JsonV) -> JsonV {
    let d1 = match input.get("provider"@) {
        JsonV::Str(p) => spec_set_runtime_setting(
            spec_set_runtime_setting(doc, ws, "defaultProvider"@, JsonV::Str(p)),
            ws, "defaultModelId"@, JsonV::Str(str_or(input.get("modelId"@), ""@))),
        _ => doc,
    };
    match input.get("thinkingLevel"@) {
        JsonV::Str(t) => spec_set_runtime_setting(d1, ws, "defaultThinkingLevel"@, JsonV::Str(t)),
        _ => d1,
    }
}

/// Record a new thread's model choices as the defaults of workspace `ws`.
pub fn apply_thread_settings(doc: &mut Json, ws: &str, input: &Json)
    requires
        runtime_settable(old(doc)@, ws@),
    ensures
        final(doc)@ == spec_thread_settings(old(doc)@, ws@, input@),
{
    let ghost d0 = doc@;
    match input.get("provider") {
        Some(Json::Str(p)) => {
            let model_id = string_or(input.get("modelId"), "");
            crate::document::set_default_model(doc, ws, p.as_str(), model_id.as_str());
            proof {
                crate::document::lemma_setting_path(d0, ws@, "defaultProvider"@, JsonV::Str(p@));
                crate::document::lemma_setting_path(
                    spec_set_runtime_setting(d0, ws@, "defaultProvider"@, JsonV::Str(p@)),
                    ws@, "defaultModelId"@, JsonV::Str(model_id@));
            }
        },
        _ => {},
    }
    let ghost d1 = doc@;
    assert(runtime_settable(d1, ws@));
    match input.get("thinkingLevel") {
        Some(Json::Str(t)) => {
            crate::document::set_default_thinking_level(doc, ws, t.as_str());
        },
        _ => {},
    }
}

/// The prompt a new thread sends first: `prompt` when it is a non-empty
/// string.
pub fn thread_prompt(input: &Json) -> (r: Option<String>)
    ensures
        match input@.get("prompt"@) {
            JsonV::Str(p) => if p.len() > 0 { r is Some && r->0@ == p } else { r is None },
            _ => r is None,
        },
{
    match input.get("prompt") {
        Some(Json::Str(p)) => if p.as_str().unicode_len() > 0 { Some(p.clone()) } else { None },
        _ => None,
    }
}

/// The session a cancelled run leaves idle: the selected one (`""` when
/// none is selected).
pub open spec fn spec_cancelled_run(doc: JsonV) -> JsonV {
    spec_set_status_doc(doc, str_or(doc.get("selectedSessionId"@), ""@), "idle"@)
}

/// Mark the selected session idle after its run was cancelled.
pub fn mark_selected_idle(doc: &mut Json)
    requires
        first_workspace_settable(old(doc)@),
    ensures
        final(doc)@ == spec_cancelled_run(old(doc)@),
{
    let sid = string_or(doc.get("selectedSessionId"), "");
    crate::document::set_session_status(doc, sid.as_str(), "idle");
}

} // verus!
