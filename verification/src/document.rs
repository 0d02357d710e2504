//! The UI state kept as one JSON document: composer, theme, notification
//! and session edits as transformations of the document.
use vstd::prelude::*;
use crate::text::{owned, str_eq, concat2, push_dec, dec_nat, u64_to_dec};
use crate::json::{Json, JsonV, json_view, items_view, lemma_view_array, lemma_items_push, jstr, empty_object, empty_array,
    object1, object2, object3, object4, object6, find_item, find_item_with, retain_items_without, lemma_str_field_object,
    lemma_get_set_same, lemma_get_set_other};
use crate::history::{all_digits, digits_value};

verus! {

/// The unsigned integer a JSON value holds, as JSON's `as_u64` reads it.
pub open spec fn json_u64(j: JsonV) -> Option<int> {
    match j {
        JsonV::Number(t) => if t.len() > 0 && all_digits(t) && digits_value(t) <= 0xffff_ffff_ffff_ffff {
            Some(digits_value(t))
        } else {
            None
        },
        _ => None,
    }
}

/// The unsigned integer a JSON value holds, if any.
pub fn json_as_u64(j: &Json) -> (r: Option<u64>)
    ensures
        match r {
            Some(v) => json_u64(j@) == Some(v as int),
            None => json_u64(j@) is None,
        },
{
    match j {
        Json::Number(t) => {
            let cs = crate::text::chars_of(t.as_str());
            if cs.len() == 0 {
                return None;
            }
            proof { assert(cs@.skip(0) =~= cs@); }
            crate::history::digits_upto(&cs, 0, 0xffff_ffff_ffff_ffffu64)
        },
        _ => None,
    }
}

/// The draft sync counter of a document (0 when unset).
pub open spec fn draft_nonce(doc: JsonV) -> int {
    match json_u64(doc.get("composerDraftSyncNonce"@)) {
        Some(n) => n,
        None => 0,
    }
}

/// The document with a new draft coming from the state, its sync counter
/// counted up.
pub open spec fn spec_update_draft(doc: JsonV, draft: Seq<char>) -> JsonV {
    let d2 = doc.set("composerDraft"@, JsonV::Str(draft)).set("composerDraftSyncSource"@, JsonV::Str("state"@));
    d2.set("composerDraftSyncNonce"@, JsonV::Number(dec_nat((draft_nonce(d2) + 1) as nat)))
}

/// Replace the draft.
pub fn update_composer_draft(doc: &mut Json, draft: &str)
    requires
        old(doc)@.settable(),
        draft_nonce(old(doc)@.set("composerDraft"@, JsonV::Str(draft@)).set("composerDraftSyncSource"@, JsonV::Str("state"@))) < u64::MAX,
    ensures
        final(doc)@ == spec_update_draft(old(doc)@, draft@),
{
    doc.set("composerDraft", jstr(draft));
    doc.set("composerDraftSyncSource", jstr("state"));
    let n: u64 = match doc.get("composerDraftSyncNonce") {
        Some(x) => match json_as_u64(x) {
            Some(v) => v,
            None => 0,
        },
        None => 0,
    };
    doc.set("composerDraftSyncNonce", Json::Number(u64_to_dec(n + 1)));
}

/// Replace the attachments.
pub fn set_composer_attachments(doc: &mut Json, attachments: Json)
    requires
        old(doc)@.settable(),
    ensures
        final(doc)@ == old(doc)@.set("composerAttachments"@, attachments@),
{
    doc.set("composerAttachments", attachments);
}

/// The document after member `key` was reached for writing, as JSON
/// index-assignment access does it: a `null` document becomes an object and
/// a missing member is added as `null`; an existing member is left as it is.
pub open spec fn touch(doc: JsonV, key: Seq<char>) -> JsonV {
    doc.set(key, doc.get(key))
}

/// Reach member `key` for writing.
pub(crate) fn touch_member(doc: &mut Json, key: &str)
    requires
        old(doc)@.settable(),
    ensures
        final(doc)@ == touch(old(doc)@, key@),
        final(doc)@ is Object,
        final(doc)@.get(key@) == old(doc)@.get(key@),
{
    let ghost d0 = doc@;
    let v = match doc.get(key) {
        Some(x) => x.deep_clone(),
        None => Json::Null,
    };
    doc.set(key, v);
    proof { lemma_get_set_same(d0, key@, d0.get(key@)); }
}

/// The document with the items of array member `key` whose `id` is `id`
/// dropped; when the member is not an array it is only reached for writing
/// (see `touch`).
pub open spec fn spec_drop_items(doc: JsonV, key: Seq<char>, id: Seq<char>) -> JsonV {
    let d = touch(doc, key);
    match d.get(key) {
        JsonV::Array(items) => d.set(key, JsonV::Array(items.filter(|j: JsonV| !j.field_is_str("id"@, id)))),
        _ => d,
    }
}

/// Take array member `key` out of an object (leaving an empty array).
pub(crate) fn take_array(doc: &mut Json, key: &str) -> (r: Option<Vec<Json>>)
    requires
        old(doc)@ is Object,
    ensures
        match r {
            Some(v) => old(doc)@.get(key@) == JsonV::Array(items_view(v@))
                && final(doc)@ == old(doc)@.set(key@, JsonV::Array(Seq::empty())),
            None => !(old(doc)@.get(key@) is Array) && final(doc)@ == old(doc)@,
        },
{
    let is_arr = match doc.get(key) {
        Some(Json::Array(_)) => true,
        _ => false,
    };
    if !is_arr {
        return None;
    }
    match doc {
        Json::Object(m) => {
            proof { crate::json::lemma_view_object(*m); }
            let ghost mv = crate::json::members_view(m@);
            match crate::json::find_member(m, key) {
                Some(i) => {
                    proof { crate::json::lemma_first_key(mv, key@, i as int); }
                    let (k, old_v) = m.remove(i);
                    m.insert(i, (k, empty_array()));
                    proof {
                        crate::json::lemma_view_object(*m);
                        assert(crate::json::members_view(m@) =~= mv.update(i as int, (key@, JsonV::Array(Seq::empty()))));
                    }
                    match old_v {
                        Json::Array(v) => {
                            proof { lemma_view_array(v); }
                            Some(v)
                        },
                        _ => None,
                    }
                },
                None => None,
            }
        },
        _ => None,
    }
}

fn drop_items(doc: &mut Json, key: &str, id: &str)
    requires
        old(doc)@.settable(),
    ensures
        final(doc)@ == spec_drop_items(old(doc)@, key@, id@),
{
    touch_member(doc, key);
    let ghost d0 = doc@;
    match take_array(doc, key) {
        Some(items) => {
            let kept = retain_items_without(items, "id", id);
            proof {
                lemma_view_array(kept);
                crate::json::lemma_set_twice(d0, key@, JsonV::Array(Seq::empty()), JsonV::Array(items_view(kept@)));
            }
            doc.set(key, Json::Array(kept));
        },
        None => {},
    }
}

/// Drop every attachment with id `attachment_id`.
pub fn remove_composer_attachment(doc: &mut Json, attachment_id: &str)
    requires
        old(doc)@.settable(),
    ensures
        final(doc)@ == spec_drop_items(old(doc)@, "composerAttachments"@, attachment_id@),
{
    drop_items(doc, "composerAttachments", attachment_id);
}

/// Drop every queued message with id `message_id`.
pub fn remove_queued_message(doc: &mut Json, message_id: &str)
    requires
        old(doc)@.settable(),
    ensures
        final(doc)@ == spec_drop_items(old(doc)@, "queuedComposerMessages"@, message_id@),
{
    drop_items(doc, "queuedComposerMessages", message_id);
}

/// Start editing queued message `message_id`, loading `current_draft` when
/// given.
pub fn edit_queued_message(doc: &mut Json, message_id: &str, current_draft: Option<&str>)
    requires
        old(doc)@.settable(),
    ensures
        final(doc)@ == match current_draft {
            Some(d) => old(doc)@.set("editingQueuedMessageId"@, JsonV::Str(message_id@)).set("composerDraft"@, JsonV::Str(d@)),
            None => old(doc)@.set("editingQueuedMessageId"@, JsonV::Str(message_id@)),
        },
{
    doc.set("editingQueuedMessageId", jstr(message_id));
    match current_draft {
        Some(d) => doc.set("composerDraft", jstr(d)),
        None => {},
    }
}

/// Stop editing a queued message.
pub fn cancel_queued_edit(doc: &mut Json)
    requires
        old(doc)@.settable(),
    ensures
        final(doc)@ == old(doc)@.set("editingQueuedMessageId"@, JsonV::Null),
{
    doc.set("editingQueuedMessageId", Json::Null);
}

/// The document with the first queued message `message_id` in steering
/// mode (the queue reached for writing first, see `touch`).
pub open spec fn spec_steer_doc(doc: JsonV, message_id: Seq<char>) -> JsonV {
    let d = touch(doc, "queuedComposerMessages"@);
    match d.get("queuedComposerMessages"@) {
        JsonV::Array(ms) => match find_item_with(ms, "id"@, message_id) {
            Some(i) => d.set("queuedComposerMessages"@, JsonV::Array(ms.update(i, ms[i].set("mode"@, JsonV::Str("steer"@))))),
            None => d,
        },
        _ => d,
    }
}

/// Switch the first queued message `message_id` to steering mode.
pub fn steer_queued_message(doc: &mut Json, message_id: &str)
    requires
        old(doc)@.settable(),
    ensures
        final(doc)@ == spec_steer_doc(old(doc)@, message_id@),
{
    touch_member(doc, "queuedComposerMessages");
    let ghost d0 = doc@;
    match take_array(doc, "queuedComposerMessages") {
        Some(mut ms) => {
            let ghost mv = items_view(ms@);
            match find_item(&ms, "id", message_id) {
                Some(i) => {
                    proof { lemma_str_field_object(mv[i as int], "id"@, message_id@); }
                    let mut m = ms.remove(i);
                    m.set("mode", jstr("steer"));
                    ms.insert(i, m);
                    assert(items_view(ms@) =~= mv.update(i as int, mv[i as int].set("mode"@, JsonV::Str("steer"@))));
                    proof {
                        lemma_view_array(ms);
                        crate::json::lemma_set_twice(d0, "queuedComposerMessages"@, JsonV::Array(Seq::empty()), JsonV::Array(items_view(ms@)));
                    }
                    doc.set("queuedComposerMessages", Json::Array(ms));
                },
                None => {
                    proof {
                        lemma_view_array(ms);
                        crate::json::lemma_set_twice(d0, "queuedComposerMessages"@, JsonV::Array(Seq::empty()), JsonV::Array(items_view(ms@)));
                        crate::json::lemma_set_get_back(d0, "queuedComposerMessages"@);
                    }
                    doc.set("queuedComposerMessages", Json::Array(ms));
                },
            }
        },
        None => {},
    }
}

/// Set the theme mode.
pub fn set_theme_mode(doc: &mut Json, mode: &str)
    requires
        old(doc)@.settable(),
    ensures
        final(doc)@ == old(doc)@.set("themeMode"@, JsonV::Str(mode@)),
{
    doc.set("themeMode", jstr(mode));
}

/// Set the theme preset.
pub fn set_theme_preset(doc: &mut Json, preset_id: &str)
    requires
        old(doc)@.settable(),
    ensures
        final(doc)@ == old(doc)@.set("themePresetId"@, JsonV::Str(preset_id@)),
{
    doc.set("themePresetId", jstr(preset_id));
}

/// Replace the notification preferences.
pub fn set_notification_preferences(doc: &mut Json, prefs: Json)
    requires
        old(doc)@.settable(),
    ensures
        final(doc)@ == old(doc)@.set("notificationPreferences"@, prefs@),
{
    doc.set("notificationPreferences", prefs);
}

/// Set the shell of the integrated terminal.
pub fn set_integrated_terminal_shell(doc: &mut Json, shell: &str)
    requires
        old(doc)@.settable(),
    ensures
        final(doc)@ == old(doc)@.set("integratedTerminalShell"@, JsonV::Str(shell@)),
{
    doc.set("integratedTerminalShell", jstr(shell));
}

/// Switch window transparency.
pub fn set_enable_transparency(doc: &mut Json, enabled: bool)
    requires
        old(doc)@.settable(),
    ensures
        final(doc)@ == old(doc)@.set("enableTransparency"@, JsonV::Bool(enabled)),
{
    doc.set("enableTransparency", Json::Bool(enabled));
}

/// Set the model settings scope.
pub fn set_model_settings_scope(doc: &mut Json, mode: &str)
    requires
        old(doc)@.settable(),
    ensures
        final(doc)@ == old(doc)@.set("modelSettingsScopeMode"@, JsonV::Str(mode@)),
{
    doc.set("modelSettingsScopeMode", jstr(mode));
}

/// The document with the workspace and session a target names selected
/// (each only when the target names it as a string).
pub open spec fn spec_select_session(doc: JsonV, target: JsonV) -> JsonV {
    let d1 = match target.get("workspaceId"@) {
        JsonV::Str(w) => doc.set("selectedWorkspaceId"@, JsonV::Str(w)),
        _ => doc,
    };
    match target.get("sessionId"@) {
        JsonV::Str(s) => d1.set("selectedSessionId"@, JsonV::Str(s)),
        _ => d1,
    }
}

/// Select the workspace and session a target names.
pub fn select_session(doc: &mut Json, target: &Json)
    requires
        old(doc)@.settable(),
    ensures
        final(doc)@ == spec_select_session(old(doc)@, target@),
{
    match target.str_field("workspaceId") {
        Some(w) => doc.set("selectedWorkspaceId", Json::Str(w.clone())),
        None => {},
    }
    match target.str_field("sessionId") {
        Some(s) => doc.set("selectedSessionId", Json::Str(s.clone())),
        None => {},
    }
}

/// An id made of a prefix and a time in milliseconds (`ws-1700000000000`).
pub open spec fn spec_next_id(prefix: Seq<char>, millis: int) -> Seq<char> {
    prefix + "-"@ + crate::text::dec_int(millis)
}

/// An id made of a prefix and the given time in milliseconds.
pub fn next_id_at(prefix: &str, millis: i64) -> (r: String)
    ensures
        r@ == spec_next_id(prefix@, millis as int),
{
    let mut s = concat2(prefix, "-");
    crate::text::push_dec_i64(&mut s, millis);
    s
}

/// An id made of a prefix and the current time in milliseconds.
pub fn next_id(prefix: &str) -> (r: String)
    ensures
        exists|millis: int| r@ == spec_next_id(prefix@, millis),
{
    next_id_at(prefix, crate::clock::now_millis())
}

/// The placeholder session tree of a document store.
pub fn stub_session_tree() -> (r: Json)
    ensures
        r@ == JsonV::Object(seq![("id"@, JsonV::Str(""@)), ("label"@, JsonV::Str("root"@)), ("children"@, JsonV::Array(Seq::empty()))]),
{
    object3("id", jstr(""), "label", jstr("root"), "children", empty_array())
}

/// The placeholder result of navigating the tree: the state, not cancelled.
pub fn stub_navigate_result(doc: &Json) -> (r: Json)
    ensures
        r@ == JsonV::Object(seq![("state"@, doc@), ("result"@, JsonV::Object(seq![("cancelled"@, JsonV::Bool(false))]))]),
{
    object2("state", doc.deep_clone(), "result", object1("cancelled", Json::Bool(false)))
}

/// The placeholder terminal panel of a workspace: no sessions.
pub fn stub_terminal_panel(workspace_id: &str, root_key: &str) -> (r: Json)
    ensures
        r@ == JsonV::Object(seq![
            ("workspaceId"@, JsonV::Str(workspace_id@)),
            ("rootKey"@, JsonV::Str(root_key@)),
            ("activeSessionId"@, JsonV::Str(""@)),
            ("sessions"@, JsonV::Array(Seq::empty())),
        ]),
{
    object4("workspaceId", jstr(workspace_id), "rootKey", jstr(root_key), "activeSessionId", jstr(""), "sessions", empty_array())
}

/// The answer to probing a custom provider's models: not available.
pub fn probe_custom_provider_models() -> (r: Json)
    ensures
        r@ == JsonV::Object(seq![("ok"@, JsonV::Bool(false)), ("error"@, JsonV::Str("not available"@))]),
{
    object2("ok", Json::Bool(false), "error", jstr("not available"))
}

/// A target's member `key` as text (`""` when it is not a string).
pub open spec fn target_str(target: JsonV, key: Seq<char>) -> Seq<char> {
    match target.get(key) {
        JsonV::Str(s) => s,
        _ => Seq::empty(),
    }
}

/// The document with member `field` of the session a target names set to
/// `value` (the first workspace and session with the named ids); unchanged
/// when either is missing.
pub open spec fn spec_set_sess_field(doc: JsonV, target: JsonV, field: Seq<char>, value: JsonV) -> JsonV {
    spec_set_session_member(doc, target_str(target, "workspaceId"@), target_str(target, "sessionId"@), field, value)
}

/// The document with member `field` of session `sess_id` in workspace
/// `ws_id` set to `value` (the first workspace and session with those ids);
/// unchanged when either is missing.
pub open spec fn spec_set_session_member(doc: JsonV, ws_id: Seq<char>, sess_id: Seq<char>, field: Seq<char>, value: JsonV) -> JsonV {
    let ws = doc.get("workspaces"@)->Array_0;
    match find_item_with(ws, "id"@, ws_id) {
        Some(i) => {
            let sessions = ws[i].get("sessions"@)->Array_0;
            match find_item_with(sessions, "id"@, sess_id) {
                Some(j) => doc.set("workspaces"@, JsonV::Array(ws.update(i, ws[i].set(
                    "sessions"@,
                    JsonV::Array(sessions.update(j, sessions[j].set(field, value))),
                )))),
                None => doc,
            }
        },
        None => doc,
    }
}

/// The workspaces member is an array, and the workspace a target names, if
/// any, has an array of sessions (the document form's own shape).
pub open spec fn sessions_reachable(doc: JsonV, target: JsonV) -> bool {
    sessions_reachable_at(doc, target_str(target, "workspaceId"@))
}

/// The workspaces member is an array, and workspace `ws_id`, if present,
/// has an array of sessions.
pub open spec fn sessions_reachable_at(doc: JsonV, ws_id: Seq<char>) -> bool {
    &&& doc is Object
    &&& doc.get("workspaces"@) is Array
    &&& match find_item_with(doc.get("workspaces"@)->Array_0, "id"@, ws_id) {
        Some(i) => doc.get("workspaces"@)->Array_0[i].get("sessions"@) is Array,
        None => true,
    }
}

fn target_str_exec(target: &Json, key: &str) -> (r: String)
    ensures
        r@ == target_str(target@, key@),
{
    match target.str_field(key) {
        Some(s) => s.clone(),
        None => String::new(),
    }
}

/// Set member `field` of the session a target names.
pub fn set_sess_field(doc: &mut Json, target: &Json, field: &str, value: Json)
    requires
        sessions_reachable(old(doc)@, target@),
    ensures
        final(doc)@ == spec_set_sess_field(old(doc)@, target@, field@, value@),
{
    let ws_id = target_str_exec(target, "workspaceId");
    let sess_id = target_str_exec(target, "sessionId");
    set_session_member(doc, ws_id.as_str(), sess_id.as_str(), field, value);
}

/// Set member `field` of session `sess_id` in workspace `ws_id`.
pub fn set_session_member(doc: &mut Json, ws_id: &str, sess_id: &str, field: &str, value: Json)
    requires
        sessions_reachable_at(old(doc)@, ws_id@),
    ensures
        final(doc)@ == spec_set_session_member(old(doc)@, ws_id@, sess_id@, field@, value@),
{
    let ghost d0 = doc@;
    let mut ws = match crate::workspace::take_workspaces(doc) {
        Some(w) => w,
        None => return,
    };
    let ghost wv = items_view(ws@);
    let put_back_same = match find_item(&ws, "id", ws_id) {
        Some(i) => {
            proof { lemma_str_field_object(wv[i as int], "id"@, ws_id@); }
            let mut w = ws.remove(i);
            let ghost w0 = w@;
            match take_array(&mut w, "sessions") {
                Some(mut sessions) => {
                    let ghost sv = items_view(sessions@);
                    match find_item(&sessions, "id", sess_id) {
                        Some(j) => {
                            proof { lemma_str_field_object(sv[j as int], "id"@, sess_id@); }
                            let mut sess = sessions.remove(j);
                            sess.set(field, value);
                            sessions.insert(j, sess);
                            assert(items_view(sessions@) =~= sv.update(j as int, sv[j as int].set(field@, value@)));
                            proof {
                                lemma_view_array(sessions);
                                crate::json::lemma_set_twice(w0, "sessions"@, JsonV::Array(Seq::empty()), JsonV::Array(items_view(sessions@)));
                            }
                            w.set("sessions", Json::Array(sessions));
                            ws.insert(i, w);
                            assert(items_view(ws@) =~= wv.update(i as int, w0.set("sessions"@, JsonV::Array(sv.update(j as int, sv[j as int].set(field@, value@))))));
                            false
                        },
                        None => {
                            proof {
                                lemma_view_array(sessions);
                                crate::json::lemma_set_twice(w0, "sessions"@, JsonV::Array(Seq::empty()), JsonV::Array(items_view(sessions@)));
                                crate::json::lemma_set_get_back(w0, "sessions"@);
                            }
                            w.set("sessions", Json::Array(sessions));
                            ws.insert(i, w);
                            assert(items_view(ws@) =~= wv);
                            true
                        },
                    }
                },
                None => {
                    ws.insert(i, w);
                    assert(items_view(ws@) =~= wv);
                    true
                },
            }
        },
        None => true,
    };
    proof {
        lemma_view_array(ws);
        crate::json::lemma_set_twice(d0, "workspaces"@, JsonV::Array(Seq::empty()), JsonV::Array(items_view(ws@)));
        if put_back_same {
            crate::json::lemma_set_get_back(d0, "workspaces"@);
        }
    }
    doc.set("workspaces", Json::Array(ws));
}

/// Archive the session a target names at time `now`.
pub fn archive_session(doc: &mut Json, target: &Json, now: &str)
    requires
        sessions_reachable(old(doc)@, target@),
    ensures
        final(doc)@ == spec_set_sess_field(old(doc)@, target@, "archivedAt"@, JsonV::Str(now@)),
{
    set_sess_field(doc, target, "archivedAt", jstr(now));
}

/// Bring the session a target names back from the archive.
pub fn unarchive_session(doc: &mut Json, target: &Json)
    requires
        sessions_reachable(old(doc)@, target@),
    ensures
        final(doc)@ == spec_set_sess_field(old(doc)@, target@, "archivedAt"@, JsonV::Null),
{
    set_sess_field(doc, target, "archivedAt", Json::Null);
}

/// Pin (at time `now`) or unpin the session a target names.
pub fn set_session_pinned(doc: &mut Json, target: &Json, pinned: bool, now: &str)
    requires
        sessions_reachable(old(doc)@, target@),
    ensures
        final(doc)@ == spec_set_sess_field(old(doc)@, target@, "pinnedAt"@, if pinned { JsonV::Str(now@) } else { JsonV::Null }),
{
    let v = if pinned { jstr(now) } else { Json::Null };
    set_sess_field(doc, target, "pinnedAt", v);
}

/// Take member `key`'s value out of a document (leaving `null`).
fn take_member(doc: &mut Json, key: &str) -> (r: Json)
    requires
        old(doc)@.settable(),
    ensures
        r@ == old(doc)@.get(key@),
        final(doc)@ == old(doc)@.set(key@, JsonV::Null),
{
    let v = match doc.get(key) {
        Some(x) => x.deep_clone(),
        None => Json::Null,
    };
    doc.set(key, Json::Null);
    v
}

/// `doc[k1][k2] = v` as JSON index-assignment does it.
pub open spec fn set_in2(doc: JsonV, k1: Seq<char>, k2: Seq<char>, v: JsonV) -> JsonV {
    doc.set(k1, doc.get(k1).set(k2, v))
}

/// `doc[k1][k2][k3] = v` as JSON index-assignment does it.
pub open spec fn set_in3(doc: JsonV, k1: Seq<char>, k2: Seq<char>, k3: Seq<char>, v: JsonV) -> JsonV {
    doc.set(k1, set_in2(doc.get(k1), k2, k3, v))
}

pub(crate) fn assign_in2(doc: &mut Json, k1: &str, k2: &str, v: Json)
    requires
        old(doc)@.settable(),
        old(doc)@.get(k1@).settable(),
    ensures
        final(doc)@ == set_in2(old(doc)@, k1@, k2@, v@),
{
    let ghost d0 = doc@;
    let mut inner = take_member(doc, k1);
    inner.set(k2, v);
    proof { crate::json::lemma_set_twice(d0, k1@, JsonV::Null, inner@); }
    doc.set(k1, inner);
}

fn assign_in3(doc: &mut Json, k1: &str, k2: &str, k3: &str, v: Json)
    requires
        old(doc)@.settable(),
        old(doc)@.get(k1@).settable(),
        old(doc)@.get(k1@).get(k2@).settable(),
    ensures
        final(doc)@ == set_in3(old(doc)@, k1@, k2@, k3@, v@),
{
    let ghost d0 = doc@;
    let mut inner = take_member(doc, k1);
    assign_in2(&mut inner, k2, k3, v);
    proof { crate::json::lemma_set_twice(d0, k1@, JsonV::Null, inner@); }
    doc.set(k1, inner);
}

/// The document with a runtime entry for workspace `ws_id` (`{"settings":
/// {}}`) when it has none.
pub open spec fn spec_ensure_runtime(doc: JsonV, ws_id: Seq<char>) -> JsonV {
    if doc.get("runtimeByWorkspace"@).get(ws_id) is Null {
        set_in2(doc, "runtimeByWorkspace"@, ws_id, JsonV::Object(seq![("settings"@, JsonV::Object(Seq::empty()))]))
    } else {
        doc
    }
}

/// Create workspace `ws_id`'s runtime entry when it has none.
pub fn ensure_runtime(doc: &mut Json, ws_id: &str)
    requires
        old(doc)@.settable(),
        old(doc)@.get("runtimeByWorkspace"@).settable(),
    ensures
        final(doc)@ == spec_ensure_runtime(old(doc)@, ws_id@),
{
    let missing = match doc.get("runtimeByWorkspace") {
        Some(r) => match r.get(ws_id) {
            Some(Json::Null) => true,
            Some(_) => false,
            None => true,
        },
        None => true,
    };
    if missing {
        assign_in2(doc, "runtimeByWorkspace", ws_id, object1("settings", empty_object()));
    }
}

/// Workspace `ws_id`'s runtime settings can be assigned: the runtimes are
/// an object (or unset), and the workspace's entry, when it has one, is an
/// object whose settings are an object (or unset).
pub open spec fn runtime_settable(doc: JsonV, ws_id: Seq<char>) -> bool {
    &&& doc.settable()
    &&& doc.get("runtimeByWorkspace"@).settable()
    &&& (doc.get("runtimeByWorkspace"@).get(ws_id) is Null || (
        doc.get("runtimeByWorkspace"@).get(ws_id) is Object
        && doc.get("runtimeByWorkspace"@).get(ws_id).get("settings"@).settable()))
}

/// `doc[k1][k2][k3][k4] = v` as JSON index-assignment does it.
pub open spec fn set_in4(doc: JsonV, k1: Seq<char>, k2: Seq<char>, k3: Seq<char>, k4: Seq<char>, v: JsonV) -> JsonV {
    doc.set(k1, set_in3(doc.get(k1), k2, k3, k4, v))
}

fn assign_in4(doc: &mut Json, k1: &str, k2: &str, k3: &str, k4: &str, v: Json)
    requires
        old(doc)@.settable(),
        old(doc)@.get(k1@).settable(),
        old(doc)@.get(k1@).get(k2@).settable(),
        old(doc)@.get(k1@).get(k2@).get(k3@).settable(),
    ensures
        final(doc)@ == set_in4(old(doc)@, k1@, k2@, k3@, k4@, v@),
{
    let ghost d0 = doc@;
    let mut inner = take_member(doc, k1);
    assign_in3(&mut inner, k2, k3, k4, v);
    proof { crate::json::lemma_set_twice(d0, k1@, JsonV::Null, inner@); }
    doc.set(k1, inner);
}

/// The document with workspace `ws_id`'s runtime setting `key` set to `v`
/// (its runtime entry created first when missing).
pub open spec fn spec_set_runtime_setting(doc: JsonV, ws_id: Seq<char>, key: Seq<char>, v: JsonV) -> JsonV {
    set_in4(spec_ensure_runtime(doc, ws_id), "runtimeByWorkspace"@, ws_id, "settings"@, key, v)
}

pub(crate) proof fn lemma_setting_path(doc: JsonV, ws_id: Seq<char>, key: Seq<char>, v: JsonV)
    requires
        runtime_settable(doc, ws_id),
    ensures
        ({
            let d1 = spec_ensure_runtime(doc, ws_id);
            &&& d1.settable()
            &&& d1.get("runtimeByWorkspace"@).settable()
            &&& d1.get("runtimeByWorkspace"@).get(ws_id).settable()
            &&& d1.get("runtimeByWorkspace"@).get(ws_id).get("settings"@).settable()
        }),
        ({
            let d2 = spec_set_runtime_setting(doc, ws_id, key, v);
            &&& d2 is Object
            &&& d2.get("runtimeByWorkspace"@) is Object
            &&& d2.get("runtimeByWorkspace"@).get(ws_id) is Object
            &&& d2.get("runtimeByWorkspace"@).get(ws_id).get("settings"@) is Object
        }),
{
    let rbw = "runtimeByWorkspace"@;
    let entry = JsonV::Object(seq![("settings"@, JsonV::Object(Seq::empty()))]);
    if doc.get(rbw).get(ws_id) is Null {
        let r1 = doc.get(rbw).set(ws_id, entry);
        lemma_get_set_same(doc, rbw, r1);
        lemma_get_set_same(doc.get(rbw), ws_id, entry);
        let m = seq![("settings"@, JsonV::Object(Seq::empty()))];
        assert(crate::json::key_at(m, "settings"@, 0));
        crate::json::lemma_first_key(m, "settings"@, 0);
    }
    let d1 = spec_ensure_runtime(doc, ws_id);
    let s1 = d1.get(rbw).get(ws_id).get("settings"@).set(key, v);
    let e1 = d1.get(rbw).get(ws_id).set("settings"@, s1);
    let r2 = d1.get(rbw).set(ws_id, e1);
    lemma_get_set_same(d1, rbw, r2);
    lemma_get_set_same(d1.get(rbw), ws_id, e1);
    lemma_get_set_same(d1.get(rbw).get(ws_id), "settings"@, s1);
}

/// Record the default model of workspace `ws_id`'s runtime.
pub fn set_default_model(doc: &mut Json, ws_id: &str, provider: &str, model_id: &str)
    requires
        runtime_settable(old(doc)@, ws_id@),
    ensures
        final(doc)@ == spec_set_runtime_setting(
            spec_set_runtime_setting(old(doc)@, ws_id@, "defaultProvider"@, JsonV::Str(provider@)),
            ws_id@, "defaultModelId"@, JsonV::Str(model_id@)),
{
    let ghost d0 = doc@;
    proof { lemma_setting_path(d0, ws_id@, "defaultProvider"@, JsonV::Str(provider@)); }
    ensure_runtime(doc, ws_id);
    assign_in4(doc, "runtimeByWorkspace", ws_id, "settings", "defaultProvider", jstr(provider));
    let ghost d2 = doc@;
    proof {
        assert(!(d2.get("runtimeByWorkspace"@).get(ws_id@) is Null));
        assert(spec_ensure_runtime(d2, ws_id@) == d2);
        lemma_setting_path(d2, ws_id@, "defaultModelId"@, JsonV::Str(model_id@));
    }
    ensure_runtime(doc, ws_id);
    assign_in4(doc, "runtimeByWorkspace", ws_id, "settings", "defaultModelId", jstr(model_id));
}

/// Record the default thinking level of workspace `ws_id`'s runtime.
pub fn set_default_thinking_level(doc: &mut Json, ws_id: &str, level: &str)
    requires
        runtime_settable(old(doc)@, ws_id@),
    ensures
        final(doc)@ == spec_set_runtime_setting(old(doc)@, ws_id@, "defaultThinkingLevel"@, JsonV::Str(level@)),
{
    proof { lemma_setting_path(doc@, ws_id@, "defaultThinkingLevel"@, JsonV::Str(level@)); }
    ensure_runtime(doc, ws_id);
    assign_in4(doc, "runtimeByWorkspace", ws_id, "settings", "defaultThinkingLevel", jstr(level));
}

/// Set the model of session `session_id` in workspace `ws_id`.
pub fn set_session_model(doc: &mut Json, ws_id: &str, session_id: &str, provider: &str, model_id: &str)
    requires
        sessions_reachable_at(old(doc)@, ws_id@),
    ensures
        final(doc)@ == spec_set_session_member(old(doc)@, ws_id@, session_id@, "config"@,
            JsonV::Object(seq![("provider"@, JsonV::Str(provider@)), ("modelId"@, JsonV::Str(model_id@))])),
{
    set_session_member(doc, ws_id, session_id, "config", object2("provider", jstr(provider), "modelId", jstr(model_id)));
}

/// Set the thinking level of session `session_id` in workspace `ws_id`.
pub fn set_session_thinking_level(doc: &mut Json, ws_id: &str, session_id: &str, level: &str)
    requires
        sessions_reachable_at(old(doc)@, ws_id@),
    ensures
        final(doc)@ == spec_set_session_member(old(doc)@, ws_id@, session_id@, "thinkingLevel"@, JsonV::Str(level@)),
{
    set_session_member(doc, ws_id, session_id, "thinkingLevel", jstr(level));
}

/// A session record of the document form.
pub open spec fn spec_doc_session(id: Seq<char>, title: Seq<char>, now: Seq<char>) -> JsonV {
    JsonV::Object(seq![
        ("id"@, JsonV::Str(id)),
        ("title"@, JsonV::Str(if title.len() == 0 { "New thread"@ } else { title })),
        ("updatedAt"@, JsonV::Str(now)),
        ("preview"@, JsonV::Str(""@)),
        ("status"@, JsonV::Str("idle"@)),
        ("hasUnseenUpdate"@, JsonV::Bool(false)),
    ])
}

/// The document with a new session `id` added to workspace `ws_id` and
/// selected; unchanged when there is no such workspace.
pub open spec fn spec_create_session(doc: JsonV, ws_id: Seq<char>, id: Seq<char>, title: Seq<char>, now: Seq<char>) -> JsonV {
    let ws = doc.get("workspaces"@)->Array_0;
    match find_item_with(ws, "id"@, ws_id) {
        Some(i) => {
            let sessions = ws[i].get("sessions"@)->Array_0;
            doc.set("workspaces"@, JsonV::Array(ws.update(i, ws[i].set("sessions"@, JsonV::Array(sessions.push(spec_doc_session(id, title, now)))))))
                .set("selectedSessionId"@, JsonV::Str(id))
        },
        None => doc,
    }
}

/// Add session `id` (titled `title`, created at `now`) to workspace `ws_id`
/// and select it.
pub fn create_session_at(doc: &mut Json, ws_id: &str, id: &str, title: &str, now: &str)
    requires
        sessions_reachable_at(old(doc)@, ws_id@),
    ensures
        final(doc)@ == spec_create_session(old(doc)@, ws_id@, id@, title@, now@),
{
    let ghost d0 = doc@;
    let sess = object6(
        "id", jstr(id),
        "title", if title.unicode_len() == 0 { jstr("New thread") } else { jstr(title) },
        "updatedAt", jstr(now),
        "preview", jstr(""),
        "status", jstr("idle"),
        "hasUnseenUpdate", Json::Bool(false),
    );
    let mut ws = match crate::workspace::take_workspaces(doc) {
        Some(w) => w,
        None => return,
    };
    let ghost wv = items_view(ws@);
    match find_item(&ws, "id", ws_id) {
        Some(i) => {
            proof { lemma_str_field_object(wv[i as int], "id"@, ws_id@); }
            let mut w = ws.remove(i);
            let ghost w0 = w@;
            match take_array(&mut w, "sessions") {
                Some(mut sessions) => {
                    let ghost sv = items_view(sessions@);
                    let ghost sj = sess@;
                    sessions.push(sess);
                    assert(items_view(sessions@) =~= sv.push(sj));
                    proof {
                        lemma_view_array(sessions);
                        crate::json::lemma_set_twice(w0, "sessions"@, JsonV::Array(Seq::empty()), JsonV::Array(items_view(sessions@)));
                    }
                    w.set("sessions", Json::Array(sessions));
                    ws.insert(i, w);
                    assert(items_view(ws@) =~= wv.update(i as int, w0.set("sessions"@, JsonV::Array(sv.push(sj)))));
                    proof {
                        lemma_view_array(ws);
                        crate::json::lemma_set_twice(d0, "workspaces"@, JsonV::Array(Seq::empty()), JsonV::Array(items_view(ws@)));
                    }
                    doc.set("workspaces", Json::Array(ws));
                    doc.set("selectedSessionId", jstr(id));
                },
                None => {
                    ws.insert(i, w);
                },
            }
        },
        None => {
            proof {
                lemma_view_array(ws);
                crate::json::lemma_set_twice(d0, "workspaces"@, JsonV::Array(Seq::empty()), JsonV::Array(items_view(ws@)));
                crate::json::lemma_set_get_back(d0, "workspaces"@);
            }
            doc.set("workspaces", Json::Array(ws));
        },
    }
}

/// Add a new session to workspace `ws_id` and select it; its id is made
/// from the current time.
pub fn create_session(doc: &mut Json, ws_id: &str, title: &str)
    requires
        sessions_reachable_at(old(doc)@, ws_id@),
    ensures
        exists|millis: int, now: Seq<char>| crate::clock::is_clock_text(now) &&
            final(doc)@ == spec_create_session(old(doc)@, ws_id@, crate::sessions::spec_session_id(millis), title@, now),
{
    let id = crate::sessions::session_id_for(crate::clock::now_millis());
    let now = crate::clock::now_iso();
    create_session_at(doc, ws_id, id.as_str(), title, now.as_str());
}

/// Whether `j` is an object with a member named `key`.
fn has_member(j: &Json, key: &str) -> (r: bool)
    ensures
        r == (j@ is Object && crate::json::first_key(j@->Object_0, key@) is Some),
{
    match j {
        Json::Object(m) => {
            proof { crate::json::lemma_view_object(*m); }
            match crate::json::find_member(m, key) {
                Some(i) => {
                    proof { crate::json::lemma_first_key(crate::json::members_view(m@), key@, i as int); }
                    true
                },
                None => false,
            }
        },
        _ => false,
    }
}

/// A workspace after `w["sessions"]` was indexed for assignment: a
/// missing member is created as `null`.
pub open spec fn with_sessions_key(w: JsonV) -> JsonV {
    if w is Object && crate::json::first_key(w->Object_0, "sessions"@) is Some {
        w
    } else {
        w.set("sessions"@, JsonV::Null)
    }
}

/// The document with the first session `sid` of the first workspace given
/// status `status`.
pub open spec fn spec_set_status_doc(doc: JsonV, sid: Seq<char>, status: Seq<char>) -> JsonV {
    let ws = doc.get("workspaces"@)->Array_0;
    let w0 = with_sessions_key(ws[0]);
    let w1 = match w0.get("sessions"@) {
        JsonV::Array(ss) => match find_item_with(ss, "id"@, sid) {
            Some(j) => w0.set("sessions"@, JsonV::Array(ss.update(j, ss[j].set("status"@, JsonV::Str(status))))),
            None => w0,
        },
        _ => w0,
    };
    doc.set("workspaces"@, JsonV::Array(ws.update(0, w1)))
}

/// The first workspace can be indexed for assignment: the workspaces are
/// a non-empty array whose first item is an object or `null`.
pub open spec fn first_workspace_settable(doc: JsonV) -> bool {
    &&& doc is Object
    &&& doc.get("workspaces"@) is Array
    &&& doc.get("workspaces"@)->Array_0.len() > 0
    &&& doc.get("workspaces"@)->Array_0[0].settable()
}

/// Set the status of session `sid` in the first workspace.
pub fn set_sess_status(doc: &mut Json, sid: &str, status: &str)
    requires
        first_workspace_settable(old(doc)@),
    ensures
        final(doc)@ == spec_set_status_doc(old(doc)@, sid@, status@),
{
    let ghost d0 = doc@;
    let mut ws = match crate::workspace::take_workspaces(doc) {
        Some(w) => w,
        None => return,
    };
    let ghost wv = items_view(ws@);
    let mut w = ws.remove(0);
    if !has_member(&w, "sessions") {
        w.set("sessions", Json::Null);
    }
    let ghost w0 = w@;
    assert(w0 == with_sessions_key(wv[0]));
    proof {
        if !(wv[0] is Object && crate::json::first_key(wv[0]->Object_0, "sessions"@) is Some) {
            lemma_get_set_same(wv[0], "sessions"@, JsonV::Null);
        }
    }
    assert(w0 is Object);
    match take_array(&mut w, "sessions") {
        Some(mut ss) => {
            let ghost sv = items_view(ss@);
            match find_item(&ss, "id", sid) {
                Some(j) => {
                    proof { lemma_str_field_object(sv[j as int], "id"@, sid@); }
                    let mut sess = ss.remove(j);
                    sess.set("status", jstr(status));
                    ss.insert(j, sess);
                    assert(items_view(ss@) =~= sv.update(j as int, sv[j as int].set("status"@, JsonV::Str(status@))));
                    proof {
                        lemma_view_array(ss);
                        crate::json::lemma_set_twice(w0, "sessions"@, JsonV::Array(Seq::empty()), JsonV::Array(items_view(ss@)));
                    }
                    w.set("sessions", Json::Array(ss));
                },
                None => {
                    proof {
                        lemma_view_array(ss);
                        crate::json::lemma_set_twice(w0, "sessions"@, JsonV::Array(Seq::empty()), JsonV::Array(items_view(ss@)));
                        crate::json::lemma_set_get_back(w0, "sessions"@);
                    }
                    w.set("sessions", Json::Array(ss));
                },
            }
        },
        None => {},
    }
    let ghost w1 = w@;
    assert(w1 == match w0.get("sessions"@) {
        JsonV::Array(ss) => match find_item_with(ss, "id"@, sid@) {
            Some(j) => w0.set("sessions"@, JsonV::Array(ss.update(j, ss[j].set("status"@, JsonV::Str(status@))))),
            None => w0,
        },
        _ => w0,
    });
    ws.insert(0, w);
    assert(items_view(ws@) =~= wv.update(0, w1));
    proof {
        lemma_view_array(ws);
        crate::json::lemma_set_twice(d0, "workspaces"@, JsonV::Array(Seq::empty()), JsonV::Array(items_view(ws@)));
    }
    doc.set("workspaces", Json::Array(ws));
}

/// Set the status of session `sid` in the first workspace.
pub fn set_session_status(doc: &mut Json, sid: &str, status: &str)
    requires
        first_workspace_settable(old(doc)@),
    ensures
        final(doc)@ == spec_set_status_doc(old(doc)@, sid@, status@),
{
    set_sess_status(doc, sid, status);
}

} // verus!
