//! Workspaces kept in a JSON state document: adding, selecting, renaming,
//! removing and reordering them, and looking up their paths.
use vstd::prelude::*;
use crate::text::{owned, str_eq};
use crate::json::{Json, JsonV, json_view, items_view, lemma_view_array, lemma_items_push, jstr, empty_array,
    object6, find_item, find_item_with, retain_items_without, lemma_str_field_object, lemma_get_set_same};
use crate::files::{last_segment, last_segment_of};

verus! {

/// The workspaces of a state document, when it holds an array of them.
pub open spec fn workspaces_of(doc: JsonV) -> Option<Seq<JsonV>> {
    match doc.get("workspaces"@) {
        JsonV::Array(ws) => Some(ws),
        _ => None,
    }
}

/// The document with its workspaces replaced.
pub open spec fn with_workspaces(doc: JsonV, ws: Seq<JsonV>) -> JsonV {
    doc.set("workspaces"@, JsonV::Array(ws))
}

/// Take the workspaces array out of the document (leaving an empty one).
pub(crate) fn take_workspaces(doc: &mut Json) -> (r: Option<Vec<Json>>)
    requires
        old(doc)@ is Object,
    ensures
        match r {
            Some(v) => workspaces_of(old(doc)@) == Some(items_view(v@))
                && final(doc)@ == with_workspaces(old(doc)@, Seq::empty()),
            None => workspaces_of(old(doc)@) is None && final(doc)@ == old(doc)@,
        },
{
    let is_arr = match doc.get("workspaces") {
        Some(Json::Array(_)) => true,
        _ => false,
    };
    if !is_arr {
        return None;
    }
    let ghost before = doc@;
    let mut slot = empty_array();
    match doc {
        Json::Object(m) => {
            proof { crate::json::lemma_view_object(*m); }
            let ghost mv = crate::json::members_view(m@);
            match crate::json::find_member(m, "workspaces") {
                Some(i) => {
                    proof { crate::json::lemma_first_key(mv, "workspaces"@, i as int); }
                    let (k, old_v) = m.remove(i);
                    m.insert(i, (k, slot));
                    proof {
                        crate::json::lemma_view_object(*m);
                        assert(crate::json::members_view(m@) =~= mv.update(i as int, ("workspaces"@, JsonV::Array(Seq::empty()))));
                    }
                    match old_v {
                        Json::Array(v) => {
                            proof { lemma_view_array(v); }
                            return Some(v);
                        },
                        other => {
                            return None;
                        },
                    }
                },
                None => {
                    return None;
                },
            }
        },
        _ => {
            return None;
        },
    }
}

/// A new workspace record for `path`: named by its last path segment.
pub open spec fn spec_new_workspace(id: Seq<char>, path: Seq<char>, now: Seq<char>) -> JsonV {
    JsonV::Object(seq![
        ("id"@, JsonV::Str(id)),
        ("name"@, JsonV::Str(last_segment(path))),
        ("path"@, JsonV::Str(path)),
        ("lastOpenedAt"@, JsonV::Str(now)),
        ("kind"@, JsonV::Str("primary"@)),
        ("sessions"@, JsonV::Array(Seq::empty())),
    ])
}

/// The document after adding workspace `path` (id `id`, opened at `now`);
/// unchanged when it holds no workspaces array.
pub open spec fn spec_add_workspace(doc: JsonV, id: Seq<char>, path: Seq<char>, now: Seq<char>) -> JsonV {
    match workspaces_of(doc) {
        Some(ws) => with_workspaces(doc, ws.push(spec_new_workspace(id, path, now))),
        None => doc,
    }
}

/// Add a workspace for `path` with the given id and opening time (the
/// document must hold a workspaces array).
pub fn add_workspace(doc: &mut Json, id: &str, path: &str, now: &str)
    requires
        workspaces_of(old(doc)@) is Some,
    ensures
        final(doc)@ == spec_add_workspace(old(doc)@, id@, path@, now@),
{
    let ghost d0 = doc@;
    match take_workspaces(doc) {
        Some(mut ws) => {
            let w = object6(
                "id", jstr(id),
                "name", Json::Str(last_segment_of(path)),
                "path", jstr(path),
                "lastOpenedAt", jstr(now),
                "kind", jstr("primary"),
                "sessions", empty_array(),
            );
            let ghost before = ws@;
            ws.push(w);
            proof {
                lemma_items_push(before, w);
                lemma_view_array(ws);
                crate::json::lemma_set_twice(d0, "workspaces"@, JsonV::Array(Seq::empty()), JsonV::Array(items_view(ws@)));
            }
            doc.set("workspaces", Json::Array(ws));
        },
        None => {},
    }
}

/// Select workspace `id`.
pub fn select_workspace(doc: &mut Json, workspace_id: &str)
    requires
        old(doc)@.settable(),
    ensures
        final(doc)@ == old(doc)@.set("selectedWorkspaceId"@, JsonV::Str(workspace_id@)),
{
    doc.set("selectedWorkspaceId", jstr(workspace_id));
}

/// The document after renaming the first workspace with id `id`.
pub open spec fn spec_rename_workspace(doc: JsonV, id: Seq<char>, name: Seq<char>) -> JsonV {
    match workspaces_of(doc) {
        Some(ws) => match find_item_with(ws, "id"@, id) {
            Some(i) => with_workspaces(doc, ws.update(i, ws[i].set("name"@, JsonV::Str(name)))),
            None => doc,
        },
        None => doc,
    }
}

/// Rename the first workspace with id `id`.
pub fn rename_workspace(doc: &mut Json, workspace_id: &str, display_name: &str)
    requires
        workspaces_of(old(doc)@) is Some,
    ensures
        final(doc)@ == spec_rename_workspace(old(doc)@, workspace_id@, display_name@),
{
    let ghost d0 = doc@;
    match take_workspaces(doc) {
        Some(mut ws) => {
            let ghost wv = items_view(ws@);
            match find_item(&ws, "id", workspace_id) {
                Some(i) => {
                    proof { lemma_str_field_object(wv[i as int], "id"@, workspace_id@); }
                    let mut w = ws.remove(i);
                    w.set("name", jstr(display_name));
                    ws.insert(i, w);
                    assert(items_view(ws@) =~= wv.update(i as int, wv[i as int].set("name"@, JsonV::Str(display_name@))));
                    proof {
                        lemma_view_array(ws);
                        crate::json::lemma_set_twice(d0, "workspaces"@, JsonV::Array(Seq::empty()), JsonV::Array(items_view(ws@)));
                    }
                    doc.set("workspaces", Json::Array(ws));
                },
                None => {
                    proof {
                        lemma_view_array(ws);
                        crate::json::lemma_set_twice(d0, "workspaces"@, JsonV::Array(Seq::empty()), JsonV::Array(items_view(ws@)));
                        crate::json::lemma_set_get_back(d0, "workspaces"@);
                    }
                    doc.set("workspaces", Json::Array(ws));
                },
            }
        },
        None => {},
    }
}

/// The id a workspace is known by when reordering (`""` without one).
pub open spec fn key_of(w: JsonV) -> Seq<char> {
    match w.get("id"@) {
        JsonV::Str(s) => s,
        _ => Seq::empty(),
    }
}

/// The id of the first workspace left (`""` when none is left or it has
/// none).
pub open spec fn first_id(ws: Seq<JsonV>) -> Seq<char> {
    if ws.len() > 0 { key_of(ws[0]) } else { Seq::empty() }
}

/// The selected workspace id (`""` when unset).
pub open spec fn selected_of(doc: JsonV) -> Seq<char> {
    match doc.get("selectedWorkspaceId"@) {
        JsonV::Str(s) => s,
        _ => Seq::empty(),
    }
}

/// The document after removing every workspace with id `id`; when it was
/// the selected one, the first remaining workspace (or none) is selected.
pub open spec fn spec_remove_workspace(doc: JsonV, id: Seq<char>) -> JsonV {
    match workspaces_of(doc) {
        Some(ws) => {
            let kept = ws.filter(|w: JsonV| !w.field_is_str("id"@, id));
            let d1 = with_workspaces(doc, kept);
            if selected_of(doc) == id {
                d1.set("selectedWorkspaceId"@, JsonV::Str(first_id(kept)))
            } else {
                d1
            }
        },
        None => doc,
    }
}

/// When the removed workspace is the selected one, the first workspace left
/// (if any) has a text id to select.
pub open spec fn removal_selects_named(doc: JsonV, id: Seq<char>) -> bool {
    let kept = workspaces_of(doc)->Some_0.filter(|w: JsonV| !w.field_is_str("id"@, id));
    selected_of(doc) == id && kept.len() > 0 ==> kept[0].get("id"@) is Str
}

fn key_of_exec(w: &Json) -> (r: String)
    ensures
        r@ == key_of(w@),
{
    match w.str_field("id") {
        Some(s) => s.clone(),
        None => String::new(),
    }
}

/// Remove every workspace with id `id`, moving the selection when it was
/// the selected one.
pub fn remove_workspace(doc: &mut Json, workspace_id: &str)
    requires
        workspaces_of(old(doc)@) is Some,
        removal_selects_named(old(doc)@, workspace_id@),
    ensures
        final(doc)@ == spec_remove_workspace(old(doc)@, workspace_id@),
{
    let ghost d0 = doc@;
    let prev: String = match doc.str_field("selectedWorkspaceId") {
        Some(s) => s.clone(),
        None => String::new(),
    };
    assert(prev@ == selected_of(d0));
    match take_workspaces(doc) {
        Some(ws) => {
            let kept = retain_items_without(ws, "id", workspace_id);
            let fid = if kept.len() > 0 { key_of_exec(&kept[0]) } else { String::new() };
            proof {
                lemma_view_array(kept);
                crate::json::lemma_set_twice(d0, "workspaces"@, JsonV::Array(Seq::empty()), JsonV::Array(items_view(kept@)));
            }
            doc.set("workspaces", Json::Array(kept));
            if str_eq(prev.as_str(), workspace_id) {
                doc.set("selectedWorkspaceId", Json::Str(fid));
            }
        },
        None => {},
    }
}

/// The last workspace with key `id`, if any.
pub open spec fn last_with_key(ws: Seq<JsonV>, id: Seq<char>) -> Option<int>
    decreases ws.len(),
{
    if ws.len() == 0 {
        None
    } else if key_of(ws.last()) == id {
        Some(ws.len() - 1)
    } else {
        last_with_key(ws.drop_last(), id)
    }
}

/// The workspaces named by the first `n` ids of `order`, each the last
/// workspace with that id; ids naming none are skipped.
pub open spec fn reordered(ws: Seq<JsonV>, order: Seq<Seq<char>>, n: nat) -> Seq<JsonV>
    decreases n,
{
    if n == 0 {
        Seq::empty()
    } else {
        let before = reordered(ws, order, (n - 1) as nat);
        match last_with_key(ws, order[n - 1]) {
            Some(k) => before.push(ws[k]),
            None => before,
        }
    }
}

/// The document with its workspaces in the given order.
pub open spec fn spec_reorder_workspaces(doc: JsonV, order: Seq<Seq<char>>) -> JsonV {
    match workspaces_of(doc) {
        Some(ws) => with_workspaces(doc, reordered(ws, order, order.len())),
        None => doc,
    }
}

fn find_last_with_key(ws: &Vec<Json>, id: &str) -> (r: Option<usize>)
    ensures
        match r {
            Some(k) => last_with_key(items_view(ws@), id@) == Some(k as int) && k < ws@.len(),
            None => last_with_key(items_view(ws@), id@) is None,
        },
{
    let ghost wv = items_view(ws@);
    let mut i: usize = ws.len();
    assert(wv.take(i as int) =~= wv);
    while i > 0
        invariant
            i <= ws@.len(),
            wv == items_view(ws@),
            last_with_key(wv, id@) == last_with_key(wv.take(i as int), id@),
        decreases i,
    {
        proof {
            assert(wv.take(i as int).drop_last() =~= wv.take(i as int - 1));
            assert(wv.take(i as int).last() == json_view(ws@[i as int - 1]));
        }
        let k = key_of_exec(&ws[i - 1]);
        if str_eq(k.as_str(), id) {
            return Some(i - 1);
        }
        i = i - 1;
    }
    None
}

/// Put the workspaces in the order of `workspace_order`.
pub fn reorder_workspaces(doc: &mut Json, workspace_order: &Vec<String>)
    requires
        workspaces_of(old(doc)@) is Some,
        forall|k: int| 0 <= k < workspaces_of(old(doc)@)->Some_0.len()
            ==> (#[trigger] workspaces_of(old(doc)@)->Some_0[k]).get("id"@) is Str,
    ensures
        final(doc)@ == spec_reorder_workspaces(old(doc)@, crate::state::strs_view(workspace_order@)),
{
    let ghost d0 = doc@;
    let ghost ov = crate::state::strs_view(workspace_order@);
    match take_workspaces(doc) {
        Some(ws) => {
            let ghost wv = items_view(ws@);
            let mut out: Vec<Json> = Vec::new();
            let mut n: usize = 0;
            while n < workspace_order.len()
                invariant
                    n <= workspace_order@.len(),
                    ov == crate::state::strs_view(workspace_order@),
                    wv == items_view(ws@),
                    items_view(out@) == reordered(wv, ov, n as nat),
                decreases workspace_order@.len() - n,
            {
                match find_last_with_key(&ws, workspace_order[n].as_str()) {
                    Some(k) => {
                        let w = ws[k].deep_clone();
                        let ghost before = out@;
                        out.push(w);
                        proof { lemma_items_push(before, w); }
                    },
                    None => {},
                }
                n = n + 1;
            }
            proof {
                lemma_view_array(out);
                crate::json::lemma_set_twice(d0, "workspaces"@, JsonV::Array(Seq::empty()), JsonV::Array(items_view(out@)));
            }
            doc.set("workspaces", Json::Array(out));
        },
        None => {},
    }
}

/// The path of the first workspace with id `id`, when it has one.
pub open spec fn spec_workspace_path(doc: JsonV, id: Seq<char>) -> Option<Seq<char>> {
    match workspaces_of(doc) {
        Some(ws) => match find_item_with(ws, "id"@, id) {
            Some(i) => ws[i].get("path"@).as_str(),
            None => None,
        },
        None => None,
    }
}

/// The path of workspace `id`.
pub fn workspace_path(doc: &Json, ws_id: &str) -> (r: Option<String>)
    ensures
        match r {
            Some(p) => spec_workspace_path(doc@, ws_id@) == Some(p@),
            None => spec_workspace_path(doc@, ws_id@) is None,
        },
{
    match doc.get("workspaces") {
        Some(Json::Array(ws)) => {
            proof { lemma_view_array(*ws); }
            match find_item(ws, "id", ws_id) {
                Some(i) => match ws[i].str_field("path") {
                    Some(p) => Some(p.clone()),
                    None => None,
                },
                None => None,
            }
        },
        _ => None,
    }
}

/// Removing a workspace leaves none with its id, and when it was selected
/// (by a non-empty id) the selection moves off it.
pub proof fn lemma_remove_workspace(doc: JsonV, id: Seq<char>)
    requires
        workspaces_of(doc) is Some,
        id.len() > 0,
    ensures
        ({
            let r = spec_remove_workspace(doc, id);
            &&& workspaces_of(r) is Some
            &&& forall|k: int| 0 <= k < workspaces_of(r)->Some_0.len() ==> !(#[trigger] workspaces_of(r)->Some_0[k]).field_is_str("id"@, id)
            &&& selected_of(doc) == id ==> selected_of(r) != id
        }),
{
    let ws = workspaces_of(doc)->Some_0;
    let pred = |w: JsonV| !w.field_is_str("id"@, id);
    let kept = ws.filter(pred);
    let d1 = with_workspaces(doc, kept);
    assert(doc is Object);
    lemma_get_set_same(doc, "workspaces"@, JsonV::Array(kept));
    assert forall|k: int| 0 <= k < kept.len() implies !(#[trigger] kept[k]).field_is_str("id"@, id) by {
        ws.lemma_filter_pred(pred, k);
    }
    if selected_of(doc) == id {
        reveal_strlit("selectedWorkspaceId");
        reveal_strlit("workspaces");
        assert("selectedWorkspaceId"@ != "workspaces"@) by {
            assert("selectedWorkspaceId"@[0] != "workspaces"@[0]);
        }
        crate::json::lemma_get_set_other(d1, "selectedWorkspaceId"@, "workspaces"@, JsonV::Str(first_id(kept)));
        lemma_get_set_same(d1, "selectedWorkspaceId"@, JsonV::Str(first_id(kept)));
        if kept.len() > 0 {
            assert(!kept[0].field_is_str("id"@, id));
        }
    }
}

} // verus!
