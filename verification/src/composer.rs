//! Composer draft, attachments and queued messages.
use vstd::prelude::*;
use crate::state::{DesktopState, DesktopStateV, ostr};
use crate::json::{Json, JsonV, json_view, items_view, find_item, find_item_with, retain_items_without, lemma_str_field_object};
use crate::text::owned;

verus! {

/// Replace the draft, mark it as coming from the state and bump its sync
/// counter.
pub fn update_composer_draft(state: &mut DesktopState, draft: &str)
    requires
        old(state).composer_draft_sync_nonce < u64::MAX,
    ensures
        final(state)@ == (DesktopStateV {
            composer_draft: draft@,
            composer_draft_sync_source: Some("state"@),
            composer_draft_sync_nonce: (old(state).composer_draft_sync_nonce + 1) as u64,
            ..old(state)@
        }),
{
    state.composer_draft = owned(draft);
    state.composer_draft_sync_source = Some(owned("state"));
    state.composer_draft_sync_nonce = state.composer_draft_sync_nonce + 1;
}

/// The attachments become the items of `attachments` when it is an array;
/// any other value changes nothing.
pub open spec fn spec_set_attachments(s: DesktopStateV, attachments: JsonV) -> DesktopStateV {
    match attachments {
        JsonV::Array(items) => DesktopStateV { composer_attachments: items, ..s },
        _ => s,
    }
}

/// Replace the attachments with the items of an array value.
pub fn set_composer_attachments(state: &mut DesktopState, attachments: Json)
    ensures
        final(state)@ == spec_set_attachments(old(state)@, attachments@),
{
    match attachments {
        Json::Array(arr) => {
            proof { crate::json::lemma_view_array(arr); }
            state.composer_attachments = arr;
        },
        _ => {},
    }
}

/// Drop every attachment whose `id` is `attachment_id`.
pub fn remove_composer_attachment(state: &mut DesktopState, attachment_id: &str)
    ensures
        final(state)@ == (DesktopStateV {
            composer_attachments: old(state)@.composer_attachments.filter(
                |j: JsonV| !j.field_is_str("id"@, attachment_id@),
            ),
            ..old(state)@
        }),
{
    let mut v: Vec<Json> = Vec::new();
    std::mem::swap(&mut v, &mut state.composer_attachments);
    state.composer_attachments = retain_items_without(v, "id", attachment_id);
}

/// Start editing queued message `message_id`, loading `current_draft` into
/// the composer when given.
pub fn edit_queued_message(state: &mut DesktopState, message_id: &str, current_draft: Option<&str>)
    ensures
        final(state)@ == (DesktopStateV {
            editing_queued_message_id: Some(message_id@),
            composer_draft: match current_draft {
                Some(d) => d@,
                None => old(state)@.composer_draft,
            },
            ..old(state)@
        }),
{
    state.editing_queued_message_id = Some(owned(message_id));
    match current_draft {
        Some(d) => {
            state.composer_draft = owned(d);
        },
        None => {},
    }
}

/// Stop editing a queued message.
pub fn cancel_queued_edit(state: &mut DesktopState)
    ensures
        final(state)@ == (DesktopStateV { editing_queued_message_id: None, ..old(state)@ }),
{
    state.editing_queued_message_id = None;
}

/// Drop every queued message whose `id` is `message_id`.
pub fn remove_queued_message(state: &mut DesktopState, message_id: &str)
    ensures
        final(state)@ == (DesktopStateV {
            queued_composer_messages: old(state)@.queued_composer_messages.filter(
                |j: JsonV| !j.field_is_str("id"@, message_id@),
            ),
            ..old(state)@
        }),
{
    let mut v: Vec<Json> = Vec::new();
    std::mem::swap(&mut v, &mut state.queued_composer_messages);
    state.queued_composer_messages = retain_items_without(v, "id", message_id);
}

/// The first queued message `message_id` switched to steering mode.
pub open spec fn spec_steer(s: DesktopStateV, message_id: Seq<char>) -> DesktopStateV {
    match find_item_with(s.queued_composer_messages, "id"@, message_id) {
        Some(i) => DesktopStateV {
            queued_composer_messages: s.queued_composer_messages.update(
                i,
                s.queued_composer_messages[i].set("mode"@, JsonV::Str("steer"@)),
            ),
            ..s
        },
        None => s,
    }
}

/// Switch the first queued message `message_id` to steering mode.
pub fn steer_queued_message(state: &mut DesktopState, message_id: &str)
    ensures
        final(state)@ == spec_steer(old(state)@, message_id@),
{
    match find_item(&state.queued_composer_messages, "id", message_id) {
        Some(i) => {
            let ghost before = items_view(state.queued_composer_messages@);
            proof { lemma_str_field_object(before[i as int], "id"@, message_id@); }
            let mut m = state.queued_composer_messages.remove(i);
            m.set("mode", Json::Str(owned("steer")));
            state.queued_composer_messages.insert(i, m);
            assert(items_view(state.queued_composer_messages@) =~= before.update(
                i as int,
                before[i as int].set("mode"@, JsonV::Str("steer"@)),
            ));
        },
        None => {},
    }
}

/// After removing an attachment no attachment with its id is left, and the
/// others keep their order.
pub proof fn lemma_attachment_removed(s: DesktopStateV, attachment_id: Seq<char>, k: int)
    requires
        0 <= k < s.composer_attachments.filter(|j: JsonV| !j.field_is_str("id"@, attachment_id)).len(),
    ensures
        !s.composer_attachments.filter(|j: JsonV| !j.field_is_str("id"@, attachment_id))[k].field_is_str("id"@, attachment_id),
{
    s.composer_attachments.lemma_filter_pred(|j: JsonV| !j.field_is_str("id"@, attachment_id), k);
}

/// After steering a queued message, that message is in steering mode.
pub proof fn lemma_steered(s: DesktopStateV, message_id: Seq<char>)
    requires
        find_item_with(s.queued_composer_messages, "id"@, message_id) is Some,
    ensures
        ({
            let i = find_item_with(s.queued_composer_messages, "id"@, message_id)->Some_0;
            spec_steer(s, message_id).queued_composer_messages[i].get("mode"@) == JsonV::Str("steer"@)
        }),
{
    let i = find_item_with(s.queued_composer_messages, "id"@, message_id)->Some_0;
    let c = choose|t: int| crate::json::is_first_item_with(s.queued_composer_messages, "id"@, message_id, t);
    assert(crate::json::is_first_item_with(s.queued_composer_messages, "id"@, message_id, c));
    lemma_str_field_object(s.queued_composer_messages[i], "id"@, message_id);
    crate::json::lemma_get_set_same(s.queued_composer_messages[i], "mode"@, JsonV::Str("steer"@));
}

} // verus!
