//! Agent session events as the frontend receives them, and the display
//! transcript built from a conversation.
use vstd::prelude::*;
use crate::text::{owned, str_eq, push_dec_i64, dec_int};
use crate::json::{
    Json, JsonV, json_view, items_view, lemma_view_array, lemma_str_field_object, jstr,
    object1, object2, object3, object4, object5, object6, empty_object,
};
use crate::clock::{rfc3339_from_secs, spec_rfc3339_secs, now_iso};
use crate::state::{DesktopState, DesktopStateV};
use crate::sessions::{set_sess_status, spec_set_status};

verus! {

/// A message of an agent conversation, as far as the transcript reads it.
/// Content blocks are kept in their JSON form (`{"type": "text", "text": ..}`,
/// `{"type": "toolCall", "id": .., ..}`, ...).
pub enum AgentMessage {
    User { content: Vec<Json>, timestamp: i64 },
    Assistant { content: Vec<Json>, timestamp: i64 },
    ToolResult { tool_call_id: String, content: Vec<Json>, is_error: bool },
    Other,
}

/// The text a block contributes when content is flattened: the text of a
/// text block, nothing for any other block.
pub open spec fn text_of_block(b: JsonV) -> Seq<char> {
    if b.get("type"@) == JsonV::Str("text"@) {
        match b.get("text"@) {
            JsonV::Str(t) => t,
            _ => Seq::empty(),
        }
    } else {
        Seq::empty()
    }
}

/// The concatenated texts of the text blocks.
pub open spec fn plain_text(bs: Seq<JsonV>) -> Seq<char>
    decreases bs.len(),
{
    if bs.len() == 0 {
        Seq::empty()
    } else {
        plain_text(bs.drop_last()) + text_of_block(bs.last())
    }
}

fn text_of_block_exec(b: &Json) -> (r: String)
    ensures
        r@ == text_of_block(b@),
{
    if b.field_is_str("type", "text") {
        match b.str_field("text") {
            Some(t) => t.clone(),
            None => String::new(),
        }
    } else {
        String::new()
    }
}

/// Flatten content blocks to their text.
pub fn plain_text_of(bs: &Vec<Json>) -> (r: String)
    ensures
        r@ == plain_text(items_view(bs@)),
{
    let ghost bv = items_view(bs@);
    let mut text = String::new();
    let mut i: usize = 0;
    assert(bv.take(0) =~= Seq::<JsonV>::empty());
    while i < bs.len()
        invariant
            i <= bs@.len(),
            bv == items_view(bs@),
            text@ == plain_text(bv.take(i as int)),
        decreases bs@.len() - i,
    {
        let t = text_of_block_exec(&bs[i]);
        text.append(t.as_str());
        proof {
            assert(bv.take(i as int + 1).drop_last() =~= bv.take(i as int));
        }
        i = i + 1;
    }
    assert(bv.take(i as int) =~= bv);
    text
}

/// The result recorded for a tool call: the last tool-result message with
/// that id, as its flattened text and error flag.
/// (A map from tool-call id to result, filled in message order, holds
/// exactly this: a later result for the same id overwrites an earlier one.
/// The lookup is kept as a backward scan over the messages, which states
/// the same thing over plain sequences.)
pub open spec fn last_tool_result(msgs: Seq<AgentMessage>, id: Seq<char>) -> Option<(Seq<char>, bool)>
    decreases msgs.len(),
{
    if msgs.len() == 0 {
        None
    } else {
        match msgs.last() {
            AgentMessage::ToolResult { tool_call_id, content, is_error } => if tool_call_id@ == id {
                Some((plain_text(items_view(content@)), is_error))
            } else {
                last_tool_result(msgs.drop_last(), id)
            },
            _ => last_tool_result(msgs.drop_last(), id),
        }
    }
}

/// Find the result recorded for tool call `id`.
pub fn find_tool_result(msgs: &Vec<AgentMessage>, id: &str) -> (r: Option<(String, bool)>)
    ensures
        match r {
            Some((t, e)) => last_tool_result(msgs@, id@) == Some((t@, e)),
            None => last_tool_result(msgs@, id@) is None,
        },
{
    let mut i: usize = msgs.len();
    assert(msgs@.take(i as int) =~= msgs@);
    while i > 0
        invariant
            i <= msgs@.len(),
            last_tool_result(msgs@, id@) == last_tool_result(msgs@.take(i as int), id@),
        decreases i,
    {
        proof {
            assert(msgs@.take(i as int).drop_last() =~= msgs@.take(i as int - 1));
            assert(msgs@.take(i as int).last() == msgs@[i as int - 1]);
        }
        match &msgs[i - 1] {
            AgentMessage::ToolResult { tool_call_id, content, is_error } => {
                if str_eq(tool_call_id.as_str(), id) {
                    let t = plain_text_of(content);
                    return Some((t, *is_error));
                }
            },
            _ => {},
        }
        i = i - 1;
    }
    None
}

/// A content block with the state of its tool execution: a tool-call block
/// whose id has a recorded result gets `status`, `result` and `isError`.
pub open spec fn with_tool_state(b: JsonV, msgs: Seq<AgentMessage>) -> JsonV {
    if b.get("type"@) == JsonV::Str("toolCall"@) {
        match b.get("id"@) {
            JsonV::Str(id) => match last_tool_result(msgs, id) {
                Some((res, err)) => b.set("status"@, JsonV::Str(if err { "error"@ } else { "success"@ }))
                    .set("result"@, JsonV::Str(res))
                    .set("isError"@, JsonV::Bool(err)),
                None => b,
            },
            _ => b,
        }
    } else {
        b
    }
}

/// The result recorded for a tool call is that of the last tool-result
/// message carrying its id: a result at position `j` with no later result
/// for the same id is the one found.
pub proof fn lemma_last_tool_result_is_latest(msgs: Seq<AgentMessage>, id: Seq<char>, j: int)
    requires
        0 <= j < msgs.len(),
        msgs[j] matches AgentMessage::ToolResult { tool_call_id, .. } && tool_call_id@ == id,
        forall|k: int| j < k < msgs.len() ==> !(#[trigger] msgs[k] matches AgentMessage::ToolResult { tool_call_id, .. } && tool_call_id@ == id),
    ensures
        match msgs[j] {
            AgentMessage::ToolResult { content, is_error, .. } =>
                last_tool_result(msgs, id) == Some((plain_text(items_view(content@)), is_error)),
            _ => false,
        },
    decreases msgs.len(),
{
    if j < msgs.len() - 1 {
        let k = msgs.len() - 1;
        assert(!(msgs[k] matches AgentMessage::ToolResult { tool_call_id, .. } && tool_call_id@ == id));
        lemma_last_tool_result_is_latest(msgs.drop_last(), id, j);
        assert(msgs.drop_last()[j] == msgs[j]);
    }
}

/// A tool call without any tool-result message for its id has no result.
pub proof fn lemma_no_tool_result(msgs: Seq<AgentMessage>, id: Seq<char>)
    requires
        forall|k: int| 0 <= k < msgs.len() ==> !(#[trigger] msgs[k] matches AgentMessage::ToolResult { tool_call_id, .. } && tool_call_id@ == id),
    ensures
        last_tool_result(msgs, id) is None,
    decreases msgs.len(),
{
    if msgs.len() > 0 {
        let k = msgs.len() - 1;
        assert(!(msgs[k] matches AgentMessage::ToolResult { tool_call_id, .. } && tool_call_id@ == id));
        lemma_no_tool_result(msgs.drop_last(), id);
    }
}

/// A tool-call block whose id has a recorded result is shown with that
/// result: `status` is `"error"` when the result is an error and
/// `"success"` when it is not, `result` is the result's text and `isError`
/// its error flag; the block's other members are kept. A block that is not
/// a tool call, or a tool call without a result, is shown unchanged.
pub proof fn lemma_tool_state_shown(b: JsonV, msgs: Seq<AgentMessage>)
    ensures
        ({
            let r = with_tool_state(b, msgs);
            match (b.get("type"@), b.get("id"@)) {
                (JsonV::Str(t), JsonV::Str(id)) => if t == "toolCall"@ {
                    match last_tool_result(msgs, id) {
                        Some((res, err)) => {
                            &&& (r.get("status"@) == JsonV::Str("error"@)) == err
                            &&& !err ==> r.get("status"@) == JsonV::Str("success"@)
                            &&& r.get("result"@) == JsonV::Str(res)
                            &&& r.get("isError"@) == JsonV::Bool(err)
                            &&& forall|k: Seq<char>| k != "status"@ && k != "result"@ && k != "isError"@ ==> #[trigger] r.get(k) == b.get(k)
                        },
                        None => r == b,
                    }
                } else {
                    r == b
                },
                _ => r == b,
            }
        }),
{
    reveal_strlit("status");
    reveal_strlit("result");
    reveal_strlit("isError");
    reveal_strlit("error");
    reveal_strlit("success");
    let st = "status"@;
    let rs = "result"@;
    let ie = "isError"@;
    assert(st != rs) by { assert(st[0] != rs[0]); }
    assert(st != ie) by { assert(st[0] != ie[0]); }
    assert(rs != ie) by { assert(rs[0] != ie[0]); }
    assert("error"@ != "success"@) by { assert("error"@[0] != "success"@[0]); }
    if b.get("type"@) == JsonV::Str("toolCall"@) {
        match b.get("id"@) {
            JsonV::Str(id) => match last_tool_result(msgs, id) {
                Some((res, err)) => {
                    let sv = JsonV::Str(if err { "error"@ } else { "success"@ });
                    let b1 = b.set(st, sv);
                    let b2 = b1.set(rs, JsonV::Str(res));
                    let b3 = b2.set(ie, JsonV::Bool(err));
                    crate::json::lemma_get_set_same(b, st, sv);
                    crate::json::lemma_get_set_other(b1, rs, st, JsonV::Str(res));
                    crate::json::lemma_get_set_other(b2, ie, st, JsonV::Bool(err));
                    crate::json::lemma_get_set_same(b1, rs, JsonV::Str(res));
                    crate::json::lemma_get_set_other(b2, ie, rs, JsonV::Bool(err));
                    crate::json::lemma_get_set_same(b2, ie, JsonV::Bool(err));
                    assert forall|k: Seq<char>| k != st && k != rs && k != ie implies #[trigger] b3.get(k) == b.get(k) by {
                        crate::json::lemma_get_set_other(b, st, k, sv);
                        crate::json::lemma_get_set_other(b1, rs, k, JsonV::Str(res));
                        crate::json::lemma_get_set_other(b2, ie, k, JsonV::Bool(err));
                    }
                },
                None => {},
            },
            _ => {},
        }
    }
}

fn with_tool_state_exec(b: &Json, msgs: &Vec<AgentMessage>) -> (r: Json)
    ensures
        r@ == with_tool_state(b@, msgs@),
{
    let mut out = b.deep_clone();
    if b.field_is_str("type", "toolCall") {
        match b.str_field("id") {
            Some(id) => match find_tool_result(msgs, id.as_str()) {
                Some((res, err)) => {
                    proof { lemma_str_field_object(b@, "type"@, "toolCall"@); }
                    let status = if err { jstr("error") } else { jstr("success") };
                    out.set("status", status);
                    out.set("result", Json::Str(res));
                    out.set("isError", Json::Bool(err));
                },
                None => {},
            },
            None => {},
        }
    }
    out
}

/// Whole seconds of a millisecond time, truncated toward zero.
pub open spec fn secs_of_millis(ms: int) -> int {
    if ms >= 0 { ms / 1000 } else { -((-ms) / 1000) }
}

pub(crate) fn secs_of_millis_exec(ms: i64) -> (r: i64)
    ensures
        r == secs_of_millis(ms as int),
{
    if ms >= 0 {
        ms / 1000
    } else {
        let p: u64 = (0i128 - ms as i128) as u64;
        let q: u64 = p / 1000;
        0i64 - (q as i64)
    }
}

/// The creation time shown for a message: its time stamp in RFC 3339 when
/// chrono can render it, `now` otherwise.
pub open spec fn created_at(ms: i64, now: Seq<char>) -> Seq<char> {
    match spec_rfc3339_secs(secs_of_millis(ms as int) as i64) {
        Some(s) => s,
        None => now,
    }
}

fn created_at_exec(ms: i64, now: &str) -> (r: String)
    ensures
        r@ == created_at(ms, now@),
{
    let secs = secs_of_millis_exec(ms);
    match rfc3339_from_secs(secs) {
        Some(s) => s,
        None => owned(now),
    }
}

/// The transcript entry of a user or assistant message.
pub open spec fn transcript_entry(role: Seq<char>, content: Seq<Json>, ts: i64, msgs: Seq<AgentMessage>, now: Seq<char>) -> JsonV {
    JsonV::Object(seq![
        ("id"@, JsonV::Str("msg-"@ + dec_int(ts as int))),
        ("kind"@, JsonV::Str("message"@)),
        ("role"@, JsonV::Str(role)),
        ("text"@, JsonV::Str(plain_text(items_view(content)))),
        ("content"@, JsonV::Array(items_view(content).map_values(|b: JsonV| with_tool_state(b, msgs)))),
        ("createdAt"@, JsonV::Str(created_at(ts, now))),
    ])
}

/// The transcript entries of the first `n` messages: user and assistant
/// messages in order, every other message left out.
pub open spec fn transcript_prefix(msgs: Seq<AgentMessage>, n: nat, now: Seq<char>) -> Seq<JsonV>
    decreases n,
{
    if n == 0 {
        Seq::empty()
    } else {
        let before = transcript_prefix(msgs, (n - 1) as nat, now);
        match msgs[n - 1] {
            AgentMessage::User { content, timestamp } => before.push(transcript_entry("user"@, content@, timestamp, msgs, now)),
            AgentMessage::Assistant { content, timestamp } => before.push(transcript_entry("assistant"@, content@, timestamp, msgs, now)),
            _ => before,
        }
    }
}

/// The display transcript of a conversation at time `now`.
pub open spec fn spec_display_transcript(msgs: Seq<AgentMessage>, now: Seq<char>) -> Seq<JsonV> {
    transcript_prefix(msgs, msgs.len(), now)
}

/// The number of user and assistant messages among `msgs`.
pub open spec fn chat_count(msgs: Seq<AgentMessage>) -> nat
    decreases msgs.len(),
{
    if msgs.len() == 0 {
        0
    } else {
        chat_count(msgs.drop_last()) + match msgs.last() {
            AgentMessage::User { .. } => 1nat,
            AgentMessage::Assistant { .. } => 1nat,
            _ => 0nat,
        }
    }
}

/// `e` shows message `m` of the conversation `msgs`: the message's role,
/// its flattened text, and its content blocks each with the state of its
/// tool execution.
pub open spec fn shows_message(e: JsonV, m: AgentMessage, msgs: Seq<AgentMessage>) -> bool {
    match m {
        AgentMessage::User { content, .. } => {
            &&& e.get("role"@) == JsonV::Str("user"@)
            &&& e.get("kind"@) == JsonV::Str("message"@)
            &&& e.get("text"@) == JsonV::Str(plain_text(items_view(content@)))
            &&& e.get("content"@) == JsonV::Array(Seq::new(content@.len(), |k: int| with_tool_state(json_view(content@[k]), msgs)))
        },
        AgentMessage::Assistant { content, .. } => {
            &&& e.get("role"@) == JsonV::Str("assistant"@)
            &&& e.get("kind"@) == JsonV::Str("message"@)
            &&& e.get("text"@) == JsonV::Str(plain_text(items_view(content@)))
            &&& e.get("content"@) == JsonV::Array(Seq::new(content@.len(), |k: int| with_tool_state(json_view(content@[k]), msgs)))
        },
        _ => false,
    }
}

proof fn lemma_entry_shows(role: Seq<char>, content: Seq<Json>, ts: i64, msgs: Seq<AgentMessage>, now: Seq<char>)
    ensures
        ({
            let e = transcript_entry(role, content, ts, msgs, now);
            &&& e.get("role"@) == JsonV::Str(role)
            &&& e.get("kind"@) == JsonV::Str("message"@)
            &&& e.get("text"@) == JsonV::Str(plain_text(items_view(content)))
            &&& e.get("content"@) == JsonV::Array(Seq::new(content.len(), |k: int| with_tool_state(json_view(content[k]), msgs)))
        }),
{
    let m = transcript_entry(role, content, ts, msgs, now)->Object_0;
    reveal_strlit("id");
    reveal_strlit("kind");
    reveal_strlit("role");
    reveal_strlit("text");
    reveal_strlit("content");
    assert("id"@ != "kind"@ && "id"@ != "role"@ && "id"@ != "text"@ && "id"@ != "content"@) by {
        assert("id"@.len() == 2 && "kind"@.len() == 4 && "role"@.len() == 4 && "text"@.len() == 4 && "content"@.len() == 7);
    }
    assert("kind"@ != "role"@) by { assert("kind"@[0] != "role"@[0]); }
    assert("kind"@ != "text"@) by { assert("kind"@[0] != "text"@[0]); }
    assert("role"@ != "text"@) by { assert("role"@[0] != "text"@[0]); }
    assert("content"@ != "kind"@ && "content"@ != "role"@ && "content"@ != "text"@) by { assert("content"@.len() == 7); }
    assert(m[0].0 == "id"@ && m[1].0 == "kind"@ && m[2].0 == "role"@ && m[3].0 == "text"@ && m[4].0 == "content"@);
    assert(crate::json::key_at(m, "kind"@, 1));
    crate::json::lemma_first_key(m, "kind"@, 1);
    assert(crate::json::key_at(m, "role"@, 2));
    crate::json::lemma_first_key(m, "role"@, 2);
    assert(crate::json::key_at(m, "text"@, 3));
    crate::json::lemma_first_key(m, "text"@, 3);
    assert(crate::json::key_at(m, "content"@, 4));
    crate::json::lemma_first_key(m, "content"@, 4);
    assert(items_view(content).map_values(|b: JsonV| with_tool_state(b, msgs))
        =~= Seq::new(content.len(), |k: int| with_tool_state(json_view(content[k]), msgs)));
}

proof fn lemma_chat_count_before(msgs: Seq<AgentMessage>, i: int, n: int)
    requires
        0 <= i < n <= msgs.len(),
        msgs[i] is User || msgs[i] is Assistant,
    ensures
        chat_count(msgs.take(i)) < chat_count(msgs.take(n)),
    decreases n - i,
{
    assert(msgs.take(n).drop_last() =~= msgs.take(n - 1));
    assert(msgs.take(n).last() == msgs[n - 1]);
    if n - 1 > i {
        lemma_chat_count_before(msgs, i, n - 1);
    } else {
        assert(msgs.take(n - 1) =~= msgs.take(i));
    }
}

proof fn lemma_prefix_entries(msgs: Seq<AgentMessage>, now: Seq<char>, n: nat)
    requires
        n <= msgs.len(),
    ensures
        transcript_prefix(msgs, n, now).len() == chat_count(msgs.take(n as int)),
        forall|i: int| 0 <= i < n && (msgs[i] is User || msgs[i] is Assistant)
            ==> shows_message(#[trigger] transcript_prefix(msgs, n, now)[chat_count(msgs.take(i)) as int], msgs[i], msgs),
    decreases n,
{
    if n > 0 {
        lemma_prefix_entries(msgs, now, (n - 1) as nat);
        assert(msgs.take(n as int).drop_last() =~= msgs.take(n - 1));
        assert(msgs.take(n as int).last() == msgs[n - 1]);
        let before = transcript_prefix(msgs, (n - 1) as nat, now);
        let after = transcript_prefix(msgs, n, now);
        match msgs[n - 1] {
            AgentMessage::User { content, timestamp } => lemma_entry_shows("user"@, content@, timestamp, msgs, now),
            AgentMessage::Assistant { content, timestamp } => lemma_entry_shows("assistant"@, content@, timestamp, msgs, now),
            _ => {},
        }
        assert forall|i: int| 0 <= i < n && (msgs[i] is User || msgs[i] is Assistant)
            implies shows_message(#[trigger] after[chat_count(msgs.take(i)) as int], msgs[i], msgs) by {
            let c = chat_count(msgs.take(i)) as int;
            if i < n - 1 {
                lemma_chat_count_before(msgs, i, n - 1);
                assert(shows_message(before[c], msgs[i], msgs));
                assert(after[c] == before[c]);
            } else {
                assert(msgs.take(i) =~= msgs.take(n - 1));
                assert(c == before.len());
            }
        }
    }
}

/// The display transcript shows every user and assistant message, in
/// order, and nothing else: it has one entry per such message, and the
/// entry of a message (numbered by the user and assistant messages before
/// it) carries the message's role (`user` or `assistant`), its flattened
/// text and its content blocks, each with the state of its tool execution.
pub proof fn lemma_display_transcript_shows_messages(msgs: Seq<AgentMessage>, now: Seq<char>)
    ensures
        spec_display_transcript(msgs, now).len() == chat_count(msgs),
        forall|i: int| 0 <= i < msgs.len() && (msgs[i] is User || msgs[i] is Assistant)
            ==> #[trigger] chat_count(msgs.take(i)) < chat_count(msgs),
        forall|i: int| 0 <= i < msgs.len() && (msgs[i] is User || msgs[i] is Assistant)
            ==> shows_message(#[trigger] spec_display_transcript(msgs, now)[chat_count(msgs.take(i)) as int], msgs[i], msgs),
{
    lemma_prefix_entries(msgs, now, msgs.len());
    assert(msgs.take(msgs.len() as int) =~= msgs);
    let t = spec_display_transcript(msgs, now);
    assert forall|i: int| 0 <= i < msgs.len() && (msgs[i] is User || msgs[i] is Assistant)
        implies #[trigger] chat_count(msgs.take(i)) < chat_count(msgs) by {
        lemma_chat_count_before(msgs, i, msgs.len() as int);
    }
    assert forall|i: int| 0 <= i < msgs.len() && (msgs[i] is User || msgs[i] is Assistant)
        implies shows_message(#[trigger] t[chat_count(msgs.take(i)) as int], msgs[i], msgs) by {
        assert(shows_message(transcript_prefix(msgs, msgs.len(), now)[chat_count(msgs.take(i)) as int], msgs[i], msgs));
    }
}

fn transcript_entry_exec(role: &str, content: &Vec<Json>, ts: i64, msgs: &Vec<AgentMessage>, now: &str) -> (r: Json)
    ensures
        r@ == transcript_entry(role@, content@, ts, msgs@, now@),
{
    let mut blocks: Vec<Json> = Vec::new();
    let mut i: usize = 0;
    while i < content.len()
        invariant
            i <= content@.len(),
            blocks@.len() == i,
            forall|k: int| 0 <= k < i ==> #[trigger] json_view(blocks@[k]) == with_tool_state(json_view(content@[k]), msgs@),
        decreases content@.len() - i,
    {
        let b = with_tool_state_exec(&content[i], msgs);
        blocks.push(b);
        i = i + 1;
    }
    let ghost bv = blocks@;
    proof {
        lemma_view_array(blocks);
        assert(items_view(blocks@) =~= items_view(content@).map_values(|b: JsonV| with_tool_state(b, msgs@)));
    }
    let mut id = owned("msg-");
    push_dec_i64(&mut id, ts);
    let text = plain_text_of(content);
    let created = created_at_exec(ts, now);
    let r = object6(
        "id", Json::Str(id),
        "kind", jstr("message"),
        "role", jstr(role),
        "text", Json::Str(text),
        "content", Json::Array(blocks),
        "createdAt", Json::Str(created),
    );
    proof {
        assert(json_view(Json::Array(blocks)) == JsonV::Array(items_view(bv)));
    }
    r
}

/// The display transcript at a given time: user and assistant messages with
/// their structured content, tool-call blocks carrying the state of their
/// execution, the flattened text, and a creation time (`now` where the time
/// stamp cannot be rendered).
pub fn display_transcript_at(msgs: &Vec<AgentMessage>, now: &str) -> (r: Vec<Json>)
    ensures
        items_view(r@) == spec_display_transcript(msgs@, now@),
{
    let mut out: Vec<Json> = Vec::new();
    let mut i: usize = 0;
    while i < msgs.len()
        invariant
            i <= msgs@.len(),
            items_view(out@) == transcript_prefix(msgs@, i as nat, now@),
        decreases msgs@.len() - i,
    {
        let ghost before = out@;
        match &msgs[i] {
            AgentMessage::User { content, timestamp } => {
                let e = transcript_entry_exec("user", content, *timestamp, msgs, now);
                out.push(e);
                assert(items_view(out@) =~= items_view(before).push(e@));
            },
            AgentMessage::Assistant { content, timestamp } => {
                let e = transcript_entry_exec("assistant", content, *timestamp, msgs, now);
                out.push(e);
                assert(items_view(out@) =~= items_view(before).push(e@));
            },
            _ => {},
        }
        i = i + 1;
    }
    out
}

/// The display transcript of a conversation, with the current time standing
/// in for time stamps that cannot be rendered.
pub fn build_display_transcript(msgs: &Vec<AgentMessage>) -> (r: Vec<Json>)
    ensures
        exists|now: Seq<char>| crate::clock::is_clock_text(now) && items_view(r@) == spec_display_transcript(msgs@, now),
{
    let now = now_iso();
    display_transcript_at(msgs, now.as_str())
}

/// An agent session event: the core agent events and the session's own.
/// Payload values are kept in their JSON form.
pub enum SessionEvent {
    AgentStart,
    AgentEnd { messages: Json, will_retry: bool },
    TurnStart,
    TurnEnd { message: Json, tool_results: Json },
    MessageStart { message: Json },
    /// The streamed update's own JSON (`null` where it could not be
    /// serialized); it is sent as the payload itself.
    MessageUpdate { assistant_message_event: Json },
    MessageEnd { message: Json },
    ToolExecutionStart { tool_call_id: String, tool_name: String, args: Json },
    ToolExecutionUpdate { tool_call_id: String, tool_name: String, args: Json, partial_result: Json },
    ToolExecutionEnd { tool_call_id: String, tool_name: String, result: Json, is_error: bool },
    AgentSettled,
    QueueUpdate { steering: Json, follow_up: Json },
    CompactionStart { reason: Json },
    EntryAppended { entry: Json },
    SessionInfoChanged { name: Json },
    ModelSelect { model: Json, previous_model: Json, source: Json },
    ThinkingLevelChanged { level: Json },
    CompactionEnd { reason: Json, result: Json, aborted: bool, will_retry: bool, error_message: Json },
    AutoRetryStart { attempt: Json, max_attempts: Json, delay_ms: Json, error_message: Json },
    AutoRetryEnd { success: bool, attempt: Json, final_error: Json },
}

/// The frontend's event type and payload of a session event.
pub open spec fn spec_session_event(e: SessionEvent) -> (Seq<char>, JsonV) {
    match e {
        SessionEvent::AgentStart => ("agent_start"@, JsonV::Object(Seq::empty())),
        SessionEvent::AgentEnd { messages, will_retry } => ("agent_end"@, JsonV::Object(seq![("messages"@, messages@), ("will_retry"@, JsonV::Bool(will_retry))])),
        SessionEvent::TurnStart => ("turn_start"@, JsonV::Object(Seq::empty())),
        SessionEvent::TurnEnd { message, tool_results } => ("turn_end"@, JsonV::Object(seq![("message"@, message@), ("tool_results"@, tool_results@)])),
        SessionEvent::MessageStart { message } => ("message_start"@, JsonV::Object(seq![("message"@, message@)])),
        SessionEvent::MessageUpdate { assistant_message_event } => ("message_update"@, assistant_message_event@),
        SessionEvent::MessageEnd { message } => ("message_end"@, JsonV::Object(seq![("message"@, message@)])),
        SessionEvent::ToolExecutionStart { tool_call_id, tool_name, args } => ("tool_execution_start"@, JsonV::Object(seq![("tool_call_id"@, JsonV::Str(tool_call_id@)), ("tool_name"@, JsonV::Str(tool_name@)), ("args"@, args@)])),
        SessionEvent::ToolExecutionUpdate { tool_call_id, tool_name, args, partial_result } => ("tool_execution_update"@, JsonV::Object(seq![("tool_call_id"@, JsonV::Str(tool_call_id@)), ("tool_name"@, JsonV::Str(tool_name@)), ("args"@, args@), ("partial_result"@, partial_result@)])),
        SessionEvent::ToolExecutionEnd { tool_call_id, tool_name, result, is_error } => ("tool_execution_end"@, JsonV::Object(seq![("tool_call_id"@, JsonV::Str(tool_call_id@)), ("tool_name"@, JsonV::Str(tool_name@)), ("result"@, result@), ("is_error"@, JsonV::Bool(is_error))])),
        SessionEvent::AgentSettled => ("agent_settled"@, JsonV::Object(Seq::empty())),
        SessionEvent::QueueUpdate { steering, follow_up } => ("queue_update"@, JsonV::Object(seq![("steering"@, steering@), ("follow_up"@, follow_up@)])),
        SessionEvent::CompactionStart { reason } => ("compaction_start"@, JsonV::Object(seq![("reason"@, reason@)])),
        SessionEvent::EntryAppended { entry } => ("entry_appended"@, JsonV::Object(seq![("entry"@, entry@)])),
        SessionEvent::SessionInfoChanged { name } => ("session_info_changed"@, JsonV::Object(seq![("name"@, name@)])),
        SessionEvent::ModelSelect { model, previous_model, source } => ("model_select"@, JsonV::Object(seq![("model"@, model@), ("previous_model"@, previous_model@), ("source"@, source@)])),
        SessionEvent::ThinkingLevelChanged { level } => ("thinking_level_changed"@, JsonV::Object(seq![("level"@, level@)])),
        SessionEvent::CompactionEnd { reason, result, aborted, will_retry, error_message } => ("compaction_end"@, JsonV::Object(seq![("reason"@, reason@), ("result"@, result@), ("aborted"@, JsonV::Bool(aborted)), ("will_retry"@, JsonV::Bool(will_retry)), ("error_message"@, error_message@)])),
        SessionEvent::AutoRetryStart { attempt, max_attempts, delay_ms, error_message } => ("auto_retry_start"@, JsonV::Object(seq![("attempt"@, attempt@), ("max_attempts"@, max_attempts@), ("delay_ms"@, delay_ms@), ("error_message"@, error_message@)])),
        SessionEvent::AutoRetryEnd { success, attempt, final_error } => ("auto_retry_end"@, JsonV::Object(seq![("success"@, JsonV::Bool(success)), ("attempt"@, attempt@), ("final_error"@, final_error@)])),
    }
}

/// The event type and payload the frontend receives for a session event.
pub fn serialize_session_event(event: &SessionEvent) -> (r: (String, Json))
    ensures
        (r.0@, r.1@) == spec_session_event(*event),
{
    match event {
        SessionEvent::AgentStart => (owned("agent_start"), empty_object()),
        SessionEvent::AgentEnd { messages, will_retry } => (owned("agent_end"), object2("messages", messages.deep_clone(), "will_retry", Json::Bool(*will_retry))),
        SessionEvent::TurnStart => (owned("turn_start"), empty_object()),
        SessionEvent::TurnEnd { message, tool_results } => (owned("turn_end"), object2("message", message.deep_clone(), "tool_results", tool_results.deep_clone())),
        SessionEvent::MessageStart { message } => (owned("message_start"), object1("message", message.deep_clone())),
        SessionEvent::MessageUpdate { assistant_message_event } => (owned("message_update"), assistant_message_event.deep_clone()),
        SessionEvent::MessageEnd { message } => (owned("message_end"), object1("message", message.deep_clone())),
        SessionEvent::ToolExecutionStart { tool_call_id, tool_name, args } => (owned("tool_execution_start"), object3("tool_call_id", Json::Str(tool_call_id.clone()), "tool_name", Json::Str(tool_name.clone()), "args", args.deep_clone())),
        SessionEvent::ToolExecutionUpdate { tool_call_id, tool_name, args, partial_result } => (owned("tool_execution_update"), object4("tool_call_id", Json::Str(tool_call_id.clone()), "tool_name", Json::Str(tool_name.clone()), "args", args.deep_clone(), "partial_result", partial_result.deep_clone())),
        SessionEvent::ToolExecutionEnd { tool_call_id, tool_name, result, is_error } => (owned("tool_execution_end"), object4("tool_call_id", Json::Str(tool_call_id.clone()), "tool_name", Json::Str(tool_name.clone()), "result", result.deep_clone(), "is_error", Json::Bool(*is_error))),
        SessionEvent::AgentSettled => (owned("agent_settled"), empty_object()),
        SessionEvent::QueueUpdate { steering, follow_up } => (owned("queue_update"), object2("steering", steering.deep_clone(), "follow_up", follow_up.deep_clone())),
        SessionEvent::CompactionStart { reason } => (owned("compaction_start"), object1("reason", reason.deep_clone())),
        SessionEvent::EntryAppended { entry } => (owned("entry_appended"), object1("entry", entry.deep_clone())),
        SessionEvent::SessionInfoChanged { name } => (owned("session_info_changed"), object1("name", name.deep_clone())),
        SessionEvent::ModelSelect { model, previous_model, source } => (owned("model_select"), object3("model", model.deep_clone(), "previous_model", previous_model.deep_clone(), "source", source.deep_clone())),
        SessionEvent::ThinkingLevelChanged { level } => (owned("thinking_level_changed"), object1("level", level.deep_clone())),
        SessionEvent::CompactionEnd { reason, result, aborted, will_retry, error_message } => (owned("compaction_end"), object5("reason", reason.deep_clone(), "result", result.deep_clone(), "aborted", Json::Bool(*aborted), "will_retry", Json::Bool(*will_retry), "error_message", error_message.deep_clone())),
        SessionEvent::AutoRetryStart { attempt, max_attempts, delay_ms, error_message } => (owned("auto_retry_start"), object4("attempt", attempt.deep_clone(), "max_attempts", max_attempts.deep_clone(), "delay_ms", delay_ms.deep_clone(), "error_message", error_message.deep_clone())),
        SessionEvent::AutoRetryEnd { success, attempt, final_error } => (owned("auto_retry_end"), object3("success", Json::Bool(*success), "attempt", attempt.deep_clone(), "final_error", final_error.deep_clone())),
    }
}

/// The session status an event type sets: `running` when a run or turn
/// starts, `idle` when one ends, none for every other event.
pub open spec fn spec_event_status(et: Seq<char>) -> Option<Seq<char>> {
    if et == "agent_start"@ || et == "turn_start"@ {
        Some("running"@)
    } else if et == "agent_end"@ || et == "turn_end"@ {
        Some("idle"@)
    } else {
        None
    }
}

/// The session status an event type sets, if any.
pub fn event_status(et: &str) -> (r: Option<&'static str>)
    ensures
        match r {
            Some(s) => spec_event_status(et@) == Some(s@),
            None => spec_event_status(et@) is None,
        },
{
    if str_eq(et, "agent_start") || str_eq(et, "turn_start") {
        Some("running")
    } else if str_eq(et, "agent_end") || str_eq(et, "turn_end") {
        Some("idle")
    } else {
        None
    }
}

/// The state after session `sid` saw an event of type `et`: its status
/// follows the event and the revision counts the change; other events leave
/// the state as it is.
pub open spec fn spec_apply_event(s: DesktopStateV, sid: Seq<char>, et: Seq<char>) -> DesktopStateV {
    match spec_event_status(et) {
        Some(st) => DesktopStateV { revision: (s.revision + 1) as u64, ..spec_set_status(s, sid, st) },
        None => s,
    }
}

/// Apply the status change an event of type `et` makes to session `sid`.
pub fn apply_event_status(state: &mut DesktopState, sid: &str, et: &str)
    requires
        old(state).revision < u64::MAX,
    ensures
        final(state)@ == spec_apply_event(old(state)@, sid@, et@),
{
    match event_status(et) {
        Some(st) => {
            set_sess_status(state, sid, st);
            state.revision = state.revision + 1;
        },
        None => {},
    }
}

/// Every session event moves its session to `running` exactly when it starts
/// a run or a turn, and to `idle` exactly when it ends one.
pub proof fn lemma_event_status(e: SessionEvent)
    ensures
        spec_event_status(spec_session_event(e).0) == Some("running"@) <==> (e is AgentStart || e is TurnStart),
        spec_event_status(spec_session_event(e).0) == Some("idle"@) <==> (e is AgentEnd || e is TurnEnd),
        spec_event_status(spec_session_event(e).0) is None <==> !(e is AgentStart || e is TurnStart || e is AgentEnd || e is TurnEnd),
{
    reveal_strlit("agent_start");
    reveal_strlit("agent_end");
    reveal_strlit("turn_start");
    reveal_strlit("turn_end");
    reveal_strlit("message_start");
    reveal_strlit("message_update");
    reveal_strlit("message_end");
    reveal_strlit("tool_execution_start");
    reveal_strlit("tool_execution_update");
    reveal_strlit("tool_execution_end");
    reveal_strlit("agent_settled");
    reveal_strlit("queue_update");
    reveal_strlit("compaction_start");
    reveal_strlit("entry_appended");
    reveal_strlit("session_info_changed");
    reveal_strlit("model_select");
    reveal_strlit("thinking_level_changed");
    reveal_strlit("compaction_end");
    reveal_strlit("auto_retry_start");
    reveal_strlit("auto_retry_end");
    match e {
        SessionEvent::AgentStart { .. } => {
            assert("agent_start"@.len() != "turn_start"@.len());
            assert("agent_start"@.len() != "agent_end"@.len());
            assert("agent_start"@.len() != "turn_end"@.len());
        },
        SessionEvent::AgentEnd { .. } => {
            assert("agent_end"@.len() != "agent_start"@.len());
            assert("agent_end"@.len() != "turn_start"@.len());
            assert("agent_end"@.len() != "turn_end"@.len());
        },
        SessionEvent::TurnStart { .. } => {
            assert("turn_start"@.len() != "agent_start"@.len());
            assert("turn_start"@.len() != "agent_end"@.len());
            assert("turn_start"@.len() != "turn_end"@.len());
        },
        SessionEvent::TurnEnd { .. } => {
            assert("turn_end"@.len() != "agent_start"@.len());
            assert("turn_end"@.len() != "turn_start"@.len());
            assert("turn_end"@.len() != "agent_end"@.len());
        },
        SessionEvent::MessageStart { .. } => {
            assert("message_start"@.len() != "agent_start"@.len());
            assert("message_start"@.len() != "turn_start"@.len());
            assert("message_start"@.len() != "agent_end"@.len());
            assert("message_start"@.len() != "turn_end"@.len());
        },
        SessionEvent::MessageUpdate { .. } => {
            assert("message_update"@.len() != "agent_start"@.len());
            assert("message_update"@.len() != "turn_start"@.len());
            assert("message_update"@.len() != "agent_end"@.len());
            assert("message_update"@.len() != "turn_end"@.len());
        },
        SessionEvent::MessageEnd { .. } => {
            assert("message_end"@[0] != "agent_start"@[0]);
            assert("message_end"@.len() != "turn_start"@.len());
            assert("message_end"@.len() != "agent_end"@.len());
            assert("message_end"@.len() != "turn_end"@.len());
        },
        SessionEvent::ToolExecutionStart { .. } => {
            assert("tool_execution_start"@.len() != "agent_start"@.len());
            assert("tool_execution_start"@.len() != "turn_start"@.len());
            assert("tool_execution_start"@.len() != "agent_end"@.len());
            assert("tool_execution_start"@.len() != "turn_end"@.len());
        },
        SessionEvent::ToolExecutionUpdate { .. } => {
            assert("tool_execution_update"@.len() != "agent_start"@.len());
            assert("tool_execution_update"@.len() != "turn_start"@.len());
            assert("tool_execution_update"@.len() != "agent_end"@.len());
            assert("tool_execution_update"@.len() != "turn_end"@.len());
        },
        SessionEvent::ToolExecutionEnd { .. } => {
            assert("tool_execution_end"@.len() != "agent_start"@.len());
            assert("tool_execution_end"@.len() != "turn_start"@.len());
            assert("tool_execution_end"@.len() != "agent_end"@.len());
            assert("tool_execution_end"@.len() != "turn_end"@.len());
        },
        SessionEvent::AgentSettled { .. } => {
            assert("agent_settled"@.len() != "agent_start"@.len());
            assert("agent_settled"@.len() != "turn_start"@.len());
            assert("agent_settled"@.len() != "agent_end"@.len());
            assert("agent_settled"@.len() != "turn_end"@.len());
        },
        SessionEvent::QueueUpdate { .. } => {
            assert("queue_update"@.len() != "agent_start"@.len());
            assert("queue_update"@.len() != "turn_start"@.len());
            assert("queue_update"@.len() != "agent_end"@.len());
            assert("queue_update"@.len() != "turn_end"@.len());
        },
        SessionEvent::CompactionStart { .. } => {
            assert("compaction_start"@.len() != "agent_start"@.len());
            assert("compaction_start"@.len() != "turn_start"@.len());
            assert("compaction_start"@.len() != "agent_end"@.len());
            assert("compaction_start"@.len() != "turn_end"@.len());
        },
        SessionEvent::EntryAppended { .. } => {
            assert("entry_appended"@.len() != "agent_start"@.len());
            assert("entry_appended"@.len() != "turn_start"@.len());
            assert("entry_appended"@.len() != "agent_end"@.len());
            assert("entry_appended"@.len() != "turn_end"@.len());
        },
        SessionEvent::SessionInfoChanged { .. } => {
            assert("session_info_changed"@.len() != "agent_start"@.len());
            assert("session_info_changed"@.len() != "turn_start"@.len());
            assert("session_info_changed"@.len() != "agent_end"@.len());
            assert("session_info_changed"@.len() != "turn_end"@.len());
        },
        SessionEvent::ModelSelect { .. } => {
            assert("model_select"@.len() != "agent_start"@.len());
            assert("model_select"@.len() != "turn_start"@.len());
            assert("model_select"@.len() != "agent_end"@.len());
            assert("model_select"@.len() != "turn_end"@.len());
        },
        SessionEvent::ThinkingLevelChanged { .. } => {
            assert("thinking_level_changed"@.len() != "agent_start"@.len());
            assert("thinking_level_changed"@.len() != "turn_start"@.len());
            assert("thinking_level_changed"@.len() != "agent_end"@.len());
            assert("thinking_level_changed"@.len() != "turn_end"@.len());
        },
        SessionEvent::CompactionEnd { .. } => {
            assert("compaction_end"@.len() != "agent_start"@.len());
            assert("compaction_end"@.len() != "turn_start"@.len());
            assert("compaction_end"@.len() != "agent_end"@.len());
            assert("compaction_end"@.len() != "turn_end"@.len());
        },
        SessionEvent::AutoRetryStart { .. } => {
            assert("auto_retry_start"@.len() != "agent_start"@.len());
            assert("auto_retry_start"@.len() != "turn_start"@.len());
            assert("auto_retry_start"@.len() != "agent_end"@.len());
            assert("auto_retry_start"@.len() != "turn_end"@.len());
        },
        SessionEvent::AutoRetryEnd { .. } => {
            assert("auto_retry_end"@.len() != "agent_start"@.len());
            assert("auto_retry_end"@.len() != "turn_start"@.len());
            assert("auto_retry_end"@.len() != "agent_end"@.len());
            assert("auto_retry_end"@.len() != "turn_end"@.len());
        },
    }
    reveal_strlit("running");
    reveal_strlit("idle");
    assert("running"@ != "idle"@) by {
        assert("running"@[0] != "idle"@[0]);
    }
}

/// A core agent event (without the session's own events). Payload values
/// are kept in their JSON form.
pub enum AgentEvent {
    AgentStart,
    AgentEnd { messages: Json },
    TurnStart,
    TurnEnd { message: Json, tool_results: Json },
    MessageStart { message: Json },
    /// The streamed update's own JSON (`null` where it could not be
    /// serialized); it is sent as the payload itself.
    MessageUpdate { assistant_message_event: Json },
    MessageEnd { message: Json },
    ToolExecutionStart { tool_call_id: String, tool_name: String, args: Json },
    ToolExecutionUpdate { tool_call_id: String, tool_name: String, args: Json, partial_result: Json },
    ToolExecutionEnd { tool_call_id: String, tool_name: String, result: Json, is_error: bool },
}

/// The frontend's event type and payload of a core agent event.
pub open spec fn spec_agent_event(e: AgentEvent) -> (Seq<char>, JsonV) {
    match e {
        AgentEvent::AgentStart => ("agent_start"@, JsonV::Object(Seq::empty())),
        AgentEvent::AgentEnd { messages } => ("agent_end"@, JsonV::Object(seq![("messages"@, messages@)])),
        AgentEvent::TurnStart => ("turn_start"@, JsonV::Object(Seq::empty())),
        AgentEvent::TurnEnd { message, tool_results } => ("turn_end"@, JsonV::Object(seq![("message"@, message@), ("tool_results"@, tool_results@)])),
        AgentEvent::MessageStart { message } => ("message_start"@, JsonV::Object(seq![("message"@, message@)])),
        AgentEvent::MessageUpdate { assistant_message_event } => ("message_update"@, assistant_message_event@),
        AgentEvent::MessageEnd { message } => ("message_end"@, JsonV::Object(seq![("message"@, message@)])),
        AgentEvent::ToolExecutionStart { tool_call_id, tool_name, args } => ("tool_execution_start"@, JsonV::Object(seq![("tool_call_id"@, JsonV::Str(tool_call_id@)), ("tool_name"@, JsonV::Str(tool_name@)), ("args"@, args@)])),
        AgentEvent::ToolExecutionUpdate { tool_call_id, tool_name, args, partial_result } => ("tool_execution_update"@, JsonV::Object(seq![("tool_call_id"@, JsonV::Str(tool_call_id@)), ("tool_name"@, JsonV::Str(tool_name@)), ("args"@, args@), ("partial_result"@, partial_result@)])),
        AgentEvent::ToolExecutionEnd { tool_call_id, tool_name, result, is_error } => ("tool_execution_end"@, JsonV::Object(seq![("tool_call_id"@, JsonV::Str(tool_call_id@)), ("tool_name"@, JsonV::Str(tool_name@)), ("result"@, result@), ("is_error"@, JsonV::Bool(is_error))])),
    }
}

/// The event type and payload the frontend receives for a core agent event.
pub fn serialize_event(event: &AgentEvent) -> (r: (String, Json))
    ensures
        (r.0@, r.1@) == spec_agent_event(*event),
{
    match event {
        AgentEvent::AgentStart => (owned("agent_start"), empty_object()),
        AgentEvent::AgentEnd { messages } => (owned("agent_end"), object1("messages", messages.deep_clone())),
        AgentEvent::TurnStart => (owned("turn_start"), empty_object()),
        AgentEvent::TurnEnd { message, tool_results } => (owned("turn_end"), object2("message", message.deep_clone(), "tool_results", tool_results.deep_clone())),
        AgentEvent::MessageStart { message } => (owned("message_start"), object1("message", message.deep_clone())),
        AgentEvent::MessageUpdate { assistant_message_event } => (owned("message_update"), assistant_message_event.deep_clone()),
        AgentEvent::MessageEnd { message } => (owned("message_end"), object1("message", message.deep_clone())),
        AgentEvent::ToolExecutionStart { tool_call_id, tool_name, args } => (owned("tool_execution_start"), object3("tool_call_id", Json::Str(tool_call_id.clone()), "tool_name", Json::Str(tool_name.clone()), "args", args.deep_clone())),
        AgentEvent::ToolExecutionUpdate { tool_call_id, tool_name, args, partial_result } => (owned("tool_execution_update"), object4("tool_call_id", Json::Str(tool_call_id.clone()), "tool_name", Json::Str(tool_name.clone()), "args", args.deep_clone(), "partial_result", partial_result.deep_clone())),
        AgentEvent::ToolExecutionEnd { tool_call_id, tool_name, result, is_error } => (owned("tool_execution_end"), object4("tool_call_id", Json::Str(tool_call_id.clone()), "tool_name", Json::Str(tool_name.clone()), "result", result.deep_clone(), "is_error", Json::Bool(*is_error))),
    }
}

/// An event as the frontend receives it: its type, the session it belongs
/// to, and its payload.
pub struct FrontendEvent {
    pub event_type: String,
    pub session_id: String,
    pub data: Json,
}

/// The frontend event for a session event of session `sid`.
pub fn frontend_event(event: &SessionEvent, sid: &str) -> (r: FrontendEvent)
    ensures
        (r.event_type@, r.data@) == spec_session_event(*event),
        r.session_id@ == sid@,
{
    let (et, data) = serialize_session_event(event);
    FrontendEvent { event_type: et, session_id: owned(sid), data: data }
}

/// The payload announcing a session's new transcript; none for an empty
/// transcript, which is not announced.
pub open spec fn spec_transcript_payload(sid: Seq<char>, transcript: Seq<JsonV>) -> Option<JsonV> {
    if transcript.len() == 0 {
        None
    } else {
        Some(JsonV::Object(seq![("sessionId"@, JsonV::Str(sid)), ("transcript"@, JsonV::Array(transcript))]))
    }
}

/// The payload announcing a session's new transcript, when it has entries.
pub fn transcript_payload(sid: &str, transcript: Vec<Json>) -> (r: Option<Json>)
    ensures
        match r {
            Some(j) => spec_transcript_payload(sid@, items_view(transcript@)) == Some(j@),
            None => spec_transcript_payload(sid@, items_view(transcript@)) is None,
        },
{
    if transcript.len() == 0 {
        return None;
    }
    proof { lemma_view_array(transcript); }
    Some(object2("sessionId", jstr(sid), "transcript", Json::Array(transcript)))
}

} // verus!
