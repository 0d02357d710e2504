//! The session tree snapshot built from a conversation's messages: one root
//! per message with its role, time stamp and a short preview.
use vstd::prelude::*;
use crate::text::{owned, concat2, push_dec, push_dec_i64, dec_nat, dec_int, utf8_len, utf8_longer_than, push_char};
use crate::json::{Json, JsonV, json_view, items_view, lemma_view_array, lemma_items_push, jstr, empty_array, object4, object6};
use crate::transcript::{AgentMessage, plain_text, plain_text_of};
use crate::history::{take_chars};

verus! {

/// The role a message is shown with.
pub open spec fn tree_role(m: AgentMessage) -> Seq<char> {
    match m {
        AgentMessage::User { .. } => "user"@,
        AgentMessage::Assistant { .. } => "assistant"@,
        _ => "system"@,
    }
}

/// The text of a message: its text blocks (none for other messages).
pub open spec fn tree_text(m: AgentMessage) -> Seq<char> {
    match m {
        AgentMessage::User { content, .. } => plain_text(items_view(content@)),
        AgentMessage::Assistant { content, .. } => plain_text(items_view(content@)),
        _ => Seq::empty(),
    }
}

/// The time stamp a message is shown with (0 for other messages).
pub open spec fn tree_timestamp(m: AgentMessage) -> i64 {
    match m {
        AgentMessage::User { timestamp, .. } => timestamp,
        AgentMessage::Assistant { timestamp, .. } => timestamp,
        _ => 0,
    }
}

/// A preview: texts over 80 bytes are cut to their first 80 characters and
/// marked with `…`.
pub open spec fn spec_preview(text: Seq<char>) -> Seq<char> {
    if utf8_len(text) > 80 { take_chars(text, 80).push('…') } else { text }
}

/// The root node of the `i`-th message.
pub open spec fn root_json(i: nat, m: AgentMessage) -> JsonV {
    JsonV::Object(seq![
        ("id"@, JsonV::Str("msg-"@ + dec_nat(i))),
        ("kind"@, JsonV::Str("message"@)),
        ("role"@, JsonV::Str(tree_role(m))),
        ("title"@, JsonV::Str(tree_role(m) + " at "@ + dec_int(tree_timestamp(m) as int))),
        ("preview"@, JsonV::Str(spec_preview(tree_text(m)))),
        ("children"@, JsonV::Array(Seq::empty())),
    ])
}

/// The session tree snapshot of a conversation.
pub open spec fn spec_session_tree(session_id: Seq<char>, msgs: Seq<AgentMessage>) -> JsonV {
    JsonV::Object(seq![
        ("id"@, JsonV::Str(session_id)),
        ("label"@, JsonV::Str("root"@)),
        ("roots"@, JsonV::Array(Seq::new(msgs.len(), |i: int| root_json(i as nat, msgs[i])))),
        ("leafId"@, JsonV::Str(dec_nat(msgs.len()))),
    ])
}

/// Each message has one root, in order, shown with the role of its message:
/// a user message as `user`, an assistant reply as `assistant`, anything
/// else as `system`; its id is `msg-` and its position, its title starts
/// with that role followed by ` at `, and a short text (80 bytes or fewer)
/// is its own preview.
pub proof fn lemma_tree_roots(session_id: Seq<char>, msgs: Seq<AgentMessage>, k: int)
    requires
        0 <= k < msgs.len(),
    ensures
        ({
            let t = spec_session_tree(session_id, msgs);
            let roots = t.get("roots"@);
            &&& roots is Array
            &&& roots->Array_0.len() == msgs.len()
            &&& t.get("id"@) == JsonV::Str(session_id)
            &&& t.get("leafId"@) == JsonV::Str(dec_nat(msgs.len()))
            &&& {
                let r = roots->Array_0[k];
                let role = if msgs[k] is User { "user"@ } else if msgs[k] is Assistant { "assistant"@ } else { "system"@ };
                &&& r.get("role"@) == JsonV::Str(role)
                &&& r.get("id"@) == JsonV::Str("msg-"@ + dec_nat(k as nat))
                &&& r.get("title"@) matches JsonV::Str(title) && title.take((role.len() + 4) as int) == role + " at "@
                &&& r.get("title"@) == JsonV::Str(role + " at "@ + dec_int(match msgs[k] {
                    AgentMessage::User { timestamp, .. } => timestamp as int,
                    AgentMessage::Assistant { timestamp, .. } => timestamp as int,
                    _ => 0,
                }))
                &&& r.get("kind"@) == JsonV::Str("message"@)
                &&& r.get("children"@) == JsonV::Array(Seq::empty())
                &&& {
                    let text = match msgs[k] {
                        AgentMessage::User { content, .. } => plain_text(items_view(content@)),
                        AgentMessage::Assistant { content, .. } => plain_text(items_view(content@)),
                        _ => Seq::empty(),
                    };
                    &&& utf8_len(text) <= 80 ==> r.get("preview"@) == JsonV::Str(text)
                    &&& utf8_len(text) > 80 ==> r.get("preview"@)
                        == JsonV::Str((if text.len() <= 80 { text } else { text.take(80) }).push('…'))
                }
            }
        }),
{
    let t = spec_session_tree(session_id, msgs);
    let tm = t->Object_0;
    reveal_strlit("id");
    reveal_strlit("label");
    reveal_strlit("roots");
    reveal_strlit("kind");
    reveal_strlit("role");
    reveal_strlit("title");
    reveal_strlit("preview");
    reveal_strlit(" at ");
    assert("id"@ != "roots"@) by { assert("id"@.len() != "roots"@.len()); }
    assert("label"@ != "roots"@) by { assert("label"@[0] != "roots"@[0]); }
    assert(tm[0].0 == "id"@ && tm[1].0 == "label"@);
    assert(crate::json::key_at(tm, "roots"@, 2));
    crate::json::lemma_first_key(tm, "roots"@, 2);
    reveal_strlit("leafId");
    assert("leafId"@ != "id"@ && "leafId"@ != "label"@ && "leafId"@ != "roots"@) by {
        assert("leafId"@.len() == 6 && "id"@.len() == 2 && "label"@.len() == 5 && "roots"@.len() == 5);
    }
    assert(crate::json::key_at(tm, "id"@, 0));
    crate::json::lemma_first_key(tm, "id"@, 0);
    assert(tm[2].0 == "roots"@);
    assert(crate::json::key_at(tm, "leafId"@, 3));
    crate::json::lemma_first_key(tm, "leafId"@, 3);
    let r = root_json(k as nat, msgs[k]);
    let rm = r->Object_0;
    assert("id"@ != "kind"@ && "id"@ != "role"@ && "id"@ != "title"@) by {
        assert("id"@.len() == 2 && "kind"@.len() == 4 && "role"@.len() == 4 && "title"@.len() == 5);
    }
    assert("kind"@ != "role"@) by { assert("kind"@[0] != "role"@[0]); }
    assert("kind"@ != "title"@ && "role"@ != "title"@) by { assert("kind"@.len() != "title"@.len()); }
    assert("preview"@ != "id"@ && "preview"@ != "kind"@ && "preview"@ != "role"@ && "preview"@ != "title"@) by {
        assert("preview"@.len() == 7);
    }
    assert(rm[0].0 == "id"@ && rm[1].0 == "kind"@ && rm[2].0 == "role"@ && rm[3].0 == "title"@);
    assert(crate::json::key_at(rm, "id"@, 0));
    crate::json::lemma_first_key(rm, "id"@, 0);
    assert(crate::json::key_at(rm, "kind"@, 1));
    crate::json::lemma_first_key(rm, "kind"@, 1);
    reveal_strlit("children");
    assert("children"@ != "id"@ && "children"@ != "kind"@ && "children"@ != "role"@ && "children"@ != "title"@ && "children"@ != "preview"@) by {
        assert("children"@.len() == 8);
    }
    assert(rm[4].0 == "preview"@);
    assert(crate::json::key_at(rm, "children"@, 5));
    crate::json::lemma_first_key(rm, "children"@, 5);
    assert(crate::json::key_at(rm, "role"@, 2));
    crate::json::lemma_first_key(rm, "role"@, 2);
    assert(crate::json::key_at(rm, "title"@, 3));
    crate::json::lemma_first_key(rm, "title"@, 3);
    assert(crate::json::key_at(rm, "preview"@, 4));
    crate::json::lemma_first_key(rm, "preview"@, 4);
    let role = tree_role(msgs[k]);
    let title = role + " at "@ + dec_int(tree_timestamp(msgs[k]) as int);
    assert(title.take((role.len() + 4) as int) =~= role + " at "@);
}

fn root_json_exec(i: usize, m: &AgentMessage) -> (r: Json)
    ensures
        r@ == root_json(i as nat, *m),
{
    let (role, text, ts) = match m {
        AgentMessage::User { content, timestamp } => ("user", plain_text_of(content), *timestamp),
        AgentMessage::Assistant { content, timestamp } => ("assistant", plain_text_of(content), *timestamp),
        _ => ("system", String::new(), 0i64),
    };
    let preview = if utf8_longer_than(text.as_str(), 80) {
        let n = text.as_str().unicode_len();
        let mut p = if n <= 80 { owned(text.as_str()) } else { owned(text.as_str().substring_char(0, 80)) };
        push_char(&mut p, '…');
        p
    } else {
        text
    };
    let mut id = owned("msg-");
    push_dec(&mut id, i as u64);
    let mut title = concat2(role, " at ");
    push_dec_i64(&mut title, ts);
    object6(
        "id", Json::Str(id),
        "kind", jstr("message"),
        "role", jstr(role),
        "title", Json::Str(title),
        "preview", Json::Str(preview),
        "children", empty_array(),
    )
}

/// The session tree snapshot of a conversation.
pub fn build_session_tree(session_id: &str, msgs: &Vec<AgentMessage>) -> (r: Json)
    ensures
        r@ == spec_session_tree(session_id@, msgs@),
{
    let mut roots: Vec<Json> = Vec::new();
    let mut i: usize = 0;
    while i < msgs.len()
        invariant
            i <= msgs@.len(),
            items_view(roots@) == Seq::new(i as nat, |k: int| root_json(k as nat, msgs@[k])),
        decreases msgs@.len() - i,
    {
        let j = root_json_exec(i, &msgs[i]);
        let ghost before = roots@;
        roots.push(j);
        proof { lemma_items_push(before, j); }
        assert(items_view(roots@) =~= Seq::new((i + 1) as nat, |k: int| root_json(k as nat, msgs@[k])));
        i = i + 1;
    }
    let mut leaf = String::new();
    push_dec(&mut leaf, msgs.len() as u64);
    assert(leaf@ =~= dec_nat(msgs@.len()));
    proof { lemma_view_array(roots); }
    object4("id", jstr(session_id), "label", jstr("root"), "roots", Json::Array(roots), "leafId", Json::Str(leaf))
}

} // verus!
