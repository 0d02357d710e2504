//! Session tree (timeline) display: entry labels and the JSON forest the
//! frontend renders.
use vstd::prelude::*;
use vstd::string::*;
use crate::text::{owned, concat2, concat3, trim, spec_trim, str_eq, trim_start_ws, trim_end_ws, is_white_space};
use crate::json::{Json, JsonV, json_view, items_view, members_view, lemma_view_object, lemma_view_array};

verus! {

/// A label cut to `max` characters (after trimming), with `…` when cut.
pub open spec fn spec_truncate(s: Seq<char>, max: nat) -> Seq<char> {
    let t = spec_trim(s);
    if t.len() <= max { t } else { t.take(max as int).push('…') }
}

proof fn lemma_trim_start_ws(s: Seq<char>)
    ensures
        trim_start_ws(s).len() == 0 || !is_white_space(trim_start_ws(s)[0]),
    decreases s.len(),
{
    if s.len() > 0 && is_white_space(s[0]) {
        lemma_trim_start_ws(s.drop_first());
    }
}

proof fn lemma_trim_end_ws(x: Seq<char>) -> (k: int)
    ensures
        0 <= k <= x.len(),
        trim_end_ws(x) == x.take(k),
        k == 0 || !is_white_space(x[k - 1]),
    decreases x.len(),
{
    if x.len() > 0 && is_white_space(x.last()) {
        let k = lemma_trim_end_ws(x.drop_last());
        assert(x.drop_last().take(k) =~= x.take(k));
        k
    } else {
        assert(x.take(x.len() as int) =~= x);
        x.len() as int
    }
}

/// A trimmed text has no white space at either end.
proof fn lemma_trim_ends(s: Seq<char>)
    ensures
        spec_trim(s).len() == 0 || (!is_white_space(spec_trim(s)[0]) && !is_white_space(spec_trim(s).last())),
{
    lemma_trim_start_ws(s);
    let k = lemma_trim_end_ws(trim_start_ws(s));
}

/// A text with no white space at either end is its own trim.
proof fn lemma_trim_fixed(x: Seq<char>)
    requires
        x.len() == 0 || (!is_white_space(x[0]) && !is_white_space(x.last())),
    ensures
        spec_trim(x) == x,
{
    assert(trim_start_ws(x) == x);
}

/// Cutting a label twice cuts it once: the result never exceeds `max`
/// characters and the mark, and cutting it again gives it back.
pub proof fn lemma_truncate_idempotent(s: Seq<char>, max: nat)
    ensures
        spec_truncate(spec_truncate(s, max), max) == spec_truncate(s, max),
        spec_truncate(s, max).len() <= max + 1,
{
    let y = spec_trim(s);
    lemma_trim_ends(s);
    if y.len() <= max {
        lemma_trim_fixed(y);
    } else {
        let z = y.take(max as int).push('…');
        assert('…' as u32 == 0x2026u32);
        assert(!is_white_space('…'));
        assert(z.last() == '…');
        if max > 0 {
            assert(z[0] == y[0]);
        }
        lemma_trim_fixed(z);
        assert(z.take(max as int) =~= y.take(max as int));
    }
}

/// Cut a label to `max` characters (after trimming), marking a cut with `…`.
pub fn truncate(s: &str, max: usize) -> (r: String)
    ensures
        r@ == spec_truncate(s@, max as nat),
{
    let t = trim(s);
    let n = t.as_str().unicode_len();
    if n <= max {
        return t;
    }
    let cut = t.as_str().substring_char(0, max);
    let mut out = owned(cut);
    crate::text::push_char(&mut out, '…');
    assert(out@ =~= t@.take(max as int).push('…'));
    out
}

/// The text of a message's content blocks: text blocks as they are, tool
/// calls as `[tool: name] `.
pub open spec fn block_text(b: JsonV) -> Seq<char> {
    match b.get("type"@) {
        JsonV::Str(t) => if t == "text"@ {
            match b.get("text"@) {
                JsonV::Str(x) => x,
                _ => Seq::empty(),
            }
        } else if t == "toolCall"@ {
            let name = match b.get("name"@) {
                JsonV::Str(n) => n,
                _ => "tool"@,
            };
            "[tool: "@ + name + "] "@
        } else {
            Seq::empty()
        },
        _ => Seq::empty(),
    }
}

/// The concatenated texts of a list of blocks.
pub open spec fn blocks_text(bs: Seq<JsonV>) -> Seq<char>
    decreases bs.len(),
{
    if bs.len() == 0 { Seq::empty() } else { blocks_text(bs.drop_last()) + block_text(bs.last()) }
}

/// The text of a session message.
pub open spec fn message_text(message: JsonV) -> Seq<char> {
    match message.get("content"@) {
        JsonV::Array(bs) => blocks_text(bs),
        _ => Seq::empty(),
    }
}

/// The role of a session message, when it has one.
pub open spec fn message_role(message: JsonV) -> Option<Seq<char>> {
    message.get("role"@).as_str()
}

/// The label of a session message: `User: `/`AI: ` and the text cut to 80.
pub open spec fn spec_message_label(message: JsonV) -> Seq<char> {
    let t = spec_truncate(message_text(message), 80);
    match message_role(message) {
        Some(r) => if r == "user"@ { "User: "@ + t } else if r == "assistant"@ { "AI: "@ + t } else { t },
        None => t,
    }
}

fn block_text_exec(b: &Json) -> (r: String)
    ensures
        r@ == block_text(b@),
{
    match b.str_field("type") {
        Some(t) => {
            if str_eq(t.as_str(), "text") {
                match b.str_field("text") {
                    Some(x) => x.clone(),
                    None => String::new(),
                }
            } else if str_eq(t.as_str(), "toolCall") {
                let name = match b.str_field("name") {
                    Some(n) => n.clone(),
                    None => owned("tool"),
                };
                concat3("[tool: ", name.as_str(), "] ")
            } else {
                String::new()
            }
        },
        None => String::new(),
    }
}

fn message_text_exec(message: &Json) -> (r: String)
    ensures
        r@ == message_text(message@),
{
    let mut text = String::new();
    match message.get("content") {
        Some(Json::Array(bs)) => {
            proof { lemma_view_array(*bs); }
            let ghost bv = items_view(bs@);
            let mut i: usize = 0;
            assert(bv.take(0) =~= Seq::<JsonV>::empty());
            while i < bs.len()
                invariant
                    i <= bs@.len(),
                    bv == items_view(bs@),
                    text@ == blocks_text(bv.take(i as int)),
                decreases bs@.len() - i,
            {
                let t = block_text_exec(&bs[i]);
                text.append(t.as_str());
                proof {
                    assert(bv.take(i as int + 1).drop_last() =~= bv.take(i as int));
                }
                i = i + 1;
            }
            assert(bv.take(i as int) =~= bv);
        },
        _ => {},
    }
    text
}

/// Role and display label of a session message.
pub fn message_info(message: &Json) -> (r: (Option<String>, String))
    ensures
        match r.0 {
            Some(s) => message_role(message@) == Some(s@),
            None => message_role(message@) is None,
        },
        r.1@ == spec_message_label(message@),
{
    let role = match message.str_field("role") {
        Some(r) => Some(r.clone()),
        None => None,
    };
    let text = message_text_exec(message);
    let t = truncate(text.as_str(), 80);
    let label = match &role {
        Some(r) => if str_eq(r.as_str(), "user") {
            concat2("User: ", t.as_str())
        } else if str_eq(r.as_str(), "assistant") {
            concat2("AI: ", t.as_str())
        } else {
            t
        },
        None => t,
    };
    (role, label)
}

/// A session history entry, as far as the timeline reads it.
pub enum EntryKind {
    Message { message: Json },
    ThinkingLevelChange { thinking_level: String },
    ModelChange { provider: String, model_id: String },
    Compaction { summary: String },
    BranchSummary { summary: String },
    Custom { custom_type: String },
    CustomMessage { custom_type: String, content: Json },
    Label { label: Option<String> },
    SessionInfo { name: Option<String> },
}

/// Kind name and label of a history entry.
pub open spec fn spec_entry_info(e: EntryKind) -> (Seq<char>, Seq<char>) {
    match e {
        EntryKind::Message { message } => ("message"@, spec_message_label(json_view(message))),
        EntryKind::ThinkingLevelChange { thinking_level } => ("thinking_level_change"@, "Thinking: "@ + thinking_level@),
        EntryKind::ModelChange { provider, model_id } => ("model_change"@, "Model: "@ + provider@ + "/"@ + model_id@),
        EntryKind::Compaction { summary } => ("compaction"@, "Compaction: "@ + spec_truncate(summary@, 80)),
        EntryKind::BranchSummary { summary } => ("branch_summary"@, "Branch: "@ + spec_truncate(summary@, 80)),
        EntryKind::Custom { custom_type } => ("custom"@, "Event: "@ + custom_type@),
        EntryKind::CustomMessage { custom_type, content } => ("custom_message"@, match json_view(content) {
            JsonV::Str(s) => spec_truncate(s, 80),
            _ => "Event: "@ + custom_type@,
        }),
        EntryKind::Label { label } => ("label"@, match label {
            Some(l) => l@,
            None => "Label"@,
        }),
        EntryKind::SessionInfo { name } => ("session_info"@, "Session: "@ + match name {
            Some(n) => n@,
            None => Seq::empty(),
        }),
    }
}

/// Kind name and display label of a history entry.
pub fn entry_info(entry: &EntryKind) -> (r: (String, String))
    ensures
        (r.0@, r.1@) == spec_entry_info(*entry),
{
    match entry {
        EntryKind::Message { message } => {
            let (_role, label) = message_info(message);
            (owned("message"), label)
        },
        EntryKind::ThinkingLevelChange { thinking_level } => (owned("thinking_level_change"), concat2("Thinking: ", thinking_level.as_str())),
        EntryKind::ModelChange { provider, model_id } => {
            let mut l = concat3("Model: ", provider.as_str(), "/");
            l.append(model_id.as_str());
            (owned("model_change"), l)
        },
        EntryKind::Compaction { summary } => (owned("compaction"), concat2("Compaction: ", truncate(summary.as_str(), 80).as_str())),
        EntryKind::BranchSummary { summary } => (owned("branch_summary"), concat2("Branch: ", truncate(summary.as_str(), 80).as_str())),
        EntryKind::Custom { custom_type } => (owned("custom"), concat2("Event: ", custom_type.as_str())),
        EntryKind::CustomMessage { custom_type, content } => {
            let label = match content {
                Json::Str(s) => truncate(s.as_str(), 80),
                _ => concat2("Event: ", custom_type.as_str()),
            };
            (owned("custom_message"), label)
        },
        EntryKind::Label { label } => (owned("label"), match label {
            Some(l) => l.clone(),
            None => owned("Label"),
        }),
        EntryKind::SessionInfo { name } => {
            let n = match name {
                Some(n) => n.clone(),
                None => String::new(),
            };
            (owned("session_info"), concat2("Session: ", n.as_str()))
        },
    }
}

/// A node of the session tree: an entry, its place, and its children.
pub struct TreeNode {
    pub id: String,
    pub parent_id: Option<String>,
    pub timestamp: String,
    pub entry: EntryKind,
    pub children: Vec<TreeNode>,
}

pub open spec fn opt_str_json(o: Option<String>) -> JsonV {
    match o {
        Some(s) => JsonV::Str(s@),
        None => JsonV::Null,
    }
}

/// A tree node as the frontend reads it; `current` marks the leaf.
pub open spec fn spec_node_json(n: TreeNode, leaf_id: Option<Seq<char>>) -> JsonV
    decreases n,
{
    let info = spec_entry_info(n.entry);
    JsonV::Object(seq![
        ("id"@, JsonV::Str(n.id@)),
        ("parentId"@, opt_str_json(n.parent_id)),
        ("kind"@, JsonV::Str(info.0)),
        ("label"@, JsonV::Str(info.1)),
        ("timestamp"@, JsonV::Str(n.timestamp@)),
        ("current"@, JsonV::Bool(leaf_id == Some(n.id@))),
        ("children"@, JsonV::Array(Seq::new(n.children@.len(), |i: int| if 0 <= i < n.children@.len() { spec_node_json(n.children@[i], leaf_id) } else { JsonV::Null }))),
    ])
}

pub open spec fn oview(o: Option<&str>) -> Option<Seq<char>> {
    match o {
        Some(s) => Some(s@),
        None => None,
    }
}

/// Serialize a tree node and its descendants.
pub fn node_json(node: &TreeNode, leaf_id: Option<&str>) -> (r: Json)
    ensures
        r@ == spec_node_json(*node, oview(leaf_id)),
    decreases node,
{
    let (kind, label) = entry_info(&node.entry);
    let current = match leaf_id {
        Some(l) => str_eq(l, node.id.as_str()),
        None => false,
    };
    let mut children: Vec<Json> = Vec::new();
    let mut i: usize = 0;
    while i < node.children.len()
        invariant
            i <= node.children@.len(),
            children@.len() == i,
            forall|k: int| 0 <= k < i ==> #[trigger] json_view(children@[k]) == spec_node_json(node.children@[k], oview(leaf_id)),
        decreases node.children@.len() - i,
    {
        proof {
            assert(decreases_to!(*node => node.children));
            assert(decreases_to!(node.children => node.children@));
            assert(decreases_to!(node.children@ => node.children@[i as int]));
        }
        let c = node_json(&node.children[i], leaf_id);
        children.push(c);
        i = i + 1;
    }
    let parent = match &node.parent_id {
        Some(p) => Json::Str(p.clone()),
        None => Json::Null,
    };
    let ghost (kv, lv) = (kind@, label@);
    let ghost cv = children@;
    let ghost arr = Json::Array(children);
    proof {
        lemma_view_array(children);
        assert(items_view(children@) =~= Seq::new(node.children@.len(), |i: int| if 0 <= i < node.children@.len() { spec_node_json(node.children@[i], oview(leaf_id)) } else { JsonV::Null }));
    }
    let mut m: Vec<(String, Json)> = Vec::new();
    m.push((owned("id"), Json::Str(node.id.clone())));
    m.push((owned("parentId"), parent));
    m.push((owned("kind"), Json::Str(kind)));
    m.push((owned("label"), Json::Str(label)));
    m.push((owned("timestamp"), Json::Str(node.timestamp.clone())));
    m.push((owned("current"), Json::Bool(current)));
    m.push((owned("children"), Json::Array(children)));
    proof {
        lemma_view_object(m);
        let ghost target = spec_node_json(*node, oview(leaf_id))->Object_0;
        assert(m@[6].1 == arr);
        assert(target[6].1->Array_0 =~= items_view(cv));
        assert(members_view(m@) =~= target);
    }
    Json::Object(m)
}

/// Serialize a forest of tree nodes for the frontend.
pub fn tree_json(nodes: &Vec<TreeNode>, leaf_id: Option<&str>) -> (r: Vec<Json>)
    ensures
        items_view(r@) == Seq::new(nodes@.len(), |i: int| spec_node_json(nodes@[i], oview(leaf_id))),
{
    let mut out: Vec<Json> = Vec::new();
    let mut i: usize = 0;
    while i < nodes.len()
        invariant
            i <= nodes@.len(),
            items_view(out@) == Seq::new(i as nat, |k: int| spec_node_json(nodes@[k], oview(leaf_id))),
        decreases nodes@.len() - i,
    {
        let ghost before = out@;
        let j = node_json(&nodes[i], leaf_id);
        out.push(j);
        proof { crate::json::lemma_items_push(before, j); }
        i = i + 1;
        assert(items_view(out@) =~= Seq::new(i as nat, |k: int| spec_node_json(nodes@[k], oview(leaf_id))));
    }
    out
}

} // verus!
