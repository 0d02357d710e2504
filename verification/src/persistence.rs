//! What is kept of the UI state between runs: the deep merge of a saved
//! document over a fresh skeleton, and the selected session kept in the
//! slim state file.
use vstd::prelude::*;
use crate::text::{owned, str_eq};
use crate::json::{Json, JsonV, json_view, members_view, lemma_view_object, first_key, key_at, lemma_first_key,
    lemma_get_set_same, lemma_get_set_other, object1};
use crate::state::{DesktopState, DesktopStateV, default_state, spec_default_state};

verus! {

/// `patch` deep-merged into `base`: where both are objects, each member of
/// `patch` is merged into the member of `base` with its key (or into `null`)
/// and members of `base` that `patch` lacks stay; otherwise `patch` wins.
pub open spec fn merge(base: JsonV, patch: JsonV) -> JsonV
    decreases patch, 1int, 0int,
{
    match (base, patch) {
        (JsonV::Object(a), JsonV::Object(b)) => merge_members(a, b, b.len()),
        _ => patch,
    }
}

/// The object `a` after the first `n` members of `b` were merged into it.
pub open spec fn merge_members(a: Seq<(Seq<char>, JsonV)>, b: Seq<(Seq<char>, JsonV)>, n: nat) -> JsonV
    decreases JsonV::Object(b), 0int, n as int,
{
    if n == 0 || n > b.len() {
        JsonV::Object(a)
    } else {
        proof {
            assert(decreases_to!(JsonV::Object(b) => JsonV::Object(b)->Object_0));
            assert(decreases_to!(b => b[n - 1]));
            assert(decreases_to!(b[n - 1] => b[n - 1].1));
        }
        merge_members(a, b, (n - 1) as nat).set(b[n - 1].0, merge(JsonV::Object(a).get(b[n - 1].0), b[n - 1].1))
    }
}

proof fn lemma_merge_members_object(a: Seq<(Seq<char>, JsonV)>, b: Seq<(Seq<char>, JsonV)>, n: nat)
    ensures
        merge_members(a, b, n) is Object,
    decreases n,
{
    if n > 0 && n <= b.len() {
        lemma_merge_members_object(a, b, (n - 1) as nat);
    }
}

/// Deep-merge `patch` into `base`, giving a new value.
pub fn merge_into(base: &Json, patch: &Json) -> (r: Json)
    ensures
        r@ == merge(base@, patch@),
    decreases patch,
{
    match (base, patch) {
        (Json::Object(a), Json::Object(b)) => {
            proof {
                lemma_view_object(*a);
                lemma_view_object(*b);
            }
            let ghost av = members_view(a@);
            let ghost bv = members_view(b@);
            let mut out = base.deep_clone();
            let mut i: usize = 0;
            while i < b.len()
                invariant
                    i <= b@.len(),
                    bv == members_view(b@),
                    av == members_view(a@),
                    base@ == JsonV::Object(av),
                    *patch is Object,
                    (*patch)->Object_0 == *b,
                    out@ == merge_members(av, bv, i as nat),
                decreases b@.len() - i,
            {
                proof {
                    assert(decreases_to!(*patch => (*patch)->Object_0));
                    assert((*patch)->Object_0 == *b);
                    assert(decreases_to!(*b => b@));
                    assert(decreases_to!(b@ => b@[i as int]));
                    assert(decreases_to!(b@[i as int] => b@[i as int].1));
                    lemma_merge_members_object(av, bv, i as nat);
                }
                let k = b[i].0.as_str();
                let sub = match base.get(k) {
                    Some(x) => merge_into(x, &b[i].1),
                    None => merge_into(&Json::Null, &b[i].1),
                };
                out.set(k, sub);
                i = i + 1;
            }
            out
        },
        _ => patch.deep_clone(),
    }
}

/// No two members share a key (as in every object a JSON parser gives).
pub open spec fn keys_distinct(m: Seq<(Seq<char>, JsonV)>) -> bool {
    forall|i: int, j: int| 0 <= i < j < m.len() ==> m[i].0 != m[j].0
}

proof fn lemma_members_get(a: Seq<(Seq<char>, JsonV)>, b: Seq<(Seq<char>, JsonV)>, n: nat, k: Seq<char>)
    requires
        n <= b.len(),
        keys_distinct(b),
    ensures
        merge_members(a, b, n).get(k) == (if exists|i: int| 0 <= i < n && b[i].0 == k {
            merge(JsonV::Object(a).get(k), b[choose|i: int| 0 <= i < n && b[i].0 == k].1)
        } else {
            JsonV::Object(a).get(k)
        }),
    decreases n,
{
    if n > 0 {
        lemma_members_get(a, b, (n - 1) as nat, k);
        lemma_merge_members_object(a, b, (n - 1) as nat);
        let prev = merge_members(a, b, (n - 1) as nat);
        let key = b[n - 1].0;
        let v = merge(JsonV::Object(a).get(key), b[n - 1].1);
        if key == k {
            lemma_get_set_same(prev, key, v);
            let c = choose|i: int| 0 <= i < n && b[i].0 == k;
            assert(c == n - 1);
        } else {
            lemma_get_set_other(prev, key, k, v);
            if exists|i: int| 0 <= i < n && b[i].0 == k {
                let c = choose|i: int| 0 <= i < n && b[i].0 == k;
                assert(c != n - 1);
                assert(exists|i: int| 0 <= i < n - 1 && b[i].0 == k);
                let d = choose|i: int| 0 <= i < n - 1 && b[i].0 == k;
                assert(c == d);
            }
        }
    }
}

/// In a deep merge the patch's members win, merged recursively into the
/// base's member with the same key, and the base's other members stay.
pub proof fn lemma_merge_get(base: JsonV, patch: JsonV, k: Seq<char>)
    requires
        patch is Object,
        keys_distinct(patch->Object_0),
    ensures
        merge(base, patch).get(k) == (if exists|i: int| 0 <= i < patch->Object_0.len() && patch->Object_0[i].0 == k {
            merge(base.get(k), patch.get(k))
        } else {
            base.get(k)
        }),
{
    let b = patch->Object_0;
    let has = exists|i: int| 0 <= i < b.len() && b[i].0 == k;
    if has {
        let c = choose|i: int| 0 <= i < b.len() && b[i].0 == k;
        assert(key_at(b, k, c));
        lemma_first_key(b, k, c);
        assert(patch.get(k) == b[c].1);
    } else {
        assert(first_key(b, k) is None);
        assert(patch.get(k) == JsonV::Null);
    }
    match base {
        JsonV::Object(a) => {
            lemma_members_get(a, b, b.len(), k);
        },
        _ => {
            assert(merge(base, patch) == patch);
            assert(base.get(k) == JsonV::Null);
            assert(merge(JsonV::Null, patch.get(k)) == patch.get(k));
        },
    }
}

/// A patch that is not an object replaces the base.
pub proof fn lemma_merge_scalar(base: JsonV, patch: JsonV)
    requires
        !(patch is Object),
    ensures
        merge(base, patch) == patch,
{
}

/// The slim state file: only the selected session.
pub open spec fn spec_slim_state(s: DesktopStateV) -> JsonV {
    JsonV::Object(seq![("selectedSessionId"@, JsonV::Str(s.selected_session_id))])
}

/// The document written to the state file.
pub fn slim_state(state: &DesktopState) -> (r: Json)
    ensures
        r@ == spec_slim_state(state@),
{
    object1("selectedSessionId", Json::Str(state.selected_session_id.clone()))
}

/// The selected session a saved state document names, when it names one.
pub open spec fn saved_selection(persisted: Option<JsonV>) -> Option<Seq<char>> {
    match persisted {
        Some(p) => match p.get("selectedSessionId"@) {
            JsonV::Str(s) => if s.len() > 0 { Some(s) } else { None },
            _ => None,
        },
        None => None,
    }
}

/// The state a run starts from: the fresh skeleton with the last selected
/// session restored when the saved document names one.
pub open spec fn spec_restore_state(persisted: Option<JsonV>) -> DesktopStateV {
    match saved_selection(persisted) {
        Some(s) => DesktopStateV { selected_session_id: s, ..spec_default_state() },
        None => spec_default_state(),
    }
}

pub open spec fn oj(o: Option<Json>) -> Option<JsonV> {
    match o {
        Some(j) => Some(j@),
        None => None,
    }
}

/// The state a run starts from, given the saved document (when the file
/// exists and parses).
pub fn restore_state(persisted: Option<Json>) -> (r: DesktopState)
    ensures
        r@ == spec_restore_state(oj(persisted)),
{
    let mut state = default_state();
    match &persisted {
        Some(p) => match p.str_field("selectedSessionId") {
            Some(sid) => {
                if sid.unicode_len() > 0 {
                    state.selected_session_id = sid.clone();
                }
            },
            None => {},
        },
        None => {},
    }
    state
}

/// What the state file keeps is what the next run starts from: the slim
/// document of a state with a session selected restores that selection.
pub proof fn lemma_persist_restore(s: DesktopStateV)
    requires
        s.selected_session_id.len() > 0,
    ensures
        spec_restore_state(Some(spec_slim_state(s))).selected_session_id == s.selected_session_id,
{
    let m = seq![("selectedSessionId"@, JsonV::Str(s.selected_session_id))];
    assert(key_at(m, "selectedSessionId"@, 0));
    lemma_first_key(m, "selectedSessionId"@, 0);
}

} // verus!
