//! The Extensions view: the built-in extensions registered into agent
//! sessions, each with the tools and slash commands it contributes.
use vstd::prelude::*;
use vstd::string::*;
use crate::text::{owned, str_eq, starts_with, seq_starts_with};
use crate::order::{lex_le, str_lex_le, lemma_lex_refl, lemma_lex_antisym, lemma_lex_trans, lemma_lex_total};
use crate::json::{Json, JsonV, json_view, items_view, lemma_view_array, lemma_items_push, jstr, object2, object4,
    find_item, find_item_with};

verus! {

/// `s` with every leading copy of `p` removed.
pub open spec fn strip_prefix_all(s: Seq<char>, p: Seq<char>) -> Seq<char>
    decreases s.len(),
{
    if p.len() > 0 && seq_starts_with(s, p) {
        strip_prefix_all(s.skip(p.len() as int), p)
    } else {
        s
    }
}

/// `s` with every trailing `c` removed.
pub open spec fn strip_suffix_all(s: Seq<char>, c: char) -> Seq<char>
    decreases s.len(),
{
    if s.len() > 0 && s.last() == c {
        strip_suffix_all(s.drop_last(), c)
    } else {
        s
    }
}

/// The extension name in a stamped `<builtin:name>` source path.
pub open spec fn spec_extension_name(source_path: Seq<char>) -> Seq<char> {
    strip_suffix_all(strip_prefix_all(source_path, "<builtin:"@), '>')
}

/// The extension name in a stamped `<builtin:name>` source path.
pub fn extension_name(source_path: &str) -> (r: String)
    ensures
        r@ == spec_extension_name(source_path@),
{
    proof { reveal_strlit("<builtin:"); }
    let mut cur = owned(source_path);
    while starts_with(cur.as_str(), "<builtin:")
        invariant
            "<builtin:"@.len() == 9,
            strip_prefix_all(cur@, "<builtin:"@) == strip_prefix_all(source_path@, "<builtin:"@),
        decreases cur@.len(),
    {
        let n = cur.as_str().unicode_len();
        let rest = owned(cur.as_str().substring_char(9, n));
        assert(rest@ =~= cur@.skip(9));
        cur = rest;
    }
    let n0 = cur.as_str().unicode_len();
    let mut n: usize = n0;
    assert(cur@.take(n as int) =~= cur@);
    while n > 0 && cur.as_str().get_char(n - 1) == '>'
        invariant
            n <= cur@.len(),
            n0 == cur@.len(),
            strip_suffix_all(cur@, '>') == strip_suffix_all(cur@.take(n as int), '>'),
        decreases n,
    {
        assert(cur@.take(n as int).drop_last() =~= cur@.take(n as int - 1));
        n = n - 1;
    }
    owned(cur.as_str().substring_char(0, n))
}

pub open spec fn tools_view(v: Seq<(String, String)>) -> Seq<(Seq<char>, Seq<char>)> {
    Seq::new(v.len(), |i: int| (v[i].0@, v[i].1@))
}

pub open spec fn commands_view(v: Seq<(String, String, String)>) -> Seq<(Seq<char>, Seq<char>, Seq<char>)> {
    Seq::new(v.len(), |i: int| (v[i].0@, v[i].1@, v[i].2@))
}

/// `v` with `x` put in its place by the string order, unless it is there.
pub open spec fn insert_sorted(v: Seq<Seq<char>>, x: Seq<char>) -> Seq<Seq<char>>
    decreases v.len(),
{
    if v.len() == 0 {
        seq![x]
    } else if v[0] == x {
        v
    } else if lex_le(x, v[0]) {
        seq![x] + v
    } else {
        seq![v[0]] + insert_sorted(v.drop_first(), x)
    }
}

/// The distinct names of `s` in string order.
pub open spec fn sorted_unique(s: Seq<Seq<char>>) -> Seq<Seq<char>>
    decreases s.len(),
{
    if s.len() == 0 {
        Seq::empty()
    } else {
        insert_sorted(sorted_unique(s.drop_last()), s.last())
    }
}

/// Strictly increasing in the string order.
pub open spec fn strictly_sorted(v: Seq<Seq<char>>) -> bool {
    forall|i: int, j: int| 0 <= i < j < v.len() ==> lex_le(v[i], v[j]) && v[i] != v[j]
}

proof fn lemma_insert_at(v: Seq<Seq<char>>, x: Seq<char>, i: int)
    requires
        0 <= i <= v.len(),
        forall|k: int| 0 <= k < i ==> !lex_le(x, #[trigger] v[k]),
        i < v.len() ==> lex_le(x, v[i]),
    ensures
        insert_sorted(v, x) == if i < v.len() && v[i] == x { v } else { v.take(i) + seq![x] + v.skip(i) },
    decreases i,
{
    if i == 0 {
        assert(v.take(0) + seq![x] + v.skip(0) =~= seq![x] + v);
    } else {
        lemma_lex_refl(x);
        assert(!lex_le(x, v[0]));
        assert(v[0] != x);
        let w = v.drop_first();
        assert forall|k: int| 0 <= k < i - 1 implies !lex_le(x, #[trigger] w[k]) by {
            assert(w[k] == v[k + 1]);
        }
        lemma_insert_at(w, x, i - 1);
        if i < v.len() && v[i] == x {
            assert(seq![v[0]] + w =~= v);
        } else {
            assert(seq![v[0]] + (w.take(i - 1) + seq![x] + w.skip(i - 1)) =~= v.take(i) + seq![x] + v.skip(i));
        }
    }
}

proof fn lemma_insert_sorted(v: Seq<Seq<char>>, x: Seq<char>)
    requires
        strictly_sorted(v),
    ensures
        strictly_sorted(insert_sorted(v, x)),
        insert_sorted(v, x).to_set() == v.to_set().insert(x),
    decreases v.len(),
{
    if v.len() == 0 {
        assert(seq![x].to_set() =~= Set::<Seq<char>>::empty().insert(x)) by {
            assert(seq![x].contains(x) == true) by { assert(seq![x][0] == x); }
        }
        assert(v.to_set() =~= Set::<Seq<char>>::empty());
    } else if v[0] == x {
        assert(v.to_set().insert(x) =~= v.to_set()) by {
            assert(v.contains(x));
        }
    } else if lex_le(x, v[0]) {
        let r = seq![x] + v;
        assert(insert_sorted(v, x) == r);
        assert forall|i: int, j: int| 0 <= i < j < r.len() implies lex_le(r[i], r[j]) && r[i] != r[j] by {
            if i == 0 {
                assert(r[j] == v[j - 1]);
                if j - 1 > 0 {
                    assert(lex_le(v[0], v[j - 1]));
                    lemma_lex_trans(x, v[0], v[j - 1]);
                    if x == v[j - 1] {
                        lemma_lex_antisym(v[0], x);
                    }
                }
            } else {
                assert(r[i] == v[i - 1]);
                assert(r[j] == v[j - 1]);
            }
        }
        assert(r.to_set() =~= v.to_set().insert(x)) by {
            assert forall|y: Seq<char>| #[trigger] r.contains(y) <==> v.to_set().insert(x).contains(y) by {
                if r.contains(y) {
                    let k = choose|k: int| 0 <= k < r.len() && r[k] == y;
                    if k > 0 { assert(v[k - 1] == y); assert(v.contains(y)); }
                }
                if v.contains(y) {
                    let k = choose|k: int| 0 <= k < v.len() && v[k] == y;
                    assert(r[k + 1] == y);
                }
                if y == x { assert(r[0] == x); }
            }
        }
    } else {
        let w = v.drop_first();
        assert(strictly_sorted(w)) by {
            assert forall|i: int, j: int| 0 <= i < j < w.len() implies lex_le(w[i], w[j]) && w[i] != w[j] by {
                assert(w[i] == v[i + 1]);
                assert(w[j] == v[j + 1]);
            }
        }
        lemma_insert_sorted(w, x);
        let t = insert_sorted(w, x);
        let r = seq![v[0]] + t;
        assert(insert_sorted(v, x) == r);
        lemma_lex_total(x, v[0]);
        assert forall|i: int, j: int| 0 <= i < j < r.len() implies lex_le(r[i], r[j]) && r[i] != r[j] by {
            if i == 0 {
                assert(r[j] == t[j - 1]);
                assert(t.to_set().contains(t[j - 1]));
                let y = t[j - 1];
                assert(w.to_set().insert(x).contains(y));
                assert(r[0] == v[0]);
                if y == x {
                    assert(lex_le(v[0], x));
                } else {
                    assert(w.contains(y));
                    let k = choose|k: int| 0 <= k < w.len() && w[k] == y;
                    assert(v[k + 1] == y);
                    assert(lex_le(v[0], v[k + 1]) && v[0] != v[k + 1]);
                }
            } else {
                assert(r[i] == t[i - 1]);
                assert(r[j] == t[j - 1]);
            }
        }
        assert(r.to_set() =~= v.to_set().insert(x)) by {
            assert forall|y: Seq<char>| #[trigger] r.contains(y) <==> v.to_set().insert(x).contains(y) by {
                if r.contains(y) {
                    let k = choose|k: int| 0 <= k < r.len() && r[k] == y;
                    if k > 0 {
                        assert(t[k - 1] == y);
                        assert(t.to_set().contains(y));
                        if y != x {
                            assert(w.contains(y));
                            let m = choose|m: int| 0 <= m < w.len() && w[m] == y;
                            assert(v[m + 1] == y);
                        }
                    } else {
                        assert(v[0] == y);
                    }
                }
                if v.contains(y) {
                    let k = choose|k: int| 0 <= k < v.len() && v[k] == y;
                    if k == 0 {
                        assert(r[0] == y);
                    } else {
                        assert(w[k - 1] == y);
                        assert(w.to_set().insert(x).contains(y));
                        assert(t.contains(y));
                        let m = choose|m: int| 0 <= m < t.len() && t[m] == y;
                        assert(r[m + 1] == y);
                    }
                }
                if y == x {
                    assert(t.to_set().contains(x));
                    let m = choose|m: int| 0 <= m < t.len() && t[m] == x;
                    assert(r[m + 1] == x);
                }
            }
        }
    }
}

/// The extension names in string order are each listed once, and they are
/// exactly the names met.
pub proof fn lemma_sorted_unique(s: Seq<Seq<char>>)
    ensures
        strictly_sorted(sorted_unique(s)),
        sorted_unique(s).to_set() == s.to_set(),
    decreases s.len(),
{
    if s.len() == 0 {
        assert(s.to_set() =~= Set::<Seq<char>>::empty());
        assert(sorted_unique(s).to_set() =~= Set::<Seq<char>>::empty());
    } else {
        lemma_sorted_unique(s.drop_last());
        lemma_insert_sorted(sorted_unique(s.drop_last()), s.last());
        assert(s.to_set() =~= s.drop_last().to_set().insert(s.last())) by {
            assert forall|y: Seq<char>| #[trigger] s.contains(y) <==> s.drop_last().to_set().insert(s.last()).contains(y) by {
                if s.contains(y) {
                    let k = choose|k: int| 0 <= k < s.len() && s[k] == y;
                    if k < s.len() - 1 {
                        assert(s.drop_last()[k] == y);
                    }
                }
                if s.drop_last().contains(y) {
                    let k = choose|k: int| 0 <= k < s.drop_last().len() && s.drop_last()[k] == y;
                    assert(s[k] == y);
                }
                if y == s.last() {
                    assert(s[s.len() - 1] == y);
                }
            }
        }
    }
}

/// Put `x` into the strictly sorted `v`, unless it is there.
fn insert_name(v: &mut Vec<String>, x: String)
    ensures
        crate::state::strs_view(final(v)@) == insert_sorted(crate::state::strs_view(old(v)@), x@),
{
    let ghost sv = crate::state::strs_view(v@);
    let mut i: usize = 0;
    while i < v.len() && !str_lex_le(x.as_str(), v[i].as_str())
        invariant
            i <= v@.len(),
            sv == crate::state::strs_view(v@),
            forall|k: int| 0 <= k < i ==> !lex_le(x@, #[trigger] sv[k]),
        decreases v@.len() - i,
    {
        i = i + 1;
    }
    proof { lemma_insert_at(sv, x@, i as int); }
    if i < v.len() && str_eq(v[i].as_str(), x.as_str()) {
        return;
    }
    v.insert(i, x);
    assert(crate::state::strs_view(v@) =~= sv.take(i as int) + seq![x@] + sv.skip(i as int));
}

/// The extension names of the tools, then of the commands.
pub open spec fn names_met(tools: Seq<(Seq<char>, Seq<char>)>, commands: Seq<(Seq<char>, Seq<char>, Seq<char>)>) -> Seq<Seq<char>> {
    Seq::new(tools.len(), |i: int| spec_extension_name(tools[i].0))
        + Seq::new(commands.len(), |i: int| spec_extension_name(commands[i].0))
}

/// The tools of extension `name`, in registry order.
pub open spec fn tools_of(tools: Seq<(Seq<char>, Seq<char>)>, name: Seq<char>) -> Seq<JsonV>
    decreases tools.len(),
{
    if tools.len() == 0 {
        Seq::empty()
    } else {
        tools_of(tools.drop_last(), name) + if spec_extension_name(tools.last().0) == name {
            seq![JsonV::Str(tools.last().1)]
        } else {
            Seq::empty()
        }
    }
}

/// The slash commands of extension `name`, in registry order.
pub open spec fn commands_of(commands: Seq<(Seq<char>, Seq<char>, Seq<char>)>, name: Seq<char>) -> Seq<JsonV>
    decreases commands.len(),
{
    if commands.len() == 0 {
        Seq::empty()
    } else {
        commands_of(commands.drop_last(), name) + if spec_extension_name(commands.last().0) == name {
            seq![JsonV::Object(seq![("name"@, JsonV::Str(commands.last().1)), ("description"@, JsonV::Str(commands.last().2))])]
        } else {
            Seq::empty()
        }
    }
}

/// The summary of extension `name`.
pub open spec fn extension_json(
    tools: Seq<(Seq<char>, Seq<char>)>,
    commands: Seq<(Seq<char>, Seq<char>, Seq<char>)>,
    name: Seq<char>,
) -> JsonV {
    JsonV::Object(seq![
        ("name"@, JsonV::Str(name)),
        ("location"@, JsonV::Str("builtin"@)),
        ("tools"@, JsonV::Array(tools_of(tools, name))),
        ("commands"@, JsonV::Array(commands_of(commands, name))),
    ])
}

/// The Extensions view: one summary per extension that contributes a tool
/// or a command, in name order.
pub open spec fn spec_list_extensions(
    tools: Seq<(Seq<char>, Seq<char>)>,
    commands: Seq<(Seq<char>, Seq<char>, Seq<char>)>,
) -> Seq<JsonV> {
    sorted_unique(names_met(tools, commands)).map_values(|n: Seq<char>| extension_json(tools, commands, n))
}

fn tools_json(tools: &Vec<(String, String)>, name: &str) -> (r: Vec<Json>)
    ensures
        items_view(r@) == tools_of(tools_view(tools@), name@),
{
    let ghost tv = tools_view(tools@);
    let mut out: Vec<Json> = Vec::new();
    let mut i: usize = 0;
    assert(tv.take(0) =~= Seq::<(Seq<char>, Seq<char>)>::empty());
    while i < tools.len()
        invariant
            i <= tools@.len(),
            tv == tools_view(tools@),
            items_view(out@) == tools_of(tv.take(i as int), name@),
        decreases tools@.len() - i,
    {
        let ext = extension_name(tools[i].0.as_str());
        proof {
            assert(tv.take(i as int + 1).drop_last() =~= tv.take(i as int));
            assert(tv.take(i as int + 1).last() == tv[i as int]);
        }
        let ghost before = out@;
        if str_eq(ext.as_str(), name) {
            let j = Json::Str(tools[i].1.clone());
            out.push(j);
            proof { lemma_items_push(before, j); }
        }
        i = i + 1;
    }
    assert(tv.take(i as int) =~= tv);
    out
}

fn commands_json(commands: &Vec<(String, String, String)>, name: &str) -> (r: Vec<Json>)
    ensures
        items_view(r@) == commands_of(commands_view(commands@), name@),
{
    let ghost cv = commands_view(commands@);
    let mut out: Vec<Json> = Vec::new();
    let mut i: usize = 0;
    assert(cv.take(0) =~= Seq::<(Seq<char>, Seq<char>, Seq<char>)>::empty());
    while i < commands.len()
        invariant
            i <= commands@.len(),
            cv == commands_view(commands@),
            items_view(out@) == commands_of(cv.take(i as int), name@),
        decreases commands@.len() - i,
    {
        let ext = extension_name(commands[i].0.as_str());
        proof {
            assert(cv.take(i as int + 1).drop_last() =~= cv.take(i as int));
            assert(cv.take(i as int + 1).last() == cv[i as int]);
        }
        let ghost before = out@;
        if str_eq(ext.as_str(), name) {
            let j = object2("name", Json::Str(commands[i].1.clone()), "description", Json::Str(commands[i].2.clone()));
            out.push(j);
            proof { lemma_items_push(before, j); }
        }
        i = i + 1;
    }
    assert(cv.take(i as int) =~= cv);
    out
}

/// Summarize the registered extensions: `tools` are (source path, tool name)
/// pairs and `commands` (source path, name, description) triples, in
/// registry order. Extensions are grouped by name and listed in
/// ascending name order, as a map ordered by name lists them; the names are
/// kept in a sorted vector without repeats (`strictly_sorted`).
pub fn list_extensions(tools: &Vec<(String, String)>, commands: &Vec<(String, String, String)>) -> (r: Vec<Json>)
    ensures
        items_view(r@) == spec_list_extensions(tools_view(tools@), commands_view(commands@)),
{
    let ghost tv = tools_view(tools@);
    let ghost cv = commands_view(commands@);
    let ghost met = names_met(tv, cv);
    let mut names: Vec<String> = Vec::new();
    let mut i: usize = 0;
    assert(met.take(0) =~= Seq::<Seq<char>>::empty());
    while i < tools.len()
        invariant
            i <= tools@.len(),
            tv == tools_view(tools@),
            cv == commands_view(commands@),
            met == names_met(tv, cv),
            crate::state::strs_view(names@) == sorted_unique(met.take(i as int)),
        decreases tools@.len() - i,
    {
        let ext = extension_name(tools[i].0.as_str());
        proof {
            assert(met.take(i as int + 1).drop_last() =~= met.take(i as int));
            assert(met.take(i as int + 1).last() == met[i as int]);
        }
        insert_name(&mut names, ext);
        i = i + 1;
    }
    let mut k: usize = 0;
    while k < commands.len()
        invariant
            k <= commands@.len(),
            tools@.len() == tv.len(),
            tv == tools_view(tools@),
            cv == commands_view(commands@),
            met == names_met(tv, cv),
            crate::state::strs_view(names@) == sorted_unique(met.take(tv.len() + k)),
        decreases commands@.len() - k,
    {
        let ext = extension_name(commands[k].0.as_str());
        proof {
            assert(met.take(tv.len() + k + 1).drop_last() =~= met.take(tv.len() + k));
            assert(met.take(tv.len() + k + 1).last() == met[tv.len() + k]);
        }
        insert_name(&mut names, ext);
        k = k + 1;
    }
    assert(met.take(tv.len() + k) =~= met);
    let ghost nv = crate::state::strs_view(names@);
    let mut out: Vec<Json> = Vec::new();
    let mut j: usize = 0;
    while j < names.len()
        invariant
            j <= names@.len(),
            nv == crate::state::strs_view(names@),
            tv == tools_view(tools@),
            cv == commands_view(commands@),
            items_view(out@) == nv.take(j as int).map_values(|n: Seq<char>| extension_json(tv, cv, n)),
        decreases names@.len() - j,
    {
        let name = names[j].as_str();
        let tj = tools_json(tools, name);
        let cj = commands_json(commands, name);
        proof {
            lemma_view_array(tj);
            lemma_view_array(cj);
        }
        let e = object4(
            "name", Json::Str(names[j].clone()),
            "location", jstr("builtin"),
            "tools", Json::Array(tj),
            "commands", Json::Array(cj),
        );
        let ghost before = out@;
        out.push(e);
        proof {
            lemma_items_push(before, e);
            assert(nv[j as int] == names@[j as int]@);
            assert(nv.take(j as int + 1).map_values(|n: Seq<char>| extension_json(tv, cv, n))
                =~= nv.take(j as int).map_values(|n: Seq<char>| extension_json(tv, cv, n)).push(extension_json(tv, cv, nv[j as int])));
        }
        j = j + 1;
    }
    assert(nv.take(j as int) =~= nv);
    out
}

/// The summary of the extension called `name`, if it is listed.
pub fn get_extension(tools: &Vec<(String, String)>, commands: &Vec<(String, String, String)>, name: &str) -> (r: Option<Json>)
    ensures
        match r {
            Some(e) => match find_item_with(spec_list_extensions(tools_view(tools@), commands_view(commands@)), "name"@, name@) {
                Some(i) => e@ == spec_list_extensions(tools_view(tools@), commands_view(commands@))[i],
                None => false,
            },
            None => find_item_with(spec_list_extensions(tools_view(tools@), commands_view(commands@)), "name"@, name@) is None,
        },
{
    let mut list = list_extensions(tools, commands);
    match find_item(&list, "name", name) {
        Some(i) => {
            let e = list.swap_remove(i);
            Some(e)
        },
        None => None,
    }
}

/// The Extensions view lists every extension that contributes a tool or a
/// command exactly once, in name order, and lists no other.
pub proof fn lemma_extensions_listed_once(
    tools: Seq<(Seq<char>, Seq<char>)>,
    commands: Seq<(Seq<char>, Seq<char>, Seq<char>)>,
)
    ensures
        ({
            let names = sorted_unique(names_met(tools, commands));
            &&& spec_list_extensions(tools, commands).len() == names.len()
            &&& forall|i: int| 0 <= i < names.len() ==> #[trigger] spec_list_extensions(tools, commands)[i] == extension_json(tools, commands, names[i])
            &&& strictly_sorted(names)
            &&& names.to_set() == names_met(tools, commands).to_set()
        }),
{
    lemma_sorted_unique(names_met(tools, commands));
}

} // verus!
