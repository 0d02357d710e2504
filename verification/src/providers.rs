//! Custom providers kept in the agent's models file: listing, lookup,
//! creation/update and deletion, as transformations of its JSON document.
use vstd::prelude::*;
use vstd::string::*;
use crate::json::{Json, JsonV, json_view, items_view, members_view, first_key, key_at, find_member,
    find_item, find_item_with, empty_object, empty_array, lemma_view_object, lemma_view_array, lemma_first_key,
    lemma_get_set_same, lemma_get_set_other};
use crate::text::{owned, concat3};

verus! {

/// `o` when it is a string, else `d`.
pub open spec fn str_or(o: JsonV, d: Seq<char>) -> Seq<char> {
    match o {
        JsonV::Str(s) => s,
        _ => d,
    }
}

fn str_or_exec(o: Option<&String>, d: &str) -> (r: String)
    ensures
        match o {
            Some(s) => r@ == s@,
            None => r@ == d@,
        },
{
    match o {
        Some(s) => s.clone(),
        None => owned(d),
    }
}

/// One listing entry.
pub open spec fn spec_entry(id: Seq<char>, provider: Seq<char>, api: Seq<char>, base_url: Seq<char>, name: Seq<char>) -> JsonV {
    JsonV::Object(seq![
        ("id"@, JsonV::Str(id)),
        ("provider"@, JsonV::Str(provider)),
        ("api"@, JsonV::Str(api)),
        ("baseUrl"@, JsonV::Str(base_url)),
        ("name"@, JsonV::Str(name)),
    ])
}

fn entry(id: String, provider: String, api: String, base_url: String, name: String) -> (r: Json)
    ensures
        r@ == spec_entry(id@, provider@, api@, base_url@, name@),
{
    let ghost (iv, pv, av, bv, nv) = (id@, provider@, api@, base_url@, name@);
    let mut m: Vec<(String, Json)> = Vec::new();
    m.push((owned("id"), Json::Str(id)));
    m.push((owned("provider"), Json::Str(provider)));
    m.push((owned("api"), Json::Str(api)));
    m.push((owned("baseUrl"), Json::Str(base_url)));
    m.push((owned("name"), Json::Str(name)));
    proof {
        lemma_view_object(m);
        assert(members_view(m@) =~= spec_entry(iv, pv, av, bv, nv)->Object_0);
    }
    Json::Object(m)
}

/// The listing entries of one provider definition: one per model when it
/// has a models array, else one for the provider itself.
pub open spec fn spec_provider_entries(provider: Seq<char>, def: JsonV) -> Seq<JsonV> {
    let api = str_or(def.get("api"@), "openai-completions"@);
    let base_url = str_or(def.get("baseUrl"@), Seq::empty());
    let pname = str_or(def.get("name"@), provider);
    match def.get("models"@) {
        JsonV::Array(ms) => Seq::new(
            ms.len(),
            |i: int| spec_entry(str_or(ms[i].get("id"@), Seq::empty()), provider, api, base_url, str_or(ms[i].get("name"@), pname)),
        ),
        _ => seq![spec_entry(provider, provider, api, base_url, pname)],
    }
}

/// The providers object of a models document, when it is an object.
pub open spec fn providers_of(map: Seq<(Seq<char>, JsonV)>) -> Option<Seq<(Seq<char>, JsonV)>> {
    match JsonV::Object(map).get("providers"@) {
        JsonV::Object(ps) => Some(ps),
        _ => None,
    }
}

/// Every custom provider model listed, provider by provider.
pub open spec fn spec_list(map: Seq<(Seq<char>, JsonV)>) -> Seq<JsonV> {
    match providers_of(map) {
        Some(ps) => Seq::new(ps.len(), |j: int| spec_provider_entries(ps[j].0, ps[j].1)).flatten(),
        None => Seq::empty(),
    }
}

fn provider_entries(provider: &String, def: &Json) -> (r: Vec<Json>)
    ensures
        items_view(r@) == spec_provider_entries(provider@, def@),
{
    let api = str_or_exec(def.str_field("api"), "openai-completions");
    let base_url = str_or_exec(def.str_field("baseUrl"), "");
    let pname = str_or_exec(def.str_field("name"), provider.as_str());
    proof {
        reveal_strlit("");
        assert(""@ =~= Seq::<char>::empty());
    }
    let mut out: Vec<Json> = Vec::new();
    match def.get("models") {
        Some(Json::Array(ms)) => {
            proof { lemma_view_array(*ms); }
            let mut i: usize = 0;
            while i < ms.len()
                invariant
                    i <= ms@.len(),
                    def@.get("models"@) == JsonV::Array(items_view(ms@)),
                    api@ == str_or(def@.get("api"@), "openai-completions"@),
                    base_url@ == str_or(def@.get("baseUrl"@), Seq::empty()),
                    pname@ == str_or(def@.get("name"@), provider@),
                    items_view(out@) == spec_provider_entries(provider@, def@).take(i as int),
                decreases ms@.len() - i,
            {
                proof { reveal_strlit(""); assert(""@ =~= Seq::<char>::empty()); }
                let id = str_or_exec(ms[i].str_field("id"), "");
                let nm = str_or_exec(ms[i].str_field("name"), pname.as_str());
                let e = entry(id, provider.clone(), api.clone(), base_url.clone(), nm);
                let ghost before = items_view(out@);
                out.push(e);
                proof {
                    assert(items_view(out@) =~= before.push(json_view(out@[i as int])));
                    assert(spec_provider_entries(provider@, def@).take(i as int + 1) =~= spec_provider_entries(provider@, def@).take(i as int).push(spec_provider_entries(provider@, def@)[i as int]));
                }
                i = i + 1;
            }
            assert(spec_provider_entries(provider@, def@).take(i as int) =~= spec_provider_entries(provider@, def@));
        },
        _ => {
            let e = entry(provider.clone(), provider.clone(), api, base_url, pname);
            out.push(e);
            assert(items_view(out@) =~= spec_provider_entries(provider@, def@));
        },
    }
    out
}

/// List custom providers: one entry per model under each provider (one for
/// a provider without a models array), in the document's provider order.
pub fn list_custom_providers(map: &Vec<(String, Json)>) -> (r: Vec<Json>)
    ensures
        items_view(r@) == spec_list(members_view(map@)),
{
    let ghost mv = members_view(map@);
    let mut out: Vec<Json> = Vec::new();
    let idx = find_member(map, "providers");
    match idx {
        None => {
            assert(items_view(out@) =~= Seq::<JsonV>::empty());
            return out;
        },
        Some(pi) => {
            proof { lemma_first_key(mv, "providers"@, pi as int); }
            match &map[pi].1 {
                Json::Object(ps) => {
                    proof { lemma_view_object(*ps); }
                    let ghost psv = members_view(ps@);
                    let ghost parts = Seq::new(psv.len(), |j: int| spec_provider_entries(psv[j].0, psv[j].1));
                    let mut j: usize = 0;
                    while j < ps.len()
                        invariant
                            j <= ps@.len(),
                            psv == members_view(ps@),
                            parts == Seq::new(psv.len(), |j: int| spec_provider_entries(psv[j].0, psv[j].1)),
                            items_view(out@) == parts.take(j as int).flatten(),
                        decreases ps@.len() - j,
                    {
                        let es = provider_entries(&ps[j].0, &ps[j].1);
                        let ghost before = items_view(out@);
                        let mut k: usize = 0;
                        while k < es.len()
                            invariant
                                k <= es@.len(),
                                items_view(out@) == before + items_view(es@).take(k as int),
                            decreases es@.len() - k,
                        {
                            out.push(es[k].deep_clone());
                            proof {
                                assert(items_view(es@).take(k as int + 1) =~= items_view(es@).take(k as int).push(json_view(es@[k as int])));
                                assert(items_view(out@) =~= (before + items_view(es@).take(k as int)).push(json_view(es@[k as int])));
                            }
                            k = k + 1;
                        }
                        proof {
                            assert(items_view(es@).take(k as int) =~= items_view(es@));
                            assert(parts.take(j as int + 1) =~= parts.take(j as int).push(parts[j as int]));
                            parts.take(j as int).lemma_flatten_push(parts[j as int]);
                        }
                        j = j + 1;
                    }
                    assert(parts.take(j as int) =~= parts);
                    out
                },
                _ => {
                    assert(items_view(out@) =~= Seq::<JsonV>::empty());
                    out
                },
            }
        },
    }
}

/// The first listed entry whose id is `provider_id`.
pub open spec fn spec_get_custom_provider(map: Seq<(Seq<char>, JsonV)>, provider_id: Seq<char>) -> Option<JsonV> {
    match find_item_with(spec_list(map), "id"@, provider_id) {
        Some(i) => Some(spec_list(map)[i]),
        None => None,
    }
}

/// Get a single custom provider entry by id.
pub fn get_custom_provider(map: &Vec<(String, Json)>, provider_id: &str) -> (r: Option<Json>)
    ensures
        match r {
            Some(j) => spec_get_custom_provider(members_view(map@), provider_id@) == Some(j@),
            None => spec_get_custom_provider(members_view(map@), provider_id@) is None,
        },
{
    let mut all = list_custom_providers(map);
    match find_item(&all, "id", provider_id) {
        Some(i) => Some(all.remove(i)),
        None => None,
    }
}


/// Members with `key` added (as `d`) when absent.
pub open spec fn or_insert(m: Seq<(Seq<char>, JsonV)>, key: Seq<char>, d: JsonV) -> Seq<(Seq<char>, JsonV)> {
    match first_key(m, key) {
        Some(_) => m,
        None => m.push((key, d)),
    }
}

/// Position of the first member named `key` (-1 when absent).
pub open spec fn key_pos(m: Seq<(Seq<char>, JsonV)>, key: Seq<char>) -> int {
    match first_key(m, key) {
        Some(i) => i,
        None => -1,
    }
}

/// Members with `key` set to `v`: the first such member replaced, or a new
/// one appended.
pub open spec fn mset(m: Seq<(Seq<char>, JsonV)>, key: Seq<char>, v: JsonV) -> Seq<(Seq<char>, JsonV)> {
    match first_key(m, key) {
        Some(i) => m.update(i, (key, v)),
        None => m.push((key, v)),
    }
}

/// Ensure a member `key` exists (inserting `d`) and return its position.
fn entry_index(m: &mut Vec<(String, Json)>, key: &str, d: Json) -> (i: usize)
    ensures
        members_view(final(m)@) == or_insert(members_view(old(m)@), key@, d@),
        key_at(members_view(final(m)@), key@, i as int),
        key_pos(members_view(final(m)@), key@) == i,
{
    match find_member(m, key) {
        Some(i) => {
            proof { lemma_first_key(members_view(m@), key@, i as int); }
            i
        },
        None => {
            let ghost before = members_view(m@);
            let ghost dv = d@;
            m.push((owned(key), d));
            let i = m.len() - 1;
            proof {
                assert(members_view(m@) =~= before.push((key@, dv)));
                assert forall|j: int| 0 <= j < i implies members_view(m@)[j].0 != key@ by {
                    if members_view(m@)[j].0 == key@ {
                        assert(key_at(before, key@, j) || exists|k: int| 0 <= k < j && before[k].0 == key@);
                    }
                }
                lemma_first_key(members_view(m@), key@, i as int);
            }
            i
        },
    }
}

/// Set member `key` to `v`.
fn set_member(m: &mut Vec<(String, Json)>, key: &str, v: Json)
    ensures
        members_view(final(m)@) == mset(members_view(old(m)@), key@, v@),
{
    let ghost before = members_view(m@);
    let ghost vv = v@;
    match find_member(m, key) {
        Some(i) => {
            proof { lemma_first_key(before, key@, i as int); }
            m.set(i, (owned(key), v));
            assert(members_view(m@) =~= before.update(i as int, (key@, vv)));
        },
        None => {
            m.push((owned(key), v));
            assert(members_view(m@) =~= before.push((key@, vv)));
        },
    }
}

/// The text stored as a provider's API key: a `${VAR}` reference to the
/// environment variable, or nothing.
pub open spec fn spec_api_key_field(var: Seq<char>) -> Seq<char> {
    if var.len() == 0 { Seq::empty() } else { "${"@ + var + "}"@ }
}

/// What a successful create/update writes and returns, or the error.
pub open spec fn spec_set_custom_provider(map: Seq<(Seq<char>, JsonV)>, config: JsonV)
    -> Result<(Seq<(Seq<char>, JsonV)>, JsonV), Seq<char>>
{
    match config.get("id"@) {
        JsonV::Str(model_id) => match config.get("provider"@) {
            JsonV::Str(provider) => {
                let api = str_or(config.get("api"@), "openai-completions"@);
                let base_url = str_or(config.get("baseUrl"@), Seq::empty());
                let name = str_or(config.get("name"@), model_id);
                let key_field = spec_api_key_field(str_or(config.get("apiKeyEnvVar"@), Seq::empty()));
                let m1 = or_insert(map, "providers"@, JsonV::Object(Seq::empty()));
                let pi = key_pos(m1, "providers"@);
                match m1[pi].1 {
                    JsonV::Object(ps) => {
                        let ps1 = or_insert(ps, provider, JsonV::Object(Seq::empty()));
                        let ei = key_pos(ps1, provider);
                        match ps1[ei].1 {
                            JsonV::Object(es) => {
                                let es1 = mset(mset(mset(es, "name"@, JsonV::Str(name)), "baseUrl"@, JsonV::Str(base_url)), "api"@, JsonV::Str(api));
                                let es2 = if key_field.len() > 0 { mset(es1, "apiKey"@, JsonV::Str(key_field)) } else { es1 };
                                let es3 = or_insert(es2, "models"@, JsonV::Array(Seq::empty()));
                                let mi = key_pos(es3, "models"@);
                                match es3[mi].1 {
                                    JsonV::Array(ms) => {
                                        let newm = JsonV::Object(seq![("id"@, JsonV::Str(model_id)), ("name"@, JsonV::Str(name))]);
                                        let ms1 = match find_item_with(ms, "id"@, model_id) {
                                            Some(p) => ms.update(p, newm),
                                            None => ms.push(newm),
                                        };
                                        let es4 = es3.update(mi, ("models"@, JsonV::Array(ms1)));
                                        let ps2 = ps1.update(ei, (provider, JsonV::Object(es4)));
                                        let m2 = m1.update(pi, ("providers"@, JsonV::Object(ps2)));
                                        Ok((m2, spec_entry(model_id, provider, api, base_url, name)))
                                    },
                                    _ => Err("invalid models.json format"@),
                                }
                            },
                            _ => Err("invalid models.json format"@),
                        }
                    },
                    _ => Err("invalid models.json format"@),
                }
            },
            _ => Err("missing provider"@),
        },
        _ => Err("missing provider id"@),
    }
}

/// Create or update a custom provider model in the models document. On
/// success returns the document to write and the provider's listing entry;
/// on error the document is left as it was.
#[verifier::rlimit(80)]
pub fn set_custom_provider(map: Vec<(String, Json)>, config: &Json) -> (r: Result<(Vec<(String, Json)>, Json), String>)
    ensures
        match r {
            Ok((m2, e)) => spec_set_custom_provider(members_view(map@), config@) == Ok::<(Seq<(Seq<char>, JsonV)>, JsonV), Seq<char>>((members_view(m2@), e@)),
            Err(msg) => spec_set_custom_provider(members_view(map@), config@) == Err::<(Seq<(Seq<char>, JsonV)>, JsonV), Seq<char>>(msg@),
        },
{
    proof { reveal_strlit(""); assert(""@ =~= Seq::<char>::empty()); }
    let model_id = match config.str_field("id") {
        Some(s) => s.clone(),
        None => return Err(owned("missing provider id")),
    };
    let provider = match config.str_field("provider") {
        Some(s) => s.clone(),
        None => return Err(owned("missing provider")),
    };
    let api = str_or_exec(config.str_field("api"), "openai-completions");
    let base_url = str_or_exec(config.str_field("baseUrl"), "");
    let name = str_or_exec(config.str_field("name"), model_id.as_str());
    let api_key = str_or_exec(config.str_field("apiKeyEnvVar"), "");
    let api_key_field = if api_key.as_str().unicode_len() == 0 {
        String::new()
    } else {
        concat3("${", api_key.as_str(), "}")
    };
    assert(api_key_field@ == spec_api_key_field(api_key@));
    let ghost m0 = members_view(map@);
    let mut map = map;
    let pi = entry_index(&mut map, "providers", empty_object());
    let ghost m1 = members_view(map@);
    assert(m1 == or_insert(m0, "providers"@, JsonV::Object(Seq::empty())));
    let (pk, pv) = map.remove(pi);
    let mut ps = match pv {
        Json::Object(ps) => ps,
        _ => return Err(owned("invalid models.json format")),
    };
    proof { lemma_view_object(ps); }
    let ghost ps0 = members_view(ps@);
    let ei = entry_index(&mut ps, provider.as_str(), empty_object());
    let ghost ps1 = members_view(ps@);
    assert(ps1 == or_insert(ps0, provider@, JsonV::Object(Seq::empty())));
    let (ek, ev) = ps.remove(ei);
    let mut es = match ev {
        Json::Object(es) => es,
        _ => return Err(owned("invalid models.json format")),
    };
    proof { lemma_view_object(es); }
    let ghost es0 = members_view(es@);
    set_member(&mut es, "name", Json::Str(name.clone()));
    set_member(&mut es, "baseUrl", Json::Str(base_url.clone()));
    set_member(&mut es, "api", Json::Str(api.clone()));
    let ghost es1 = members_view(es@);
    if api_key_field.as_str().unicode_len() > 0 {
        set_member(&mut es, "apiKey", Json::Str(api_key_field));
    }
    let ghost es2 = members_view(es@);
    let mi = entry_index(&mut es, "models", empty_array());
    let ghost es3 = members_view(es@);
    assert(es3 == or_insert(es2, "models"@, JsonV::Array(Seq::empty())));
    let (mk, mv) = es.remove(mi);
    let mut ms = match mv {
        Json::Array(ms) => ms,
        _ => return Err(owned("invalid models.json format")),
    };
    proof { lemma_view_array(ms); }
    let ghost ms0 = items_view(ms@);
    let mut nm: Vec<(String, Json)> = Vec::new();
    nm.push((owned("id"), Json::Str(model_id.clone())));
    nm.push((owned("name"), Json::Str(name.clone())));
    let newm = Json::Object(nm);
    let ghost newv = JsonV::Object(seq![("id"@, JsonV::Str(model_id@)), ("name"@, JsonV::Str(name@))]);
    proof {
        lemma_view_object(nm);
        assert(members_view(nm@) =~= newv->Object_0);
    }
    match find_item(&ms, "id", model_id.as_str()) {
        Some(p) => {
            ms.set(p, newm);
            assert(items_view(ms@) =~= ms0.update(p as int, newv));
        },
        None => {
            ms.push(newm);
            assert(items_view(ms@) =~= ms0.push(newv));
        },
    }
    let ghost ms1 = items_view(ms@);
    let marr = Json::Array(ms);
    proof { lemma_view_array(ms); }
    es.insert(mi, (mk, marr));
    proof {
        assert(es3[mi as int].0 == "models"@);
        assert(members_view(es@) =~= es3.update(mi as int, ("models"@, JsonV::Array(ms1))));
    }
    let ghost es4 = members_view(es@);
    let eobj = Json::Object(es);
    proof { lemma_view_object(es); }
    ps.insert(ei, (ek, eobj));
    proof {
        assert(ps1[ei as int].0 == provider@);
        assert(members_view(ps@) =~= ps1.update(ei as int, (provider@, JsonV::Object(es4))));
    }
    let ghost ps2 = members_view(ps@);
    let pobj = Json::Object(ps);
    proof { lemma_view_object(ps); }
    map.insert(pi, (pk, pobj));
    proof {
        assert(m1[pi as int].0 == "providers"@);
        assert(members_view(map@) =~= m1.update(pi as int, ("providers"@, JsonV::Object(ps2))));
    }
    let e = entry(model_id, provider, api, base_url, name);
    Ok((map, e))
}

/// A provider definition with model `id` removed from its models array.
pub open spec fn prune_def(def: JsonV, id: Seq<char>) -> JsonV {
    match def {
        JsonV::Object(es) => match first_key(es, "models"@) {
            Some(k) => match es[k].1 {
                JsonV::Array(ms) => JsonV::Object(es.update(k, ("models"@, JsonV::Array(ms.filter(|m: JsonV| !m.field_is_str("id"@, id)))))),
                _ => def,
            },
            None => def,
        },
        _ => def,
    }
}

/// The definition's models array holds model `id`.
pub open spec fn removes_some(def: JsonV, id: Seq<char>) -> bool {
    match def.get("models"@) {
        JsonV::Array(ms) => ms.filter(|m: JsonV| !m.field_is_str("id"@, id)).len() != ms.len(),
        _ => false,
    }
}

/// The document after deleting model `id` from every provider, or the error
/// when no provider held it.
pub open spec fn spec_delete_custom_provider(map: Seq<(Seq<char>, JsonV)>, id: Seq<char>)
    -> Result<Seq<(Seq<char>, JsonV)>, Seq<char>>
{
    match first_key(map, "providers"@) {
        Some(pi) => match map[pi].1 {
            JsonV::Object(ps) => if exists|j: int| 0 <= j < ps.len() && removes_some(ps[j].1, id) {
                Ok(map.update(pi, ("providers"@, JsonV::Object(Seq::new(ps.len(), |j: int| (ps[j].0, prune_def(ps[j].1, id)))))))
            } else {
                Err("provider '"@ + id + "' not found"@)
            },
            _ => Err("provider '"@ + id + "' not found"@),
        },
        None => Err("provider '"@ + id + "' not found"@),
    }
}

fn prune_def_exec(def: Json, id: &str) -> (r: (Json, bool))
    ensures
        r.0@ == prune_def(def@, id@),
        r.1 == removes_some(def@, id@),
{
    let ghost dv = def@;
    match def {
        Json::Object(mut es) => {
            proof { lemma_view_object(es); }
            match find_member(&es, "models") {
                Some(k) => {
                    proof { lemma_first_key(members_view(es@), "models"@, k as int); }
                    let ghost before = members_view(es@);
                    let (mk, mv) = es.remove(k);
                    match mv {
                        Json::Array(ms) => {
                            proof { lemma_view_array(ms); }
                            let n = ms.len();
                            let kept = crate::json::retain_items_without(ms, "id", id);
                            let changed = kept.len() != n;
                            let ghost kv = items_view(kept@);
                            proof { lemma_view_array(kept); }
                            es.insert(k, (mk, Json::Array(kept)));
                            proof {
                                assert(before[k as int].0 == "models"@);
                                assert(members_view(es@) =~= before.update(k as int, ("models"@, JsonV::Array(kv))));
                                lemma_view_object(es);
                            }
                            (Json::Object(es), changed)
                        },
                        other => {
                            let ghost ov = other@;
                            es.insert(k, (mk, other));
                            proof {
                                assert(members_view(es@) =~= before);
                                lemma_view_object(es);
                            }
                            (Json::Object(es), false)
                        },
                    }
                },
                None => {
                    proof { lemma_view_object(es); }
                    (Json::Object(es), false)
                },
            }
        },
        other => (other, false),
    }
}

/// Delete model `provider_id` from every custom provider. On success returns
/// the document to write; when no provider held it, the error names it.
pub fn delete_custom_provider(map: Vec<(String, Json)>, provider_id: &str) -> (r: Result<Vec<(String, Json)>, String>)
    ensures
        match r {
            Ok(m2) => spec_delete_custom_provider(members_view(map@), provider_id@) == Ok::<Seq<(Seq<char>, JsonV)>, Seq<char>>(members_view(m2@)),
            Err(msg) => spec_delete_custom_provider(members_view(map@), provider_id@) == Err::<Seq<(Seq<char>, JsonV)>, Seq<char>>(msg@),
        },
{
    let not_found = concat3("provider '", provider_id, "' not found");
    let ghost m0 = members_view(map@);
    let mut map = map;
    let pi = match find_member(&map, "providers") {
        Some(pi) => pi,
        None => return Err(not_found),
    };
    proof { lemma_first_key(m0, "providers"@, pi as int); }
    let (pk, pv) = map.remove(pi);
    let ps = match pv {
        Json::Object(ps) => ps,
        _ => return Err(not_found),
    };
    proof { lemma_view_object(ps); }
    let ghost ps0 = members_view(ps@);
    let mut rest = ps;
    let mut out: Vec<(String, Json)> = Vec::new();
    let mut found = false;
    let n = rest.len();
    let mut t: usize = 0;
    while t < n
        invariant
            n == ps0.len(),
            t <= n,
            rest@.len() == n - t,
            forall|k: int| 0 <= k < rest@.len() ==> #[trigger] members_view(rest@)[k] == ps0[t + k],
            members_view(out@) == Seq::new(t as nat, |j: int| (ps0[j].0, prune_def(ps0[j].1, provider_id@))),
            found == exists|j: int| 0 <= j < t && removes_some(ps0[j].1, provider_id@),
        decreases n - t,
    {
        let ghost rv = members_view(rest@);
        let (k, d) = rest.remove(0);
        let ghost kv = k@;
        let ghost dv = d@;
        proof { assert(rv[0] == ps0[t as int]); assert(rv[0] == (kv, dv)); }
        let (d2, changed) = prune_def_exec(d, provider_id);
        if changed {
            found = true;
        }
        let ghost before = members_view(out@);
        let ghost d2v = d2@;
        out.push((k, d2));
        proof {
            assert(members_view(out@) =~= before.push((kv, d2v)));
            assert forall|q: int| 0 <= q < rest@.len() implies #[trigger] members_view(rest@)[q] == ps0[t + 1 + q] by {
                assert(members_view(rest@)[q] == rv[q + 1]);
            }
            assert(members_view(out@) =~= Seq::new((t + 1) as nat, |j: int| (ps0[j].0, prune_def(ps0[j].1, provider_id@))));
        }
        t = t + 1;
    }
    if !found {
        return Err(not_found);
    }
    proof { lemma_view_object(out); }
    let ghost outv = members_view(out@);
    map.insert(pi, (pk, Json::Object(out)));
    proof {
        assert(m0[pi as int].0 == "providers"@);
        assert(outv =~= Seq::new(ps0.len(), |j: int| (ps0[j].0, prune_def(ps0[j].1, provider_id@))));
        assert(members_view(map@) =~= m0.update(pi as int, ("providers"@, JsonV::Object(outv))));
    }
    Ok(map)
}

proof fn lemma_or_insert(m: Seq<(Seq<char>, JsonV)>, k: Seq<char>, d: JsonV)
    ensures
        JsonV::Object(or_insert(m, k, d)) == (if first_key(m, k) is Some { JsonV::Object(m) } else { JsonV::Object(m).set(k, d) }),
        first_key(or_insert(m, k, d), k) is Some,
        key_at(or_insert(m, k, d), k, key_pos(or_insert(m, k, d), k)),
{
    match first_key(m, k) {
        Some(i) => {
            let c = choose|t: int| key_at(m, k, t);
            assert(key_at(m, k, c));
        },
        None => {
            crate::json::lemma_no_key(m, k);
            let m2 = m.push((k, d));
            assert(key_at(m2, k, m.len() as int));
            lemma_first_key(m2, k, m.len() as int);
        },
    }
}

proof fn lemma_key_pos(m: Seq<(Seq<char>, JsonV)>, k: Seq<char>)
    requires
        first_key(m, k) is Some,
    ensures
        key_at(m, k, key_pos(m, k)),
        first_key(m, k) == Some(key_pos(m, k)),
{
    let c = choose|t: int| key_at(m, k, t);
    assert(key_at(m, k, c));
}

proof fn lemma_update_is_set(m: Seq<(Seq<char>, JsonV)>, k: Seq<char>, i: int, v: JsonV)
    requires
        key_at(m, k, i),
    ensures
        JsonV::Object(m.update(i, (k, v))) == JsonV::Object(m).set(k, v),
{
    lemma_first_key(m, k, i);
}

proof fn lemma_literals_differ()
    ensures
        "api"@ != "models"@,
        "api"@ != "apiKey"@,
        "baseUrl"@ != "models"@,
        "baseUrl"@ != "apiKey"@,
        "baseUrl"@ != "api"@,
        "name"@ != "models"@,
        "name"@ != "apiKey"@,
        "name"@ != "api"@,
        "name"@ != "baseUrl"@,
        "id"@ != "name"@,
{
    reveal_strlit("api");
    reveal_strlit("models");
    reveal_strlit("apiKey");
    reveal_strlit("baseUrl");
    reveal_strlit("name");
    reveal_strlit("id");
    assert("api"@[0] != "models"@[0]);
    assert("api"@.len() != "apiKey"@.len());
    assert("baseUrl"@[0] != "models"@[0]);
    assert("baseUrl"@[0] != "apiKey"@[0]);
    assert("baseUrl"@[0] != "api"@[0]);
    assert("name"@[0] != "models"@[0]);
    assert("name"@[0] != "apiKey"@[0]);
    assert("name"@[0] != "api"@[0]);
    assert("name"@[0] != "baseUrl"@[0]);
    assert("id"@[0] != "name"@[0]);
}

/// After a provider model is created or updated, the listing shows the
/// entry that was returned, and a lookup of its id finds an entry with
/// that id.
pub proof fn lemma_set_then_get(map: Seq<(Seq<char>, JsonV)>, config: JsonV)
    requires
        spec_set_custom_provider(map, config) is Ok,
    ensures
        ({
            let (m2, e) = spec_set_custom_provider(map, config)->Ok_0;
            let model_id = config.get("id"@)->Str_0;
            &&& spec_list(m2).contains(e)
            &&& e.field_is_str("id"@, model_id)
            &&& spec_get_custom_provider(m2, model_id) is Some
            &&& spec_get_custom_provider(m2, model_id)->Some_0.field_is_str("id"@, model_id)
        }),
{
    lemma_literals_differ();
    let model_id = config.get("id"@)->Str_0;
    let provider = config.get("provider"@)->Str_0;
    let api = str_or(config.get("api"@), "openai-completions"@);
    let base_url = str_or(config.get("baseUrl"@), Seq::empty());
    let name = str_or(config.get("name"@), model_id);
    let key_field = spec_api_key_field(str_or(config.get("apiKeyEnvVar"@), Seq::empty()));
    let m1 = or_insert(map, "providers"@, JsonV::Object(Seq::empty()));
    lemma_or_insert(map, "providers"@, JsonV::Object(Seq::empty()));
    let pi = key_pos(m1, "providers"@);
    let ps = m1[pi].1->Object_0;
    let ps1 = or_insert(ps, provider, JsonV::Object(Seq::empty()));
    lemma_or_insert(ps, provider, JsonV::Object(Seq::empty()));
    let ei = key_pos(ps1, provider);
    let es = ps1[ei].1->Object_0;
    let es1 = mset(mset(mset(es, "name"@, JsonV::Str(name)), "baseUrl"@, JsonV::Str(base_url)), "api"@, JsonV::Str(api));
    let es2 = if key_field.len() > 0 { mset(es1, "apiKey"@, JsonV::Str(key_field)) } else { es1 };
    let es3 = or_insert(es2, "models"@, JsonV::Array(Seq::empty()));
    lemma_or_insert(es2, "models"@, JsonV::Array(Seq::empty()));
    let mi = key_pos(es3, "models"@);
    let ms = es3[mi].1->Array_0;
    let newm = JsonV::Object(seq![("id"@, JsonV::Str(model_id)), ("name"@, JsonV::Str(name))]);
    let ms1 = match find_item_with(ms, "id"@, model_id) {
        Some(p) => ms.update(p, newm),
        None => ms.push(newm),
    };
    let es4 = es3.update(mi, ("models"@, JsonV::Array(ms1)));
    let ps2 = ps1.update(ei, (provider, JsonV::Object(es4)));
    let m2 = m1.update(pi, ("providers"@, JsonV::Object(ps2)));
    let e = spec_entry(model_id, provider, api, base_url, name);
    assert(spec_set_custom_provider(map, config)->Ok_0 == (m2, e));

    // The document's providers object is the updated one.
    lemma_update_is_set(m1, "providers"@, pi, JsonV::Object(ps2));
    lemma_get_set_same(JsonV::Object(m1), "providers"@, JsonV::Object(ps2));
    assert(providers_of(m2) == Some(ps2));

    // The provider's definition reads back what was written.
    let d1 = JsonV::Object(es).set("name"@, JsonV::Str(name)).set("baseUrl"@, JsonV::Str(base_url)).set("api"@, JsonV::Str(api));
    assert(JsonV::Object(es1) == d1);
    lemma_get_set_same(JsonV::Object(es).set("name"@, JsonV::Str(name)).set("baseUrl"@, JsonV::Str(base_url)), "api"@, JsonV::Str(api));
    lemma_get_set_other(JsonV::Object(es).set("name"@, JsonV::Str(name)).set("baseUrl"@, JsonV::Str(base_url)), "api"@, "baseUrl"@, JsonV::Str(api));
    lemma_get_set_same(JsonV::Object(es).set("name"@, JsonV::Str(name)), "baseUrl"@, JsonV::Str(base_url));
    lemma_get_set_other(JsonV::Object(es).set("name"@, JsonV::Str(name)).set("baseUrl"@, JsonV::Str(base_url)), "api"@, "name"@, JsonV::Str(api));
    lemma_get_set_other(JsonV::Object(es).set("name"@, JsonV::Str(name)), "baseUrl"@, "name"@, JsonV::Str(base_url));
    lemma_get_set_same(JsonV::Object(es), "name"@, JsonV::Str(name));
    assert(d1.get("api"@) == JsonV::Str(api));
    assert(d1.get("baseUrl"@) == JsonV::Str(base_url));
    assert(d1.get("name"@) == JsonV::Str(name));
    if key_field.len() > 0 {
        lemma_get_set_other(d1, "apiKey"@, "api"@, JsonV::Str(key_field));
        lemma_get_set_other(d1, "apiKey"@, "baseUrl"@, JsonV::Str(key_field));
        lemma_get_set_other(d1, "apiKey"@, "name"@, JsonV::Str(key_field));
    }
    let d2 = JsonV::Object(es2);
    assert(d2.get("api"@) == JsonV::Str(api));
    assert(d2.get("baseUrl"@) == JsonV::Str(base_url));
    assert(d2.get("name"@) == JsonV::Str(name));
    if first_key(es2, "models"@) is None {
        lemma_get_set_other(d2, "models"@, "api"@, JsonV::Array(Seq::empty()));
        lemma_get_set_other(d2, "models"@, "baseUrl"@, JsonV::Array(Seq::empty()));
        lemma_get_set_other(d2, "models"@, "name"@, JsonV::Array(Seq::empty()));
    }
    let d3 = JsonV::Object(es3);
    assert(d3.get("api"@) == JsonV::Str(api));
    assert(d3.get("baseUrl"@) == JsonV::Str(base_url));
    assert(d3.get("name"@) == JsonV::Str(name));
    lemma_update_is_set(es3, "models"@, mi, JsonV::Array(ms1));
    lemma_get_set_same(d3, "models"@, JsonV::Array(ms1));
    lemma_get_set_other(d3, "models"@, "api"@, JsonV::Array(ms1));
    lemma_get_set_other(d3, "models"@, "baseUrl"@, JsonV::Array(ms1));
    lemma_get_set_other(d3, "models"@, "name"@, JsonV::Array(ms1));
    let d4 = JsonV::Object(es4);
    assert(d4.get("models"@) == JsonV::Array(ms1));
    assert(d4.get("api"@) == JsonV::Str(api));
    assert(d4.get("baseUrl"@) == JsonV::Str(base_url));
    assert(d4.get("name"@) == JsonV::Str(name));

    // The new model reads back its id and name.
    let nm = seq![("id"@, JsonV::Str(model_id)), ("name"@, JsonV::Str(name))];
    assert(key_at(nm, "id"@, 0));
    lemma_first_key(nm, "id"@, 0);
    assert(key_at(nm, "name"@, 1));
    lemma_first_key(nm, "name"@, 1);
    assert(newm.get("id"@) == JsonV::Str(model_id));
    assert(newm.get("name"@) == JsonV::Str(name));

    // Its listing entry is the returned entry.
    let q: int = match find_item_with(ms, "id"@, model_id) {
        Some(p) => p,
        None => ms.len() as int,
    };
    if find_item_with(ms, "id"@, model_id) is Some {
        let c = choose|i: int| crate::json::is_first_item_with(ms, "id"@, model_id, i);
        assert(crate::json::is_first_item_with(ms, "id"@, model_id, c));
    }
    assert(0 <= q < ms1.len() && ms1[q] == newm);
    let entries = spec_provider_entries(provider, d4);
    assert(entries[q] == e);
    let all = Seq::new(ps2.len(), |j: int| spec_provider_entries(ps2[j].0, ps2[j].1));
    lemma_key_pos(ps1, provider);
    assert(ps2[ei] == (provider, d4));
    assert(all[ei] == entries);
    crate::json::lemma_flatten_has(all, ei, q);
    assert(spec_list(m2) == all.flatten());
    assert(spec_list(m2).contains(e));

    // The entry carries the id, so a lookup of the id finds an entry.
    let es_e = seq![
        ("id"@, JsonV::Str(model_id)),
        ("provider"@, JsonV::Str(provider)),
        ("api"@, JsonV::Str(api)),
        ("baseUrl"@, JsonV::Str(base_url)),
        ("name"@, JsonV::Str(name)),
    ];
    assert(key_at(es_e, "id"@, 0));
    lemma_first_key(es_e, "id"@, 0);
    assert(e.field_is_str("id"@, model_id));
    let w = choose|i: int| 0 <= i < spec_list(m2).len() && spec_list(m2)[i] == e;
    crate::json::lemma_find_item_some(spec_list(m2), "id"@, model_id, w);
    let f = choose|i: int| crate::json::is_first_item_with(spec_list(m2), "id"@, model_id, i);
    assert(crate::json::is_first_item_with(spec_list(m2), "id"@, model_id, f));
}

proof fn lemma_entry_id(id: Seq<char>, provider: Seq<char>, api: Seq<char>, base_url: Seq<char>, name: Seq<char>)
    ensures
        spec_entry(id, provider, api, base_url, name).get("id"@) == JsonV::Str(id),
{
    let es = spec_entry(id, provider, api, base_url, name)->Object_0;
    assert(key_at(es, "id"@, 0));
    lemma_first_key(es, "id"@, 0);
}

proof fn lemma_prune_models(def: JsonV, id: Seq<char>)
    ensures
        match def.get("models"@) {
            JsonV::Array(ms) => prune_def(def, id).get("models"@) == JsonV::Array(ms.filter(|m: JsonV| !m.field_is_str("id"@, id))),
            _ => prune_def(def, id) == def,
        },
{
    match def {
        JsonV::Object(es) => match first_key(es, "models"@) {
            Some(k) => {
                lemma_key_pos(es, "models"@);
                match es[k].1 {
                    JsonV::Array(ms) => {
                        let f = JsonV::Array(ms.filter(|m: JsonV| !m.field_is_str("id"@, id)));
                        lemma_update_is_set(es, "models"@, k, f);
                        lemma_get_set_same(def, "models"@, f);
                    },
                    _ => {},
                }
            },
            None => {},
        },
        _ => {},
    }
}

/// After model `id` is deleted, a lookup of `id` finds nothing, provided
/// `id` is not empty and no provider named `id` is listed by name alone
/// (a definition without a models array lists the provider itself).
pub proof fn lemma_delete_then_get(map: Seq<(Seq<char>, JsonV)>, id: Seq<char>)
    requires
        spec_delete_custom_provider(map, id) is Ok,
        id.len() > 0,
        forall|j: int| #![trigger providers_of(map)->Some_0[j]]
            providers_of(map) is Some && 0 <= j < providers_of(map)->Some_0.len() && providers_of(map)->Some_0[j].0 == id
            ==> providers_of(map)->Some_0[j].1.get("models"@) is Array,
    ensures
        spec_get_custom_provider(spec_delete_custom_provider(map, id)->Ok_0, id) is None,
{
    let pi = first_key(map, "providers"@)->Some_0;
    lemma_key_pos(map, "providers"@);
    let ps = map[pi].1->Object_0;
    lemma_first_key(map, "providers"@, pi);
    assert(providers_of(map) == Some(ps));
    let ps2 = Seq::new(ps.len(), |j: int| (ps[j].0, prune_def(ps[j].1, id)));
    let m2 = map.update(pi, ("providers"@, JsonV::Object(ps2)));
    assert(spec_delete_custom_provider(map, id)->Ok_0 == m2);
    lemma_update_is_set(map, "providers"@, pi, JsonV::Object(ps2));
    lemma_get_set_same(JsonV::Object(map), "providers"@, JsonV::Object(ps2));
    assert(providers_of(m2) == Some(ps2));
    let all = Seq::new(ps2.len(), |j: int| spec_provider_entries(ps2[j].0, ps2[j].1));
    let list = spec_list(m2);
    assert(list == all.flatten());
    let pred = |m: JsonV| !m.field_is_str("id"@, id);
    assert forall|j: int, k: int| 0 <= j < all.len() && 0 <= k < all[j].len() implies !(#[trigger] all[j][k]).field_is_str("id"@, id) by {
        let def = ps[j].1;
        lemma_prune_models(def, id);
        let pd = ps2[j].1;
        match pd.get("models"@) {
            JsonV::Array(ms2) => {
                let mm = ms2[k];
                let eid = str_or(mm.get("id"@), Seq::empty());
                match def.get("models"@) {
                    JsonV::Array(ms) => {
                        assert(ms2 == ms.filter(pred));
                        ms.lemma_filter_pred(pred, k);
                        assert(pred(mm));
                    },
                    _ => {
                        assert(pd == def);
                    },
                }
                assert(eid != id);
                let api = str_or(pd.get("api"@), "openai-completions"@);
                let base_url = str_or(pd.get("baseUrl"@), Seq::empty());
                let pname = str_or(pd.get("name"@), ps2[j].0);
                assert(all[j][k] == spec_entry(eid, ps2[j].0, api, base_url, str_or(mm.get("name"@), pname)));
                lemma_entry_id(eid, ps2[j].0, api, base_url, str_or(mm.get("name"@), pname));
            },
            _ => {
                match def.get("models"@) {
                    JsonV::Array(ms) => {},
                    _ => {
                        assert(pd == def);
                        assert(providers_of(map)->Some_0[j] == ps[j]);
                        assert(ps[j].0 != id);
                    },
                }
                let api = str_or(pd.get("api"@), "openai-completions"@);
                let base_url = str_or(pd.get("baseUrl"@), Seq::empty());
                let pname = str_or(pd.get("name"@), ps2[j].0);
                assert(all[j][k] == spec_entry(ps2[j].0, ps2[j].0, api, base_url, pname));
                lemma_entry_id(ps2[j].0, ps2[j].0, api, base_url, pname);
            },
        }
    }
    assert forall|t: int| 0 <= t < list.len() implies !(#[trigger] list[t]).field_is_str("id"@, id) by {
        assert(list.contains(list[t]));
        crate::json::lemma_flatten_from(all, list[t]);
        let (j, k) = choose|j: int, k: int| 0 <= j < all.len() && 0 <= k < all[j].len() && all[j][k] == list[t];
    }
    crate::json::lemma_find_item_none(list, "id"@, id);
}

} // verus!
