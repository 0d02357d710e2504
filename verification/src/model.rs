//! Default model and thinking level held in the desktop state.
use vstd::prelude::*;
use crate::state::{DesktopState, DesktopStateV, GlobalModelSettings, ModelSettingsV, ostr, strs_view};
use crate::json::{Json, JsonV, jstr, items_view};
use crate::text::owned;

verus! {

/// Record `provider`/`model_id` as the default model.
pub fn set_default_model(state: &mut DesktopState, provider: &str, model_id: &str)
    ensures
        final(state)@ == (DesktopStateV {
            global_model_settings: ModelSettingsV {
                default_provider: Some(provider@),
                default_model_id: Some(model_id@),
                ..old(state)@.global_model_settings
            },
            ..old(state)@
        }),
{
    state.global_model_settings.default_provider = Some(owned(provider));
    state.global_model_settings.default_model_id = Some(owned(model_id));
}

/// Record `level` as the default thinking level.
pub fn set_default_thinking_level(state: &mut DesktopState, level: &str)
    ensures
        final(state)@ == (DesktopStateV {
            global_model_settings: ModelSettingsV {
                default_thinking_level: Some(level@),
                ..old(state)@.global_model_settings
            },
            ..old(state)@
        }),
{
    state.global_model_settings.default_thinking_level = Some(owned(level));
}

pub open spec fn or_default(o: Option<Seq<char>>, d: Seq<char>) -> Seq<char> {
    match o {
        Some(s) => s,
        None => d,
    }
}

fn or_default_str(o: &Option<String>, d: &str) -> (r: String)
    ensures
        r@ == or_default(ostr(*o), d@),
{
    match o {
        Some(s) => s.clone(),
        None => owned(d),
    }
}

/// The default model as the frontend reads it: empty provider and model
/// when unset, thinking level "normal" when unset.
pub open spec fn spec_default_model_json(g: ModelSettingsV) -> JsonV {
    JsonV::Object(seq![
        ("defaultProvider"@, JsonV::Str(or_default(g.default_provider, Seq::empty()))),
        ("defaultModelId"@, JsonV::Str(or_default(g.default_model_id, Seq::empty()))),
        ("defaultThinkingLevel"@, JsonV::Str(or_default(g.default_thinking_level, "normal"@))),
    ])
}

/// The default model as the frontend reads it.
pub fn get_default_model(state: &DesktopState) -> (r: Json)
    ensures
        r@ == spec_default_model_json(state@.global_model_settings),
{
    let g = &state.global_model_settings;
    let mut m: Vec<(String, Json)> = Vec::new();
    m.push((owned("defaultProvider"), Json::Str(or_default_str(&g.default_provider, ""))));
    m.push((owned("defaultModelId"), Json::Str(or_default_str(&g.default_model_id, ""))));
    m.push((owned("defaultThinkingLevel"), Json::Str(or_default_str(&g.default_thinking_level, "normal"))));
    proof {
        reveal_strlit("");
        assert(""@ =~= Seq::<char>::empty());
        crate::json::lemma_view_object(m);
        assert(crate::json::members_view(m@) =~= seq![
            ("defaultProvider"@, JsonV::Str(or_default(g@.default_provider, Seq::empty()))),
            ("defaultModelId"@, JsonV::Str(or_default(g@.default_model_id, Seq::empty()))),
            ("defaultThinkingLevel"@, JsonV::Str(or_default(g@.default_thinking_level, "normal"@))),
        ]);
    }
    Json::Object(m)
}

pub open spec fn ostr_json(o: Option<Seq<char>>) -> JsonV {
    match o {
        Some(s) => JsonV::Str(s),
        None => JsonV::Null,
    }
}

fn opt_json(o: &Option<String>) -> (r: Json)
    ensures
        r@ == ostr_json(ostr(*o)),
{
    match o {
        Some(s) => Json::Str(s.clone()),
        None => Json::Null,
    }
}

/// Model settings in their serialized form.
pub open spec fn spec_settings_json(g: ModelSettingsV) -> JsonV {
    JsonV::Object(seq![
        ("enabledModelPatterns"@, JsonV::Array(Seq::new(g.enabled_model_patterns.len(), |i: int| JsonV::Str(g.enabled_model_patterns[i])))),
        ("defaultProvider"@, ostr_json(g.default_provider)),
        ("defaultModelId"@, ostr_json(g.default_model_id)),
        ("defaultThinkingLevel"@, ostr_json(g.default_thinking_level)),
    ])
}

/// Model settings in their serialized form.
pub fn settings_json(g: &GlobalModelSettings) -> (r: Json)
    ensures
        r@ == spec_settings_json(g@),
{
    let mut pats: Vec<Json> = Vec::new();
    let mut i: usize = 0;
    while i < g.enabled_model_patterns.len()
        invariant
            i <= g.enabled_model_patterns@.len(),
            items_view(pats@) == Seq::new(i as nat, |k: int| JsonV::Str(g.enabled_model_patterns@[k]@)),
        decreases g.enabled_model_patterns@.len() - i,
    {
        let ghost before = items_view(pats@);
        pats.push(Json::Str(g.enabled_model_patterns[i].clone()));
        assert(items_view(pats@) =~= before.push(JsonV::Str(g.enabled_model_patterns@[i as int]@)));
        i = i + 1;
        assert(items_view(pats@) =~= Seq::new(i as nat, |k: int| JsonV::Str(g.enabled_model_patterns@[k]@)));
    }
    let mut m: Vec<(String, Json)> = Vec::new();
    proof { crate::json::lemma_view_array(pats); }
    let ghost pv = items_view(pats@);
    m.push((owned("enabledModelPatterns"), Json::Array(pats)));
    m.push((owned("defaultProvider"), opt_json(&g.default_provider)));
    m.push((owned("defaultModelId"), opt_json(&g.default_model_id)));
    m.push((owned("defaultThinkingLevel"), opt_json(&g.default_thinking_level)));
    proof {
        crate::json::lemma_view_object(m);
        assert(pv =~= Seq::new(g@.enabled_model_patterns.len(), |i: int| JsonV::Str(g@.enabled_model_patterns[i])));
        assert(crate::json::members_view(m@) =~= spec_settings_json(g@)->Object_0);
    }
    Json::Object(m)
}

/// The model settings reply: the same settings under both names.
pub fn get_model_settings(state: &DesktopState) -> (r: Json)
    ensures
        r@ == JsonV::Object(seq![
            ("settings"@, spec_settings_json(state@.global_model_settings)),
            ("globalModelSettings"@, spec_settings_json(state@.global_model_settings)),
        ]),
{
    let a = settings_json(&state.global_model_settings);
    let b = settings_json(&state.global_model_settings);
    let mut m: Vec<(String, Json)> = Vec::new();
    m.push((owned("settings"), a));
    m.push((owned("globalModelSettings"), b));
    proof {
        crate::json::lemma_view_object(m);
        assert(crate::json::members_view(m@) =~= seq![
            ("settings"@, spec_settings_json(state@.global_model_settings)),
            ("globalModelSettings"@, spec_settings_json(state@.global_model_settings)),
        ]);
    }
    Json::Object(m)
}

} // verus!
