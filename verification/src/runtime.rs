//! The runtime snapshot the frontend lists models from: providers with
//! their display names and whether a key is configured, and their models.
use vstd::prelude::*;
use crate::text::{owned, str_eq, chars_of, string_of};
use crate::json::{Json, JsonV, json_view, items_view, jstr, object3, object5, lemma_items_push};
use crate::state::{RuntimeSnapshot, RuntimeSnapshotV, RuntimeSettings, ModelSettingsV};

verus! {

/// The providers whose key is looked up in the environment, with the
/// variable for each, in lookup order.
pub open spec fn spec_provider_env_keys() -> Seq<(Seq<char>, Seq<char>)> {
    seq![
        ("anthropic"@, "ANTHROPIC_API_KEY"@),
        ("openai"@, "OPENAI_API_KEY"@),
        ("google"@, "GOOGLE_API_KEY"@),
        ("deepseek"@, "DEEPSEEK_API_KEY"@),
        ("openrouter"@, "OPENROUTER_API_KEY"@),
        ("mistral"@, "MISTRAL_API_KEY"@),
        ("groq"@, "GROQ_API_KEY"@),
        ("xai"@, "XAI_API_KEY"@),
        ("cerebras"@, "CEREBRAS_API_KEY"@),
        ("together"@, "TOGETHER_API_KEY"@),
        ("fireworks"@, "FIREWORKS_API_KEY"@),
        ("github-copilot"@, "COPILOT_API_KEY"@),
        ("huggingface"@, "HF_API_KEY"@),
        ("minimax"@, "MINIMAX_API_KEY"@),
        ("moonshotai"@, "MOONSHOT_API_KEY"@),
        ("kimi-coding"@, "KIMI_CODING_API_KEY"@),
    ]
}

pub open spec fn pairs_view(v: Seq<(&str, &str)>) -> Seq<(Seq<char>, Seq<char>)> {
    Seq::new(v.len(), |i: int| (v[i].0@, v[i].1@))
}

/// The (provider, environment variable) pairs used to tell whether a
/// provider has a key.
pub fn provider_env_keys() -> (r: Vec<(&'static str, &'static str)>)
    ensures
        pairs_view(r@) == spec_provider_env_keys(),
{
    let mut v: Vec<(&'static str, &'static str)> = Vec::new();
    v.push(("anthropic", "ANTHROPIC_API_KEY"));
    v.push(("openai", "OPENAI_API_KEY"));
    v.push(("google", "GOOGLE_API_KEY"));
    v.push(("deepseek", "DEEPSEEK_API_KEY"));
    v.push(("openrouter", "OPENROUTER_API_KEY"));
    v.push(("mistral", "MISTRAL_API_KEY"));
    v.push(("groq", "GROQ_API_KEY"));
    v.push(("xai", "XAI_API_KEY"));
    v.push(("cerebras", "CEREBRAS_API_KEY"));
    v.push(("together", "TOGETHER_API_KEY"));
    v.push(("fireworks", "FIREWORKS_API_KEY"));
    v.push(("github-copilot", "COPILOT_API_KEY"));
    v.push(("huggingface", "HF_API_KEY"));
    v.push(("minimax", "MINIMAX_API_KEY"));
    v.push(("moonshotai", "MOONSHOT_API_KEY"));
    v.push(("kimi-coding", "KIMI_CODING_API_KEY"));
    assert(pairs_view(v@) =~= spec_provider_env_keys());
    v
}

/// `i` is the first pair for `provider`.
pub open spec fn is_first_pair(s: Seq<(Seq<char>, Seq<char>)>, provider: Seq<char>, i: int) -> bool {
    &&& 0 <= i < s.len()
    &&& s[i].0 == provider
    &&& forall|j: int| 0 <= j < i ==> s[j].0 != provider
}

/// The environment variable holding `provider`'s key, if it has one.
pub open spec fn spec_env_key(provider: Seq<char>) -> Option<Seq<char>> {
    let s = spec_provider_env_keys();
    if exists|i: int| is_first_pair(s, provider, i) {
        Some(s[choose|i: int| is_first_pair(s, provider, i)].1)
    } else {
        None
    }
}

/// The environment variable holding `provider`'s key, if it has one.
pub fn env_key_for_provider(provider: &str) -> (r: Option<&'static str>)
    ensures
        match r {
            Some(k) => spec_env_key(provider@) == Some(k@),
            None => spec_env_key(provider@) is None,
        },
{
    let keys = provider_env_keys();
    let ghost s = spec_provider_env_keys();
    let mut i: usize = 0;
    while i < keys.len()
        invariant
            i <= keys@.len(),
            pairs_view(keys@) == s,
            s == spec_provider_env_keys(),
            forall|j: int| 0 <= j < i ==> s[j].0 != provider@,
        decreases keys@.len() - i,
    {
        let (p, k) = keys[i];
        assert(s[i as int] == (p@, k@));
        if str_eq(p, provider) {
            proof {
                assert(is_first_pair(s, provider@, i as int));
                let c = choose|j: int| is_first_pair(s, provider@, j);
                assert(c == i as int) by {
                    if c < i as int {
                        assert(s[c].0 != provider@);
                    } else if c > i as int {
                        assert(s[i as int].0 != provider@);
                    }
                }
            }
            return Some(k);
        }
        i = i + 1;
    }
    None
}

/// A key counts when it is set, not empty and not the `placeholder` value.
pub open spec fn spec_key_counts(value: Option<Seq<char>>) -> bool {
    match value {
        Some(v) => v.len() > 0 && v != "placeholder"@,
        None => false,
    }
}

pub open spec fn ostr_view(o: Option<&str>) -> Option<Seq<char>> {
    match o {
        Some(s) => Some(s@),
        None => None,
    }
}

/// Whether the value of a provider's key variable counts as a key.
pub fn key_counts(value: Option<&str>) -> (r: bool)
    ensures
        r == spec_key_counts(ostr_view(value)),
{
    match value {
        Some(v) => v.unicode_len() > 0 && !str_eq(v, "placeholder"),
        None => false,
    }
}

/// A character in upper case when it is an ASCII lower-case letter.
pub open spec fn ascii_upper(c: char) -> char {
    if 'a' <= c <= 'z' { ((c as u32) - 32) as char } else { c }
}

/// A provider id with its first character upper-cased when that character
/// is ASCII: the display name of a provider without a built-in one.
pub open spec fn spec_capitalized(id: Seq<char>) -> Seq<char> {
    if id.len() > 0 && (id[0] as u32) < 128 {
        id.update(0, ascii_upper(id[0]))
    } else {
        id
    }
}

/// The display name of a provider: its built-in name, else its id with an
/// ASCII first letter capitalized.
pub open spec fn spec_display_name(builtin: Option<Seq<char>>, id: Seq<char>) -> Seq<char> {
    match builtin {
        Some(n) => n,
        None => spec_capitalized(id),
    }
}

/// The display name of a provider.
pub fn display_name(builtin: Option<&str>, id: &str) -> (r: String)
    ensures
        r@ == spec_display_name(ostr_view(builtin), id@),
{
    match builtin {
        Some(n) => owned(n),
        None => {
            let mut cs = chars_of(id);
            if cs.len() > 0 && (cs[0] as u32) < 128 {
                let c = cs[0];
                let u = if 'a' <= c && c <= 'z' { ((c as u32) - 32) as u8 as char } else { c };
                assert(u == ascii_upper(c));
                cs.set(0, u);
            }
            string_of(cs.as_slice())
        },
    }
}

/// A model of the registry, as the snapshot lists it.
pub struct ModelEntry {
    pub id: String,
    pub name: String,
}

/// A provider of the registry with what the snapshot needs of it: its
/// built-in display name, if any, the value of its key variable, if set,
/// and its models in registry order.
pub struct ProviderEntry {
    pub id: String,
    pub builtin_name: Option<String>,
    pub key_value: Option<String>,
    pub models: Vec<ModelEntry>,
}

pub open spec fn sview(o: Option<String>) -> Option<Seq<char>> {
    match o {
        Some(s) => Some(s@),
        None => None,
    }
}

/// Whether a provider has a key configured.
pub open spec fn provider_has_auth(p: ProviderEntry) -> bool {
    spec_key_counts(sview(p.key_value))
}

/// The name shown for a provider.
pub open spec fn provider_name(p: ProviderEntry) -> Seq<char> {
    spec_display_name(sview(p.builtin_name), p.id@)
}

/// A provider as the model picker lists it.
pub open spec fn provider_json(p: ProviderEntry) -> JsonV {
    JsonV::Object(seq![
        ("id"@, JsonV::Str(p.id@)),
        ("name"@, JsonV::Str(provider_name(p))),
        ("hasAuth"@, JsonV::Bool(provider_has_auth(p))),
    ])
}

/// A model as the model picker lists it: labelled by its name, or by its id
/// when the name is empty, and available when its provider has a key.
pub open spec fn model_json(p: ProviderEntry, m: ModelEntry) -> JsonV {
    JsonV::Object(seq![
        ("providerId"@, JsonV::Str(p.id@)),
        ("modelId"@, JsonV::Str(m.id@)),
        ("providerName"@, JsonV::Str(provider_name(p))),
        ("label"@, JsonV::Str(if m.name@.len() == 0 { m.id@ } else { m.name@ })),
        ("available"@, JsonV::Bool(provider_has_auth(p))),
    ])
}

/// The models of the first `n` providers, provider by provider.
pub open spec fn models_json(ps: Seq<ProviderEntry>, n: nat) -> Seq<JsonV>
    decreases n,
{
    if n == 0 {
        Seq::empty()
    } else {
        let p = ps[n - 1];
        models_json(ps, (n - 1) as nat) + Seq::new(p.models@.len(), |j: int| model_json(p, p.models@[j]))
    }
}

/// The runtime snapshot built from the registry's providers and the saved
/// defaults: no skills, no commands, no model patterns.
pub open spec fn spec_runtime_snapshot(
    ps: Seq<ProviderEntry>,
    default_provider: Option<Seq<char>>,
    default_model: Option<Seq<char>>,
    thinking_level: Option<Seq<char>>,
) -> RuntimeSnapshotV {
    RuntimeSnapshotV {
        models: models_json(ps, ps.len()),
        providers: Seq::new(ps.len(), |i: int| provider_json(ps[i])),
        skills: Seq::empty(),
        commands: Seq::empty(),
        settings: ModelSettingsV {
            enabled_model_patterns: Seq::empty(),
            default_provider: default_provider,
            default_model_id: default_model,
            default_thinking_level: thinking_level,
        },
    }
}

/// Build the runtime snapshot from the registry's providers and the saved
/// default provider, model and thinking level.
pub fn runtime_snapshot(
    providers: &Vec<ProviderEntry>,
    default_provider: Option<String>,
    default_model: Option<String>,
    thinking_level: Option<String>,
) -> (r: RuntimeSnapshot)
    ensures
        r@ == spec_runtime_snapshot(providers@, sview(default_provider), sview(default_model), sview(thinking_level)),
{
    let mut models: Vec<Json> = Vec::new();
    let mut plist: Vec<Json> = Vec::new();
    let mut i: usize = 0;
    while i < providers.len()
        invariant
            i <= providers@.len(),
            items_view(models@) == models_json(providers@, i as nat),
            items_view(plist@) == Seq::new(i as nat, |k: int| provider_json(providers@[k])),
        decreases providers@.len() - i,
    {
        let p = &providers[i];
        let has_auth = match &p.key_value {
            Some(v) => key_counts(Some(v.as_str())),
            None => key_counts(None),
        };
        let name = match &p.builtin_name {
            Some(n) => display_name(Some(n.as_str()), p.id.as_str()),
            None => display_name(None, p.id.as_str()),
        };
        let ghost pbefore = plist@;
        let pj = object3("id", Json::Str(p.id.clone()), "name", Json::Str(name.clone()), "hasAuth", Json::Bool(has_auth));
        plist.push(pj);
        proof { lemma_items_push(pbefore, pj); }
        assert(items_view(plist@) =~= Seq::new((i + 1) as nat, |k: int| provider_json(providers@[k])));
        let ghost mbefore = items_view(models@);
        let mut j: usize = 0;
        while j < p.models.len()
            invariant
                j <= p.models@.len(),
                p == providers@[i as int],
                i < providers@.len(),
                name@ == provider_name(*p),
                has_auth == provider_has_auth(*p),
                items_view(models@) == mbefore + Seq::new(j as nat, |t: int| model_json(*p, p.models@[t])),
            decreases p.models@.len() - j,
        {
            let m = &p.models[j];
            let label = if m.name.unicode_len() == 0 { m.id.clone() } else { m.name.clone() };
            let mj = object5(
                "providerId", Json::Str(p.id.clone()),
                "modelId", Json::Str(m.id.clone()),
                "providerName", Json::Str(name.clone()),
                "label", Json::Str(label),
                "available", Json::Bool(has_auth),
            );
            let ghost before = models@;
            models.push(mj);
            proof { lemma_items_push(before, mj); }
            assert(items_view(models@) =~= mbefore + Seq::new((j + 1) as nat, |t: int| model_json(*p, p.models@[t])));
            j = j + 1;
        }
        assert(Seq::new(j as nat, |t: int| model_json(*p, p.models@[t])) =~= Seq::new(p.models@.len(), |t: int| model_json(providers@[i as int], providers@[i as int].models@[t])));
        i = i + 1;
    }
    let settings = RuntimeSettings {
        enabled_model_patterns: Vec::new(),
        default_provider: default_provider,
        default_model_id: default_model,
        default_thinking_level: thinking_level,
    };
    let r = RuntimeSnapshot {
        models: models,
        providers: plist,
        skills: Vec::new(),
        commands: Vec::new(),
        settings: settings,
    };
    assert(r@.skills =~= Seq::<JsonV>::empty());
    assert(r@.commands =~= Seq::<JsonV>::empty());
    assert(r@.settings.enabled_model_patterns =~= Seq::<Seq<char>>::empty());
    r
}

/// The saved default model as a (provider, model) pair, when both are set.
pub open spec fn spec_default_model_key(provider: Option<Seq<char>>, model: Option<Seq<char>>) -> Option<(Seq<char>, Seq<char>)> {
    match (provider, model) {
        (Some(p), Some(m)) => Some((p, m)),
        _ => None,
    }
}

/// The saved default model to look up in the registry, when both its
/// provider and its id are set.
pub fn default_model_key(provider: &Option<String>, model: &Option<String>) -> (r: Option<(String, String)>)
    ensures
        match r {
            Some((p, m)) => spec_default_model_key(sview(*provider), sview(*model)) == Some((p@, m@)),
            None => spec_default_model_key(sview(*provider), sview(*model)) is None,
        },
{
    match (provider, model) {
        (Some(p), Some(m)) => Some((p.clone(), m.clone())),
        _ => None,
    }
}

/// The model a new session starts with: the saved default when the registry
/// has it, else the first model with a key, else the first model of all.
pub open spec fn spec_pick_model<T>(found: Option<T>, available: Seq<T>, all: Seq<T>) -> T
    recommends
        found is Some || available.len() > 0 || all.len() > 0,
{
    match found {
        Some(m) => m,
        None => if available.len() > 0 { available[0] } else { all[0] },
    }
}

/// The model a new session starts with.
pub fn pick_model<T>(found: Option<T>, available: Vec<T>, all: Vec<T>) -> (r: T)
    requires
        found is Some || available@.len() > 0 || all@.len() > 0,
    ensures
        r == spec_pick_model(found, available@, all@),
{
    match found {
        Some(m) => m,
        None => {
            let mut available = available;
            let mut all = all;
            if available.len() > 0 {
                available.swap_remove(0)
            } else {
                all.swap_remove(0)
            }
        },
    }
}

/// A model as the Models command lists it (without the provider's name).
pub open spec fn short_model_json(p: ProviderEntry, m: ModelEntry) -> JsonV {
    JsonV::Object(seq![
        ("providerId"@, JsonV::Str(p.id@)),
        ("modelId"@, JsonV::Str(m.id@)),
        ("label"@, JsonV::Str(if m.name@.len() == 0 { m.id@ } else { m.name@ })),
        ("available"@, JsonV::Bool(provider_has_auth(p))),
    ])
}

/// The models of the first `n` providers, as the Models command lists them.
pub open spec fn short_models(ps: Seq<ProviderEntry>, n: nat) -> Seq<JsonV>
    decreases n,
{
    if n == 0 {
        Seq::empty()
    } else {
        let p = ps[n - 1];
        short_models(ps, (n - 1) as nat) + Seq::new(p.models@.len(), |j: int| short_model_json(p, p.models@[j]))
    }
}

/// The Models command's answer: `{"models": [...]}`.
pub fn models_listing(providers: &Vec<ProviderEntry>) -> (r: Json)
    ensures
        r@ == JsonV::Object(seq![("models"@, JsonV::Array(short_models(providers@, providers@.len())))]),
{
    let mut models: Vec<Json> = Vec::new();
    let mut i: usize = 0;
    while i < providers.len()
        invariant
            i <= providers@.len(),
            items_view(models@) == short_models(providers@, i as nat),
        decreases providers@.len() - i,
    {
        let p = &providers[i];
        let has_auth = match &p.key_value {
            Some(v) => key_counts(Some(v.as_str())),
            None => key_counts(None),
        };
        let ghost mbefore = items_view(models@);
        let mut j: usize = 0;
        while j < p.models.len()
            invariant
                j <= p.models@.len(),
                p == providers@[i as int],
                i < providers@.len(),
                has_auth == provider_has_auth(*p),
                items_view(models@) == mbefore + Seq::new(j as nat, |t: int| short_model_json(*p, p.models@[t])),
            decreases p.models@.len() - j,
        {
            let m = &p.models[j];
            let label = if m.name.unicode_len() == 0 { m.id.clone() } else { m.name.clone() };
            let mj = crate::json::object4(
                "providerId", Json::Str(p.id.clone()),
                "modelId", Json::Str(m.id.clone()),
                "label", Json::Str(label),
                "available", Json::Bool(has_auth),
            );
            let ghost before = models@;
            models.push(mj);
            proof { lemma_items_push(before, mj); }
            assert(items_view(models@) =~= mbefore + Seq::new((j + 1) as nat, |t: int| short_model_json(*p, p.models@[t])));
            j = j + 1;
        }
        assert(Seq::new(j as nat, |t: int| short_model_json(*p, p.models@[t])) =~= Seq::new(p.models@.len(), |t: int| short_model_json(providers@[i as int], providers@[i as int].models@[t])));
        i = i + 1;
    }
    proof { crate::json::lemma_view_array(models); }
    crate::json::object1("models", Json::Array(models))
}

/// The Providers command's answer: `{"providers": [...]}`.
pub fn providers_listing(providers: &Vec<ProviderEntry>) -> (r: Json)
    ensures
        r@ == JsonV::Object(seq![("providers"@, JsonV::Array(Seq::new(providers@.len(), |i: int| provider_json(providers@[i]))))]),
{
    let mut plist: Vec<Json> = Vec::new();
    let mut i: usize = 0;
    while i < providers.len()
        invariant
            i <= providers@.len(),
            items_view(plist@) == Seq::new(i as nat, |k: int| provider_json(providers@[k])),
        decreases providers@.len() - i,
    {
        let p = &providers[i];
        let has_auth = match &p.key_value {
            Some(v) => key_counts(Some(v.as_str())),
            None => key_counts(None),
        };
        let name = match &p.builtin_name {
            Some(n) => display_name(Some(n.as_str()), p.id.as_str()),
            None => display_name(None, p.id.as_str()),
        };
        let pj = object3("id", Json::Str(p.id.clone()), "name", Json::Str(name), "hasAuth", Json::Bool(has_auth));
        let ghost before = plist@;
        plist.push(pj);
        proof { lemma_items_push(before, pj); }
        assert(items_view(plist@) =~= Seq::new((i + 1) as nat, |k: int| provider_json(providers@[k])));
        i = i + 1;
    }
    proof { crate::json::lemma_view_array(plist); }
    crate::json::object1("providers", Json::Array(plist))
}

} // verus!
