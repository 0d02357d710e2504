//! The decisions of a session's actor and of the store around it: replies
//! to commands, the slash commands offered, and the session header info.
use vstd::prelude::*;
use crate::text::{owned, str_eq, concat3, u64_to_dec, dec_nat};
use crate::json::{Json, JsonV, json_view, items_view, lemma_items_push, jstr, object2, object3, object4, object8};
use crate::state::{DesktopState, DesktopStateV, SessionRecordV, records_view};
use crate::sessions::{find_record, find_session};

verus! {

/// Where a session's slash command comes from.
#[derive(Debug, Clone, Copy, PartialEq, Eq, Structural)]
pub enum CommandSource {
    Extension,
    Prompt,
    Skill,
}

/// The menu's name for a command source.
pub open spec fn spec_source_name(s: CommandSource) -> Seq<char> {
    match s {
        CommandSource::Extension => "extension"@,
        CommandSource::Prompt => "prompt"@,
        CommandSource::Skill => "skill"@,
    }
}

/// The menu's name for a command source.
pub fn source_name(s: CommandSource) -> (r: &'static str)
    ensures
        r@ == spec_source_name(s),
{
    match s {
        CommandSource::Extension => "extension",
        CommandSource::Prompt => "prompt",
        CommandSource::Skill => "skill",
    }
}

/// A built-in slash command; its description and argument hint in their
/// JSON form.
pub struct BuiltinCommand {
    pub name: String,
    pub description: Json,
    pub argument_hint: Json,
}

/// A slash command of the session (extension, prompt template or skill).
pub struct SessionCommandInfo {
    pub name: String,
    pub description: Json,
    pub source: CommandSource,
}

pub open spec fn builtin_json(c: BuiltinCommand) -> JsonV {
    JsonV::Object(seq![
        ("name"@, JsonV::Str(c.name@)),
        ("description"@, c.description@),
        ("argumentHint"@, c.argument_hint@),
        ("source"@, JsonV::Str("builtin"@)),
    ])
}

pub open spec fn session_command_json(c: SessionCommandInfo) -> JsonV {
    JsonV::Object(seq![
        ("name"@, JsonV::Str(c.name@)),
        ("description"@, c.description@),
        ("source"@, JsonV::Str(spec_source_name(c.source))),
    ])
}

/// The composer's slash command menu: the built-in commands, then the
/// session's own, each marked with its source.
pub open spec fn spec_slash_commands(builtin: Seq<BuiltinCommand>, session: Seq<SessionCommandInfo>) -> Seq<JsonV> {
    Seq::new(builtin.len(), |i: int| builtin_json(builtin[i]))
        + Seq::new(session.len(), |i: int| session_command_json(session[i]))
}

/// The composer's slash command menu.
pub fn slash_commands(builtin: &Vec<BuiltinCommand>, session: &Vec<SessionCommandInfo>) -> (r: Vec<Json>)
    ensures
        items_view(r@) == spec_slash_commands(builtin@, session@),
{
    let mut out: Vec<Json> = Vec::new();
    let mut i: usize = 0;
    while i < builtin.len()
        invariant
            i <= builtin@.len(),
            items_view(out@) == Seq::new(i as nat, |k: int| builtin_json(builtin@[k])),
        decreases builtin@.len() - i,
    {
        let c = &builtin[i];
        let j = object4(
            "name", Json::Str(c.name.clone()),
            "description", c.description.deep_clone(),
            "argumentHint", c.argument_hint.deep_clone(),
            "source", jstr("builtin"),
        );
        let ghost before = out@;
        out.push(j);
        proof { lemma_items_push(before, j); }
        assert(items_view(out@) =~= Seq::new((i + 1) as nat, |k: int| builtin_json(builtin@[k])));
        i = i + 1;
    }
    let ghost head = items_view(out@);
    let mut k: usize = 0;
    while k < session.len()
        invariant
            k <= session@.len(),
            head == Seq::new(builtin@.len(), |t: int| builtin_json(builtin@[t])),
            items_view(out@) == head + Seq::new(k as nat, |t: int| session_command_json(session@[t])),
        decreases session@.len() - k,
    {
        let c = &session[k];
        let j = object3(
            "name", Json::Str(c.name.clone()),
            "description", c.description.deep_clone(),
            "source", jstr(source_name(c.source)),
        );
        let ghost before = out@;
        out.push(j);
        proof { lemma_items_push(before, j); }
        assert(items_view(out@) =~= head + Seq::new((k + 1) as nat, |t: int| session_command_json(session@[t])));
        k = k + 1;
    }
    out
}

/// The reply to a navigation request: done, or the entry was not found.
pub open spec fn spec_navigate_reply(found: bool, entry_id: Seq<char>) -> Result<(), Seq<char>> {
    if found { Ok(()) } else { Err("entry '"@ + entry_id + "' not found"@) }
}

/// The reply to a navigation request.
pub fn navigate_reply(found: bool, entry_id: &str) -> (r: Result<(), String>)
    ensures
        match r {
            Ok(()) => spec_navigate_reply(found, entry_id@) == Ok::<(), Seq<char>>(()),
            Err(e) => spec_navigate_reply(found, entry_id@) == Err::<(), Seq<char>>(e@),
        },
{
    if found { Ok(()) } else { Err(concat3("entry '", entry_id, "' not found")) }
}

/// The message for a model the registry does not have.
pub open spec fn spec_model_not_found(provider: Seq<char>, model_id: Seq<char>) -> Seq<char> {
    "model '"@ + provider + "/"@ + model_id + "' not found"@
}

/// The model to switch to, or the error naming the one asked for.
pub fn model_to_set<T>(found: Option<T>, provider: &str, model_id: &str) -> (r: Result<T, String>)
    ensures
        match found {
            Some(m) => r == Ok::<T, String>(m),
            None => r is Err && r->Err_0@ == spec_model_not_found(provider@, model_id@),
        },
{
    match found {
        Some(m) => Ok(m),
        None => {
            let mut msg = concat3("model '", provider, "/");
            msg.append(model_id);
            msg.append("' not found");
            Err(msg)
        },
    }
}

pub open spec fn ostr_json(o: Option<Seq<char>>) -> JsonV {
    match o {
        Some(s) => JsonV::Str(s),
        None => JsonV::Null,
    }
}

/// A model as the header shows it.
pub open spec fn spec_model_json(provider: Option<Seq<char>>, model_id: Option<Seq<char>>) -> JsonV {
    JsonV::Object(seq![("provider"@, ostr_json(provider)), ("modelId"@, ostr_json(model_id))])
}

pub open spec fn sview(o: Option<String>) -> Option<Seq<char>> {
    match o {
        Some(s) => Some(s@),
        None => None,
    }
}

fn ostr_json_exec(o: &Option<String>) -> (r: Json)
    ensures
        r@ == ostr_json(sview(*o)),
{
    match o {
        Some(s) => Json::Str(s.clone()),
        None => Json::Null,
    }
}

/// A session's current model as the header shows it.
pub fn model_json(provider: &str, model_id: &str) -> (r: Json)
    ensures
        r@ == spec_model_json(Some(provider@), Some(model_id@)),
{
    object2("provider", jstr(provider), "modelId", jstr(model_id))
}

/// The model shown for the selected session when its actor cannot say: the
/// global default.
pub fn default_session_model(state: &DesktopState) -> (r: Json)
    ensures
        r@ == spec_model_json(state@.global_model_settings.default_provider, state@.global_model_settings.default_model_id),
{
    object2(
        "provider", ostr_json_exec(&state.global_model_settings.default_provider),
        "modelId", ostr_json_exec(&state.global_model_settings.default_model_id),
    )
}

/// The header info of session `id`: not found, or its title, working
/// directory, file, message count, creation time and model.
pub open spec fn spec_session_info(
    s: DesktopStateV,
    id: Seq<char>,
    message_count: nat,
    created_at: Option<Seq<char>>,
    model: JsonV,
) -> JsonV {
    match find_record(s.sessions, id) {
        Some(i) => {
            let r = s.sessions[i];
            JsonV::Object(seq![
                ("id"@, JsonV::Str(id)),
                ("found"@, JsonV::Bool(true)),
                ("title"@, JsonV::Str(r.title)),
                ("cwd"@, ostr_json(r.cwd)),
                ("sessionFile"@, ostr_json(r.session_file)),
                ("messageCount"@, JsonV::Number(dec_nat(message_count))),
                ("createdAt"@, ostr_json(created_at)),
                ("model"@, model),
            ])
        },
        None => JsonV::Object(seq![("id"@, JsonV::Str(id)), ("found"@, JsonV::Bool(false))]),
    }
}

/// The header info of session `id`, given what its file holds (message
/// count and header time) and its model.
pub fn session_info(state: &DesktopState, id: &str, message_count: u64, created_at: Option<String>, model: Json) -> (r: Json)
    ensures
        r@ == spec_session_info(state@, id@, message_count as nat, sview(created_at), model@),
{
    match find_session(&state.sessions, id) {
        Some(i) => {
            let rec = &state.sessions[i];
            assert(records_view(state.sessions@)[i as int] == state.sessions@[i as int]@);
            object8(
                "id", jstr(id),
                "found", Json::Bool(true),
                "title", Json::Str(rec.title.clone()),
                "cwd", ostr_json_exec(&rec.cwd),
                "sessionFile", ostr_json_exec(&rec.session_file),
                "messageCount", Json::Number(u64_to_dec(message_count)),
                "createdAt", ostr_json_exec(&created_at),
                "model", model,
            )
        },
        None => object2("id", jstr(id), "found", Json::Bool(false)),
    }
}

/// The transcript the selected session shows: none when nothing is
/// selected; else the live transcript when the session's actor has one,
/// else the one read from its file; none when both are empty.
pub open spec fn spec_selected_transcript(sid: Seq<char>, live: Seq<JsonV>, from_file: Seq<JsonV>) -> Option<JsonV> {
    if sid.len() == 0 {
        None
    } else if live.len() > 0 {
        Some(JsonV::Object(seq![("sessionId"@, JsonV::Str(sid)), ("transcript"@, JsonV::Array(live))]))
    } else if from_file.len() > 0 {
        Some(JsonV::Object(seq![("sessionId"@, JsonV::Str(sid)), ("transcript"@, JsonV::Array(from_file))]))
    } else {
        None
    }
}

/// The transcript the selected session shows.
pub fn selected_transcript(sid: &str, live: Vec<Json>, from_file: Vec<Json>) -> (r: Option<Json>)
    ensures
        match r {
            Some(j) => spec_selected_transcript(sid@, items_view(live@), items_view(from_file@)) == Some(j@),
            None => spec_selected_transcript(sid@, items_view(live@), items_view(from_file@)) is None,
        },
{
    if sid.unicode_len() == 0 {
        return None;
    }
    if live.len() > 0 {
        proof { crate::json::lemma_view_array(live); }
        return Some(object2("sessionId", jstr(sid), "transcript", Json::Array(live)));
    }
    if from_file.len() > 0 {
        proof { crate::json::lemma_view_array(from_file); }
        return Some(object2("sessionId", jstr(sid), "transcript", Json::Array(from_file)));
    }
    None
}

/// A lookup's answer: what was found, or the error naming what was asked
/// for (`provider 'x' not found`).
pub open spec fn spec_found_or_error(found: Option<JsonV>, what: Seq<char>, name: Seq<char>) -> Result<JsonV, Seq<char>> {
    match found {
        Some(j) => Ok(j),
        None => Err(what + " '"@ + name + "' not found"@),
    }
}

/// A lookup's answer, or the error naming what was asked for.
pub fn found_or_error(found: Option<Json>, what: &str, name: &str) -> (r: Result<Json, String>)
    ensures
        match r {
            Ok(j) => spec_found_or_error(match found { Some(f) => Some(f@), None => None }, what@, name@) == Ok::<JsonV, Seq<char>>(j@),
            Err(e) => spec_found_or_error(match found { Some(f) => Some(f@), None => None }, what@, name@) == Err::<JsonV, Seq<char>>(e@),
        },
{
    match found {
        Some(j) => Ok(j),
        None => {
            let mut msg = concat3(what, " '", name);
            msg.append("' not found");
            Err(msg)
        },
    }
}

/// The selected session a command goes to, or `No session` when nothing is
/// selected.
pub fn selected_session(state: &DesktopState) -> (r: Result<String, String>)
    ensures
        match r {
            Ok(sid) => sid@ == state@.selected_session_id && sid@.len() > 0,
            Err(e) => state@.selected_session_id.len() == 0 && e@ == "No session"@,
        },
{
    if state.selected_session_id.unicode_len() == 0 {
        Err(owned("No session"))
    } else {
        Ok(state.selected_session_id.clone())
    }
}

/// The event echoing a message the user sent to session `sid` at time
/// `millis`.
pub fn user_message_event(sid: &str, text: &str, millis: i64) -> (r: crate::transcript::FrontendEvent)
    ensures
        r.event_type@ == "user_message"@,
        r.session_id@ == sid@,
        r.data@ == JsonV::Object(seq![("text"@, JsonV::Str(text@)), ("timestamp"@, JsonV::Number(crate::text::dec_int(millis as int)))]),
{
    let mut ts = String::new();
    crate::text::push_dec_i64(&mut ts, millis);
    assert(ts@ =~= crate::text::dec_int(millis as int));
    crate::transcript::FrontendEvent {
        event_type: owned("user_message"),
        session_id: owned(sid),
        data: object2("text", jstr(text), "timestamp", Json::Number(ts)),
    }
}

} // verus!
