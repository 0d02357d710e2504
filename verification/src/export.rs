//! Session export formats and project trust answers.
use vstd::prelude::*;
use crate::text::{owned, str_eq, concat3};
use crate::json::{Json, JsonV, jstr, object2};

verus! {

/// A format a session can be exported to.
#[derive(Debug, Clone, Copy, PartialEq, Eq, Structural)]
pub enum ExportFormat {
    /// Rendered HTML.
    Html,
    /// A copy of the session file.
    Jsonl,
}

/// The export format named `format`, or the error for any other name.
pub open spec fn spec_export_format(format: Seq<char>) -> Result<ExportFormat, Seq<char>> {
    if format == "html"@ {
        Ok(ExportFormat::Html)
    } else if format == "jsonl"@ {
        Ok(ExportFormat::Jsonl)
    } else {
        Err("unsupported export format '"@ + format + "'"@)
    }
}

/// The export format named `format`.
pub fn export_format(format: &str) -> (r: Result<ExportFormat, String>)
    ensures
        match r {
            Ok(f) => spec_export_format(format@) == Ok::<ExportFormat, Seq<char>>(f),
            Err(e) => spec_export_format(format@) == Err::<ExportFormat, Seq<char>>(e@),
        },
{
    if str_eq(format, "html") {
        Ok(ExportFormat::Html)
    } else if str_eq(format, "jsonl") {
        Ok(ExportFormat::Jsonl)
    } else {
        Err(concat3("unsupported export format '", format, "'"))
    }
}

/// The trust answer for a project directory: trusted, ignored, or unset.
pub open spec fn spec_trust_json(cwd: Seq<char>, decision: Option<bool>) -> JsonV {
    JsonV::Object(seq![
        ("cwd"@, JsonV::Str(cwd)),
        ("decision"@, decision_json(decision)),
    ])
}

/// A trust decision in JSON: a bool, or `null` when unset.
pub open spec fn decision_json(decision: Option<bool>) -> JsonV {
    match decision {
        Some(b) => JsonV::Bool(b),
        None => JsonV::Null,
    }
}

/// The trust answer for a project directory.
pub fn trust_json(cwd: &str, decision: Option<bool>) -> (r: Json)
    ensures
        r@ == spec_trust_json(cwd@, decision),
{
    let d = match decision {
        Some(b) => Json::Bool(b),
        None => Json::Null,
    };
    assert(d@ == decision_json(decision));
    object2("cwd", jstr(cwd), "decision", d)
}

} // verus!
