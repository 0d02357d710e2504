//! The embedded terminal dock: which shell a new tab runs, finding a tab by
//! id, and the output event a tab emits.
use vstd::prelude::*;
use crate::text::{owned, str_eq, utf8_lossy, spec_utf8_lossy};
use crate::json::{Json, JsonV, jstr, object2};
use crate::state::strs_view;

verus! {

/// The shell a new terminal runs: `$SHELL`, else `/bin/zsh`.
pub open spec fn spec_shell(env_shell: Option<Seq<char>>) -> Seq<char> {
    match env_shell {
        Some(s) => s,
        None => "/bin/zsh"@,
    }
}

/// The shell a new terminal runs, given the value of `$SHELL` (when set and
/// valid Unicode).
pub fn shell_or_default(env_shell: Option<String>) -> (r: String)
    ensures
        r@ == spec_shell(match env_shell { Some(s) => Some(s@), None => None }),
{
    match env_shell {
        Some(s) => s,
        None => owned("/bin/zsh"),
    }
}

/// `i` is the first terminal with id `id`.
pub open spec fn is_first_terminal(ids: Seq<Seq<char>>, id: Seq<char>, i: int) -> bool {
    &&& 0 <= i < ids.len()
    &&& ids[i] == id
    &&& forall|j: int| 0 <= j < i ==> ids[j] != id
}

/// The position of terminal `id` among the open terminals, or the error when
/// there is none.
pub fn find_terminal(ids: &Vec<String>, id: &str) -> (r: Result<usize, String>)
    ensures
        match r {
            Ok(i) => is_first_terminal(strs_view(ids@), id@, i as int),
            Err(e) => e@ == "terminal not found"@ && forall|j: int| 0 <= j < ids@.len() ==> #[trigger] ids@[j]@ != id@,
        },
{
    let mut i: usize = 0;
    while i < ids.len()
        invariant
            i <= ids@.len(),
            forall|j: int| 0 <= j < i ==> #[trigger] ids@[j]@ != id@,
        decreases ids@.len() - i,
    {
        if str_eq(ids[i].as_str(), id) {
            return Ok(i);
        }
        i = i + 1;
    }
    Err(owned("terminal not found"))
}

/// The event payload for output read from a terminal: the bytes decoded as
/// UTF-8, invalid sequences replaced.
pub open spec fn spec_terminal_output(session_id: Seq<char>, data: Seq<u8>) -> JsonV {
    JsonV::Object(seq![("sessionId"@, JsonV::Str(session_id)), ("data"@, JsonV::Str(spec_utf8_lossy(data)))])
}

/// The event payload for output read from a terminal.
pub fn terminal_output(session_id: &str, data: &[u8]) -> (r: Json)
    ensures
        r@ == spec_terminal_output(session_id@, data@),
{
    object2("sessionId", jstr(session_id), "data", Json::Str(utf8_lossy(data)))
}

} // verus!
