//! Working directory resolution and the decision taken when a session's
//! working directory changes.
use vstd::prelude::*;
use vstd::string::*;

verus! {

/// What to do when the user picks a new working directory for a session.
#[derive(Debug, Clone, Copy, PartialEq, Eq, Structural)]
pub enum CwdAction {
    /// Same as the current working directory: nothing to do.
    NoOp,
    /// The session has no history file yet: change the record in place.
    SetInPlace,
    /// The session already has history: fork a new session in the new directory.
    Fork,
}

/// The action owed for a session with the given history file and working
/// directory when `new_path` is chosen.
pub open spec fn spec_cwd_action(
    session_file: Option<Seq<char>>,
    new_path: Seq<char>,
    current_cwd: Option<Seq<char>>,
) -> CwdAction {
    if current_cwd == Some(new_path) {
        CwdAction::NoOp
    } else if session_file is None {
        CwdAction::SetInPlace
    } else {
        CwdAction::Fork
    }
}

pub open spec fn opt_view(o: Option<&str>) -> Option<Seq<char>> {
    match o {
        Some(s) => Some(s@),
        None => None,
    }
}

/// Decide the working-directory action from whether the session already has
/// a history file and whether the new path differs from the current one.
pub fn decide_cwd_action(session_file: Option<&str>, new_path: &str, current_cwd: Option<&str>) -> (a: CwdAction)
    ensures
        a == spec_cwd_action(opt_view(session_file), new_path@, opt_view(current_cwd)),
{
    let same = match current_cwd {
        Some(c) => crate::text::str_eq(c, new_path),
        None => false,
    };
    if same {
        return CwdAction::NoOp;
    }
    match session_file {
        None => CwdAction::SetInPlace,
        Some(_) => CwdAction::Fork,
    }
}


/// The working directory of a session without one: the process's current
/// directory when it can be read, else `$HOME/.pi-rs` when `HOME` is set,
/// else `/tmp`.
pub open spec fn spec_fallback_cwd(current_dir: Option<Seq<char>>, home: Option<Seq<char>>) -> Seq<char> {
    match current_dir {
        Some(d) => d,
        None => match home {
            Some(h) => h + "/.pi-rs"@,
            None => "/tmp"@,
        },
    }
}

/// A session's working directory: its stored one when non-empty, else the
/// fallback (`spec_fallback_cwd`).
pub open spec fn spec_resolve_cwd(session_cwd: Option<Seq<char>>, current_dir: Option<Seq<char>>, home: Option<Seq<char>>) -> Seq<char> {
    match session_cwd {
        Some(c) => if c.len() > 0 { c } else { spec_fallback_cwd(current_dir, home) },
        None => spec_fallback_cwd(current_dir, home),
    }
}

/// The text of an optional string.
pub open spec fn opt_string_view(o: Option<String>) -> Option<Seq<char>> {
    match o {
        Some(s) => Some(s@),
        None => None,
    }
}

/// The working directory of a session without one, from the process's
/// current directory (`None` when it cannot be read) and `HOME` (`None`
/// when unset).
pub fn fallback_cwd(current_dir: Option<String>, home: Option<String>) -> (r: String)
    ensures
        r@ == spec_fallback_cwd(opt_string_view(current_dir), opt_string_view(home)),
{
    match current_dir {
        Some(d) => d,
        None => match home {
            Some(h) => crate::text::concat2(h.as_str(), "/.pi-rs"),
            None => "/tmp".to_owned(),
        },
    }
}

/// Resolve a session's working directory: the stored one when non-empty,
/// else the process's current directory, else `$HOME/.pi-rs`, else `/tmp`.
/// The result is empty only when the current directory read is.
pub fn resolve_session_cwd(session_cwd: Option<&str>, current_dir: Option<String>, home: Option<String>) -> (r: String)
    ensures
        r@ == spec_resolve_cwd(opt_view(session_cwd), opt_string_view(current_dir), opt_string_view(home)),
        (match current_dir { Some(d) => d@.len() > 0, None => true }) ==> r@.len() > 0,
{
    match session_cwd {
        Some(c) => {
            if c.unicode_len() > 0 {
                return c.to_owned();
            }
        },
        None => {},
    }
    let r = fallback_cwd(current_dir, home);
    proof { reveal_strlit("/tmp"); reveal_strlit("/.pi-rs"); }
    r
}

/// Choosing the working directory a session already has changes nothing,
/// whatever its history.
pub proof fn lemma_same_cwd_noop(session_file: Option<Seq<char>>, path: Seq<char>)
    ensures
        spec_cwd_action(session_file, path, Some(path)) == CwdAction::NoOp,
{
}

/// A session with history is forked exactly when the new directory differs
/// from its current one; one without history is never forked.
pub proof fn lemma_fork_only_with_history(session_file: Option<Seq<char>>, new_path: Seq<char>, current_cwd: Option<Seq<char>>)
    ensures
        (spec_cwd_action(session_file, new_path, current_cwd) == CwdAction::Fork)
            <==> (session_file is Some && current_cwd != Some(new_path)),
{
}

} // verus!
