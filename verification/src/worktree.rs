//! Git worktrees: the arguments of the git commands and the reading of
//! their output.
use vstd::prelude::*;
use vstd::string::*;
use crate::text::{owned, str_eq, starts_with, seq_starts_with, spec_lines, split_lines, strs_of, utf8_lossy, spec_utf8_lossy, concat2};
use crate::json::{Json, JsonV, json_view, items_view, lemma_view_object, lemma_items_push, jstr, empty_object, object2};

verus! {

/// The entries read so far and the entry being read.
pub open spec fn wt_step(acc: (Seq<JsonV>, JsonV), line: Seq<char>) -> (Seq<JsonV>, JsonV) {
    if line.len() == 0 {
        if acc.1->Object_0.len() > 0 {
            (acc.0.push(acc.1), JsonV::Object(Seq::empty()))
        } else {
            acc
        }
    } else if seq_starts_with(line, "worktree "@) {
        (acc.0, acc.1.set("path"@, JsonV::Str(line.skip(9))))
    } else if seq_starts_with(line, "HEAD "@) {
        (acc.0, acc.1.set("head"@, JsonV::Str(line.skip(5))))
    } else if seq_starts_with(line, "branch refs/heads/"@) {
        (acc.0, acc.1.set("branch"@, JsonV::Str(line.skip(18))))
    } else if line == "bare"@ {
        (acc.0, acc.1.set("bare"@, JsonV::Bool(true)))
    } else if line == "detached"@ {
        (acc.0, acc.1.set("detached"@, JsonV::Bool(true)))
    } else {
        acc
    }
}

/// The state after reading the first `n` lines.
pub open spec fn wt_fold(lines: Seq<Seq<char>>, n: nat) -> (Seq<JsonV>, JsonV)
    decreases n,
{
    if n == 0 {
        (Seq::empty(), JsonV::Object(Seq::empty()))
    } else {
        wt_step(wt_fold(lines, (n - 1) as nat), lines[n - 1])
    }
}

/// The worktrees in the output of `git worktree list --porcelain`: one
/// entry per blank-line-separated block with its path, head, branch and
/// bare/detached flags; none when git failed.
pub open spec fn spec_list_worktrees(success: bool, stdout: Seq<u8>) -> Seq<JsonV> {
    if !success {
        Seq::empty()
    } else {
        let lines = spec_lines(spec_utf8_lossy(stdout));
        let (entries, current) = wt_fold(lines, lines.len());
        if current->Object_0.len() > 0 { entries.push(current) } else { entries }
    }
}

proof fn lemma_fold_object(lines: Seq<Seq<char>>, n: nat)
    ensures
        wt_fold(lines, n).1 is Object,
    decreases n,
{
    if n > 0 {
        lemma_fold_object(lines, (n - 1) as nat);
    }
}

fn member_count(j: &Json) -> (r: usize)
    requires
        j@ is Object,
    ensures
        r == j@->Object_0.len(),
{
    match j {
        Json::Object(m) => {
            proof { lemma_view_object(*m); }
            m.len()
        },
        _ => 0,
    }
}

/// Read the worktrees from the output of `git worktree list --porcelain`.
pub fn list_worktrees(success: bool, stdout: &[u8]) -> (r: Vec<Json>)
    ensures
        items_view(r@) == spec_list_worktrees(success, stdout@),
{
    let mut entries: Vec<Json> = Vec::new();
    if !success {
        assert(items_view(entries@) =~= Seq::<JsonV>::empty());
        return entries;
    }
    proof {
        reveal_strlit("worktree ");
        reveal_strlit("HEAD ");
        reveal_strlit("branch refs/heads/");
    }
    let text = utf8_lossy(stdout);
    let lines = split_lines(text.as_str());
    let ghost lv = strs_of(lines@);
    let mut current = empty_object();
    let mut i: usize = 0;
    while i < lines.len()
        invariant
            i <= lines@.len(),
            lv == strs_of(lines@),
            "worktree "@.len() == 9,
            "HEAD "@.len() == 5,
            "branch refs/heads/"@.len() == 18,
            (items_view(entries@), current@) == wt_fold(lv, i as nat),
        decreases lines@.len() - i,
    {
        proof { lemma_fold_object(lv, i as nat); }
        let line = lines[i].as_str();
        assert(line@ == lv[i as int]);
        let n = line.unicode_len();
        if n == 0 {
            if member_count(&current) > 0 {
                let mut done = empty_object();
                std::mem::swap(&mut done, &mut current);
                let ghost before = entries@;
                entries.push(done);
                proof { lemma_items_push(before, done); }
            }
        } else if starts_with(line, "worktree ") {
            let v = owned(line.substring_char(9, n));
            assert(v@ =~= line@.skip(9));
            current.set("path", Json::Str(v));
        } else if starts_with(line, "HEAD ") {
            let v = owned(line.substring_char(5, n));
            assert(v@ =~= line@.skip(5));
            current.set("head", Json::Str(v));
        } else if starts_with(line, "branch refs/heads/") {
            let v = owned(line.substring_char(18, n));
            assert(v@ =~= line@.skip(18));
            current.set("branch", Json::Str(v));
        } else if str_eq(line, "bare") {
            current.set("bare", Json::Bool(true));
        } else if str_eq(line, "detached") {
            current.set("detached", Json::Bool(true));
        }
        i = i + 1;
    }
    proof { lemma_fold_object(lv, i as nat); }
    if member_count(&current) > 0 {
        let ghost before = entries@;
        entries.push(current);
        proof { lemma_items_push(before, current); }
    }
    entries
}

/// The arguments of `git worktree add` for `target_path` (and a branch).
pub open spec fn spec_add_args(target_path: Seq<char>, branch: Option<Seq<char>>) -> Seq<Seq<char>> {
    match branch {
        Some(b) => seq!["worktree"@, "add"@, target_path, b],
        None => seq!["worktree"@, "add"@, target_path],
    }
}

/// The arguments of `git worktree add`.
pub fn worktree_add_args(target_path: &str, branch: Option<&str>) -> (r: Vec<String>)
    ensures
        strs_of(r@) == spec_add_args(target_path@, match branch { Some(b) => Some(b@), None => None }),
{
    let mut v: Vec<String> = Vec::new();
    v.push(owned("worktree"));
    v.push(owned("add"));
    v.push(owned(target_path));
    match branch {
        Some(b) => v.push(owned(b)),
        None => {},
    }
    assert(strs_of(v@) =~= spec_add_args(target_path@, match branch { Some(b) => Some(b@), None => None }));
    v
}

/// The arguments of `git worktree remove`.
pub fn worktree_remove_args(target_path: &str) -> (r: Vec<String>)
    ensures
        strs_of(r@) == seq!["worktree"@, "remove"@, target_path@],
{
    let mut v: Vec<String> = Vec::new();
    v.push(owned("worktree"));
    v.push(owned("remove"));
    v.push(owned(target_path));
    assert(strs_of(v@) =~= seq!["worktree"@, "remove"@, target_path@]);
    v
}

/// The answer to a worktree command that ran: the target and success, or
/// the command's error output after `git worktree <verb>: `.
pub open spec fn spec_worktree_result(verb: Seq<char>, success: bool, stderr: Seq<u8>, target_path: Seq<char>) -> Result<JsonV, Seq<char>> {
    if success {
        Ok(JsonV::Object(seq![("path"@, JsonV::Str(target_path)), ("success"@, JsonV::Bool(true))]))
    } else {
        Err("git worktree "@ + verb + ": "@ + spec_utf8_lossy(stderr))
    }
}

/// The answer to a worktree command that ran (`verb` is `add` or `remove`).
pub fn worktree_result(verb: &str, success: bool, stderr: &[u8], target_path: &str) -> (r: Result<Json, String>)
    ensures
        match r {
            Ok(j) => spec_worktree_result(verb@, success, stderr@, target_path@) == Ok::<JsonV, Seq<char>>(j@),
            Err(e) => spec_worktree_result(verb@, success, stderr@, target_path@) == Err::<JsonV, Seq<char>>(e@),
        },
{
    if success {
        Ok(object2("path", jstr(target_path), "success", Json::Bool(true)))
    } else {
        let mut msg = concat2("git worktree ", verb);
        msg.append(": ");
        msg.append(utf8_lossy(stderr).as_str());
        Err(msg)
    }
}

} // verus!
