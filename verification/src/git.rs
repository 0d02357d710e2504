//! Git output handling: the workspace file list, the changed-file list,
//! the choice of diff to show, and file previews.
use vstd::prelude::*;
use vstd::string::*;
use vstd::relations::total_ordering;
use crate::text::{owned, concat2, spec_lines, split_lines, strs_of, spec_trim, trim, spec_utf8_lossy, utf8_lossy,
    utf8_len, is_byte_boundary, skip_bytes, lemma_skip_bytes, char_index_at_byte, find_seq, find_str, u64_to_dec, dec_nat};
use crate::order::{lex_le, str_lex_le, views, insertion_sort, lemma_lex_refl, lemma_lex_antisym, lemma_lex_trans, lemma_lex_total};
use crate::json::{Json, JsonV, items_view, members_view, lemma_view_object};

verus! {

pub open spec fn lex_order() -> spec_fn(Seq<char>, Seq<char>) -> bool {
    |a: Seq<char>, b: Seq<char>| lex_le(a, b)
}

pub proof fn lemma_lex_order_total()
    ensures
        total_ordering(lex_order()),
{
    let f = lex_order();
    assert forall|a: Seq<char>| #[trigger] f(a, a) by { lemma_lex_refl(a); }
    assert forall|a: Seq<char>, b: Seq<char>| #[trigger] f(a, b) && #[trigger] f(b, a) implies a == b by {
        lemma_lex_antisym(a, b);
    }
    assert forall|a: Seq<char>, b: Seq<char>, c: Seq<char>| #[trigger] f(a, b) && #[trigger] f(b, c) implies f(a, c) by {
        lemma_lex_trans(a, b, c);
    }
    assert forall|a: Seq<char>, b: Seq<char>| #[trigger] f(a, b) || #[trigger] f(b, a) by {
        lemma_lex_total(a, b);
    }
}

fn string_le(a: &String, b: &String) -> (r: bool)
    ensures
        r == lex_le(a@, b@),
{
    str_lex_le(a.as_str(), b.as_str())
}

/// The tracked and untracked files that `git ls-files` printed: lines
/// trimmed, blank ones dropped, sorted. A failed run lists nothing.
pub open spec fn spec_list_workspace_files(success: bool, stdout: Seq<u8>) -> Seq<Seq<char>> {
    if !success {
        Seq::empty()
    } else {
        spec_lines(spec_utf8_lossy(stdout)).map_values(|l: Seq<char>| spec_trim(l)).filter(|l: Seq<char>| l.len() > 0).sort_by(lex_order())
    }
}

/// The workspace files from the output of `git ls-files --cached --others
/// --exclude-standard` (`success` tells whether git exited successfully).
pub fn list_workspace_files(success: bool, stdout: &[u8]) -> (r: Vec<String>)
    ensures
        strs_of(r@) == spec_list_workspace_files(success, stdout@),
{
    if !success {
        let v: Vec<String> = Vec::new();
        assert(strs_of(v@) =~= Seq::<Seq<char>>::empty());
        return v;
    }
    let text = utf8_lossy(stdout);
    let lines = split_lines(text.as_str());
    let ghost lv = strs_of(lines@);
    let ghost tv = lv.map_values(|l: Seq<char>| spec_trim(l));
    let ghost pred = |l: Seq<char>| l.len() > 0;
    let mut files: Vec<String> = Vec::new();
    let mut i: usize = 0;
    while i < lines.len()
        invariant
            i <= lines@.len(),
            lv == strs_of(lines@),
            tv == lv.map_values(|l: Seq<char>| spec_trim(l)),
            pred == (|l: Seq<char>| l.len() > 0),
            strs_of(files@) == tv.take(i as int).filter(pred),
        decreases lines@.len() - i,
    {
        let t = trim(lines[i].as_str());
        proof {
            assert(tv.take(i as int + 1) =~= tv.take(i as int).push(t@));
            tv.take(i as int).lemma_filter_push(t@, pred);
        }
        let ghost before = strs_of(files@);
        if t.as_str().unicode_len() > 0 {
            files.push(t);
            assert(strs_of(files@) =~= before.push(tv[i as int]));
        }
        i = i + 1;
    }
    assert(tv.take(i as int) =~= tv);
    proof { lemma_lex_order_total(); }
    let sorted = insertion_sort(files, Ghost(lex_order()), string_le);
    proof {
        assert(views(files@) =~= strs_of(files@));
        assert(views(sorted@) =~= strs_of(sorted@));
    }
    sorted
}

/// The state git reports for a two-letter status code.
pub open spec fn spec_status_name(x: char, y: char) -> Seq<char> {
    if x == '?' && y == '?' {
        "untracked"@
    } else if x == 'A' || y == 'A' {
        "added"@
    } else if x == 'D' || y == 'D' {
        "deleted"@
    } else {
        "modified"@
    }
}

/// The path part of a status line (after the first three bytes, trimmed;
/// for a rename, the new name).
pub open spec fn spec_status_path(line: Seq<char>) -> Seq<char> {
    let p = spec_trim(skip_bytes(line, 3));
    match find_seq(p, " -> "@) {
        Some(a) => p.skip(a + 4),
        None => p,
    }
}

pub open spec fn code_x(line: Seq<char>) -> char {
    if line.len() > 0 { line[0] } else { ' ' }
}

pub open spec fn code_y(line: Seq<char>) -> char {
    if line.len() > 1 { line[1] } else { ' ' }
}

/// One changed file as the frontend reads it.
pub open spec fn spec_status_entry(line: Seq<char>) -> JsonV {
    let x = code_x(line);
    let y = code_y(line);
    JsonV::Object(seq![
        ("path"@, JsonV::Str(spec_status_path(line))),
        ("status"@, JsonV::Str(spec_status_name(x, y))),
        ("staged"@, JsonV::Bool(x != '?' && x != ' ' && y == ' ')),
    ])
}

/// The non-blank lines of git's status output.
pub open spec fn status_lines(stdout: Seq<u8>) -> Seq<Seq<char>> {
    spec_lines(spec_utf8_lossy(stdout)).filter(|l: Seq<char>| spec_trim(l).len() > 0)
}

/// Every non-blank status line has a character boundary at byte 3 (where
/// the path starts).
pub open spec fn status_lines_well_formed(stdout: Seq<u8>) -> bool {
    forall|i: int| 0 <= i < status_lines(stdout).len() ==> is_byte_boundary(#[trigger] status_lines(stdout)[i], 3)
}

/// The changed files listed by `git status --porcelain`.
pub open spec fn spec_changed_files(success: bool, stdout: Seq<u8>) -> Seq<JsonV> {
    if !success {
        Seq::empty()
    } else {
        status_lines(stdout).map_values(|l: Seq<char>| spec_status_entry(l))
    }
}

/// What a two-letter porcelain code is reported as: `??` is untracked; an
/// `A` in either column is added; otherwise a `D` in either column is
/// deleted; every other code is modified.
pub proof fn lemma_status_names(x: char, y: char)
    ensures
        x == '?' && y == '?' ==> spec_status_name(x, y) == "untracked"@,
        !(x == '?' && y == '?') && (x == 'A' || y == 'A') ==> spec_status_name(x, y) == "added"@,
        (x == 'D' || y == 'D') && x != 'A' && y != 'A' ==> spec_status_name(x, y) == "deleted"@,
        x != 'A' && y != 'A' && x != 'D' && y != 'D' && !(x == '?' && y == '?') ==> spec_status_name(x, y) == "modified"@,
{
}

/// Each listed changed file carries, for its status line, the status the
/// line's two-letter code names (first two characters, a space where the
/// line is shorter): untracked for `??`, added for an `A`, deleted for a
/// `D` (without an `A`), modified otherwise; it is staged when the first
/// column holds a change and the second is blank.
pub proof fn lemma_changed_file_status(success: bool, stdout: Seq<u8>, k: int)
    requires
        success,
        0 <= k < status_lines(stdout).len(),
    ensures
        ({
            let line = status_lines(stdout)[k];
            let x = if line.len() > 0 { line[0] } else { ' ' };
            let y = if line.len() > 1 { line[1] } else { ' ' };
            let e = spec_changed_files(success, stdout)[k];
            &&& spec_changed_files(success, stdout).len() == status_lines(stdout).len()
            &&& x == '?' && y == '?' ==> e.get("status"@) == JsonV::Str("untracked"@)
            &&& !(x == '?' && y == '?') && (x == 'A' || y == 'A') ==> e.get("status"@) == JsonV::Str("added"@)
            &&& (x == 'D' || y == 'D') && x != 'A' && y != 'A' ==> e.get("status"@) == JsonV::Str("deleted"@)
            &&& x != 'A' && y != 'A' && x != 'D' && y != 'D' && !(x == '?' && y == '?') ==> e.get("status"@) == JsonV::Str("modified"@)
            &&& e.get("staged"@) == JsonV::Bool(x != '?' && x != ' ' && y == ' ')
        }),
{
    let line = status_lines(stdout)[k];
    let m = spec_status_entry(line)->Object_0;
    reveal_strlit("path");
    reveal_strlit("status");
    reveal_strlit("staged");
    assert("path"@ != "status"@) by { assert("path"@.len() != "status"@.len()); }
    assert("path"@ != "staged"@) by { assert("path"@.len() != "staged"@.len()); }
    assert("status"@ != "staged"@) by { assert("status"@[3] != "staged"@[3]); }
    assert(crate::json::key_at(m, "status"@, 1));
    crate::json::lemma_first_key(m, "status"@, 1);
    assert(crate::json::key_at(m, "staged"@, 2));
    crate::json::lemma_first_key(m, "staged"@, 2);
}

fn status_name(x: char, y: char) -> (r: String)
    ensures
        r@ == spec_status_name(x, y),
{
    if x == '?' && y == '?' {
        owned("untracked")
    } else if x == 'A' || y == 'A' {
        owned("added")
    } else if x == 'D' || y == 'D' {
        owned("deleted")
    } else {
        owned("modified")
    }
}

fn status_entry(line: &str) -> (r: Json)
    requires
        is_byte_boundary(line@, 3),
    ensures
        r@ == spec_status_entry(line@),
{
    let n = line.unicode_len();
    let x = if n > 0 { line.get_char(0) } else { ' ' };
    let y = if n > 1 { line.get_char(1) } else { ' ' };
    let k = match char_index_at_byte(line, 3) {
        Some(k) => k,
        None => 0,
    };
    proof { lemma_skip_bytes(line@, 3, k as int); }
    let tail = line.substring_char(k, n);
    assert(tail@ =~= line@.skip(k as int));
    let p = trim(tail);
    let path = match find_str(p.as_str(), " -> ") {
        Some(a) => {
            proof { reveal_strlit(" -> "); }
            let pn = p.as_str().unicode_len();
            let t = p.as_str().substring_char(a + 4, pn);
            assert(t@ =~= p@.skip(a + 4));
            owned(t)
        },
        None => p,
    };
    let staged = x != '?' && x != ' ' && y == ' ';
    let ghost (pv, sv) = (path@, spec_status_name(x, y));
    let mut m: Vec<(String, Json)> = Vec::new();
    m.push((owned("path"), Json::Str(path)));
    m.push((owned("status"), Json::Str(status_name(x, y))));
    m.push((owned("staged"), Json::Bool(staged)));
    proof {
        lemma_view_object(m);
        assert(members_view(m@) =~= spec_status_entry(line@)->Object_0);
    }
    Json::Object(m)
}

/// The changed files from the output of `git status --porcelain`
/// (`success` tells whether git exited successfully).
pub fn get_changed_files(success: bool, stdout: &[u8]) -> (r: Vec<Json>)
    requires
        success ==> status_lines_well_formed(stdout@),
    ensures
        items_view(r@) == spec_changed_files(success, stdout@),
{
    let mut out: Vec<Json> = Vec::new();
    if !success {
        assert(items_view(out@) =~= Seq::<JsonV>::empty());
        return out;
    }
    let text = utf8_lossy(stdout);
    let lines = split_lines(text.as_str());
    let ghost lv = strs_of(lines@);
    let ghost pred = |l: Seq<char>| spec_trim(l).len() > 0;
    let ghost kept = lv.filter(pred);
    let ghost f = |l: Seq<char>| spec_status_entry(l);
    let mut i: usize = 0;
    while i < lines.len()
        invariant
            i <= lines@.len(),
            lv == strs_of(lines@),
            lv == spec_lines(spec_utf8_lossy(stdout@)),
            pred == (|l: Seq<char>| spec_trim(l).len() > 0),
            kept == lv.filter(pred),
            kept == status_lines(stdout@),
            f == (|l: Seq<char>| spec_status_entry(l)),
            status_lines_well_formed(stdout@),
            items_view(out@) == lv.take(i as int).filter(pred).map_values(f),
            lv.take(i as int).filter(pred).len() <= kept.len(),
            forall|q: int| 0 <= q < lv.take(i as int).filter(pred).len() ==> lv.take(i as int).filter(pred)[q] == kept[q],
        decreases lines@.len() - i,
    {
        let ghost pre = lv.take(i as int).filter(pred);
        proof {
            assert(lv.take(i as int + 1) =~= lv.take(i as int).push(lv[i as int]));
            lv.take(i as int).lemma_filter_push(lv[i as int], pred);
        }
        let t = trim(lines[i].as_str());
        if t.as_str().unicode_len() > 0 {
            proof {
                // the line is the next kept one
                assert(lv.take(i as int + 1).filter(pred) == pre.push(lv[i as int]));
                lemma_filter_prefix(lv, pred, i as int + 1);
                assert(lv.take(i as int + 1).filter(pred)[pre.len() as int] == kept[pre.len() as int]);
                assert(is_byte_boundary(kept[pre.len() as int], 3));
            }
            let e = status_entry(lines[i].as_str());
            let ghost before = items_view(out@);
            out.push(e);
            proof {
                assert(items_view(out@) =~= before.push(f(lv[i as int])));
                assert(pre.push(lv[i as int]).map_values(f) =~= pre.map_values(f).push(f(lv[i as int])));
            }
        }
        proof { lemma_filter_prefix(lv, pred, i as int + 1); }
        i = i + 1;
    }
    assert(lv.take(i as int) =~= lv);
    out
}

/// The filtered prefix is a prefix of the filtered whole.
pub proof fn lemma_filter_prefix(s: Seq<Seq<char>>, pred: spec_fn(Seq<char>) -> bool, k: int)
    requires
        0 <= k <= s.len(),
    ensures
        s.take(k).filter(pred).len() <= s.filter(pred).len(),
        forall|q: int| 0 <= q < s.take(k).filter(pred).len() ==> s.take(k).filter(pred)[q] == s.filter(pred)[q],
    decreases s.len() - k,
{
    if k < s.len() {
        lemma_filter_prefix(s, pred, k + 1);
        assert(s.take(k + 1) =~= s.take(k).push(s[k]));
        s.take(k).lemma_filter_push(s[k], pred);
    } else {
        assert(s.take(k) =~= s);
    }
}

/// The changed files when every non-blank status line is well formed, else
/// `None` (where the parse above would have no path to read).
pub fn changed_files_checked(success: bool, stdout: &[u8]) -> (r: Option<Vec<Json>>)
    ensures
        match r {
            Some(v) => (success ==> status_lines_well_formed(stdout@)) && items_view(v@) == spec_changed_files(success, stdout@),
            None => success && !status_lines_well_formed(stdout@),
        },
{
    if !success {
        return Some(get_changed_files(success, stdout));
    }
    let text = utf8_lossy(stdout);
    let lines = split_lines(text.as_str());
    let ghost lv = strs_of(lines@);
    let ghost pred = |l: Seq<char>| spec_trim(l).len() > 0;
    let mut i: usize = 0;
    while i < lines.len()
        invariant
            i <= lines@.len(),
            lv == strs_of(lines@),
            lv == spec_lines(spec_utf8_lossy(stdout@)),
            pred == (|l: Seq<char>| spec_trim(l).len() > 0),
            success,
            forall|q: int| 0 <= q < lv.take(i as int).filter(pred).len() ==> is_byte_boundary(#[trigger] lv.take(i as int).filter(pred)[q], 3),
        decreases lines@.len() - i,
    {
        let ghost pre = lv.take(i as int).filter(pred);
        proof {
            assert(lv.take(i as int + 1) =~= lv.take(i as int).push(lv[i as int]));
            lv.take(i as int).lemma_filter_push(lv[i as int], pred);
        }
        let t = trim(lines[i].as_str());
        if t.as_str().unicode_len() > 0 {
            if char_index_at_byte(lines[i].as_str(), 3).is_none() {
                proof {
                    lemma_filter_prefix(lv, pred, i as int + 1);
                    assert(lv.take(i as int + 1).filter(pred)[pre.len() as int] == lv[i as int]);
                    assert(status_lines(stdout@) == lv.filter(pred));
                    assert(status_lines(stdout@)[pre.len() as int] == lv[i as int]);
                    assert(!is_byte_boundary(status_lines(stdout@)[pre.len() as int], 3));
                }
                return None;
            }
        }
        i = i + 1;
    }
    assert(lv.take(i as int) =~= lv);
    Some(get_changed_files(success, stdout))
}

/// The next step in showing a file's diff: run git with these arguments, or
/// answer with this result.
pub enum DiffAction {
    Run(Vec<String>),
    Done(Result<String, String>),
}

/// The git arguments of diff attempt `k`: the working tree, then the index,
/// then the file against `/dev/null` (untracked).
pub open spec fn spec_diff_args(k: int, file_path: Seq<char>) -> Seq<Seq<char>> {
    if k == 0 {
        seq!["diff"@, "--"@, file_path]
    } else if k == 1 {
        seq!["diff"@, "--cached"@, "--"@, file_path]
    } else {
        seq!["diff"@, "--no-index"@, "--"@, "/dev/null"@, file_path]
    }
}

/// A diff result worth showing: git ran and printed something besides white
/// space.
pub open spec fn usable_diff(r: Result<Seq<char>, Seq<char>>) -> bool {
    match r {
        Ok(d) => spec_trim(d).len() > 0,
        Err(_) => false,
    }
}

pub open spec fn res_view(r: Result<String, String>) -> Result<Seq<char>, Seq<char>> {
    match r {
        Ok(s) => Ok(s@),
        Err(e) => Err(e@),
    }
}

/// What to do after the attempts whose results are `results`.
pub open spec fn spec_diff_action(file_path: Seq<char>, results: Seq<Result<Seq<char>, Seq<char>>>) -> (bool, Seq<Seq<char>>, Result<Seq<char>, Seq<char>>) {
    let k = results.len();
    if k == 0 {
        (false, spec_diff_args(0, file_path), Ok(Seq::empty()))
    } else if usable_diff(results[k - 1]) || k >= 3 {
        (true, Seq::empty(), results[k - 1])
    } else {
        (false, spec_diff_args(k as int, file_path), Ok(Seq::empty()))
    }
}

pub open spec fn action_view(a: DiffAction) -> (bool, Seq<Seq<char>>, Result<Seq<char>, Seq<char>>) {
    match a {
        DiffAction::Run(args) => (false, strs_of(args@), Ok(Seq::empty())),
        DiffAction::Done(r) => (true, Seq::empty(), res_view(r)),
    }
}

fn clone_result(r: &Result<String, String>) -> (c: Result<String, String>)
    ensures
        res_view(c) == res_view(*r),
{
    match r {
        Ok(s) => Ok(s.clone()),
        Err(e) => Err(e.clone()),
    }
}

/// Decide the next step in showing `file_path`'s diff from the results of
/// the git runs so far: the working-tree diff, then the staged diff, then
/// the untracked-file diff; the first one with content (or the last one)
/// is the answer.
pub fn get_file_diff(file_path: &str, results: &Vec<Result<String, String>>) -> (r: DiffAction)
    requires
        results@.len() <= 3,
    ensures
        action_view(r) == spec_diff_action(file_path@, Seq::new(results@.len(), |i: int| res_view(results@[i]))),
{
    let ghost rv = Seq::new(results@.len(), |i: int| res_view(results@[i]));
    let k = results.len();
    if k > 0 {
        let last = &results[k - 1];
        let usable = match last {
            Ok(d) => trim(d.as_str()).as_str().unicode_len() > 0,
            Err(_) => false,
        };
        assert(usable == usable_diff(rv[k - 1]));
        if usable || k >= 3 {
            return DiffAction::Done(clone_result(last));
        }
    }
    let mut args: Vec<String> = Vec::new();
    args.push(owned("diff"));
    if k == 1 {
        args.push(owned("--cached"));
    } else if k == 2 {
        args.push(owned("--no-index"));
    }
    args.push(owned("--"));
    if k == 2 {
        args.push(owned("/dev/null"));
    }
    args.push(owned(file_path));
    assert(strs_of(args@) =~= spec_diff_args(k as int, file_path@));
    DiffAction::Run(args)
}

/// The result of one git diff run, from the bytes git printed or the error
/// of starting it: the output as text, or the error behind
/// `git diff failed: `.
pub open spec fn spec_diff_run(run: Result<Seq<u8>, Seq<char>>) -> Result<Seq<char>, Seq<char>> {
    match run {
        Ok(b) => Ok(spec_utf8_lossy(b)),
        Err(e) => Err("git diff failed: "@ + e),
    }
}

/// Turn one git diff run into the result the diff steps read.
pub fn diff_run_result(run: Result<Vec<u8>, String>) -> (r: Result<String, String>)
    ensures
        res_view(r) == spec_diff_run(match run { Ok(b) => Ok(b@), Err(e) => Err(e@) }),
{
    match run {
        Ok(b) => Ok(utf8_lossy(b.as_slice())),
        Err(e) => Err(concat2("git diff failed: ", e.as_str())),
    }
}

/// The largest preview read from a file.
pub const MAX_PREVIEW_BYTES: u64 = 204800;

/// Whether a byte sequence holds a zero byte.
pub open spec fn has_zero(b: Seq<u8>) -> bool {
    exists|i: int| 0 <= i < b.len() && b[i] == 0
}

/// The preview of a workspace file as the frontend reads it, from whether
/// it is a regular file, its size and the bytes read from its start.
pub open spec fn spec_file_preview(file_path: Seq<char>, is_file: bool, size: u64, read: Seq<u8>) -> JsonV {
    if !is_file {
        JsonV::Object(seq![
            ("path"@, JsonV::Str(file_path)),
            ("content"@, JsonV::Str(Seq::empty())),
            ("truncated"@, JsonV::Bool(false)),
            ("binary"@, JsonV::Bool(true)),
            ("sizeBytes"@, JsonV::Number(dec_nat(size as nat))),
        ])
    } else {
        let preview = if read.len() > MAX_PREVIEW_BYTES { read.take(MAX_PREVIEW_BYTES as int) } else { read };
        let binary = has_zero(preview);
        JsonV::Object(seq![
            ("path"@, JsonV::Str(file_path)),
            ("content"@, JsonV::Str(if binary { Seq::empty() } else { spec_utf8_lossy(preview) })),
            ("truncated"@, JsonV::Bool(read.len() > MAX_PREVIEW_BYTES || size > MAX_PREVIEW_BYTES)),
            ("binary"@, JsonV::Bool(binary)),
            ("sizeBytes"@, JsonV::Number(dec_nat(size as nat))),
        ])
    }
}

/// What a preview says of a file. For a regular file: `truncated` holds
/// exactly when the file's size or the bytes read exceed the preview limit;
/// `binary` exactly when a zero byte occurs among the first limit's worth of
/// bytes read; a file that is neither truncated nor binary is shown whole
/// (its content is all the bytes read, as text); a binary file shows no
/// content. Anything else is shown as binary, empty and not truncated. The
/// size is always reported.
pub proof fn lemma_file_preview_flags(file_path: Seq<char>, is_file: bool, size: u64, read: Seq<u8>)
    ensures
        ({
            let r = spec_file_preview(file_path, is_file, size, read);
            let limit = MAX_PREVIEW_BYTES as int;
            &&& r.get("path"@) == JsonV::Str(file_path)
            &&& r.get("sizeBytes"@) == JsonV::Number(dec_nat(size as nat))
            &&& is_file ==> r.get("truncated"@) == JsonV::Bool(read.len() > limit || size > limit)
            &&& is_file ==> (r.get("binary"@) == JsonV::Bool(true)
                <==> exists|i: int| 0 <= i < read.len() && i < limit && read[i] == 0)
            &&& is_file && r.get("truncated"@) == JsonV::Bool(false) && r.get("binary"@) == JsonV::Bool(false)
                ==> r.get("content"@) == JsonV::Str(spec_utf8_lossy(read))
            &&& r.get("binary"@) == JsonV::Bool(true) ==> r.get("content"@) == JsonV::Str(Seq::empty())
            &&& !is_file ==> r.get("truncated"@) == JsonV::Bool(false) && r.get("binary"@) == JsonV::Bool(true)
        }),
{
    let r = spec_file_preview(file_path, is_file, size, read);
    let m = r->Object_0;
    reveal_strlit("path");
    reveal_strlit("content");
    reveal_strlit("truncated");
    reveal_strlit("binary");
    reveal_strlit("sizeBytes");
    assert("truncated"@ != "sizeBytes"@) by { assert("truncated"@[0] != "sizeBytes"@[0]); }
    assert("path"@ != "content"@) by { assert("path"@.len() != "content"@.len()); }
    assert("path"@ != "truncated"@) by { assert("path"@.len() != "truncated"@.len()); }
    assert("content"@ != "truncated"@) by { assert("content"@.len() != "truncated"@.len()); }
    assert("binary"@ != "path"@ && "binary"@ != "content"@ && "binary"@ != "truncated"@) by {
        assert("binary"@.len() == 6 && "path"@.len() == 4 && "content"@.len() == 7 && "truncated"@.len() == 9);
    }
    assert("sizeBytes"@ != "path"@ && "sizeBytes"@ != "content"@ && "sizeBytes"@ != "binary"@) by {
        assert("sizeBytes"@.len() == 9 && "path"@.len() == 4 && "content"@.len() == 7 && "binary"@.len() == 6);
    }
    assert(m[0].0 == "path"@);
    assert(m[1].0 == "content"@);
    assert(m[2].0 == "truncated"@);
    assert(m[3].0 == "binary"@);
    assert(crate::json::key_at(m, "path"@, 0));
    crate::json::lemma_first_key(m, "path"@, 0);
    assert(crate::json::key_at(m, "content"@, 1));
    crate::json::lemma_first_key(m, "content"@, 1);
    assert(crate::json::key_at(m, "truncated"@, 2));
    crate::json::lemma_first_key(m, "truncated"@, 2);
    assert(crate::json::key_at(m, "binary"@, 3));
    crate::json::lemma_first_key(m, "binary"@, 3);
    assert(crate::json::key_at(m, "sizeBytes"@, 4));
    crate::json::lemma_first_key(m, "sizeBytes"@, 4);
    if is_file {
        let limit = MAX_PREVIEW_BYTES as int;
        let preview = if read.len() > limit { read.take(limit) } else { read };
        if has_zero(preview) {
            let i = choose|i: int| 0 <= i < preview.len() && preview[i] == 0;
            assert(read[i] == 0);
        }
        if exists|i: int| 0 <= i < read.len() && i < limit && read[i] == 0 {
            let i = choose|i: int| 0 <= i < read.len() && i < limit && read[i] == 0;
            assert(preview[i] == 0);
        }
    }
}

/// Build a file preview: the first 200 KiB as text unless it holds a zero
/// byte (then binary, no content).
pub fn read_workspace_file(file_path: &str, is_file: bool, size: u64, read: &[u8]) -> (r: Json)
    ensures
        r@ == spec_file_preview(file_path@, is_file, size, read@),
{
    let mut m: Vec<(String, Json)> = Vec::new();
    if !is_file {
        m.push((owned("path"), Json::Str(owned(file_path))));
        m.push((owned("content"), Json::Str(String::new())));
        m.push((owned("truncated"), Json::Bool(false)));
        m.push((owned("binary"), Json::Bool(true)));
        m.push((owned("sizeBytes"), Json::Number(u64_to_dec(size))));
        proof {
            lemma_view_object(m);
            assert(members_view(m@) =~= spec_file_preview(file_path@, is_file, size, read@)->Object_0);
        }
        return Json::Object(m);
    }
    let n = read.len();
    let plen: usize = if (n as u64) > MAX_PREVIEW_BYTES { MAX_PREVIEW_BYTES as usize } else { n };
    let mut preview: Vec<u8> = Vec::new();
    let mut binary = false;
    let mut i: usize = 0;
    while i < plen
        invariant
            plen <= read@.len(),
            i <= plen,
            preview@ == read@.take(i as int),
            binary == has_zero(read@.take(i as int)),
        decreases plen - i,
    {
        let b = read[i];
        preview.push(b);
        if b == 0 {
            binary = true;
        }
        proof {
            assert(read@.take(i as int + 1) =~= read@.take(i as int).push(b));
            let ghost pv = read@.take(i as int);
            if has_zero(pv) {
                let w = choose|w: int| 0 <= w < pv.len() && #[trigger] pv[w] == 0;
                assert(read@.take(i as int + 1)[w] == 0);
            }
            let ghost nx = read@.take(i as int + 1);
            if b == 0 {
                assert(nx[i as int] == 0);
            }
            if has_zero(nx) && b != 0 {
                let w = choose|w: int| 0 <= w < nx.len() && #[trigger] nx[w] == 0;
                assert(read@.take(i as int)[w] == 0);
            }
        }
        i = i + 1;
    }
    proof {
        if read@.len() <= MAX_PREVIEW_BYTES {
            assert(read@.take(plen as int) =~= read@);
        }
    }
    let content = if binary { String::new() } else { utf8_lossy(preview.as_slice()) };
    let truncated = (n as u64) > MAX_PREVIEW_BYTES || size > MAX_PREVIEW_BYTES;
    m.push((owned("path"), Json::Str(owned(file_path))));
    let ghost cv = content@;
    m.push((owned("content"), Json::Str(content)));
    m.push((owned("truncated"), Json::Bool(truncated)));
    m.push((owned("binary"), Json::Bool(binary)));
    m.push((owned("sizeBytes"), Json::Number(u64_to_dec(size))));
    proof {
        lemma_view_object(m);
        assert(members_view(m@) =~= spec_file_preview(file_path@, is_file, size, read@)->Object_0);
    }
    Json::Object(m)
}

/// The arguments of `git add` for one file.
pub fn stage_args(file_path: &str) -> (r: Vec<String>)
    ensures
        strs_of(r@) == seq!["add"@, "--"@, file_path@],
{
    let mut v: Vec<String> = Vec::new();
    v.push(owned("add"));
    v.push(owned("--"));
    v.push(owned(file_path));
    assert(strs_of(v@) =~= seq!["add"@, "--"@, file_path@]);
    v
}

/// The answer to `git add`: done, or its error output.
pub open spec fn spec_stage_result(success: bool, stderr: Seq<u8>) -> Result<(), Seq<char>> {
    if success { Ok(()) } else { Err("git add failed: "@ + spec_utf8_lossy(stderr)) }
}

/// The answer to `git add` once it ran.
pub fn stage_result(success: bool, stderr: &[u8]) -> (r: Result<(), String>)
    ensures
        match r {
            Ok(()) => spec_stage_result(success, stderr@) == Ok::<(), Seq<char>>(()),
            Err(e) => spec_stage_result(success, stderr@) == Err::<(), Seq<char>>(e@),
        },
{
    if success {
        Ok(())
    } else {
        let mut msg = owned("git add failed: ");
        msg.append(utf8_lossy(stderr).as_str());
        Err(msg)
    }
}

} // verus!
