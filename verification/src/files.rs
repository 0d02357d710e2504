//! Workspace file completion for the composer's `@` mention: query scoping,
//! entry scoring and the ranking of walked entries.
use vstd::prelude::*;
use vstd::string::*;
use vstd::relations::total_ordering;
use crate::text::{owned, concat2, concat3, seq_starts_with, seq_contains, slashes, normalize_slashes, last_index_of,
    rfind_char, starts_with, contains, spec_lowercase, to_lowercase, str_eq};
use crate::order::{lex_le, str_lex_le, views, insertion_sort, lemma_lex_refl, lemma_lex_antisym, lemma_lex_trans, lemma_lex_total};
use crate::json::{Json, JsonV, json_view, items_view, members_view, lemma_view_object};

verus! {

/// The most completions returned.
pub const MAX_RESULTS: usize = 20;

/// The final component of a path as std's `Path::file_name` gives it
/// (`None` for a path ending in `..` or made only of a root); a function of
/// the path alone.
pub uninterp spec fn spec_file_name(path: Seq<char>) -> Option<Seq<char>>;

/// std `Path::file_name`, as text. The contract only names the result.
#[verifier::external_body]
fn path_file_name(path: &str) -> (r: Option<String>)
    ensures
        match r {
            Some(n) => spec_file_name(path@) == Some(n@),
            None => spec_file_name(path@) is None,
        },
{
    std::path::Path::new(path).file_name().map(|n| n.to_string_lossy().to_string())
}

/// `base` joined with the relative path `rel` as std's `Path::join` does it;
/// a function of the two paths alone.
pub uninterp spec fn spec_path_join(base: Seq<char>, rel: Seq<char>) -> Seq<char>;

/// std `Path::join`, as text. The contract only names the result.
#[verifier::external_body]
pub(crate) fn path_join(base: &str, rel: &str) -> (r: String)
    ensures
        r@ == spec_path_join(base@, rel@),
{
    std::path::Path::new(base).join(rel).to_string_lossy().to_string()
}

/// A leading `~` expanded to the home directory (`.` when unknown).
pub open spec fn spec_expand_home(path: Seq<char>, home: Option<Seq<char>>) -> Seq<char> {
    let h = match home {
        Some(h) => h,
        None => "."@,
    };
    if path == "~"@ {
        h
    } else if seq_starts_with(path, "~/"@) {
        h + "/"@ + path.skip(2)
    } else {
        path
    }
}

pub open spec fn oview(o: Option<&str>) -> Option<Seq<char>> {
    match o {
        Some(s) => Some(s@),
        None => None,
    }
}

/// Expand a leading `~` to the home directory.
pub fn expand_home(path: &str, home: Option<&str>) -> (r: String)
    ensures
        r@ == spec_expand_home(path@, oview(home)),
{
    let h = match home {
        Some(h) => owned(h),
        None => owned("."),
    };
    if str_eq(path, "~") {
        return h;
    }
    if starts_with(path, "~/") {
        proof { reveal_strlit("~/"); }
        let rest = path.substring_char(2, path.unicode_len());
        assert(rest@ =~= path@.skip(2));
        return concat3(h.as_str(), "/", rest);
    }
    owned(path)
}

/// The directory searched and the text matched for a raw query: the part
/// up to the last `/` scopes the search (home-relative, absolute, or under
/// `cwd`) and only the rest is matched.
pub open spec fn spec_resolve_scope(cwd: Seq<char>, raw_query: Seq<char>, home: Option<Seq<char>>) -> (Seq<char>, Seq<char>) {
    let normalized = slashes(raw_query);
    match last_index_of(normalized, '/') {
        Some(idx) => {
            let display_base = normalized.take(idx + 1);
            let query = normalized.skip(idx + 1);
            let base = if seq_starts_with(display_base, "~/"@) {
                spec_expand_home(display_base, home)
            } else if seq_starts_with(display_base, "/"@) {
                display_base
            } else {
                spec_path_join(cwd, display_base)
            };
            (base, query)
        },
        None => (cwd, normalized),
    }
}

/// Resolve the search directory and the matched text of a raw query.
pub fn resolve_scope(cwd: &str, raw_query: &str, home: Option<&str>) -> (r: (String, String))
    ensures
        (r.0@, r.1@) == spec_resolve_scope(cwd@, raw_query@, oview(home)),
{
    let normalized = normalize_slashes(raw_query);
    let ns = normalized.as_str();
    let _n = ns.unicode_len();
    match rfind_char(ns, '/') {
        Some(idx) => {
            let display_base = ns.substring_char(0, idx + 1);
            let query = owned(ns.substring_char(idx + 1, ns.unicode_len()));
            assert(display_base@ =~= ns@.take(idx + 1));
            assert(query@ =~= ns@.skip(idx + 1));
            let base = if starts_with(display_base, "~/") {
                expand_home(display_base, home)
            } else if starts_with(display_base, "/") {
                owned(display_base)
            } else {
                path_join(cwd, display_base)
            };
            (base, query)
        },
        None => (owned(cwd), normalized),
    }
}

/// How well an entry matches a query: exact name 100, name prefix 80, name
/// substring 50, path substring 30, else 0 (all case-insensitive), plus 10
/// for a directory that matches at all.
pub open spec fn spec_score(file_path: Seq<char>, query: Seq<char>, is_dir: bool) -> int {
    let file_name = match spec_file_name(file_path) {
        Some(f) => f,
        None => Seq::empty(),
    };
    let lower_file = spec_lowercase(file_name);
    let lower_path = spec_lowercase(file_path);
    let lower_query = spec_lowercase(query);
    let score: int = if lower_file == lower_query {
        100int
    } else if seq_starts_with(lower_file, lower_query) {
        80int
    } else if seq_contains(lower_file, lower_query) {
        50int
    } else if seq_contains(lower_path, lower_query) {
        30int
    } else {
        0int
    };
    if is_dir && score > 0 { score + 10 } else { score }
}

/// Matching ignores case: two queries with the same lower-case form score
/// every entry alike.
pub proof fn lemma_score_ignores_case(file_path: Seq<char>, q1: Seq<char>, q2: Seq<char>, is_dir: bool)
    requires
        spec_lowercase(q1) == spec_lowercase(q2),
    ensures
        spec_score(file_path, q1, is_dir) == spec_score(file_path, q2, is_dir),
{
}

/// What a score means, case ignored (names and queries compared in lower
/// case): a query naming the file exactly scores 100, a prefix of the name
/// 80, a part of the name 50, a part of the path 30, anything else 0; a
/// matching directory gets 10 more.
pub proof fn lemma_score_levels(file_path: Seq<char>, query: Seq<char>, is_dir: bool)
    ensures
        ({
            let name = match spec_file_name(file_path) { Some(f) => f, None => Seq::empty() };
            let n = spec_lowercase(name);
            let p = spec_lowercase(file_path);
            let q = spec_lowercase(query);
            let bonus: int = if is_dir { 10 } else { 0 };
            let s = spec_score(file_path, query, is_dir);
            &&& n == q ==> s == 100 + bonus
            &&& n != q && seq_starts_with(n, q) ==> s == 80 + bonus
            &&& !seq_starts_with(n, q) && seq_contains(n, q) ==> s == 50 + bonus
            &&& !seq_contains(n, q) && seq_contains(p, q) ==> s == 30 + bonus
            &&& !seq_contains(n, q) && !seq_contains(p, q) ==> s == 0
            &&& seq_contains(p, q) || seq_contains(n, q) <==> s > 0
        }),
{
    let name = match spec_file_name(file_path) { Some(f) => f, None => Seq::empty() };
    let n = spec_lowercase(name);
    let q = spec_lowercase(query);
    if n == q {
        assert(n.subrange(0int, 0int + q.len()) =~= q);
    }
    if seq_starts_with(n, q) {
        assert(n.subrange(0int, 0int + q.len()) == q);
    }
}

/// Score an entry against a query (higher is better).
pub fn score_entry(file_path: &str, query: &str, is_dir: bool) -> (r: i32)
    ensures
        r == spec_score(file_path@, query@, is_dir),
{
    let file_name = match path_file_name(file_path) {
        Some(f) => f,
        None => String::new(),
    };
    let lower_file = to_lowercase(file_name.as_str());
    let lower_path = to_lowercase(file_path);
    let lower_query = to_lowercase(query);
    let mut score: i32 = 0;
    if str_eq(lower_file.as_str(), lower_query.as_str()) {
        score = 100;
    } else if starts_with(lower_file.as_str(), lower_query.as_str()) {
        score = 80;
    } else if contains(lower_file.as_str(), lower_query.as_str()) {
        score = 50;
    } else if contains(lower_path.as_str(), lower_query.as_str()) {
        score = 30;
    }
    if is_dir && score > 0 {
        score = score + 10;
    }
    score
}

/// A display path for an entry found under the query's scope, keeping the
/// user's `~/`, absolute or relative base.
pub open spec fn spec_scoped_display_path(display_base: Seq<char>, relative: Seq<char>) -> Seq<char> {
    let normalized = slashes(relative);
    if display_base == "/"@ {
        "/"@ + normalized
    } else {
        display_base + normalized
    }
}

/// Build the display path of an entry under the query's scope.
pub fn scoped_display_path(display_base: &str, relative: &str) -> (r: String)
    ensures
        r@ == spec_scoped_display_path(display_base@, relative@),
{
    let normalized = normalize_slashes(relative);
    if str_eq(display_base, "/") {
        return concat2("/", normalized.as_str());
    }
    concat2(display_base, normalized.as_str())
}

/// Git's own directory is never offered.
pub open spec fn is_git_path(r: Seq<char>) -> bool {
    r == ".git"@ || seq_starts_with(r, ".git/"@) || seq_contains(r, "/.git/"@)
}

/// A ranked candidate: score, display-relative path, directory flag.
pub struct Candidate {
    pub score: i32,
    pub rel: String,
    pub is_dir: bool,
}

impl View for Candidate {
    type V = (int, Seq<char>, bool);

    open spec fn view(&self) -> (int, Seq<char>, bool) {
        (self.score as int, self.rel@, self.is_dir)
    }
}

/// Ranking order: higher score first, then directories, then by path.
pub open spec fn cand_le(a: (int, Seq<char>, bool), b: (int, Seq<char>, bool)) -> bool {
    a.0 > b.0 || (a.0 == b.0 && ((a.2 && !b.2) || (a.2 == b.2 && lex_le(a.1, b.1))))
}

pub open spec fn cand_order() -> spec_fn((int, Seq<char>, bool), (int, Seq<char>, bool)) -> bool {
    |a: (int, Seq<char>, bool), b: (int, Seq<char>, bool)| cand_le(a, b)
}

pub proof fn lemma_cand_order_total()
    ensures
        total_ordering(cand_order()),
{
    let f = cand_order();
    assert forall|a: (int, Seq<char>, bool)| #[trigger] f(a, a) by {
        lemma_lex_refl(a.1);
    }
    assert forall|a: (int, Seq<char>, bool), b: (int, Seq<char>, bool)| #[trigger] f(a, b) && #[trigger] f(b, a) implies a == b by {
        if a.0 == b.0 && a.2 == b.2 {
            lemma_lex_antisym(a.1, b.1);
        }
    }
    assert forall|a: (int, Seq<char>, bool), b: (int, Seq<char>, bool), c: (int, Seq<char>, bool)| #[trigger] f(a, b) && #[trigger] f(b, c) implies f(a, c) by {
        if a.0 == b.0 && b.0 == c.0 && a.2 == b.2 && b.2 == c.2 {
            lemma_lex_trans(a.1, b.1, c.1);
        }
    }
    assert forall|a: (int, Seq<char>, bool), b: (int, Seq<char>, bool)| #[trigger] f(a, b) || #[trigger] f(b, a) by {
        lemma_lex_total(a.1, b.1);
    }
}

fn candidate_le(a: &Candidate, b: &Candidate) -> (r: bool)
    ensures
        r == cand_le(a@, b@),
{
    if a.score != b.score {
        return a.score > b.score;
    }
    if a.is_dir != b.is_dir {
        return a.is_dir;
    }
    str_lex_le(a.rel.as_str(), b.rel.as_str())
}

/// The candidate made of one walked entry, if it is offered.
pub open spec fn spec_candidate(normalized_base: Seq<char>, query: Seq<char>, e: (Seq<char>, bool)) -> Option<(int, Seq<char>, bool)> {
    let rel = slashes(e.0);
    if is_git_path(rel) {
        None
    } else if query.len() == 0 {
        Some((1, rel, e.1))
    } else {
        let s = spec_score(normalized_base + "/"@ + rel, query, e.1);
        if s <= 0 { None } else { Some((s, rel, e.1)) }
    }
}

/// The part after the last `/`.
pub open spec fn last_segment(s: Seq<char>) -> Seq<char> {
    match last_index_of(s, '/') {
        Some(i) => s.skip(i + 1),
        None => s,
    }
}

/// The query's scope as the user typed it, for display.
pub open spec fn spec_display_base(raw_query: Seq<char>) -> Seq<char> {
    match last_index_of(raw_query, '/') {
        Some(i) => slashes(raw_query.take(i + 1)),
        None => Seq::empty(),
    }
}

/// One completion as the frontend reads it.
pub open spec fn spec_completion_json(display_base: Seq<char>, c: (int, Seq<char>, bool)) -> JsonV {
    JsonV::Object(seq![
        ("name"@, JsonV::Str(last_segment(c.1))),
        ("path"@, JsonV::Str(spec_scoped_display_path(display_base, c.1))),
        ("isDir"@, JsonV::Bool(c.2)),
    ])
}

/// The completions for a raw query, given the entries walked under its
/// scope: offered entries scored, ranked, the first twenty kept.
pub open spec fn spec_file_completions(
    cwd: Seq<char>,
    raw_query: Seq<char>,
    home: Option<Seq<char>>,
    entries: Seq<(Seq<char>, bool)>,
) -> Seq<JsonV> {
    let scope = spec_resolve_scope(cwd, raw_query, home);
    let nb = slashes(scope.0);
    let q = scope.1;
    let db = spec_display_base(raw_query);
    let sorted = entries.filter_map(|e: (Seq<char>, bool)| spec_candidate(nb, q, e)).sort_by(cand_order());
    let top = if sorted.len() > 20 { sorted.take(20) } else { sorted };
    top.map_values(|c: (int, Seq<char>, bool)| spec_completion_json(db, c))
}

fn candidate_of(normalized_base: &str, query: &str, rel: &str, is_dir: bool) -> (r: Option<Candidate>)
    ensures
        match r {
            Some(c) => spec_candidate(normalized_base@, query@, (rel@, is_dir)) == Some(c@),
            None => spec_candidate(normalized_base@, query@, (rel@, is_dir)) is None,
        },
{
    let rel_display = normalize_slashes(rel);
    let rd = rel_display.as_str();
    if str_eq(rd, ".git") || starts_with(rd, ".git/") || contains(rd, "/.git/") {
        return None;
    }
    if query.unicode_len() == 0 {
        return Some(Candidate { score: 1, rel: rel_display, is_dir: is_dir });
    }
    let full = concat3(normalized_base, "/", rd);
    let s = score_entry(full.as_str(), query, is_dir);
    if s <= 0 {
        return None;
    }
    Some(Candidate { score: s, rel: rel_display, is_dir: is_dir })
}

pub fn last_segment_of(s: &str) -> (r: String)
    ensures
        r@ == last_segment(s@),
{
    let n = s.unicode_len();
    match rfind_char(s, '/') {
        Some(i) => {
            let t = s.substring_char(i + 1, n);
            assert(t@ =~= s@.skip(i + 1));
            owned(t)
        },
        None => owned(s),
    }
}

fn completion_json(display_base: &str, c: &Candidate) -> (r: Json)
    ensures
        r@ == spec_completion_json(display_base@, c@),
{
    let name = last_segment_of(c.rel.as_str());
    let path = scoped_display_path(display_base, c.rel.as_str());
    let mut m: Vec<(String, Json)> = Vec::new();
    let ghost (nv, pv) = (name@, path@);
    m.push((owned("name"), Json::Str(name)));
    m.push((owned("path"), Json::Str(path)));
    m.push((owned("isDir"), Json::Bool(c.is_dir)));
    proof {
        lemma_view_object(m);
        assert(members_view(m@) =~= spec_completion_json(display_base@, c@)->Object_0);
    }
    Json::Object(m)
}

/// Rank the entries walked under a raw query's scope and return the best
/// twenty as `{ name, path, isDir }`. `home` is the home directory used for
/// a `~/` query.
pub fn file_completions(cwd: &str, raw_query: &str, home: Option<&str>, entries: &Vec<(String, bool)>) -> (r: Vec<Json>)
    ensures
        items_view(r@) == spec_file_completions(cwd@, raw_query@, oview(home), views(entries@)),
{
    let (base_dir, query) = resolve_scope(cwd, raw_query, home);
    let normalized_base = normalize_slashes(base_dir.as_str());
    let _rn = raw_query.unicode_len();
    let display_base = match rfind_char(raw_query, '/') {
        Some(idx) => {
            let pre = raw_query.substring_char(0, idx + 1);
            assert(pre@ =~= raw_query@.take(idx + 1));
            normalize_slashes(pre)
        },
        None => String::new(),
    };
    let ghost ev = views(entries@);
    let ghost nb = normalized_base@;
    let ghost q = query@;
    let ghost f = |e: (Seq<char>, bool)| spec_candidate(nb, q, e);
    let mut scored: Vec<Candidate> = Vec::new();
    let mut i: usize = 0;
    while i < entries.len()
        invariant
            i <= entries@.len(),
            ev == views(entries@),
            nb == normalized_base@,
            q == query@,
            f == (|e: (Seq<char>, bool)| spec_candidate(nb, q, e)),
            views(scored@) == ev.take(i as int).filter_map(f),
        decreases entries@.len() - i,
    {
        let c = candidate_of(normalized_base.as_str(), query.as_str(), entries[i].0.as_str(), entries[i].1);
        proof {
            ev.lemma_filter_map_take_succ(f, i as int);
            assert(ev[i as int] == (entries@[i as int].0@, entries@[i as int].1));
        }
        let ghost before = views(scored@);
        match c {
            Some(c) => {
                let ghost cv = c@;
                scored.push(c);
                assert(views(scored@) =~= before + seq![cv]);
            },
            None => {
                assert(before + Seq::<(int, Seq<char>, bool)>::empty() =~= before);
            },
        }
        i = i + 1;
    }
    assert(ev.take(i as int) =~= ev);
    proof { lemma_cand_order_total(); }
    let sorted = insertion_sort(scored, Ghost(cand_order()), candidate_le);
    let ghost sv = views(sorted@);
    let top = if sorted.len() > MAX_RESULTS { MAX_RESULTS } else { sorted.len() };
    let mut out: Vec<Json> = Vec::new();
    let mut k: usize = 0;
    while k < top
        invariant
            top <= sorted@.len(),
            top == if sorted@.len() > 20 { 20 } else { sorted@.len() },
            k <= top,
            sv == views(sorted@),
            items_view(out@) == sv.take(k as int).map_values(|c: (int, Seq<char>, bool)| spec_completion_json(display_base@, c)),
        decreases top - k,
    {
        let j = completion_json(display_base.as_str(), &sorted[k]);
        let ghost before = items_view(out@);
        out.push(j);
        proof {
            assert(items_view(out@) =~= before.push(spec_completion_json(display_base@, sv[k as int])));
            assert(sv.take(k as int + 1) =~= sv.take(k as int).push(sv[k as int]));
            assert(sv.take(k as int + 1).map_values(|c: (int, Seq<char>, bool)| spec_completion_json(display_base@, c))
                =~= sv.take(k as int).map_values(|c: (int, Seq<char>, bool)| spec_completion_json(display_base@, c)).push(spec_completion_json(display_base@, sv[k as int])));
        }
        k = k + 1;
    }
    proof {
        if sv.len() <= 20 {
            assert(sv.take(k as int) =~= sv);
        }
    }
    out
}

/// The parent of a path as std's `Path::parent` gives it (`None` for a root
/// or an empty path); a function of the path alone.
pub uninterp spec fn spec_path_parent(path: Seq<char>) -> Option<Seq<char>>;

/// std `Path::parent`, as text. The contract only names the result.
#[verifier::external_body]
fn path_parent(path: &str) -> (r: Option<String>)
    ensures
        match r {
            Some(p) => spec_path_parent(path@) == Some(p@),
            None => spec_path_parent(path@) is None,
        },
{
    std::path::Path::new(path).parent().map(|p| p.to_string_lossy().to_string())
}

/// The path whose existence makes `dir` part of a git repository.
pub fn git_marker(dir: &str) -> (r: String)
    ensures
        r@ == spec_path_join(dir@, ".git"@),
{
    path_join(dir, ".git")
}

/// One step of the walk up from a directory looking for a repository.
#[derive(Debug)]
pub enum GitProbe {
    /// The directory has a `.git`: the path is inside a repository.
    Found,
    /// Look at this parent directory next.
    Check(String),
    /// No directory up to the root has a `.git`.
    NotFound,
}

pub open spec fn spec_git_probe(dir: Seq<char>, marker_exists: bool) -> (bool, Option<Seq<char>>) {
    if marker_exists {
        (true, None)
    } else {
        (false, spec_path_parent(dir))
    }
}

/// The next step of the walk at `dir`, given whether its marker exists:
/// found, the parent to look at, or (at the root) not inside a repository.
pub fn git_probe_step(dir: &str, marker_exists: bool) -> (r: GitProbe)
    ensures
        match r {
            GitProbe::Found => spec_git_probe(dir@, marker_exists) == (true, None::<Seq<char>>),
            GitProbe::Check(p) => spec_git_probe(dir@, marker_exists) == (false, Some(p@)),
            GitProbe::NotFound => spec_git_probe(dir@, marker_exists) == (false, None::<Seq<char>>),
        },
{
    if marker_exists {
        return GitProbe::Found;
    }
    match path_parent(dir) {
        Some(p) => GitProbe::Check(p),
        None => GitProbe::NotFound,
    }
}

/// File completion offers at most twenty entries, the best ranked: higher
/// scores first, directories before files on equal scores, then by path;
/// the ranking is a rearrangement of the offered entries.
pub proof fn lemma_completions_ranked(
    cwd: Seq<char>,
    raw_query: Seq<char>,
    home: Option<Seq<char>>,
    entries: Seq<(Seq<char>, bool)>,
)
    ensures
        spec_file_completions(cwd, raw_query, home, entries).len() <= MAX_RESULTS,
        ({
            let scope = spec_resolve_scope(cwd, raw_query, home);
            let offered = entries.filter_map(|e: (Seq<char>, bool)| spec_candidate(slashes(scope.0), scope.1, e));
            let ranked = offered.sort_by(cand_order());
            &&& ranked.to_multiset() == offered.to_multiset()
            &&& forall|i: int, j: int| 0 <= i < j < ranked.len() ==> cand_le(#[trigger] ranked[i], #[trigger] ranked[j])
        }),
{
    lemma_cand_order_total();
    let scope = spec_resolve_scope(cwd, raw_query, home);
    let offered = entries.filter_map(|e: (Seq<char>, bool)| spec_candidate(slashes(scope.0), scope.1, e));
    offered.lemma_sort_by_ensures(cand_order());
    let ranked = offered.sort_by(cand_order());
    assert forall|i: int, j: int| 0 <= i < j < ranked.len() implies cand_le(#[trigger] ranked[i], #[trigger] ranked[j]) by {
        assert(cand_order()(ranked[i], ranked[j]));
    }
}

} // verus!
