//! Session list operations on the desktop state.
use vstd::prelude::*;
use vstd::string::*;
use crate::state::{DesktopState, DesktopStateV, SessionRecord, SessionRecordV, records_view, ostr};
use crate::text::{str_eq, owned, push_dec_i64, dec_int};
use crate::cwd::CwdAction;
use crate::clock::{now_iso, now_millis};

verus! {

/// `i` is the first record with id `id`.
pub open spec fn is_first_id(s: Seq<SessionRecordV>, id: Seq<char>, i: int) -> bool {
    &&& 0 <= i < s.len()
    &&& s[i].id == id
    &&& forall|j: int| 0 <= j < i ==> s[j].id != id
}

/// Position of the first record with id `id`, if any.
pub open spec fn find_record(s: Seq<SessionRecordV>, id: Seq<char>) -> Option<int> {
    if exists|i: int| is_first_id(s, id, i) {
        Some(choose|i: int| is_first_id(s, id, i))
    } else {
        None
    }
}

pub proof fn lemma_find_record(s: Seq<SessionRecordV>, id: Seq<char>, i: int)
    requires
        is_first_id(s, id, i),
    ensures
        find_record(s, id) == Some(i),
{
    let c = choose|k: int| is_first_id(s, id, k);
    if c < i {
    } else if i < c {
    }
}

pub proof fn lemma_find_record_none(s: Seq<SessionRecordV>, id: Seq<char>)
    requires
        forall|j: int| 0 <= j < s.len() ==> s[j].id != id,
    ensures
        find_record(s, id) is None,
{
}

/// Position of the first session with id `id`.
pub fn find_session(v: &Vec<SessionRecord>, id: &str) -> (r: Option<usize>)
    ensures
        match r {
            Some(i) => is_first_id(records_view(v@), id@, i as int) && find_record(records_view(v@), id@) == Some(i as int),
            None => find_record(records_view(v@), id@) is None,
        },
{
    let mut i: usize = 0;
    while i < v.len()
        invariant
            i <= v@.len(),
            forall|j: int| 0 <= j < i ==> v@[j].id@ != id@,
        decreases v@.len() - i,
    {
        if str_eq(v[i].id.as_str(), id) {
            proof { lemma_find_record(records_view(v@), id@, i as int); }
            return Some(i);
        }
        i = i + 1;
    }
    proof { lemma_find_record_none(records_view(v@), id@); }
    None
}

/// The state with the first session `sid` given status `status`.
pub open spec fn spec_set_status(s: DesktopStateV, sid: Seq<char>, status: Seq<char>) -> DesktopStateV {
    match find_record(s.sessions, sid) {
        Some(i) => DesktopStateV {
            sessions: s.sessions.update(i, SessionRecordV { status: status, ..s.sessions[i] }),
            ..s
        },
        None => s,
    }
}

/// Set the status of session `sid` (no change when there is none).
pub fn set_sess_status(s: &mut DesktopState, sid: &str, status: &str)
    ensures
        final(s)@ == spec_set_status(old(s)@, sid@, status@),
{
    match find_session(&s.sessions, sid) {
        Some(i) => {
            s.sessions[i].status = owned(status);
            assert(records_view(s.sessions@) =~= records_view(old(s).sessions@).update(
                i as int,
                SessionRecordV { status: status@, ..records_view(old(s).sessions@)[i as int] },
            ));
        },
        None => {},
    }
}


/// The state with `id` selected.
pub fn select_session_by_id(state: &mut DesktopState, session_id: &str)
    ensures
        final(state)@ == (DesktopStateV { selected_session_id: session_id@, ..old(state)@ }),
{
    state.selected_session_id = owned(session_id);
}

/// Set the status of session `sid` (no change when there is none).
pub fn set_session_status(state: &mut DesktopState, sid: &str, status: &str)
    ensures
        final(state)@ == spec_set_status(old(state)@, sid@, status@),
{
    set_sess_status(state, sid, status);
}

/// The state with the first session `id` renamed.
pub open spec fn spec_rename(s: DesktopStateV, id: Seq<char>, title: Seq<char>) -> DesktopStateV {
    match find_record(s.sessions, id) {
        Some(i) => DesktopStateV {
            sessions: s.sessions.update(i, SessionRecordV { title: title, ..s.sessions[i] }),
            ..s
        },
        None => s,
    }
}

/// Rename session `id` (no change when there is none).
pub fn rename_session_by_id(state: &mut DesktopState, session_id: &str, title: &str)
    ensures
        final(state)@ == spec_rename(old(state)@, session_id@, title@),
{
    match find_session(&state.sessions, session_id) {
        Some(i) => {
            state.sessions[i].title = owned(title);
            assert(records_view(state.sessions@) =~= records_view(old(state).sessions@).update(
                i as int,
                SessionRecordV { title: title@, ..records_view(old(state).sessions@)[i as int] },
            ));
        },
        None => {},
    }
}

/// `j` is the first session other than `id` that is not archived.
pub open spec fn is_first_active(s: Seq<SessionRecordV>, id: Seq<char>, j: int) -> bool {
    &&& 0 <= j < s.len()
    &&& s[j].id != id
    &&& s[j].archived_at is None
    &&& forall|k: int| 0 <= k < j ==> !(s[k].id != id && s[k].archived_at is None)
}

/// The id of the first session other than `id` that is not archived, or the
/// empty id.
pub open spec fn next_active_id(s: Seq<SessionRecordV>, id: Seq<char>) -> Seq<char> {
    if exists|j: int| is_first_active(s, id, j) {
        s[choose|j: int| is_first_active(s, id, j)].id
    } else {
        Seq::empty()
    }
}

/// Session `id` archived at time `t`, and the selection moved to the first
/// other session still active (or cleared).
pub open spec fn spec_archive(s: DesktopStateV, id: Seq<char>, t: Seq<char>) -> DesktopStateV {
    let sessions = match find_record(s.sessions, id) {
        Some(i) => s.sessions.update(i, SessionRecordV { archived_at: Some(t), ..s.sessions[i] }),
        None => s.sessions,
    };
    DesktopStateV { sessions: sessions, selected_session_id: next_active_id(sessions, id), ..s }
}

fn first_active(v: &Vec<SessionRecord>, id: &str) -> (r: Option<usize>)
    ensures
        match r {
            Some(j) => is_first_active(records_view(v@), id@, j as int),
            None => forall|j: int| !is_first_active(records_view(v@), id@, j),
        },
{
    let mut j: usize = 0;
    while j < v.len()
        invariant
            j <= v@.len(),
            forall|k: int| 0 <= k < j ==> !(v@[k].id@ != id@ && v@[k].archived_at is None),
        decreases v@.len() - j,
    {
        if !str_eq(v[j].id.as_str(), id) && v[j].archived_at.is_none() {
            return Some(j);
        }
        j = j + 1;
    }
    assert forall|k: int| !is_first_active(records_view(v@), id@, k) by {
        if is_first_active(records_view(v@), id@, k) {
            assert(!(v@[k].id@ != id@ && v@[k].archived_at is None));
        }
    }
    None
}

proof fn lemma_first_active_unique(s: Seq<SessionRecordV>, id: Seq<char>, a: int, b: int)
    requires
        is_first_active(s, id, a),
        is_first_active(s, id, b),
    ensures
        a == b,
{
}

/// Archive session `id` at time `archived_at`, then select the first other
/// session that is still active (or nothing).
pub fn archive_session_at(state: &mut DesktopState, session_id: &str, archived_at: String)
    ensures
        final(state)@ == spec_archive(old(state)@, session_id@, archived_at@),
{
    let ghost t = archived_at@;
    match find_session(&state.sessions, session_id) {
        Some(i) => {
            state.sessions[i].archived_at = Some(archived_at);
            assert(records_view(state.sessions@) =~= records_view(old(state).sessions@).update(
                i as int,
                SessionRecordV { archived_at: Some(t), ..records_view(old(state).sessions@)[i as int] },
            ));
        },
        None => {},
    }
    let ghost mid = records_view(state.sessions@);
    match first_active(&state.sessions, session_id) {
        Some(j) => {
            let next = state.sessions[j].id.clone();
            proof {
                let c = choose|k: int| is_first_active(mid, session_id@, k);
                lemma_first_active_unique(mid, session_id@, j as int, c);
            }
            state.selected_session_id = next;
        },
        None => {
            state.selected_session_id = String::new();
        },
    }
}

/// Archive session `id` now, then select the first other session that is
/// still active (or nothing).
pub fn archive_session_by_id(state: &mut DesktopState, session_id: &str)
    ensures
        exists|t: Seq<char>| crate::clock::is_clock_text(t) && final(state)@ == spec_archive(old(state)@, session_id@, t),
{
    let now = now_iso();
    archive_session_at(state, session_id, now);
}

/// After archiving, the selection is never the archived session, and when it
/// is not empty it names a session that is not archived.
pub proof fn lemma_archive_selects_active(s: DesktopStateV, id: Seq<char>, t: Seq<char>)
    ensures
        ({
            let r = spec_archive(s, id, t);
            &&& r.selected_session_id.len() > 0 ==> r.selected_session_id != id
            &&& r.selected_session_id.len() > 0 ==> exists|j: int|
                0 <= j < r.sessions.len() && r.sessions[j].id == r.selected_session_id
                    && r.sessions[j].archived_at is None
        }),
{
    let r = spec_archive(s, id, t);
    if exists|j: int| is_first_active(r.sessions, id, j) {
        let j = choose|j: int| is_first_active(r.sessions, id, j);
        assert(r.sessions[j].id == r.selected_session_id);
    }
}

/// A fresh idle record.
pub open spec fn spec_new_record(
    id: Seq<char>,
    title: Seq<char>,
    now: Seq<char>,
    session_file: Option<Seq<char>>,
    cwd: Option<Seq<char>>,
) -> SessionRecordV {
    SessionRecordV {
        id: id,
        title: title,
        updated_at: now,
        preview: Seq::empty(),
        status: "idle"@,
        has_unseen_update: false,
        session_file: session_file,
        archived_at: None,
        config: None,
        thinking_level: None,
        cwd: cwd,
    }
}

/// A fresh idle record.
pub fn new_record(id: String, title: String, now: String, session_file: Option<String>, cwd: Option<String>) -> (r: SessionRecord)
    ensures
        r@ == spec_new_record(id@, title@, now@, ostr(session_file), ostr(cwd)),
{
    SessionRecord {
        id: id,
        title: title,
        updated_at: now,
        preview: String::new(),
        status: owned("idle"),
        has_unseen_update: false,
        session_file: session_file,
        archived_at: None,
        config: None,
        thinking_level: None,
        cwd: cwd,
    }
}

/// The title given to a new session: the requested one, or "New thread"
/// when it is empty.
pub open spec fn spec_thread_title(title: Seq<char>) -> Seq<char> {
    if title.len() == 0 { "New thread"@ } else { title }
}

fn thread_title(title: &str) -> (r: String)
    ensures
        r@ == spec_thread_title(title@),
{
    if title.unicode_len() == 0 { owned("New thread") } else { owned(title) }
}

/// The state with `rec` appended and selected.
pub open spec fn spec_push_select(s: DesktopStateV, rec: SessionRecordV) -> DesktopStateV {
    DesktopStateV { sessions: s.sessions.push(rec), selected_session_id: rec.id, ..s }
}

fn push_and_select(state: &mut DesktopState, rec: SessionRecord)
    ensures
        final(state)@ == spec_push_select(old(state)@, rec@),
{
    let id = rec.id.clone();
    state.sessions.push(rec);
    assert(records_view(state.sessions@) =~= records_view(old(state).sessions@).push(rec@));
    state.selected_session_id = id;
}

/// Append an idle session `id` titled `title` (or "New thread") stamped
/// `now`, and select it.
pub fn create_session_with_id(state: &mut DesktopState, id: String, title: &str, now: String)
    ensures
        final(state)@ == spec_push_select(
            old(state)@,
            spec_new_record(id@, spec_thread_title(title@), now@, None, None),
        ),
{
    let rec = new_record(id, thread_title(title), now, None, None);
    push_and_select(state, rec);
}

/// The id of a session created at Unix time `millis`.
pub open spec fn spec_session_id(millis: int) -> Seq<char> {
    "sess-"@ + dec_int(millis)
}

/// The id of a session created at Unix time `millis`: `sess-<millis>`.
pub fn session_id_for(millis: i64) -> (r: String)
    ensures
        r@ == spec_session_id(millis as int),
{
    let mut s = owned("sess-");
    push_dec_i64(&mut s, millis);
    s
}

/// Create a new idle session now and select it.
pub fn create_session_simple(state: &mut DesktopState, title: &str)
    ensures
        exists|millis: int, now: Seq<char>| crate::clock::is_clock_text(now) && final(state)@ == spec_push_select(
            old(state)@,
            spec_new_record(spec_session_id(millis), spec_thread_title(title@), now, None, None),
        ),
{
    let millis = now_millis();
    let id = session_id_for(millis);
    let now = now_iso();
    create_session_with_id(state, id, title, now);
}

/// Append the record of a new agent session `sid` (titled "New thread",
/// stamped `now`, with its history file) and select it.
pub fn push_agent_session_record(state: &mut DesktopState, sid: String, session_file: Option<String>, now: String)
    ensures
        final(state)@ == spec_push_select(
            old(state)@,
            spec_new_record(sid@, "New thread"@, now@, ostr(session_file), None),
        ),
{
    let rec = new_record(sid, owned("New thread"), now, session_file, None);
    push_and_select(state, rec);
}

/// A lower-case hexadecimal digit.
pub open spec fn is_lower_hex(c: char) -> bool {
    ('0' <= c && c <= '9') || ('a' <= c && c <= 'f')
}

/// The text of a version-4 uuid as `Display` writes it: 32 lower-case hex
/// digits in groups of 8-4-4-4-12 joined by `-`, the version digit `4` at
/// position 14 and the variant digit (`8`, `9`, `a` or `b`) at position 19.
pub open spec fn is_v4_uuid_text(u: Seq<char>) -> bool {
    &&& u.len() == 36
    &&& forall|i: int| 0 <= i < 36 ==> (if i == 8 || i == 13 || i == 18 || i == 23 {
        #[trigger] u[i] == '-'
    } else {
        is_lower_hex(u[i])
    })
    &&& u[14] == '4'
    &&& (u[19] == '8' || u[19] == '9' || u[19] == 'a' || u[19] == 'b')
}

/// uuid `Uuid::new_v4()` rendered with `to_string()`: `new_v4` sets the
/// version and variant bits of a random value, and `Display` writes the
/// hyphenated lower-case form. The form is stated; the value is random.
#[verifier::external_body]
fn random_uuid() -> (r: String)
    ensures
        is_v4_uuid_text(r@),
{
    uuid::Uuid::new_v4().to_string()
}

/// The id of an agent session made from the text of a uuid: `sess-<uuid>`.
pub open spec fn spec_agent_session_id(uuid: Seq<char>) -> Seq<char> {
    "sess-"@ + uuid
}

/// The id of an agent session made from the text of a uuid.
pub fn agent_session_id(uuid: &str) -> (r: String)
    ensures
        r@ == spec_agent_session_id(uuid@),
{
    crate::text::concat2("sess-", uuid)
}

/// Record a newly created agent session (with the history file its runtime
/// reported) under a fresh `sess-<uuid>` id, stamped now, and select it;
/// the id is returned.
pub fn create_agent_session_record(state: &mut DesktopState, session_file: Option<String>) -> (r: String)
    ensures
        exists|uuid: Seq<char>, now: Seq<char>| {
            &&& is_v4_uuid_text(uuid)
            &&& crate::clock::is_clock_text(now)
            &&& r@ == spec_agent_session_id(uuid)
            &&& final(state)@ == spec_push_select(
                old(state)@,
                spec_new_record(r@, "New thread"@, now, ostr(session_file), None),
            )
        },
{
    let u = random_uuid();
    let sid = agent_session_id(u.as_str());
    let now = now_iso();
    push_agent_session_record(state, sid.clone(), session_file, now);
    sid
}

/// A session id made from the current time in milliseconds.
pub fn fresh_session_id() -> (r: String)
    ensures
        exists|millis: int| r@ == spec_session_id(millis),
{
    session_id_for(now_millis())
}

/// The state after an agent session started for record `sid`: the record
/// gets the history file when one is known, and `sid` is selected.
pub open spec fn spec_attach_file(s: DesktopStateV, sid: Seq<char>, file: Option<Seq<char>>) -> DesktopStateV {
    let sessions = match (find_record(s.sessions, sid), file) {
        (Some(i), Some(f)) => s.sessions.update(i, SessionRecordV { session_file: Some(f), ..s.sessions[i] }),
        _ => s.sessions,
    };
    DesktopStateV { sessions: sessions, selected_session_id: sid, ..s }
}

/// Record the history file of session `sid` (when known) and select it.
pub fn attach_session_file(state: &mut DesktopState, sid: &str, file: Option<String>)
    ensures
        final(state)@ == spec_attach_file(old(state)@, sid@, ostr(file)),
{
    match find_session(&state.sessions, sid) {
        Some(i) => {
            match file {
                Some(f) => {
                    let ghost fv = f@;
                    state.sessions[i].session_file = Some(f);
                    assert(records_view(state.sessions@) =~= records_view(old(state).sessions@).update(
                        i as int,
                        SessionRecordV { session_file: Some(fv), ..records_view(old(state).sessions@)[i as int] },
                    ));
                },
                None => {},
            }
        },
        None => {},
    }
    state.selected_session_id = owned(sid);
}

/// The state after a runtime with real id `sid` was spawned for the selected
/// record: that record takes the id `sid` (and the history file when known),
/// and `sid` becomes the selection.
pub open spec fn spec_adopt_runtime_id(s: DesktopStateV, sid: Seq<char>, file: Option<Seq<char>>) -> DesktopStateV {
    let sessions = match find_record(s.sessions, s.selected_session_id) {
        Some(i) => s.sessions.update(
            i,
            SessionRecordV {
                id: sid,
                session_file: match file {
                    Some(f) => Some(f),
                    None => s.sessions[i].session_file,
                },
                ..s.sessions[i]
            },
        ),
        None => s.sessions,
    };
    DesktopStateV { sessions: sessions, selected_session_id: sid, ..s }
}

/// Give the selected record the runtime's real session id (and history file
/// when known) and select that id.
pub fn adopt_runtime_session_id(state: &mut DesktopState, sid: &str, session_file: Option<String>)
    ensures
        final(state)@ == spec_adopt_runtime_id(old(state)@, sid@, ostr(session_file)),
{
    match find_session(&state.sessions, state.selected_session_id.as_str()) {
        Some(i) => {
            let ghost old_rec = records_view(old(state).sessions@)[i as int];
            state.sessions[i].id = owned(sid);
            match session_file {
                Some(f) => {
                    state.sessions[i].session_file = Some(f);
                },
                None => {},
            }
            assert(records_view(state.sessions@) =~= records_view(old(state).sessions@).update(
                i as int,
                SessionRecordV {
                    id: sid@,
                    session_file: match ostr(session_file) {
                        Some(f) => Some(f),
                        None => old_rec.session_file,
                    },
                    ..old_rec
                },
            ));
        },
        None => {},
    }
    state.selected_session_id = owned(sid);
}

/// After adopting the runtime id, the selection is `sid` and, when a record
/// was selected, a record with that id exists.
pub proof fn lemma_adopt_selects_real_id(s: DesktopStateV, sid: Seq<char>, file: Option<Seq<char>>)
    ensures
        spec_adopt_runtime_id(s, sid, file).selected_session_id == sid,
        find_record(s.sessions, s.selected_session_id) is Some ==> exists|j: int|
            0 <= j < spec_adopt_runtime_id(s, sid, file).sessions.len()
                && spec_adopt_runtime_id(s, sid, file).sessions[j].id == sid,
{
    if find_record(s.sessions, s.selected_session_id) is Some {
        let i = find_record(s.sessions, s.selected_session_id).unwrap();
        let r = spec_adopt_runtime_id(s, sid, file);
        assert(r.sessions[i].id == sid);
    }
}

/// The state with session `sid`'s working directory set to `cwd`.
pub open spec fn spec_set_cwd(s: DesktopStateV, sid: Seq<char>, cwd: Seq<char>) -> DesktopStateV {
    match find_record(s.sessions, sid) {
        Some(i) => DesktopStateV {
            sessions: s.sessions.update(i, SessionRecordV { cwd: Some(cwd), ..s.sessions[i] }),
            ..s
        },
        None => s,
    }
}

/// Set session `sid`'s working directory in place.
pub fn set_cwd_in_place(state: &mut DesktopState, sid: &str, cwd: &str)
    ensures
        final(state)@ == spec_set_cwd(old(state)@, sid@, cwd@),
{
    match find_session(&state.sessions, sid) {
        Some(i) => {
            state.sessions[i].cwd = Some(owned(cwd));
            assert(records_view(state.sessions@) =~= records_view(old(state).sessions@).update(
                i as int,
                SessionRecordV { cwd: Some(cwd@), ..records_view(old(state).sessions@)[i as int] },
            ));
        },
        None => {},
    }
}

/// Append the record of a session forked into `cwd` (same title, or "New
/// thread" when empty) and select it.
pub fn push_fork_record(state: &mut DesktopState, new_id: String, title: &str, cwd: &str, now: String)
    ensures
        final(state)@ == spec_push_select(
            old(state)@,
            spec_new_record(new_id@, spec_thread_title(title@), now@, None, Some(cwd@)),
        ),
{
    let rec = new_record(new_id, thread_title(title), now, None, Some(owned(cwd)));
    push_and_select(state, rec);
}

/// Keep the sessions whose id is not `id`.
pub fn retain_other_sessions(v: Vec<SessionRecord>, id: &str) -> (r: Vec<SessionRecord>)
    ensures
        records_view(r@) == records_view(v@).filter(|x: SessionRecordV| x.id != id@),
{
    let ghost pred = |x: SessionRecordV| x.id != id@;
    let mut out: Vec<SessionRecord> = Vec::new();
    let mut rest = v;
    let ghost all = records_view(rest@);
    let mut taken: usize = 0;
    let n = rest.len();
    while taken < n
        invariant
            pred == (|x: SessionRecordV| x.id != id@),
            n == all.len(),
            taken <= n,
            rest@.len() == n - taken,
            forall|k: int| 0 <= k < rest@.len() ==> #[trigger] rest@[k]@ == all[taken + k],
            records_view(out@) == all.take(taken as int).filter(pred),
        decreases n - taken,
    {
        let x = rest.remove(0);
        proof {
            assert(x@ == all[taken as int]);
            assert(all.take(taken as int + 1) =~= all.take(taken as int).push(x@));
            all.take(taken as int).lemma_filter_push(x@, pred);
        }
        let keep = !str_eq(x.id.as_str(), id);
        let ghost before = records_view(out@);
        let ghost xv = x@;
        assert(pred(xv) == keep);
        if keep {
            out.push(x);
            assert(records_view(out@) =~= before.push(xv));
        }
        assert(records_view(out@) == all.take(taken as int + 1).filter(pred));
        taken = taken + 1;
    }
    assert(all.take(n as int) =~= all);
    out
}

/// The state after a failed fork: the new record dropped and the selection
/// put back to `prior_selected`, the one from before the change.
pub open spec fn spec_rollback_fork(s: DesktopStateV, new_id: Seq<char>, prior_selected: Seq<char>) -> DesktopStateV {
    DesktopStateV {
        sessions: s.sessions.filter(|x: SessionRecordV| x.id != new_id),
        selected_session_id: prior_selected,
        ..s
    }
}

/// Drop the forked record `new_id` and restore the prior selection.
pub fn rollback_fork(state: &mut DesktopState, new_id: &str, prior_selected: &str)
    ensures
        final(state)@ == spec_rollback_fork(old(state)@, new_id@, prior_selected@),
{
    let mut v: Vec<SessionRecord> = Vec::new();
    std::mem::swap(&mut v, &mut state.sessions);
    state.sessions = retain_other_sessions(v, new_id);
    state.selected_session_id = owned(prior_selected);
}

/// Some record `id` has a history file.
pub open spec fn spec_has_session_file(s: DesktopStateV, id: Seq<char>) -> bool {
    exists|j: int| 0 <= j < s.sessions.len() && s.sessions[j].id == id && s.sessions[j].session_file is Some
}

/// Whether some record `id` has a history file.
pub fn fork_file_persisted(state: &DesktopState, id: &str) -> (r: bool)
    ensures
        r == spec_has_session_file(state@, id@),
{
    let mut j: usize = 0;
    while j < state.sessions.len()
        invariant
            j <= state.sessions@.len(),
            forall|k: int| 0 <= k < j ==> !(state.sessions@[k].id@ == id@ && state.sessions@[k].session_file is Some),
        decreases state.sessions@.len() - j,
    {
        if str_eq(state.sessions[j].id.as_str(), id) && state.sessions[j].session_file.is_some() {
            assert(records_view(state.sessions@)[j as int].id == id@);
            return true;
        }
        j = j + 1;
    }
    false
}

/// A fork is only possible from a history file that exists on disk: a fork
/// whose file is missing becomes an in-place change.
pub open spec fn spec_effective_cwd_action(a: CwdAction, file_exists: bool) -> CwdAction {
    if a == CwdAction::Fork && !file_exists { CwdAction::SetInPlace } else { a }
}

/// Downgrade a fork to an in-place change when the history file is missing.
pub fn effective_cwd_action(action: CwdAction, file_exists: bool) -> (r: CwdAction)
    ensures
        r == spec_effective_cwd_action(action, file_exists),
{
    match action {
        CwdAction::Fork => if file_exists { CwdAction::Fork } else { CwdAction::SetInPlace },
        other => other,
    }
}

/// Mark the selected session idle.
pub fn mark_selected_idle(state: &mut DesktopState)
    ensures
        final(state)@ == spec_set_status(old(state)@, old(state)@.selected_session_id, "idle"@),
{
    let sid = state.selected_session_id.clone();
    set_sess_status(state, sid.as_str(), "idle");
}

/// Count one more state change.
pub fn bump_revision(state: &mut DesktopState)
    requires
        old(state).revision < u64::MAX,
    ensures
        final(state)@ == (DesktopStateV { revision: (old(state).revision + 1) as u64, ..old(state)@ }),
{
    state.revision = state.revision + 1;
}

/// Replace the session list (after a rescan) and select `new_id`.
pub fn replace_sessions_and_select(state: &mut DesktopState, sessions: Vec<SessionRecord>, new_id: &str)
    ensures
        final(state)@ == (DesktopStateV {
            sessions: records_view(sessions@),
            selected_session_id: new_id@,
            ..old(state)@
        }),
{
    state.sessions = sessions;
    state.selected_session_id = owned(new_id);
}

/// Replace the session list (after a rescan).
pub fn replace_sessions(state: &mut DesktopState, sessions: Vec<SessionRecord>)
    ensures
        final(state)@ == (DesktopStateV { sessions: records_view(sessions@), ..old(state)@ }),
{
    state.sessions = sessions;
}


pub open spec fn nonempty(o: Option<Seq<char>>) -> Option<Seq<char>> {
    match o {
        Some(f) => if f.len() > 0 { Some(f) } else { None },
        None => None,
    }
}

fn nonempty_str(o: &Option<String>) -> (r: Option<String>)
    ensures
        ostr(r) == nonempty(ostr(*o)),
{
    match o {
        Some(f) => if f.as_str().unicode_len() > 0 { Some(f.clone()) } else { None },
        None => None,
    }
}

/// What a working-directory change needs of session `id`: its history file
/// (when non-empty), its working directory and its title.
pub open spec fn spec_cwd_info(s: DesktopStateV, id: Seq<char>) -> Option<(Option<Seq<char>>, Option<Seq<char>>, Seq<char>)> {
    match find_record(s.sessions, id) {
        Some(i) => Some((nonempty(s.sessions[i].session_file), s.sessions[i].cwd, s.sessions[i].title)),
        None => None,
    }
}

/// History file (when non-empty), working directory and title of session
/// `id`.
pub fn session_cwd_info(state: &DesktopState, id: &str) -> (r: Option<(Option<String>, Option<String>, String)>)
    ensures
        match r {
            Some((f, c, t)) => spec_cwd_info(state@, id@) == Some((ostr(f), ostr(c), t@)),
            None => spec_cwd_info(state@, id@) is None,
        },
{
    match find_session(&state.sessions, id) {
        Some(i) => {
            let rec = &state.sessions[i];
            Some((nonempty_str(&rec.session_file), rec.cwd.clone(), rec.title.clone()))
        },
        None => None,
    }
}

/// The history file of session `id`, when it has a non-empty one.
pub open spec fn spec_session_file_of(s: DesktopStateV, id: Seq<char>) -> Option<Seq<char>> {
    match find_record(s.sessions, id) {
        Some(i) => nonempty(s.sessions[i].session_file),
        None => None,
    }
}

/// The history file of session `id`, when it has a non-empty one.
pub fn session_file_of(state: &DesktopState, id: &str) -> (r: Option<String>)
    ensures
        ostr(r) == spec_session_file_of(state@, id@),
{
    match find_session(&state.sessions, id) {
        Some(i) => nonempty_str(&state.sessions[i].session_file),
        None => None,
    }
}

/// The history file of session `id`, or the error naming the session.
pub fn require_session_file(state: &DesktopState, id: &str) -> (r: Result<String, String>)
    ensures
        match r {
            Ok(f) => spec_session_file_of(state@, id@) == Some(f@),
            Err(e) => spec_session_file_of(state@, id@) is None
                && e@ == "session '"@ + id@ + "' has no session file"@,
        },
{
    match session_file_of(state, id) {
        Some(f) => Ok(f),
        None => Err(crate::text::concat3("session '", id, "' has no session file")),
    }
}

/// The working directory and history file of session `id`, when it exists.
pub open spec fn spec_session_location(s: DesktopStateV, id: Seq<char>) -> Option<(Option<Seq<char>>, Option<Seq<char>>)> {
    match find_record(s.sessions, id) {
        Some(i) => Some((s.sessions[i].cwd, nonempty(s.sessions[i].session_file))),
        None => None,
    }
}

/// The working directory and non-empty history file of session `id`.
pub fn session_location(state: &DesktopState, id: &str) -> (r: Option<(Option<String>, Option<String>)>)
    ensures
        match r {
            Some((c, f)) => spec_session_location(state@, id@) == Some((ostr(c), ostr(f))),
            None => spec_session_location(state@, id@) is None,
        },
{
    match find_session(&state.sessions, id) {
        Some(i) => Some((state.sessions[i].cwd.clone(), nonempty_str(&state.sessions[i].session_file))),
        None => None,
    }
}

/// The state at start-up: the defaults, the restored selection when it is
/// not empty, the scanned sessions, the runtime snapshot, and one change
/// counted.
pub open spec fn spec_initial_state(
    restored_selected: Seq<char>,
    sessions: Seq<SessionRecordV>,
    runtime: crate::state::RuntimeSnapshotV,
) -> DesktopStateV {
    let d = crate::state::spec_default_state();
    DesktopStateV {
        revision: 2,
        sessions: sessions,
        selected_session_id: if restored_selected.len() > 0 { restored_selected } else { d.selected_session_id },
        runtime: runtime,
        ..d
    }
}

/// Build the start-up state from the restored selection, the scanned
/// sessions and the runtime snapshot.
pub fn initial_state(restored_selected: &str, sessions: Vec<SessionRecord>, runtime: crate::state::RuntimeSnapshot) -> (r: DesktopState)
    ensures
        r@ == spec_initial_state(restored_selected@, records_view(sessions@), runtime@),
{
    let mut s = crate::state::default_state();
    if restored_selected.unicode_len() > 0 {
        s.selected_session_id = owned(restored_selected);
    }
    s.sessions = sessions;
    s.runtime = runtime;
    s.revision = s.revision + 1;
    s
}

/// What a working-directory change reads of session `id`, or the error when
/// there is no such session.
pub fn cwd_target(state: &DesktopState, id: &str) -> (r: Result<(Option<String>, Option<String>, String), String>)
    ensures
        match r {
            Ok((f, c, t)) => spec_cwd_info(state@, id@) == Some((ostr(f), ostr(c), t@)),
            Err(e) => spec_cwd_info(state@, id@) is None && e@ == "Session not found"@,
        },
{
    match session_cwd_info(state, id) {
        Some(info) => Ok(info),
        None => Err(owned("Session not found")),
    }
}

/// The error for a chosen working directory that is not a directory.
pub open spec fn spec_check_cwd_path(path: Seq<char>, is_dir: bool) -> Result<(), Seq<char>> {
    if is_dir { Ok(()) } else { Err("Working directory does not exist or is not a directory: "@ + path) }
}

/// Accept a chosen working directory only when it is a directory.
pub fn check_cwd_path(path: &str, is_dir: bool) -> (r: Result<(), String>)
    ensures
        match r {
            Ok(()) => spec_check_cwd_path(path@, is_dir) == Ok::<(), Seq<char>>(()),
            Err(e) => spec_check_cwd_path(path@, is_dir) == Err::<(), Seq<char>>(e@),
        },
{
    if is_dir {
        Ok(())
    } else {
        Err(crate::text::concat2("Working directory does not exist or is not a directory: ", path))
    }
}

/// The error when the history of a session cannot be forked.
pub open spec fn spec_fork_error(e: Seq<char>) -> Seq<char> {
    "Failed to fork session: "@ + e
}

/// The error when the history of a session cannot be forked.
pub fn fork_error(e: &str) -> (r: String)
    ensures
        r@ == spec_fork_error(e@),
{
    crate::text::concat2("Failed to fork session: ", e)
}

/// How the new session of a fork gets its runtime.
pub enum ForkStart {
    /// The old session has no history file: start a runtime for the
    /// selected (new) record.
    StartSelected,
    /// Copy the history of this file into the new directory and start a
    /// runtime on the copy.
    ForkFrom(String),
}

/// Choose how the forked session starts, from the old session's history
/// file (`None` or empty: there is nothing to copy).
pub fn fork_start(current_file: Option<String>) -> (r: ForkStart)
    ensures
        match current_file {
            Some(f) => if f@.len() > 0 {
                r matches ForkStart::ForkFrom(g) && g@ == f@
            } else {
                r is StartSelected
            },
            None => r is StartSelected,
        },
{
    match current_file {
        Some(f) => if f.as_str().unicode_len() > 0 { ForkStart::ForkFrom(f) } else { ForkStart::StartSelected },
        None => ForkStart::StartSelected,
    }
}

/// How starting a forked session went, from the history copy (its error)
/// and, when the copy was made, the start of its runtime.
pub fn fork_copy_outcome(copy: Result<Result<(), String>, String>) -> (r: Result<(), String>)
    ensures
        match copy {
            Ok(Ok(())) => r is Ok,
            Ok(Err(e)) => r matches Err(x) && x@ == e@,
            Err(e) => r matches Err(x) && x@ == spec_fork_error(e@),
        },
{
    match copy {
        Ok(inner) => inner,
        Err(e) => Err(fork_error(e.as_str())),
    }
}

/// The end of a fork into a new working directory, given how starting the
/// new session went: kept when its record (now under the selected id) has a
/// history file; otherwise that record is dropped, the selection from before
/// the change (`prior_selected`) restored (a change counted) and the error
/// returned.
pub open spec fn spec_finish_fork(
    s: DesktopStateV,
    new_id: Seq<char>,
    prior_selected: Seq<char>,
    started: Result<(), Seq<char>>,
) -> (DesktopStateV, Result<(), Seq<char>>) {
    match started {
        Ok(()) => if spec_has_session_file(s, s.selected_session_id) {
            (s, Ok(()))
        } else {
            (
                DesktopStateV { revision: (s.revision + 1) as u64, ..spec_rollback_fork(s, s.selected_session_id, prior_selected) },
                Err("Failed to persist session file for forked session"@),
            )
        },
        Err(e) => (
            DesktopStateV { revision: (s.revision + 1) as u64, ..spec_rollback_fork(s, new_id, prior_selected) },
            Err(e),
        ),
    }
}

/// Finish a fork into a new working directory.
pub fn finish_fork(state: &mut DesktopState, new_id: &str, prior_selected: &str, started: Result<(), String>) -> (r: Result<(), String>)
    requires
        old(state).revision < u64::MAX,
    ensures
        (final(state)@, match r { Ok(()) => Ok::<(), Seq<char>>(()), Err(e) => Err::<(), Seq<char>>(e@) })
            == spec_finish_fork(old(state)@, new_id@, prior_selected@, match started { Ok(()) => Ok::<(), Seq<char>>(()), Err(e) => Err::<(), Seq<char>>(e@) }),
{
    match started {
        Ok(()) => {
            let real_id = state.selected_session_id.clone();
            if fork_file_persisted(state, real_id.as_str()) {
                Ok(())
            } else {
                rollback_fork(state, real_id.as_str(), prior_selected);
                state.revision = state.revision + 1;
                Err(owned("Failed to persist session file for forked session"))
            }
        },
        Err(e) => {
            rollback_fork(state, new_id, prior_selected);
            state.revision = state.revision + 1;
            Err(e)
        },
    }
}

/// A working-directory change never leaves a failed fork behind: when it
/// fails, the selection is what it was before the change and no record of
/// the new session is left.
pub proof fn lemma_failed_fork_rolls_back(s: DesktopStateV, new_id: Seq<char>, prior_selected: Seq<char>, started: Result<(), Seq<char>>)
    ensures
        ({
            let (r, out) = spec_finish_fork(s, new_id, prior_selected, started);
            out is Err ==> r.selected_session_id == prior_selected
                && forall|j: int| 0 <= j < r.sessions.len() ==> #[trigger] r.sessions[j].id != (if started is Ok { s.selected_session_id } else { new_id })
        }),
{
    let dropped = if started is Ok { s.selected_session_id } else { new_id };
    let kept = s.sessions.filter(|x: SessionRecordV| x.id != dropped);
    assert forall|j: int| 0 <= j < kept.len() implies #[trigger] kept[j].id != dropped by {
        s.sessions.lemma_filter_pred(|x: SessionRecordV| x.id != dropped, j);
    }
}

} // verus!
