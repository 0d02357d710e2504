//! Saved sessions: titles for the session list, the first user message of a
//! session file, and the plain transcript read back from a file.
use vstd::prelude::*;
use crate::text::{owned, str_eq, push_dec};
use crate::json::{Json, JsonV, json_view, items_view, lemma_view_array, jstr, object5};
use crate::tree::EntryKind;
use crate::transcript::{created_at, secs_of_millis};
use crate::clock::{rfc3339_from_secs, spec_rfc3339_secs};
use crate::state::{SessionRecord, SessionRecordV};

verus! {

/// The value of a run of decimal digits.
pub open spec fn digits_value(s: Seq<char>) -> int
    decreases s.len(),
{
    if s.len() == 0 {
        0
    } else {
        digits_value(s.drop_last()) * 10 + (s.last() as int - '0' as int)
    }
}

/// Every character is a decimal digit.
pub open spec fn all_digits(s: Seq<char>) -> bool {
    forall|i: int| 0 <= i < s.len() ==> '0' <= #[trigger] s[i] <= '9'
}

/// The decimal text of a natural number reads back as that number.
pub proof fn lemma_dec_nat_digits(n: nat)
    ensures
        crate::text::dec_nat(n).len() > 0,
        all_digits(crate::text::dec_nat(n)),
        digits_value(crate::text::dec_nat(n)) == n,
    decreases n,
{
    let d = crate::text::dec_nat(n);
    let k = n % 10;
    assert(crate::text::digit_char(k) as int == 48 + k);
    assert('0' as int == 48);
    if n < 10 {
        assert(d.drop_last() =~= Seq::<char>::empty());
        assert(digits_value(Seq::<char>::empty()) == 0);
        assert(d.last() == crate::text::digit_char(k));
    } else {
        lemma_dec_nat_digits(n / 10);
        assert(d.drop_last() =~= crate::text::dec_nat(n / 10));
        assert(d.last() == crate::text::digit_char(k));
    }
    assert(digits_value(d) == digits_value(d.drop_last()) * 10 + (d.last() as int - '0' as int));
}

/// The integer a JSON number's text denotes when it is an integer that fits
/// in an `i64`, as JSON's `as_i64` reads it; `None` otherwise.
pub open spec fn spec_as_i64(s: Seq<char>) -> Option<int> {
    if s.len() > 0 && s[0] == '-' {
        let d = s.drop_first();
        if d.len() > 0 && all_digits(d) && digits_value(d) <= 0x8000_0000_0000_0000 {
            Some(-digits_value(d))
        } else {
            None
        }
    } else if s.len() > 0 && all_digits(s) && digits_value(s) <= 0x7fff_ffff_ffff_ffff {
        Some(digits_value(s))
    } else {
        None
    }
}

pub(crate) proof fn lemma_digits_nonneg(s: Seq<char>)
    requires
        all_digits(s),
    ensures
        digits_value(s) >= 0,
    decreases s.len(),
{
    if s.len() > 0 {
        assert(all_digits(s.drop_last())) by {
            assert forall|i: int| 0 <= i < s.drop_last().len() implies '0' <= #[trigger] s.drop_last()[i] <= '9' by {
                assert(s.drop_last()[i] == s[i]);
            }
        }
        lemma_digits_nonneg(s.drop_last());
    }
}

proof fn lemma_digits_mono(s: Seq<char>, k: int)
    requires
        all_digits(s),
        0 <= k <= s.len(),
    ensures
        digits_value(s.take(k)) <= digits_value(s),
    decreases s.len() - k,
{
    if k < s.len() {
        lemma_digits_mono(s, k + 1);
        let t = s.take(k + 1);
        assert(t.drop_last() =~= s.take(k));
        assert(all_digits(s.take(k))) by {
            assert forall|i: int| 0 <= i < s.take(k).len() implies '0' <= #[trigger] s.take(k)[i] <= '9' by {
                assert(s.take(k)[i] == s[i]);
            }
        }
        lemma_digits_nonneg(s.take(k));
        assert(t.last() == s[k]);
    } else {
        assert(s.take(k) =~= s);
    }
}

/// The value of digits `s[start..]` when it is at most `bound`.
pub(crate) fn digits_upto(s: &Vec<char>, start: usize, bound: u64) -> (r: Option<u64>)
    requires
        start <= s@.len(),
        bound >= 9,
    ensures
        match r {
            Some(v) => all_digits(s@.skip(start as int)) && digits_value(s@.skip(start as int)) == v && v <= bound,
            None => !(all_digits(s@.skip(start as int)) && digits_value(s@.skip(start as int)) <= bound),
        },
{
    let ghost d = s@.skip(start as int);
    let mut acc: u64 = 0;
    let mut i: usize = start;
    assert(d.take(0) =~= Seq::<char>::empty());
    while i < s.len()
        invariant
            start <= i <= s@.len(),
            d == s@.skip(start as int),
            bound >= 9,
            all_digits(d.take(i - start)),
            acc == digits_value(d.take(i - start)),
            acc <= bound,
        decreases s@.len() - i,
    {
        let c = s[i];
        proof {
            assert(d[i - start] == c);
            assert(d.take(i - start + 1).drop_last() =~= d.take(i - start));
            assert(d.take(i - start + 1).last() == c);
        }
        if c < '0' || c > '9' {
            proof {
                assert(!all_digits(d)) by {
                    assert(d[i - start] == c);
                }
            }
            return None;
        }
        let dv: u64 = (c as u32 - '0' as u32) as u64;
        if acc > (bound - dv) / 10 {
            proof {
                assert(digits_value(d.take(i - start + 1)) == acc * 10 + dv);
                assert(acc * 10 + dv > bound) by (nonlinear_arith)
                    requires
                        acc > (bound - dv) / 10,
                        dv <= bound,
                ;
                if all_digits(d) {
                    lemma_digits_mono(d, i - start + 1);
                }
            }
            return None;
        }
        proof {
            assert(acc * 10 + dv <= bound) by (nonlinear_arith)
                requires
                    acc <= (bound - dv) / 10,
                    dv <= bound,
            ;
            assert(all_digits(d.take(i - start + 1))) by {
                assert forall|k: int| 0 <= k < d.take(i - start + 1).len() implies '0' <= #[trigger] d.take(i - start + 1)[k] <= '9' by {
                    if k < i - start {
                        assert(d.take(i - start + 1)[k] == d.take(i - start)[k]);
                    }
                }
            }
        }
        acc = acc * 10 + dv;
        i = i + 1;
    }
    assert(d.take(i - start) =~= d);
    Some(acc)
}

/// The `i64` a JSON value holds, as JSON's `as_i64` reads it: an integer
/// number that fits.
pub open spec fn json_i64(j: JsonV) -> Option<int> {
    match j {
        JsonV::Number(t) => spec_as_i64(t),
        _ => None,
    }
}

/// The `i64` a JSON value holds, if it holds one.
pub fn json_as_i64(j: &Json) -> (r: Option<i64>)
    ensures
        match r {
            Some(v) => json_i64(j@) == Some(v as int),
            None => json_i64(j@) is None,
        },
{
    match j {
        Json::Number(t) => {
            let cs = crate::text::chars_of(t.as_str());
            if cs.len() > 0 && cs[0] == '-' {
                proof { assert(cs@.drop_first() =~= cs@.skip(1)); }
                if cs.len() < 2 {
                    assert(cs@.drop_first().len() == 0);
                    return None;
                }
                match digits_upto(&cs, 1, 0x8000_0000_0000_0000u64) {
                    Some(v) => {
                        if v == 0x8000_0000_0000_0000u64 {
                            Some(i64::MIN)
                        } else {
                            Some(0i64 - (v as i64))
                        }
                    },
                    None => None,
                }
            } else {
                if cs.len() == 0 {
                    return None;
                }
                proof { assert(cs@.skip(0) =~= cs@); }
                match digits_upto(&cs, 0, 0x7fff_ffff_ffff_ffffu64) {
                    Some(v) => Some(v as i64),
                    None => None,
                }
            }
        },
        _ => None,
    }
}

/// The texts of a list of blocks concatenated: every block's string `text`.
pub open spec fn block_texts(bs: Seq<JsonV>) -> Seq<char>
    decreases bs.len(),
{
    if bs.len() == 0 {
        Seq::empty()
    } else {
        block_texts(bs.drop_last()) + match bs.last().get("text"@) {
            JsonV::Str(t) => t,
            _ => Seq::empty(),
        }
    }
}

/// Concatenate the string `text` members of a list of blocks.
pub fn block_texts_of(bs: &Vec<Json>) -> (r: String)
    ensures
        r@ == block_texts(items_view(bs@)),
{
    let ghost bv = items_view(bs@);
    let mut text = String::new();
    let mut i: usize = 0;
    assert(bv.take(0) =~= Seq::<JsonV>::empty());
    while i < bs.len()
        invariant
            i <= bs@.len(),
            bv == items_view(bs@),
            text@ == block_texts(bv.take(i as int)),
        decreases bs@.len() - i,
    {
        match bs[i].str_field("text") {
            Some(t) => text.append(t.as_str()),
            None => {},
        }
        proof {
            assert(bv.take(i as int + 1).drop_last() =~= bv.take(i as int));
            assert(bv.take(i as int + 1).last() == json_view(bs@[i as int]));
        }
        i = i + 1;
    }
    assert(bv.take(i as int) =~= bv);
    text
}

/// The texts of a message's content: the content itself when it is a
/// string, the blocks' texts when it is an array, nothing otherwise.
pub open spec fn content_array_texts(c: JsonV) -> Seq<char> {
    match c {
        JsonV::Array(bs) => block_texts(bs),
        _ => Seq::empty(),
    }
}

/// What the first user message of a session file gives as a title, reading
/// lines `k..`: `None` for a line that is not JSON, for a message entry whose
/// message has no role, and for a first user message without text.
pub open spec fn first_user_from(lines: Seq<Option<JsonV>>, k: nat) -> Option<Seq<char>>
    decreases lines.len() - k,
{
    if k >= lines.len() {
        None
    } else {
        match lines[k as int] {
            None => None,
            Some(v) => if !(v.get("type"@) == JsonV::Str("message"@)) {
                first_user_from(lines, k + 1)
            } else {
                let msg = v.get("message"@);
                match msg.get("role"@) {
                    JsonV::Str(role) => if role != "user"@ {
                        first_user_from(lines, k + 1)
                    } else {
                        match msg.get("content"@) {
                            JsonV::Str(t) => if t.len() > 0 { Some(t) } else { None },
                            c => {
                                let t = content_array_texts(c);
                                if t.len() > 0 { Some(t) } else { None }
                            },
                        }
                    },
                    _ => None,
                }
            },
        }
    }
}

pub open spec fn opt_json_view(o: Option<Json>) -> Option<JsonV> {
    match o {
        Some(j) => Some(json_view(j)),
        None => None,
    }
}

pub open spec fn lines_view(v: Seq<Option<Json>>) -> Seq<Option<JsonV>> {
    Seq::new(v.len(), |i: int| opt_json_view(v[i]))
}

/// The text of the first user message of a session file, given its lines
/// parsed as JSON (`None` for a line that does not parse). Handles both the
/// plain-string content of older files and the content-block array.
pub fn first_user_text(lines: &Vec<Option<Json>>) -> (r: Option<String>)
    ensures
        match r {
            Some(t) => first_user_from(lines_view(lines@), 0) == Some(t@),
            None => first_user_from(lines_view(lines@), 0) is None,
        },
{
    let ghost lv = lines_view(lines@);
    let mut k: usize = 0;
    while k < lines.len()
        invariant
            k <= lines@.len(),
            lv == lines_view(lines@),
            first_user_from(lv, 0) == first_user_from(lv, k as nat),
        decreases lines@.len() - k,
    {
        assert(lv[k as int] == opt_json_view(lines@[k as int]));
        match &lines[k] {
            None => return None,
            Some(v) => {
                if !v.field_is_str("type", "message") {
                    k = k + 1;
                    continue;
                }
                let msg: Json = match v.get("message") {
                    Some(m) => m.deep_clone(),
                    None => Json::Null,
                };
                match msg.str_field("role") {
                    Some(role) => {
                        if !str_eq(role.as_str(), "user") {
                            k = k + 1;
                            continue;
                        }
                        match msg.get("content") {
                            Some(Json::Str(t)) => {
                                if t.unicode_len() > 0 {
                                    return Some(t.clone());
                                }
                                return None;
                            },
                            Some(Json::Array(bs)) => {
                                proof { lemma_view_array(*bs); }
                                let t = block_texts_of(bs);
                                if t.unicode_len() > 0 {
                                    return Some(t);
                                }
                                return None;
                            },
                            _ => return None,
                        }
                    },
                    None => return None,
                }
            },
        }
    }
    None
}

/// The first `n` characters of `s` (all of it when shorter).
pub open spec fn take_chars(s: Seq<char>, n: nat) -> Seq<char> {
    if s.len() <= n { s } else { s.take(n as int) }
}

fn take_chars_exec(s: &str, n: usize) -> (r: String)
    ensures
        r@ == take_chars(s@, n as nat),
{
    let len = s.unicode_len();
    if len <= n {
        owned(s)
    } else {
        owned(s.substring_char(0, n))
    }
}

/// The title of a saved session in the session list: its name; else the
/// first message (up to 60 characters) when there is one; else the first
/// user message of its file (up to 60 characters); else the file's stem;
/// else `Untitled`.
pub open spec fn spec_session_title(
    name: Option<Seq<char>>,
    first_message: Seq<char>,
    first_user: Option<Seq<char>>,
    file_stem: Option<Seq<char>>,
) -> Seq<char> {
    match name {
        Some(n) => n,
        None => if first_message.len() > 0 && first_message != "(no messages)"@ {
            take_chars(first_message, 60)
        } else {
            match first_user {
                Some(t) => take_chars(t, 60),
                None => match file_stem {
                    Some(s) => s,
                    None => "Untitled"@,
                },
            }
        },
    }
}

pub open spec fn sview(o: Option<String>) -> Option<Seq<char>> {
    match o {
        Some(s) => Some(s@),
        None => None,
    }
}

/// The title of a saved session in the session list.
pub fn session_title(name: Option<String>, first_message: &str, first_user: Option<String>, file_stem: Option<String>) -> (r: String)
    ensures
        r@ == spec_session_title(sview(name), first_message@, sview(first_user), sview(file_stem)),
{
    match name {
        Some(n) => n,
        None => {
            if first_message.unicode_len() > 0 && !str_eq(first_message, "(no messages)") {
                take_chars_exec(first_message, 60)
            } else {
                match first_user {
                    Some(t) => take_chars_exec(t.as_str(), 60),
                    None => match file_stem {
                        Some(s) => s,
                        None => owned("Untitled"),
                    },
                }
            }
        },
    }
}

/// The list record of a saved session: idle, unseen nothing, resumable from
/// its file.
pub open spec fn spec_saved_record(id: Seq<char>, title: Seq<char>, modified: Seq<char>, path: Seq<char>) -> SessionRecordV {
    SessionRecordV {
        id: id,
        title: title,
        updated_at: modified,
        preview: Seq::empty(),
        status: "idle"@,
        has_unseen_update: false,
        session_file: Some(path),
        archived_at: None,
        config: None,
        thinking_level: None,
        cwd: None,
    }
}

/// The list record of a saved session.
pub fn saved_session_record(id: String, title: String, modified: String, path: String) -> (r: SessionRecord)
    ensures
        r@ == spec_saved_record(id@, title@, modified@, path@),
{
    SessionRecord {
        id: id,
        title: title,
        updated_at: modified,
        preview: String::new(),
        status: owned("idle"),
        has_unseen_update: false,
        session_file: Some(path),
        archived_at: None,
        config: None,
        thinking_level: None,
        cwd: None,
    }
}

/// The role of a stored message (`""` when it has none).
pub open spec fn stored_role(m: JsonV) -> Seq<char> {
    match m.get("role"@) {
        JsonV::Str(r) => r,
        _ => Seq::empty(),
    }
}

/// The time stamp of a stored message in milliseconds (0 when it has none).
pub open spec fn stored_timestamp(m: JsonV) -> int {
    match json_i64(m.get("timestamp"@)) {
        Some(t) => t,
        None => 0,
    }
}

/// The plain transcript entry of the `index`-th shown message.
pub open spec fn stored_entry(m: JsonV, index: nat, now: Seq<char>) -> JsonV {
    JsonV::Object(seq![
        ("id"@, JsonV::Str("msg-"@ + crate::text::dec_nat(index))),
        ("kind"@, JsonV::Str("message"@)),
        ("role"@, JsonV::Str(stored_role(m))),
        ("text"@, JsonV::Str(content_array_texts(m.get("content"@)))),
        ("createdAt"@, JsonV::Str(created_at(stored_timestamp(m) as i64, now))),
    ])
}

/// The plain transcript of the first `n` history entries: the user and
/// assistant messages, numbered from 0 in the order shown.
pub open spec fn stored_prefix(entries: Seq<EntryKind>, n: nat, now: Seq<char>) -> Seq<JsonV>
    decreases n,
{
    if n == 0 {
        Seq::empty()
    } else {
        let before = stored_prefix(entries, (n - 1) as nat, now);
        match entries[n - 1] {
            EntryKind::Message { message } => {
                let role = stored_role(json_view(message));
                if role == "user"@ || role == "assistant"@ {
                    before.push(stored_entry(json_view(message), before.len(), now))
                } else {
                    before
                }
            },
            _ => before,
        }
    }
}

/// The plain transcript of a session's history at time `now`: one entry per
/// user or assistant message with its role, its blocks' texts and its
/// creation time (`now` where the time stamp cannot be rendered).
pub fn transcript_from_entries(entries: &Vec<EntryKind>, now: &str) -> (r: Vec<Json>)
    ensures
        items_view(r@) == stored_prefix(entries@, entries@.len(), now@),
{
    let mut out: Vec<Json> = Vec::new();
    let mut i: usize = 0;
    while i < entries.len()
        invariant
            i <= entries@.len(),
            items_view(out@) == stored_prefix(entries@, i as nat, now@),
        decreases entries@.len() - i,
    {
        let ghost before = out@;
        match &entries[i] {
            EntryKind::Message { message } => {
                let role: String = match message.str_field("role") {
                    Some(r) => r.clone(),
                    None => String::new(),
                };
                if str_eq(role.as_str(), "user") || str_eq(role.as_str(), "assistant") {
                    let text = match message.get("content") {
                        Some(Json::Array(bs)) => {
                            proof { lemma_view_array(*bs); }
                            block_texts_of(bs)
                        },
                        _ => String::new(),
                    };
                    let ts: i64 = match message.get("timestamp") {
                        Some(t) => match json_as_i64(t) {
                            Some(v) => v,
                            None => 0,
                        },
                        None => 0,
                    };
                    let secs = crate::transcript::secs_of_millis_exec(ts);
                    let created = match rfc3339_from_secs(secs) {
                        Some(c) => c,
                        None => owned(now),
                    };
                    let mut id = owned("msg-");
                    push_dec(&mut id, out.len() as u64);
                    let e = object5(
                        "id", Json::Str(id),
                        "kind", jstr("message"),
                        "role", Json::Str(role),
                        "text", Json::Str(text),
                        "createdAt", Json::Str(created),
                    );
                    proof {
                        assert(items_view(before).len() == before.len());
                    }
                    out.push(e);
                    assert(items_view(out@) =~= items_view(before).push(e@));
                }
            },
            _ => {},
        }
        i = i + 1;
    }
    out
}

} // verus!
