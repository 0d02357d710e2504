//! Character-level string helpers shared by the rest of the library.
use vstd::prelude::*;
use vstd::string::*;

verus! {

/// `a` is a prefix of `s`.
pub open spec fn seq_starts_with(s: Seq<char>, p: Seq<char>) -> bool {
    p.len() <= s.len() && s.subrange(0, p.len() as int) == p
}

/// `p` occurs as a contiguous block of `s`.
pub open spec fn seq_contains(s: Seq<char>, p: Seq<char>) -> bool {
    exists|i: int| 0 <= i <= s.len() - p.len() && #[trigger] s.subrange(i, i + p.len()) == p
}

/// Appends one character to a string (std `String::push`).
#[verifier::external_body]
pub(crate) fn push_char(s: &mut String, c: char)
    ensures
        final(s)@ == old(s)@.push(c),
{
    s.push(c);
}

/// Equality of two string slices, character by character.
pub fn str_eq(a: &str, b: &str) -> (r: bool)
    ensures
        r == (a@ == b@),
{
    let x = a.to_owned();
    let y = b.to_owned();
    x == y
}

/// The characters of a string slice.
pub fn chars_of(s: &str) -> (v: Vec<char>)
    ensures
        v@ == s@,
{
    let n = s.unicode_len();
    let mut v: Vec<char> = Vec::new();
    let mut i: usize = 0;
    while i < n
        invariant
            n == s@.len(),
            i <= n,
            v@ == s@.take(i as int),
        decreases n - i,
    {
        let c = s.get_char(i);
        v.push(c);
        i = i + 1;
        assert(v@ =~= s@.take(i as int));
    }
    assert(v@ =~= s@);
    v
}

/// A string made of the given characters.
pub fn string_of(v: &[char]) -> (s: String)
    ensures
        s@ == v@,
{
    let mut s = String::new();
    let mut i: usize = 0;
    while i < v.len()
        invariant
            i <= v@.len(),
            s@ == v@.take(i as int),
        decreases v@.len() - i,
    {
        push_char(&mut s, v[i]);
        i = i + 1;
        assert(s@ =~= v@.take(i as int));
    }
    assert(s@ =~= v@);
    s
}


/// The decimal digit character for `d < 10`.
pub open spec fn digit_char(d: nat) -> char {
    (48 + d) as char
}

/// Decimal text of a natural number, without leading zeros.
pub open spec fn dec_nat(n: nat) -> Seq<char>
    decreases n,
{
    if n < 10 {
        seq![digit_char(n)]
    } else {
        dec_nat(n / 10).push(digit_char(n % 10))
    }
}

/// Decimal text of an integer, with a leading `-` when negative.
pub open spec fn dec_int(n: int) -> Seq<char> {
    if n < 0 {
        seq!['-'] + dec_nat((-n) as nat)
    } else {
        dec_nat(n as nat)
    }
}

/// Appends the decimal text of `n`.
pub fn push_dec(s: &mut String, n: u64)
    ensures
        final(s)@ == old(s)@ + dec_nat(n as nat),
    decreases n,
{
    if n >= 10 {
        push_dec(s, n / 10);
    }
    let d: u8 = (n % 10) as u8;
    let c: char = (48u8 + d) as char;
    assert(c == digit_char((n % 10) as nat));
    push_char(s, c);
    proof {
        if n >= 10 {
            assert(old(s)@ + dec_nat(n as nat) =~= old(s)@ + dec_nat((n / 10) as nat) + seq![c]);
        } else {
            assert(old(s)@ + dec_nat(n as nat) =~= old(s)@.push(c));
        }
    }
}

/// Decimal text of an unsigned integer.
pub fn u64_to_dec(n: u64) -> (r: String)
    ensures
        r@ == dec_nat(n as nat),
{
    let mut s = String::new();
    push_dec(&mut s, n);
    assert(s@ =~= dec_nat(n as nat));
    s
}

/// Appends the decimal text of a signed integer.
pub fn push_dec_i64(s: &mut String, n: i64)
    ensures
        final(s)@ == old(s)@ + dec_int(n as int),
{
    if n < 0 {
        push_char(s, '-');
        let m: u64 = (0i128 - n as i128) as u64;
        push_dec(s, m);
        assert(final(s)@ =~= old(s)@ + dec_int(n as int));
    } else {
        push_dec(s, n as u64);
    }
}

/// A string slice as an owned string.
pub fn owned(s: &str) -> (r: String)
    ensures
        r@ == s@,
{
    s.to_owned()
}

/// The concatenation of two strings.
pub fn concat2(a: &str, b: &str) -> (r: String)
    ensures
        r@ == a@ + b@,
{
    let mut s = a.to_owned();
    s.append(b);
    s
}

/// The concatenation of three strings.
pub fn concat3(a: &str, b: &str, c: &str) -> (r: String)
    ensures
        r@ == a@ + b@ + c@,
{
    let mut s = a.to_owned();
    s.append(b);
    s.append(c);
    s
}


/// `s` with every backslash turned into a slash.
pub open spec fn slashes(s: Seq<char>) -> Seq<char> {
    Seq::new(s.len(), |i: int| if s[i] == '\\' { '/' } else { s[i] })
}

/// Replace every backslash with a slash.
pub fn normalize_slashes(s: &str) -> (r: String)
    ensures
        r@ == slashes(s@),
{
    let n = s.unicode_len();
    let mut out = String::new();
    let mut i: usize = 0;
    while i < n
        invariant
            n == s@.len(),
            i <= n,
            out@ == slashes(s@).take(i as int),
        decreases n - i,
    {
        let c = s.get_char(i);
        let d = if c == '\\' { '/' } else { c };
        push_char(&mut out, d);
        i = i + 1;
        assert(out@ =~= slashes(s@).take(i as int));
    }
    assert(out@ =~= slashes(s@));
    out
}

/// `i` is the last position of `c` in `s`.
pub open spec fn is_last_index(s: Seq<char>, c: char, i: int) -> bool {
    &&& 0 <= i < s.len()
    &&& s[i] == c
    &&& forall|j: int| i < j < s.len() ==> s[j] != c
}

/// The last position of `c` in `s`.
pub open spec fn last_index_of(s: Seq<char>, c: char) -> Option<int> {
    if exists|i: int| is_last_index(s, c, i) {
        Some(choose|i: int| is_last_index(s, c, i))
    } else {
        None
    }
}

pub proof fn lemma_last_index(s: Seq<char>, c: char, i: int)
    requires
        is_last_index(s, c, i),
    ensures
        last_index_of(s, c) == Some(i),
{
    let k = choose|k: int| is_last_index(s, c, k);
    if k < i {} else if k > i {}
}

/// The last position of `c` in `s` (in characters).
pub fn rfind_char(s: &str, c: char) -> (r: Option<usize>)
    ensures
        match r {
            Some(i) => is_last_index(s@, c, i as int) && last_index_of(s@, c) == Some(i as int),
            None => last_index_of(s@, c) is None && forall|j: int| 0 <= j < s@.len() ==> s@[j] != c,
        },
{
    let n = s.unicode_len();
    let mut i: usize = n;
    while i > 0
        invariant
            n == s@.len(),
            i <= n,
            forall|j: int| i <= j < n ==> s@[j] != c,
        decreases i,
    {
        if s.get_char(i - 1) == c {
            proof { lemma_last_index(s@, c, i - 1); }
            return Some(i - 1);
        }
        i = i - 1;
    }
    None
}

/// Whether `s` starts with `p`.
pub fn starts_with(s: &str, p: &str) -> (r: bool)
    ensures
        r == seq_starts_with(s@, p@),
{
    let n = s.unicode_len();
    let m = p.unicode_len();
    if m > n {
        return false;
    }
    let mut i: usize = 0;
    while i < m
        invariant
            n == s@.len(),
            m == p@.len(),
            m <= n,
            i <= m,
            s@.subrange(0, i as int) == p@.subrange(0, i as int),
        decreases m - i,
    {
        if s.get_char(i) != p.get_char(i) {
            assert(s@.subrange(0, m as int)[i as int] != p@[i as int]);
            return false;
        }
        i = i + 1;
        assert(s@.subrange(0, i as int) =~= s@.subrange(0, i as int - 1).push(s@[i as int - 1]));
        assert(p@.subrange(0, i as int) =~= p@.subrange(0, i as int - 1).push(p@[i as int - 1]));
    }
    assert(p@.subrange(0, m as int) =~= p@);
    true
}

/// Whether `p` occurs in `s` starting at position `k`.
fn occurs_at(s: &str, p: &str, k: usize) -> (r: bool)
    requires
        k + p@.len() <= s@.len(),
    ensures
        r == (s@.subrange(k as int, k + p@.len()) == p@),
{
    let n = s.unicode_len();
    let m = p.unicode_len();
    let mut i: usize = 0;
    while i < m
        invariant
            n == s@.len(),
            m == p@.len(),
            k + m <= s@.len(),
            i <= m,
            s@.subrange(k as int, k + i) == p@.subrange(0, i as int),
        decreases m - i,
    {
        if s.get_char(k + i) != p.get_char(i) {
            assert(s@.subrange(k as int, k + m)[i as int] != p@[i as int]);
            return false;
        }
        i = i + 1;
        assert(s@.subrange(k as int, k + i) =~= s@.subrange(k as int, k + i - 1).push(s@[k + i - 1]));
        assert(p@.subrange(0, i as int) =~= p@.subrange(0, i as int - 1).push(p@[i as int - 1]));
    }
    assert(p@.subrange(0, m as int) =~= p@);
    true
}

/// Whether `p` occurs in `s`.
pub fn contains(s: &str, p: &str) -> (r: bool)
    ensures
        r == seq_contains(s@, p@),
{
    let n = s.unicode_len();
    let m = p.unicode_len();
    if m > n {
        assert forall|i: int| !(0 <= i <= s@.len() - p@.len() && #[trigger] s@.subrange(i, i + p@.len()) == p@) by {}
        return false;
    }
    if m == 0 {
        assert(s@.subrange(0int, 0int + p@.len()) =~= p@);
        return true;
    }
    let mut k: usize = 0;
    while k <= n - m
        invariant
            n == s@.len(),
            m == p@.len(),
            m <= n,
            m > 0,
            k <= n - m + 1,
            forall|i: int| 0 <= i < k ==> #[trigger] s@.subrange(i, i + m) != p@,
        decreases n - m + 1 - k,
    {
        if occurs_at(s, p, k) {
            return true;
        }
        k = k + 1;
    }
    false
}

/// Characters with the Unicode lowercase mapping of std's `str::to_lowercase`
/// applied; a function of the text alone.
pub uninterp spec fn spec_lowercase(s: Seq<char>) -> Seq<char>;

/// std `str::to_lowercase`. The contract only names the result.
#[verifier::external_body]
pub fn to_lowercase(s: &str) -> (r: String)
    ensures
        r@ == spec_lowercase(s@),
{
    s.to_lowercase()
}

/// The characters std counts as white space (`char::is_whitespace`, the
/// Unicode `White_Space` property).
pub open spec fn is_white_space(c: char) -> bool {
    let u = c as u32;
    ||| 0x09 <= u <= 0x0d
    ||| u == 0x20
    ||| u == 0x85
    ||| u == 0xa0
    ||| u == 0x1680
    ||| 0x2000 <= u <= 0x200a
    ||| u == 0x2028
    ||| u == 0x2029
    ||| u == 0x202f
    ||| u == 0x205f
    ||| u == 0x3000
}

/// The text without its leading white space.
pub open spec fn trim_start_ws(s: Seq<char>) -> Seq<char>
    decreases s.len(),
{
    if s.len() > 0 && is_white_space(s[0]) { trim_start_ws(s.drop_first()) } else { s }
}

/// The text without its trailing white space.
pub open spec fn trim_end_ws(s: Seq<char>) -> Seq<char>
    decreases s.len(),
{
    if s.len() > 0 && is_white_space(s.last()) { trim_end_ws(s.drop_last()) } else { s }
}

/// The text with leading and trailing white space removed, as std's
/// `str::trim` does it.
pub open spec fn spec_trim(s: Seq<char>) -> Seq<char> {
    trim_end_ws(trim_start_ws(s))
}

/// Whether `c` is white space in the sense of `is_white_space`.
pub fn is_white_space_char(c: char) -> (r: bool)
    ensures
        r == is_white_space(c),
{
    let u = c as u32;
    (0x09 <= u && u <= 0x0d) || u == 0x20 || u == 0x85 || u == 0xa0 || u == 0x1680
        || (0x2000 <= u && u <= 0x200a) || u == 0x2028 || u == 0x2029 || u == 0x202f
        || u == 0x205f || u == 0x3000
}

/// The text with leading and trailing white space removed (what std's
/// `str::trim` gives).
pub fn trim(s: &str) -> (r: String)
    ensures
        r@ == spec_trim(s@),
{
    let cs = chars_of(s);
    let n = cs.len();
    let mut a: usize = 0;
    assert(s@.skip(0) =~= s@);
    while a < n && is_white_space_char(cs[a])
        invariant
            cs@ == s@,
            n == cs@.len(),
            a <= n,
            trim_start_ws(s@) == trim_start_ws(s@.skip(a as int)),
        decreases n - a,
    {
        assert(s@.skip(a as int).drop_first() =~= s@.skip(a as int + 1));
        a = a + 1;
    }
    proof {
        if a == n {
            assert(s@.skip(a as int) =~= Seq::<char>::empty());
        }
    }
    assert(trim_start_ws(s@) == s@.subrange(a as int, n as int)) by {
        assert(s@.skip(a as int) =~= s@.subrange(a as int, n as int));
    }
    let mut b: usize = n;
    while b > a && is_white_space_char(cs[b - 1])
        invariant
            cs@ == s@,
            n == cs@.len(),
            a <= b <= n,
            spec_trim(s@) == trim_end_ws(s@.subrange(a as int, b as int)),
        decreases b - a,
    {
        assert(s@.subrange(a as int, b as int).drop_last() =~= s@.subrange(a as int, b as int - 1));
        assert(s@.subrange(a as int, b as int).last() == s@[b as int - 1]);
        b = b - 1;
    }
    proof {
        let u = s@.subrange(a as int, b as int);
        if b > a {
            assert(u.last() == s@[b as int - 1]);
        } else {
            assert(u =~= Seq::<char>::empty());
        }
    }
    owned(s.substring_char(a, b))
}


/// A line without the carriage return that ended it.
pub open spec fn strip_cr(l: Seq<char>) -> Seq<char> {
    if l.len() > 0 && l.last() == '\r' { l.drop_last() } else { l }
}

/// The first position of `c` in `s`.
pub open spec fn first_index_of(s: Seq<char>, c: char) -> Option<int> {
    if exists|i: int| 0 <= i < s.len() && s[i] == c && forall|j: int| 0 <= j < i ==> s[j] != c {
        Some(choose|i: int| 0 <= i < s.len() && s[i] == c && forall|j: int| 0 <= j < i ==> s[j] != c)
    } else {
        None
    }
}

/// The lines of a text as std's `str::lines` yields them: split after each
/// `\n`, which is dropped together with a `\r` just before it; a last piece
/// without `\n` is kept as it is, and no empty piece follows a final `\n`.
pub open spec fn spec_lines(s: Seq<char>) -> Seq<Seq<char>>
    decreases s.len(),
{
    if s.len() == 0 {
        Seq::empty()
    } else {
        match first_index_of(s, '\n') {
            Some(i) => seq![strip_cr(s.take(i))] + spec_lines(s.skip(i + 1)),
            None => seq![s],
        }
    }
}

proof fn lemma_first_nl(s: Seq<char>, i: int)
    requires
        0 <= i < s.len(),
        s[i] == '\n',
        forall|j: int| 0 <= j < i ==> s[j] != '\n',
    ensures
        first_index_of(s, '\n') == Some(i),
{
    let k = choose|k: int| 0 <= k < s.len() && s[k] == '\n' && forall|j: int| 0 <= j < k ==> s[j] != '\n';
    if k < i {} else if k > i {}
}

proof fn lemma_lines_step(s: Seq<char>, start: int, i: int)
    requires
        0 <= start <= i < s.len(),
        s[i] == '\n',
        forall|j: int| start <= j < i ==> s[j] != '\n',
    ensures
        spec_lines(s.skip(start)) == seq![strip_cr(s.subrange(start, i))] + spec_lines(s.skip(i + 1)),
{
    let rest = s.skip(start);
    lemma_first_nl(rest, i - start);
    assert(rest.take(i - start) =~= s.subrange(start, i));
    assert(rest.skip(i - start + 1) =~= s.skip(i + 1));
}

fn finish_line(cur: &String) -> (r: String)
    ensures
        r@ == strip_cr(cur@),
{
    let cl = cur.as_str().unicode_len();
    if cl > 0 && cur.as_str().get_char(cl - 1) == '\r' {
        let t = cur.as_str().substring_char(0, cl - 1);
        assert(t@ =~= cur@.drop_last());
        owned(t)
    } else {
        cur.clone()
    }
}

proof fn lemma_lines_push(s: Seq<char>, done: Seq<Seq<char>>, start: int, i: int)
    requires
        0 <= start <= i < s.len(),
        s[i] == '\n',
        forall|j: int| start <= j < i ==> s[j] != '\n',
        spec_lines(s) == done + spec_lines(s.skip(start)),
    ensures
        spec_lines(s) == done.push(strip_cr(s.subrange(start, i))) + spec_lines(s.skip(i + 1)),
{
    lemma_lines_step(s, start, i);
    assert(done + (seq![strip_cr(s.subrange(start, i))] + spec_lines(s.skip(i + 1)))
        =~= done.push(strip_cr(s.subrange(start, i))) + spec_lines(s.skip(i + 1)));
}

proof fn lemma_lines_last(s: Seq<char>, done: Seq<Seq<char>>, start: int)
    requires
        0 <= start <= s.len(),
        forall|j: int| start <= j < s.len() ==> s[j] != '\n',
        spec_lines(s) == done + spec_lines(s.skip(start)),
    ensures
        spec_lines(s) == if start < s.len() { done.push(s.skip(start)) } else { done },
{
    let rest = s.skip(start);
    assert(first_index_of(rest, '\n') is None);
    if start < s.len() {
        assert(spec_lines(rest) == seq![rest]);
        assert(done + seq![rest] =~= done.push(rest));
    } else {
        assert(rest.len() == 0);
        assert(done + spec_lines(rest) =~= done);
    }
}

/// Split a text into lines as std's `str::lines` does.
pub fn split_lines(s: &str) -> (r: Vec<String>)
    ensures
        strs_of(r@) == spec_lines(s@),
{
    let n = s.unicode_len();
    let mut out: Vec<String> = Vec::new();
    let mut cur = String::new();
    let mut start: usize = 0;
    let mut i: usize = 0;
    assert(s@.skip(0) =~= s@);
    assert(strs_of(out@) + spec_lines(s@) =~= spec_lines(s@));
    while i < n
        invariant
            n == s@.len(),
            start <= i <= n,
            cur@ == s@.subrange(start as int, i as int),
            forall|j: int| start <= j < i ==> s@[j] != '\n',
            spec_lines(s@) == strs_of(out@) + spec_lines(s@.skip(start as int)),
        decreases n - i,
    {
        let c = s.get_char(i);
        if c == '\n' {
            proof { lemma_lines_push(s@, strs_of(out@), start as int, i as int); }
            let line = finish_line(&cur);
            let ghost before = strs_of(out@);
            out.push(line);
            assert(strs_of(out@) =~= before.push(strip_cr(s@.subrange(start as int, i as int))));
            cur = String::new();
            start = i + 1;
        } else {
            push_char(&mut cur, c);
        }
        i = i + 1;
        assert(cur@ =~= s@.subrange(start as int, i as int));
    }
    proof { lemma_lines_last(s@, strs_of(out@), start as int); }
    if start < n {
        assert(cur@ =~= s@.skip(start as int));
        let ghost before = strs_of(out@);
        out.push(cur);
        assert(strs_of(out@) =~= before.push(s@.skip(start as int)));
    }
    out
}

/// The views of a list of strings.
pub open spec fn strs_of(v: Seq<String>) -> Seq<Seq<char>> {
    Seq::new(v.len(), |i: int| v[i]@)
}

/// The text std's `String::from_utf8_lossy` decodes from bytes (invalid
/// sequences become U+FFFD); a function of the bytes alone.
pub uninterp spec fn spec_utf8_lossy(b: Seq<u8>) -> Seq<char>;

/// std `String::from_utf8_lossy`. The contract only names the result.
#[verifier::external_body]
pub fn utf8_lossy(b: &[u8]) -> (r: String)
    ensures
        r@ == spec_utf8_lossy(b@),
{
    String::from_utf8_lossy(b).to_string()
}

/// Number of bytes of a character in UTF-8.
pub open spec fn utf8_width(c: char) -> nat {
    if (c as u32) < 0x80 {
        1
    } else if (c as u32) < 0x800 {
        2
    } else if (c as u32) < 0x10000 {
        3
    } else {
        4
    }
}

/// Number of bytes of a text in UTF-8.
pub open spec fn utf8_len(s: Seq<char>) -> nat
    decreases s.len(),
{
    if s.len() == 0 { 0 } else { utf8_len(s.drop_last()) + utf8_width(s.last()) }
}

/// Byte offset `b` falls between characters of `s`.
pub open spec fn is_byte_boundary(s: Seq<char>, b: nat) -> bool {
    exists|k: int| 0 <= k <= s.len() && #[trigger] utf8_len(s.take(k)) == b
}

pub proof fn lemma_utf8_len_mono(s: Seq<char>, k: int, m: int)
    requires
        0 <= k <= m <= s.len(),
    ensures
        utf8_len(s.take(k)) <= utf8_len(s.take(m)),
    decreases m - k,
{
    if k < m {
        lemma_utf8_len_mono(s, k, m - 1);
        assert(s.take(m).drop_last() =~= s.take(m - 1));
    }
}

fn char_width(c: char) -> (r: usize)
    ensures
        r == utf8_width(c),
{
    let v = c as u32;
    if v < 0x80 { 1 } else if v < 0x800 { 2 } else if v < 0x10000 { 3 } else { 4 }
}

/// The character index at byte offset `b`, when `b` falls between
/// characters.
pub fn char_index_at_byte(s: &str, b: usize) -> (r: Option<usize>)
    ensures
        match r {
            Some(k) => k <= s@.len() && utf8_len(s@.take(k as int)) == b,
            None => !is_byte_boundary(s@, b as nat),
        },
{
    let n = s.unicode_len();
    let mut k: usize = 0;
    let mut acc: u128 = 0;
    let bb: u128 = b as u128;
    assert(s@.take(0) =~= Seq::<char>::empty());
    while k < n && acc < bb
        invariant
            n == s@.len(),
            k <= n,
            bb == b,
            acc == utf8_len(s@.take(k as int)),
            acc <= bb + 4,
            forall|j: int| 0 <= j < k ==> #[trigger] utf8_len(s@.take(j)) < b,
        decreases n - k,
    {
        let w = char_width(s.get_char(k));
        proof {
            assert(s@.take(k as int + 1).drop_last() =~= s@.take(k as int));
        }
        acc = acc + w as u128;
        k = k + 1;
    }
    if acc == bb {
        return Some(k);
    }
    proof {
        assert forall|j: int| 0 <= j <= s@.len() implies #[trigger] utf8_len(s@.take(j)) != b by {
            if j < k {
            } else if j > k {
                lemma_utf8_len_mono(s@, k as int, j);
            }
        }
    }
    None
}


/// `i` is the first position where `p` occurs in `s`.
pub open spec fn is_first_occurrence(s: Seq<char>, p: Seq<char>, i: int) -> bool {
    &&& 0 <= i <= s.len() - p.len()
    &&& s.subrange(i, i + p.len()) == p
    &&& forall|j: int| 0 <= j < i ==> #[trigger] s.subrange(j, j + p.len()) != p
}

/// The first position where `p` occurs in `s`.
pub open spec fn find_seq(s: Seq<char>, p: Seq<char>) -> Option<int> {
    if exists|i: int| is_first_occurrence(s, p, i) {
        Some(choose|i: int| is_first_occurrence(s, p, i))
    } else {
        None
    }
}

/// The first position (in characters) where `p` occurs in `s`.
pub fn find_str(s: &str, p: &str) -> (r: Option<usize>)
    ensures
        match r {
            Some(i) => is_first_occurrence(s@, p@, i as int) && find_seq(s@, p@) == Some(i as int),
            None => find_seq(s@, p@) is None,
        },
{
    let n = s.unicode_len();
    let m = p.unicode_len();
    if m > n {
        return None;
    }
    if m == 0 {
        proof {
            assert(s@.subrange(0int, 0int + p@.len()) =~= p@);
            assert(is_first_occurrence(s@, p@, 0));
            let c = choose|i: int| is_first_occurrence(s@, p@, i);
            if c > 0 {}
        }
        return Some(0);
    }
    let mut k: usize = 0;
    while k <= n - m
        invariant
            n == s@.len(),
            m == p@.len(),
            m <= n,
            m > 0,
            k <= n - m + 1,
            forall|i: int| 0 <= i < k ==> #[trigger] s@.subrange(i, i + m) != p@,
        decreases n - m + 1 - k,
    {
        if occurs_at(s, p, k) {
            proof {
                assert(is_first_occurrence(s@, p@, k as int));
                let c = choose|i: int| is_first_occurrence(s@, p@, i);
                if c < k as int {} else if c > k as int {}
            }
            return Some(k);
        }
        k = k + 1;
    }
    assert forall|i: int| !is_first_occurrence(s@, p@, i) by {}
    None
}

pub proof fn lemma_utf8_len_strict(s: Seq<char>, k: int, m: int)
    requires
        0 <= k < m <= s.len(),
    ensures
        utf8_len(s.take(k)) < utf8_len(s.take(m)),
    decreases m - k,
{
    assert(s.take(m).drop_last() =~= s.take(m - 1));
    if k < m - 1 {
        lemma_utf8_len_strict(s, k, m - 1);
    }
}

/// The characters after byte offset `b` (meaningful when `b` falls between
/// characters).
pub open spec fn skip_bytes(s: Seq<char>, b: nat) -> Seq<char> {
    s.skip(choose|k: int| 0 <= k <= s.len() && #[trigger] utf8_len(s.take(k)) == b)
}

pub proof fn lemma_skip_bytes(s: Seq<char>, b: nat, k: int)
    requires
        0 <= k <= s.len(),
        utf8_len(s.take(k)) == b,
    ensures
        skip_bytes(s, b) == s.skip(k),
{
    let c = choose|c: int| 0 <= c <= s.len() && #[trigger] utf8_len(s.take(c)) == b;
    if c < k {
        lemma_utf8_len_strict(s, c, k);
    } else if k < c {
        lemma_utf8_len_strict(s, k, c);
    }
}

/// Whether the UTF-8 encoding of `s` is longer than `limit` bytes.
pub fn utf8_longer_than(s: &str, limit: usize) -> (r: bool)
    ensures
        r == (utf8_len(s@) > limit),
{
    let n = s.unicode_len();
    let mut k: usize = 0;
    let mut acc: usize = 0;
    assert(s@.take(0) =~= Seq::<char>::empty());
    while k < n
        invariant
            n == s@.len(),
            k <= n,
            acc == utf8_len(s@.take(k as int)),
            acc <= limit,
        decreases n - k,
    {
        let w = char_width(s.get_char(k));
        proof {
            assert(s@.take(k as int + 1).drop_last() =~= s@.take(k as int));
        }
        if w > limit - acc {
            proof {
                lemma_utf8_len_mono(s@, k as int + 1, n as int);
                assert(s@.take(n as int) =~= s@);
            }
            return true;
        }
        acc = acc + w;
        k = k + 1;
    }
    assert(s@.take(n as int) =~= s@);
    false
}

} // verus!
