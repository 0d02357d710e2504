//! A JSON document model. Numbers are kept as their decimal text so that no
//! floating-point value ever enters the library.
use vstd::prelude::*;
use crate::text::str_eq;

verus! {

/// A JSON value. Object members keep their order; lookups take the first
/// member with a given key.
#[derive(Debug)]
pub enum Json {
    Null,
    Bool(bool),
    /// The number as its decimal text.
    Number(String),
    Str(String),
    Array(Vec<Json>),
    Object(Vec<(String, Json)>),
}

/// The mathematical model of a JSON value.
pub enum JsonV {
    Null,
    Bool(bool),
    Number(Seq<char>),
    Str(Seq<char>),
    Array(Seq<JsonV>),
    Object(Seq<(Seq<char>, JsonV)>),
}

pub open spec fn json_view(j: Json) -> JsonV
    decreases j,
{
    match j {
        Json::Null => JsonV::Null,
        Json::Bool(b) => JsonV::Bool(b),
        Json::Number(n) => JsonV::Number(n@),
        Json::Str(s) => JsonV::Str(s@),
        Json::Array(v) => JsonV::Array(
            Seq::new(v@.len(), |i: int| { if 0 <= i < v@.len() { json_view(v@[i]) } else { JsonV::Null } }),
        ),
        Json::Object(m) => JsonV::Object(
            Seq::new(m@.len(), |i: int| { if 0 <= i < m@.len() { (m@[i].0@, json_view(m@[i].1)) } else { (Seq::empty(), JsonV::Null) } }),
        ),
    }
}

impl View for Json {
    type V = JsonV;

    open spec fn view(&self) -> JsonV {
        json_view(*self)
    }
}


/// The models of a member list.
pub open spec fn members_view(m: Seq<(String, Json)>) -> Seq<(Seq<char>, JsonV)> {
    Seq::new(m.len(), |i: int| (m[i].0@, json_view(m[i].1)))
}

/// The models of an item list.
pub open spec fn items_view(v: Seq<Json>) -> Seq<JsonV> {
    Seq::new(v.len(), |i: int| json_view(v[i]))
}

/// `i` is the first position of a member named `key`.
pub open spec fn key_at(m: Seq<(Seq<char>, JsonV)>, key: Seq<char>, i: int) -> bool {
    &&& 0 <= i < m.len()
    &&& m[i].0 == key
    &&& forall|j: int| 0 <= j < i ==> m[j].0 != key
}

/// The first position of a member named `key`, if any.
pub open spec fn first_key(m: Seq<(Seq<char>, JsonV)>, key: Seq<char>) -> Option<int> {
    if exists|i: int| key_at(m, key, i) {
        Some(choose|i: int| key_at(m, key, i))
    } else {
        None
    }
}

pub proof fn lemma_key_at_unique(m: Seq<(Seq<char>, JsonV)>, key: Seq<char>, i: int, k: int)
    requires
        key_at(m, key, i),
        key_at(m, key, k),
    ensures
        i == k,
{
}

pub proof fn lemma_first_key(m: Seq<(Seq<char>, JsonV)>, key: Seq<char>, i: int)
    requires
        key_at(m, key, i),
    ensures
        first_key(m, key) == Some(i),
{
    let c = choose|k: int| key_at(m, key, k);
    lemma_key_at_unique(m, key, i, c);
}

impl JsonV {
    /// Member lookup as JSON indexing does it: `Null` unless `self` is an
    /// object with a member named `key`.
    pub open spec fn get(self, key: Seq<char>) -> JsonV {
        match self {
            JsonV::Object(m) => match first_key(m, key) {
                Some(i) => m[i].1,
                None => JsonV::Null,
            },
            _ => JsonV::Null,
        }
    }

    /// `self[key]` is the string `s`.
    pub open spec fn field_is_str(self, key: Seq<char>, s: Seq<char>) -> bool {
        self.get(key) == JsonV::Str(s)
    }

    /// The text of a string value.
    pub open spec fn as_str(self) -> Option<Seq<char>> {
        match self {
            JsonV::Str(s) => Some(s),
            _ => None,
        }
    }

    /// Member assignment as JSON index-assignment does it: an existing
    /// member is replaced in place, a new one is appended, and `Null`
    /// becomes a one-member object.
    pub open spec fn set(self, key: Seq<char>, v: JsonV) -> JsonV {
        match self {
            JsonV::Object(m) => match first_key(m, key) {
                Some(i) => JsonV::Object(m.update(i, (key, v))),
                None => JsonV::Object(m.push((key, v))),
            },
            _ => JsonV::Object(seq![(key, v)]),
        }
    }

    /// Index-assignment is defined on `Null` and on objects.
    pub open spec fn settable(self) -> bool {
        self is Null || self is Object
    }
}

pub proof fn lemma_view_object(m: Vec<(String, Json)>)
    ensures
        json_view(Json::Object(m)) == JsonV::Object(members_view(m@)),
{
    assert(json_view(Json::Object(m))->Object_0 =~= members_view(m@));
}

pub proof fn lemma_view_array(v: Vec<Json>)
    ensures
        json_view(Json::Array(v)) == JsonV::Array(items_view(v@)),
{
    assert(json_view(Json::Array(v))->Array_0 =~= items_view(v@));
}

/// The models of an item list grow with it.
pub proof fn lemma_items_push(v: Seq<Json>, x: Json)
    ensures
        items_view(v.push(x)) == items_view(v).push(json_view(x)),
{
    assert(items_view(v.push(x)) =~= items_view(v).push(json_view(x)));
}

proof fn lemma_first_key_none(m: Seq<(Seq<char>, JsonV)>, key: Seq<char>)
    requires
        forall|j: int| 0 <= j < m.len() ==> #[trigger] m[j].0 != key,
    ensures
        first_key(m, key) is None,
{
}

proof fn lemma_has_first(m: Seq<(Seq<char>, JsonV)>, key: Seq<char>, j: int)
    requires
        0 <= j < m.len(),
        m[j].0 == key,
    ensures
        exists|i: int| key_at(m, key, i),
    decreases j,
{
    if exists|t: int| 0 <= t < j && m[t].0 == key {
        let t = choose|t: int| 0 <= t < j && m[t].0 == key;
        lemma_has_first(m, key, t);
    } else {
        assert(key_at(m, key, j));
    }
}

pub proof fn lemma_no_key(m: Seq<(Seq<char>, JsonV)>, key: Seq<char>)
    requires
        first_key(m, key) is None,
    ensures
        forall|j: int| 0 <= j < m.len() ==> #[trigger] m[j].0 != key,
{
    assert forall|j: int| 0 <= j < m.len() implies #[trigger] m[j].0 != key by {
        if m[j].0 == key {
            lemma_has_first(m, key, j);
        }
    }
}

/// Reading back a member just assigned gives the assigned value.
pub proof fn lemma_get_set_same(j: JsonV, key: Seq<char>, v: JsonV)
    requires
        j.settable(),
    ensures
        j.set(key, v).get(key) == v,
{
    match j {
        JsonV::Object(m) => match first_key(m, key) {
            Some(i) => {
                let c = choose|t: int| key_at(m, key, t);
                assert(key_at(m, key, c));
                let m2 = m.update(i, (key, v));
                assert(key_at(m2, key, i));
                lemma_first_key(m2, key, i);
            },
            None => {
                lemma_no_key(m, key);
                let m2 = m.push((key, v));
                assert(key_at(m2, key, m.len() as int));
                lemma_first_key(m2, key, m.len() as int);
            },
        },
        _ => {
            let m2 = seq![(key, v)];
            assert(key_at(m2, key, 0));
            lemma_first_key(m2, key, 0);
        },
    }
}

/// Assigning one member leaves every other member as it was.
pub proof fn lemma_get_set_other(j: JsonV, key: Seq<char>, other: Seq<char>, v: JsonV)
    requires
        j.settable(),
        key != other,
    ensures
        j.set(key, v).get(other) == j.get(other),
{
    match j {
        JsonV::Object(m) => {
            let m2 = j.set(key, v)->Object_0;
            assert(m2.len() >= m.len());
            assert forall|t: int| 0 <= t < m.len() implies #[trigger] m2[t].0 == m[t].0 by {}
            match first_key(m, other) {
                Some(i) => {
                    let c = choose|t: int| key_at(m, other, t);
                    assert(key_at(m, other, c));
                    assert(key_at(m2, other, c));
                    lemma_first_key(m2, other, c);
                    if first_key(m, key) == Some(c) {
                        let d = choose|t: int| key_at(m, key, t);
                        assert(key_at(m, key, d));
                    }
                },
                None => {
                    lemma_no_key(m, other);
                    assert forall|t: int| 0 <= t < m2.len() implies #[trigger] m2[t].0 != other by {
                        if t >= m.len() {
                            assert(m2[t].0 == key);
                        }
                    }
                    lemma_first_key_none(m2, other);
                },
            }
        },
        _ => {
            let m2 = seq![(key, v)];
            assert forall|t: int| 0 <= t < m2.len() implies #[trigger] m2[t].0 != other by {}
            lemma_first_key_none(m2, other);
        },
    }
}

/// Assigning a member twice keeps the second value.
pub proof fn lemma_set_twice(j: JsonV, key: Seq<char>, v1: JsonV, v2: JsonV)
    requires
        j.settable(),
    ensures
        j.set(key, v1).set(key, v2) == j.set(key, v2),
{
    match j {
        JsonV::Object(m) => match first_key(m, key) {
            Some(i) => {
                let c = choose|t: int| key_at(m, key, t);
                assert(key_at(m, key, c));
                let m1 = m.update(i, (key, v1));
                assert(key_at(m1, key, i));
                lemma_first_key(m1, key, i);
                assert(m1.update(i, (key, v2)) =~= m.update(i, (key, v2)));
            },
            None => {
                lemma_no_key(m, key);
                let m1 = m.push((key, v1));
                assert(key_at(m1, key, m.len() as int));
                lemma_first_key(m1, key, m.len() as int);
                assert(m1.update(m.len() as int, (key, v2)) =~= m.push((key, v2)));
            },
        },
        _ => {
            let m1 = seq![(key, v1)];
            assert(key_at(m1, key, 0));
            lemma_first_key(m1, key, 0);
            assert(m1.update(0, (key, v2)) =~= seq![(key, v2)]);
        },
    }
}

/// Assigning a member the value it has changes nothing.
pub proof fn lemma_set_get_back(j: JsonV, key: Seq<char>)
    requires
        j is Object,
        !(j.get(key) is Null),
    ensures
        j.set(key, j.get(key)) == j,
{
    let m = j->Object_0;
    let i = first_key(m, key)->Some_0;
    let c = choose|t: int| key_at(m, key, t);
    assert(key_at(m, key, c));
    assert(m.update(i, (key, m[i].1)) =~= m);
}

/// Position of the first member named `key`.
pub fn find_member(m: &Vec<(String, Json)>, key: &str) -> (r: Option<usize>)
    ensures
        match r {
            Some(i) => key_at(members_view(m@), key@, i as int),
            None => first_key(members_view(m@), key@) is None
                && forall|j: int| 0 <= j < m@.len() ==> #[trigger] m@[j].0@ != key@,
        },
{
    let mut i: usize = 0;
    while i < m.len()
        invariant
            i <= m@.len(),
            forall|j: int| 0 <= j < i ==> m@[j].0@ != key@,
        decreases m@.len() - i,
    {
        if str_eq(m[i].0.as_str(), key) {
            assert(key_at(members_view(m@), key@, i as int));
            return Some(i);
        }
        i = i + 1;
    }
    assert forall|k: int| !key_at(members_view(m@), key@, k) by {}
    None
}

impl Json {
    /// `self[key]`, or `None` where indexing would give `Null` because the
    /// member is absent or `self` is not an object.
    pub fn get(&self, key: &str) -> (r: Option<&Json>)
        ensures
            match r {
                Some(x) => x@ == self@.get(key@),
                None => self@.get(key@) == JsonV::Null,
            },
    {
        match self {
            Json::Object(m) => {
                proof { lemma_view_object(*m); }
                match find_member(m, key) {
                    Some(i) => {
                        proof { lemma_first_key(members_view(m@), key@, i as int); }
                        Some(&m[i].1)
                    },
                    None => None,
                }
            },
            _ => None,
        }
    }

    /// Whether `self[key]` is the string `s`.
    pub fn field_is_str(&self, key: &str, s: &str) -> (r: bool)
        ensures
            r == self@.field_is_str(key@, s@),
    {
        match self.get(key) {
            Some(Json::Str(x)) => {
                let b = str_eq(x.as_str(), s);
                proof {
                    if !b {
                        assert(JsonV::Str(x@) != JsonV::Str(s@)) by {
                            assert(JsonV::Str(x@)->Str_0 == x@);
                        }
                    }
                }
                b
            },
            _ => false,
        }
    }

    /// `self[key]` as a string, when it is one.
    pub fn str_field(&self, key: &str) -> (r: Option<&String>)
        ensures
            match r {
                Some(s) => self@.get(key@) == JsonV::Str(s@),
                None => self@.get(key@).as_str() is None,
            },
    {
        match self.get(key) {
            Some(Json::Str(x)) => Some(x),
            _ => None,
        }
    }

    /// A copy with the same model.
    pub fn deep_clone(&self) -> (r: Json)
        ensures
            r@ == self@,
        decreases self,
    {
        match self {
            Json::Null => Json::Null,
            Json::Bool(b) => Json::Bool(*b),
            Json::Number(n) => Json::Number(n.clone()),
            Json::Str(s) => Json::Str(s.clone()),
            Json::Array(v) => {
                let mut out: Vec<Json> = Vec::new();
                let mut i: usize = 0;
                while i < v.len()
                    invariant
                        *self == Json::Array(*v),
                        i <= v@.len(),
                        out@.len() == i,
                        forall|k: int| 0 <= k < i ==> #[trigger] json_view(out@[k]) == json_view(v@[k]),
                    decreases v@.len() - i,
                {
                    proof {
                        assert(decreases_to!(*self => (*self)->Array_0));
                        assert(decreases_to!((*self)->Array_0 => (*self)->Array_0@));
                        assert(decreases_to!((*self)->Array_0@ => (*self)->Array_0@[i as int]));
                    }
                    let c = v[i].deep_clone();
                    out.push(c);
                    i = i + 1;
                }
                proof {
                    lemma_view_array(*v);
                    lemma_view_array(out);
                    assert(items_view(out@) =~= items_view(v@));
                }
                Json::Array(out)
            },
            Json::Object(m) => {
                let mut out: Vec<(String, Json)> = Vec::new();
                let mut i: usize = 0;
                while i < m.len()
                    invariant
                        *self == Json::Object(*m),
                        i <= m@.len(),
                        out@.len() == i,
                        forall|k: int| 0 <= k < i ==> #[trigger] out@[k].0@ == m@[k].0@ && json_view(out@[k].1) == json_view(m@[k].1),
                    decreases m@.len() - i,
                {
                    proof {
                        assert(decreases_to!(*self => (*self)->Object_0));
                        assert(decreases_to!((*self)->Object_0 => (*self)->Object_0@));
                        assert(decreases_to!((*self)->Object_0@ => (*self)->Object_0@[i as int]));
                        assert(decreases_to!((*self)->Object_0@[i as int] => (*self)->Object_0@[i as int].1));
                    }
                    let c = m[i].1.deep_clone();
                    let k = m[i].0.clone();
                    out.push((k, c));
                    i = i + 1;
                }
                proof {
                    lemma_view_object(*m);
                    lemma_view_object(out);
                    assert(members_view(out@) =~= members_view(m@));
                }
                Json::Object(out)
            },
        }
    }

    /// `self[key] = v`.
    pub fn set(&mut self, key: &str, v: Json)
        requires
            old(self)@.settable(),
        ensures
            final(self)@ == old(self)@.set(key@, v@),
    {
        let is_obj = match self { Json::Object(_) => true, _ => false };
        if !is_obj {
            let mut m: Vec<(String, Json)> = Vec::new();
            m.push((key.to_owned(), v));
            proof {
                lemma_view_object(m);
                assert(members_view(m@) =~= seq![(key@, v@)]);
            }
            *self = Json::Object(m);
            return;
        }
        match self {
            Json::Object(m) => {
                proof { lemma_view_object(*m); }
                let ghost old_m = *m;
                match find_member(m, key) {
                    Some(i) => {
                        proof { lemma_first_key(members_view(m@), key@, i as int); }
                        m.set(i, (key.to_owned(), v));
                        proof {
                            lemma_view_object(*m);
                            assert(members_view(m@) =~= members_view(old_m@).update(i as int, (key@, v@)));
                        }
                    },
                    None => {
                        m.push((key.to_owned(), v));
                        proof {
                            lemma_view_object(*m);
                            assert(members_view(m@) =~= members_view(old_m@).push((key@, v@)));
                        }
                    },
                }
            },
            _ => {},
        }
    }
}

/// `{}`.
pub fn empty_object() -> (r: Json)
    ensures
        r@ == JsonV::Object(Seq::empty()),
{
    let m: Vec<(String, Json)> = Vec::new();
    proof {
        lemma_view_object(m);
        assert(members_view(m@) =~= Seq::<(Seq<char>, JsonV)>::empty());
    }
    Json::Object(m)
}

/// `[]`.
pub fn empty_array() -> (r: Json)
    ensures
        r@ == JsonV::Array(Seq::empty()),
{
    let v: Vec<Json> = Vec::new();
    proof {
        lemma_view_array(v);
        assert(items_view(v@) =~= Seq::<JsonV>::empty());
    }
    Json::Array(v)
}

/// A string value.
pub fn jstr(s: &str) -> (r: Json)
    ensures
        r@ == JsonV::Str(s@),
{
    Json::Str(s.to_owned())
}


/// `i` is the first item whose member `key` is the string `val`.
pub open spec fn is_first_item_with(v: Seq<JsonV>, key: Seq<char>, val: Seq<char>, i: int) -> bool {
    &&& 0 <= i < v.len()
    &&& v[i].field_is_str(key, val)
    &&& forall|j: int| 0 <= j < i ==> !v[j].field_is_str(key, val)
}

/// Position of the first item whose member `key` is the string `val`.
pub open spec fn find_item_with(v: Seq<JsonV>, key: Seq<char>, val: Seq<char>) -> Option<int> {
    if exists|i: int| is_first_item_with(v, key, val, i) {
        Some(choose|i: int| is_first_item_with(v, key, val, i))
    } else {
        None
    }
}

/// Position of the first item whose member `key` is the string `val`.
pub fn find_item(v: &Vec<Json>, key: &str, val: &str) -> (r: Option<usize>)
    ensures
        match r {
            Some(i) => is_first_item_with(items_view(v@), key@, val@, i as int)
                && find_item_with(items_view(v@), key@, val@) == Some(i as int),
            None => find_item_with(items_view(v@), key@, val@) is None,
        },
{
    let mut i: usize = 0;
    while i < v.len()
        invariant
            i <= v@.len(),
            forall|j: int| 0 <= j < i ==> !json_view(v@[j]).field_is_str(key@, val@),
        decreases v@.len() - i,
    {
        if v[i].field_is_str(key, val) {
            proof {
                let vv = items_view(v@);
                assert(is_first_item_with(vv, key@, val@, i as int));
                let c = choose|k: int| is_first_item_with(vv, key@, val@, k);
                if c < i as int {} else if c > i as int {}
            }
            return Some(i);
        }
        i = i + 1;
    }
    None
}

/// A field that is a string makes the value an object.
pub proof fn lemma_str_field_object(j: JsonV, key: Seq<char>, val: Seq<char>)
    requires
        j.field_is_str(key, val),
    ensures
        j is Object,
{
}

proof fn lemma_has_first_item(v: Seq<JsonV>, key: Seq<char>, val: Seq<char>, j: int)
    requires
        0 <= j < v.len(),
        v[j].field_is_str(key, val),
    ensures
        exists|i: int| is_first_item_with(v, key, val, i),
    decreases j,
{
    if exists|t: int| 0 <= t < j && v[t].field_is_str(key, val) {
        let t = choose|t: int| 0 <= t < j && v[t].field_is_str(key, val);
        lemma_has_first_item(v, key, val, t);
    } else {
        assert(is_first_item_with(v, key, val, j));
    }
}

/// An item whose member `key` is `val` is found.
pub proof fn lemma_find_item_some(v: Seq<JsonV>, key: Seq<char>, val: Seq<char>, j: int)
    requires
        0 <= j < v.len(),
        v[j].field_is_str(key, val),
    ensures
        find_item_with(v, key, val) is Some,
{
    lemma_has_first_item(v, key, val, j);
}

/// When no item has member `key` equal to `val`, none is found.
pub proof fn lemma_find_item_none(v: Seq<JsonV>, key: Seq<char>, val: Seq<char>)
    requires
        forall|j: int| 0 <= j < v.len() ==> !(#[trigger] v[j]).field_is_str(key, val),
    ensures
        find_item_with(v, key, val) is None,
{
}

/// An element of one of the sequences is in the flattened sequence.
pub proof fn lemma_flatten_has<A>(s: Seq<Seq<A>>, j: int, k: int)
    requires
        0 <= j < s.len(),
        0 <= k < s[j].len(),
    ensures
        s.flatten().contains(s[j][k]),
    decreases s.len(),
{
    if j == 0 {
        assert(s.flatten() == s.first() + s.drop_first().flatten());
        assert((s.first() + s.drop_first().flatten())[k] == s[j][k]);
    } else {
        lemma_flatten_has(s.drop_first(), j - 1, k);
        assert(s.drop_first()[j - 1] == s[j]);
        let t = s.drop_first().flatten();
        let i = choose|i: int| 0 <= i < t.len() && t[i] == s[j][k];
        assert(s.flatten() == s.first() + t);
        assert((s.first() + t)[s.first().len() + i] == s[j][k]);
    }
}

/// Every element of a flattened sequence comes from one of the sequences.
pub proof fn lemma_flatten_from<A>(s: Seq<Seq<A>>, x: A)
    requires
        s.flatten().contains(x),
    ensures
        exists|j: int, k: int| 0 <= j < s.len() && 0 <= k < s[j].len() && s[j][k] == x,
    decreases s.len(),
{
    if s.len() == 0 {
        assert(s.flatten().len() == 0);
    } else {
        assert(s.flatten() == s.first() + s.drop_first().flatten());
        let f = s.first() + s.drop_first().flatten();
        let i = choose|i: int| 0 <= i < f.len() && f[i] == x;
        if i < s.first().len() {
            assert(s[0][i] == x);
        } else {
            assert(s.drop_first().flatten()[i - s.first().len()] == x);
            lemma_flatten_from(s.drop_first(), x);
            let (j, k) = choose|j: int, k: int| 0 <= j < s.drop_first().len() && 0 <= k < s.drop_first()[j].len() && s.drop_first()[j][k] == x;
            assert(s[j + 1][k] == x);
        }
    }
}

/// Keep the items whose member `key` is not the string `val`.
pub fn retain_items_without(v: Vec<Json>, key: &str, val: &str) -> (r: Vec<Json>)
    ensures
        items_view(r@) == items_view(v@).filter(|j: JsonV| !j.field_is_str(key@, val@)),
{
    let ghost pred = |j: JsonV| !j.field_is_str(key@, val@);
    let mut out: Vec<Json> = Vec::new();
    let mut rest = v;
    let ghost all = items_view(rest@);
    let mut taken: usize = 0;
    let n = rest.len();
    while taken < n
        invariant
            pred == (|j: JsonV| !j.field_is_str(key@, val@)),
            n == all.len(),
            taken <= n,
            rest@.len() == n - taken,
            forall|k: int| 0 <= k < rest@.len() ==> #[trigger] json_view(rest@[k]) == all[taken + k],
            items_view(out@) == all.take(taken as int).filter(pred),
        decreases n - taken,
    {
        let x = rest.remove(0);
        let ghost xv = json_view(x);
        proof {
            assert(xv == all[taken as int]);
            assert(all.take(taken as int + 1) =~= all.take(taken as int).push(xv));
            all.take(taken as int).lemma_filter_push(xv, pred);
        }
        let keep = !x.field_is_str(key, val);
        let ghost before = items_view(out@);
        if keep {
            out.push(x);
            assert(items_view(out@) =~= before.push(xv));
        }
        taken = taken + 1;
    }
    assert(all.take(n as int) =~= all);
    out
}

/// An object of one member, in the given order.
pub fn object1(k1: &str, v1: Json) -> (r: Json)
    ensures
        r@ == JsonV::Object(seq![(k1@, v1@)]),
{
    let mut m: Vec<(String, Json)> = Vec::new();
    m.push((k1.to_owned(), v1));
    proof {
        lemma_view_object(m);
        assert(members_view(m@) =~= seq![(k1@, v1@)]);
    }
    Json::Object(m)
}

/// An object of two members, in the given order.
pub fn object2(k1: &str, v1: Json, k2: &str, v2: Json) -> (r: Json)
    ensures
        r@ == JsonV::Object(seq![(k1@, v1@), (k2@, v2@)]),
{
    let mut m: Vec<(String, Json)> = Vec::new();
    m.push((k1.to_owned(), v1));
    m.push((k2.to_owned(), v2));
    proof {
        lemma_view_object(m);
        assert(members_view(m@) =~= seq![(k1@, v1@), (k2@, v2@)]);
    }
    Json::Object(m)
}

/// An object of three members, in the given order.
pub fn object3(k1: &str, v1: Json, k2: &str, v2: Json, k3: &str, v3: Json) -> (r: Json)
    ensures
        r@ == JsonV::Object(seq![(k1@, v1@), (k2@, v2@), (k3@, v3@)]),
{
    let mut m: Vec<(String, Json)> = Vec::new();
    m.push((k1.to_owned(), v1));
    m.push((k2.to_owned(), v2));
    m.push((k3.to_owned(), v3));
    proof {
        lemma_view_object(m);
        assert(members_view(m@) =~= seq![(k1@, v1@), (k2@, v2@), (k3@, v3@)]);
    }
    Json::Object(m)
}

/// An object of four members, in the given order.
pub fn object4(k1: &str, v1: Json, k2: &str, v2: Json, k3: &str, v3: Json, k4: &str, v4: Json) -> (r: Json)
    ensures
        r@ == JsonV::Object(seq![(k1@, v1@), (k2@, v2@), (k3@, v3@), (k4@, v4@)]),
{
    let mut m: Vec<(String, Json)> = Vec::new();
    m.push((k1.to_owned(), v1));
    m.push((k2.to_owned(), v2));
    m.push((k3.to_owned(), v3));
    m.push((k4.to_owned(), v4));
    proof {
        lemma_view_object(m);
        assert(members_view(m@) =~= seq![(k1@, v1@), (k2@, v2@), (k3@, v3@), (k4@, v4@)]);
    }
    Json::Object(m)
}

/// An object of five members, in the given order.
pub fn object5(k1: &str, v1: Json, k2: &str, v2: Json, k3: &str, v3: Json, k4: &str, v4: Json, k5: &str, v5: Json) -> (r: Json)
    ensures
        r@ == JsonV::Object(seq![(k1@, v1@), (k2@, v2@), (k3@, v3@), (k4@, v4@), (k5@, v5@)]),
{
    let mut m: Vec<(String, Json)> = Vec::new();
    m.push((k1.to_owned(), v1));
    m.push((k2.to_owned(), v2));
    m.push((k3.to_owned(), v3));
    m.push((k4.to_owned(), v4));
    m.push((k5.to_owned(), v5));
    proof {
        lemma_view_object(m);
        assert(members_view(m@) =~= seq![(k1@, v1@), (k2@, v2@), (k3@, v3@), (k4@, v4@), (k5@, v5@)]);
    }
    Json::Object(m)
}

/// An object of six members, in the given order.
pub fn object6(k1: &str, v1: Json, k2: &str, v2: Json, k3: &str, v3: Json, k4: &str, v4: Json, k5: &str, v5: Json, k6: &str, v6: Json) -> (r: Json)
    ensures
        r@ == JsonV::Object(seq![(k1@, v1@), (k2@, v2@), (k3@, v3@), (k4@, v4@), (k5@, v5@), (k6@, v6@)]),
{
    let mut m: Vec<(String, Json)> = Vec::new();
    m.push((k1.to_owned(), v1));
    m.push((k2.to_owned(), v2));
    m.push((k3.to_owned(), v3));
    m.push((k4.to_owned(), v4));
    m.push((k5.to_owned(), v5));
    m.push((k6.to_owned(), v6));
    proof {
        lemma_view_object(m);
        assert(members_view(m@) =~= seq![(k1@, v1@), (k2@, v2@), (k3@, v3@), (k4@, v4@), (k5@, v5@), (k6@, v6@)]);
    }
    Json::Object(m)
}

/// An object of seven members, in the given order.
pub fn object7(k1: &str, v1: Json, k2: &str, v2: Json, k3: &str, v3: Json, k4: &str, v4: Json, k5: &str, v5: Json, k6: &str, v6: Json, k7: &str, v7: Json) -> (r: Json)
    ensures
        r@ == JsonV::Object(seq![(k1@, v1@), (k2@, v2@), (k3@, v3@), (k4@, v4@), (k5@, v5@), (k6@, v6@), (k7@, v7@)]),
{
    let mut m: Vec<(String, Json)> = Vec::new();
    m.push((k1.to_owned(), v1));
    m.push((k2.to_owned(), v2));
    m.push((k3.to_owned(), v3));
    m.push((k4.to_owned(), v4));
    m.push((k5.to_owned(), v5));
    m.push((k6.to_owned(), v6));
    m.push((k7.to_owned(), v7));
    proof {
        lemma_view_object(m);
        assert(members_view(m@) =~= seq![(k1@, v1@), (k2@, v2@), (k3@, v3@), (k4@, v4@), (k5@, v5@), (k6@, v6@), (k7@, v7@)]);
    }
    Json::Object(m)
}

/// An object of eight members, in the given order.
pub fn object8(k1: &str, v1: Json, k2: &str, v2: Json, k3: &str, v3: Json, k4: &str, v4: Json, k5: &str, v5: Json, k6: &str, v6: Json, k7: &str, v7: Json, k8: &str, v8: Json) -> (r: Json)
    ensures
        r@ == JsonV::Object(seq![(k1@, v1@), (k2@, v2@), (k3@, v3@), (k4@, v4@), (k5@, v5@), (k6@, v6@), (k7@, v7@), (k8@, v8@)]),
{
    let mut m: Vec<(String, Json)> = Vec::new();
    m.push((k1.to_owned(), v1));
    m.push((k2.to_owned(), v2));
    m.push((k3.to_owned(), v3));
    m.push((k4.to_owned(), v4));
    m.push((k5.to_owned(), v5));
    m.push((k6.to_owned(), v6));
    m.push((k7.to_owned(), v7));
    m.push((k8.to_owned(), v8));
    proof {
        lemma_view_object(m);
        assert(members_view(m@) =~= seq![(k1@, v1@), (k2@, v2@), (k3@, v3@), (k4@, v4@), (k5@, v5@), (k6@, v6@), (k7@, v7@), (k8@, v8@)]);
    }
    Json::Object(m)
}


} // verus!
