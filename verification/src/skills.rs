//! The Skills view: discovered skills in the shape the frontend expects,
//! sorted by scope and then by name.
use vstd::prelude::*;
use vstd::relations::total_ordering;
use crate::text::{owned, str_eq};
use crate::order::{lex_le, str_lex_le, views, insertion_sort, lemma_lex_refl, lemma_lex_antisym, lemma_lex_trans, lemma_lex_total};
use crate::json::{Json, JsonV, json_view, items_view, lemma_items_push, jstr, object6, find_item, find_item_with};

verus! {

broadcast use vstd::seq_lib::group_to_multiset_ensures;

/// Where a skill was found.
#[derive(Debug, Clone, Copy, PartialEq, Eq, Structural)]
pub enum SkillScope {
    User,
    Project,
    Temporary,
}

/// The frontend's category of a skill scope.
pub open spec fn spec_skill_scope(scope: SkillScope) -> Seq<char> {
    match scope {
        SkillScope::User => "global"@,
        SkillScope::Project => "workspace"@,
        SkillScope::Temporary => "custom"@,
    }
}

/// The frontend's category of a skill scope.
pub fn skill_scope(scope: &SkillScope) -> (r: &'static str)
    ensures
        r@ == spec_skill_scope(*scope),
{
    match scope {
        SkillScope::User => "global",
        SkillScope::Project => "workspace",
        SkillScope::Temporary => "custom",
    }
}

/// A discovered skill.
pub struct Skill {
    pub name: String,
    pub description: String,
    pub file_path: String,
    pub base_dir: String,
    pub scope: SkillScope,
    pub disable_model_invocation: bool,
}

/// A skill as the frontend lists it.
pub open spec fn spec_skill_json(s: Skill) -> JsonV {
    JsonV::Object(seq![
        ("name"@, JsonV::Str(s.name@)),
        ("description"@, JsonV::Str(s.description@)),
        ("filePath"@, JsonV::Str(s.file_path@)),
        ("baseDir"@, JsonV::Str(s.base_dir@)),
        ("scope"@, JsonV::Str(spec_skill_scope(s.scope))),
        ("disableModelInvocation"@, JsonV::Bool(s.disable_model_invocation)),
    ])
}

/// A skill as the frontend lists it.
pub fn skill_json(s: &Skill) -> (r: Json)
    ensures
        r@ == spec_skill_json(*s),
{
    object6(
        "name", Json::Str(s.name.clone()),
        "description", Json::Str(s.description.clone()),
        "filePath", Json::Str(s.file_path.clone()),
        "baseDir", Json::Str(s.base_dir.clone()),
        "scope", jstr(skill_scope(&s.scope)),
        "disableModelInvocation", Json::Bool(s.disable_model_invocation),
    )
}

/// The sort key of the `index`-th skill: its category, its name, and its
/// place in discovery order (which keeps equal keys in that order).
pub struct SkillSlot {
    pub scope: &'static str,
    pub name: String,
    pub index: usize,
}

impl View for SkillSlot {
    type V = (Seq<char>, Seq<char>, int);

    open spec fn view(&self) -> (Seq<char>, Seq<char>, int) {
        (self.scope@, self.name@, self.index as int)
    }
}

/// Scope first, then name, then discovery order.
pub open spec fn slot_le(a: (Seq<char>, Seq<char>, int), b: (Seq<char>, Seq<char>, int)) -> bool {
    if a.0 != b.0 {
        lex_le(a.0, b.0)
    } else if a.1 != b.1 {
        lex_le(a.1, b.1)
    } else {
        a.2 <= b.2
    }
}

pub open spec fn slot_order() -> spec_fn((Seq<char>, Seq<char>, int), (Seq<char>, Seq<char>, int)) -> bool {
    |a: (Seq<char>, Seq<char>, int), b: (Seq<char>, Seq<char>, int)| slot_le(a, b)
}

proof fn lemma_slot_order_total()
    ensures
        total_ordering(slot_order()),
{
    let f = slot_order();
    assert forall|a: (Seq<char>, Seq<char>, int), b: (Seq<char>, Seq<char>, int)| #[trigger] f(a, b) && #[trigger] f(b, a) implies a == b by {
        if a.0 != b.0 {
            lemma_lex_antisym(a.0, b.0);
        } else if a.1 != b.1 {
            lemma_lex_antisym(a.1, b.1);
        }
    }
    assert forall|a: (Seq<char>, Seq<char>, int), b: (Seq<char>, Seq<char>, int), c: (Seq<char>, Seq<char>, int)| #[trigger] f(a, b) && #[trigger] f(b, c) implies f(a, c) by {
        if a.0 != b.0 && b.0 != c.0 {
            lemma_lex_trans(a.0, b.0, c.0);
            if a.0 == c.0 {
                lemma_lex_antisym(a.0, b.0);
            }
        } else if a.0 == b.0 && b.0 == c.0 {
            if a.1 != b.1 && b.1 != c.1 {
                lemma_lex_trans(a.1, b.1, c.1);
                if a.1 == c.1 {
                    lemma_lex_antisym(a.1, b.1);
                }
            }
        }
    }
    assert forall|a: (Seq<char>, Seq<char>, int), b: (Seq<char>, Seq<char>, int)| #[trigger] f(a, b) || #[trigger] f(b, a) by {
        lemma_lex_total(a.0, b.0);
        lemma_lex_total(a.1, b.1);
    }
}

fn slot_le_exec(a: &SkillSlot, b: &SkillSlot) -> (r: bool)
    ensures
        r == slot_le(a@, b@),
{
    if !str_eq(a.scope, b.scope) {
        return str_lex_le(a.scope, b.scope);
    }
    if !str_eq(a.name.as_str(), b.name.as_str()) {
        return str_lex_le(a.name.as_str(), b.name.as_str());
    }
    a.index <= b.index
}

/// The sort keys of the skills, in discovery order.
pub open spec fn skill_keys(skills: Seq<Skill>) -> Seq<(Seq<char>, Seq<char>, int)> {
    Seq::new(skills.len(), |i: int| (spec_skill_scope(skills[i].scope), skills[i].name@, i))
}

/// The Skills view: the skills sorted by scope, then by name, skills with
/// equal scope and name keeping their discovery order.
pub open spec fn spec_list_skills(skills: Seq<Skill>) -> Seq<JsonV> {
    skill_keys(skills).sort_by(slot_order()).map_values(|k: (Seq<char>, Seq<char>, int)| spec_skill_json(skills[k.2]))
}

/// The Skills view of the discovered skills.
pub fn list_skills(skills: &Vec<Skill>) -> (r: Vec<Json>)
    ensures
        items_view(r@) == spec_list_skills(skills@),
{
    let ghost keys = skill_keys(skills@);
    let mut slots: Vec<SkillSlot> = Vec::new();
    let mut i: usize = 0;
    while i < skills.len()
        invariant
            i <= skills@.len(),
            keys == skill_keys(skills@),
            views(slots@) == keys.take(i as int),
        decreases skills@.len() - i,
    {
        let slot = SkillSlot { scope: skill_scope(&skills[i].scope), name: skills[i].name.clone(), index: i };
        let ghost before = slots@;
        slots.push(slot);
        assert(slot@ == keys[i as int]);
        assert(views(slots@) =~= views(before).push(slot@));
        assert(views(slots@) =~= keys.take(i as int + 1));
        i = i + 1;
    }
    assert(keys.take(i as int) =~= keys);
    proof { lemma_slot_order_total(); }
    let sorted = insertion_sort(slots, Ghost(slot_order()), slot_le_exec);
    let ghost sv = views(sorted@);
    proof {
        keys.lemma_sort_by_ensures(slot_order());
        assert forall|k: int| 0 <= k < sv.len() implies 0 <= #[trigger] sv[k].2 < skills@.len() by {
            assert(sv.to_multiset().count(sv[k]) > 0);
            assert(keys.to_multiset().count(sv[k]) > 0);
            assert(keys.contains(sv[k]));
        }
    }
    let mut out: Vec<Json> = Vec::new();
    let mut k: usize = 0;
    while k < sorted.len()
        invariant
            k <= sorted@.len(),
            sv == views(sorted@),
            sv == keys.sort_by(slot_order()),
            forall|t: int| 0 <= t < sv.len() ==> 0 <= #[trigger] sv[t].2 < skills@.len(),
            items_view(out@) == sv.take(k as int).map_values(|x: (Seq<char>, Seq<char>, int)| spec_skill_json(skills@[x.2])),
        decreases sorted@.len() - k,
    {
        let idx = sorted[k].index;
        assert(sv[k as int].2 == idx as int);
        let j = skill_json(&skills[idx]);
        let ghost before = out@;
        out.push(j);
        proof {
            lemma_items_push(before, j);
            assert(sv.take(k as int + 1).map_values(|x: (Seq<char>, Seq<char>, int)| spec_skill_json(skills@[x.2]))
                =~= sv.take(k as int).map_values(|x: (Seq<char>, Seq<char>, int)| spec_skill_json(skills@[x.2])).push(spec_skill_json(skills@[idx as int])));
        }
        k = k + 1;
    }
    assert(sv.take(k as int) =~= sv);
    out
}

/// The listed skill called `name`, if there is one.
pub fn get_skill(skills: &Vec<Skill>, name: &str) -> (r: Option<Json>)
    ensures
        match r {
            Some(e) => match find_item_with(spec_list_skills(skills@), "name"@, name@) {
                Some(i) => e@ == spec_list_skills(skills@)[i],
                None => false,
            },
            None => find_item_with(spec_list_skills(skills@), "name"@, name@) is None,
        },
{
    let mut list = list_skills(skills);
    match find_item(&list, "name", name) {
        Some(i) => Some(list.swap_remove(i)),
        None => None,
    }
}

/// The Skills view lists every skill once, ordered by scope, then by name,
/// skills with equal scope and name in discovery order.
pub proof fn lemma_skills_sorted(skills: Seq<Skill>)
    ensures
        ({
            let ks = skill_keys(skills).sort_by(slot_order());
            &&& ks.to_multiset() == skill_keys(skills).to_multiset()
            &&& forall|i: int, j: int| 0 <= i < j < ks.len() ==> slot_le(#[trigger] ks[i], #[trigger] ks[j])
            &&& spec_list_skills(skills).len() == skills.len()
        }),
{
    lemma_slot_order_total();
    skill_keys(skills).lemma_sort_by_ensures(slot_order());
    let ks = skill_keys(skills).sort_by(slot_order());
    assert forall|i: int, j: int| 0 <= i < j < ks.len() implies slot_le(#[trigger] ks[i], #[trigger] ks[j]) by {
        assert(slot_order()(ks[i], ks[j]));
    }
    assert(ks.to_multiset().len() == ks.len());
    assert(skill_keys(skills).to_multiset().len() == skill_keys(skills).len());
}

} // verus!
