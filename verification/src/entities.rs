//! Entities of a scenario, flattened into one map with dotted names, and their roles.

use crate::names::{entries_map, lemma_name_set, name_set, NamedMap};
use crate::refs::copy_names;
use crate::scenario::{Entity, ExerciseRole};
use vstd::prelude::*;

verus! {

/// An entity as a value: its role, goals, vulnerabilities and nested entities.
pub struct EntityView {
    pub role: Option<ExerciseRole>,
    pub goals: Option<Seq<String>>,
    pub vulnerabilities: Option<Seq<String>>,
    pub entities: Option<Seq<(String, EntityView)>>,
}

pub type EntityFacts = EntityView;

pub open spec fn opt_seq_of(v: Option<Vec<String>>) -> Option<Seq<String>> {
    match v {
        Some(v) => Some(v@),
        None => None,
    }
}

/// The names an optional list of names holds.
pub open spec fn names_of(v: Option<Seq<String>>) -> Set<Seq<char>> {
    match v {
        Some(s) => name_set(s),
        None => Set::empty(),
    }
}

/// The view of an entity whose nested entities have the view `children`.
pub open spec fn view_with(e: Entity, children: Option<Seq<(String, EntityView)>>) -> EntityView {
    EntityView {
        role: e.role,
        goals: opt_seq_of(e.goals),
        vulnerabilities: opt_seq_of(e.vulnerabilities),
        entities: children,
    }
}

/// The views of a list of named entities, in order.
pub open spec fn entries_view(s: Seq<(String, Entity)>) -> Seq<(String, EntityView)>
    decreases s,
{
    if s.len() == 0 {
        Seq::empty()
    } else {
        proof {
            assert(decreases_to!(s => s.drop_last()));
        }
        let e = s[s.len() - 1].1;
        let children = match e.entities {
            Some(c) => {
                proof {
                    assert(decreases_to!(s => s[s.len() - 1]));
                    assert(decreases_to!(s[s.len() - 1] => s[s.len() - 1].1));
                    assert(decreases_to!(s[s.len() - 1].1 => s[s.len() - 1].1.entities));
                    assert(decreases_to!(s[s.len() - 1].1.entities => c));
                    assert(decreases_to!(c => c@));
                }
                Some(entries_view(c@))
            },
            None => None,
        };
        entries_view(s.drop_last()).push((s[s.len() - 1].0, view_with(e, children)))
    }
}

/// The view of an entity, with all its nested entities.
pub open spec fn entity_view(e: Entity) -> EntityView {
    view_with(
        e,
        match e.entities {
            Some(c) => Some(entries_view(c@)),
            None => None,
        },
    )
}

pub open spec fn entity_facts(e: Entity) -> EntityFacts {
    entity_view(e)
}

pub open spec fn facts_view(m: NamedMap<Entity>) -> Map<Seq<char>, EntityFacts> {
    m@.map_values(|e: Entity| entity_view(e))
}

fn copy_opt_list(v: &Option<Vec<String>>) -> (r: Option<Vec<String>>)
    ensures
        opt_seq_of(r) == opt_seq_of(*v),
{
    match v {
        Some(v) => Some(copy_names(v)),
        None => None,
    }
}

/// A copy of a list of named entities, nested entities included.
fn copy_entries(v: &Vec<(String, Entity)>) -> (r: Vec<(String, Entity)>)
    ensures
        entries_view(r@) == entries_view(v@),
    decreases v,
{
    let mut r: Vec<(String, Entity)> = Vec::new();
    let mut i: usize = 0;
    proof {
        assert(v@.take(0) =~= Seq::<(String, Entity)>::empty());
    }
    while i < v.len()
        invariant
            i <= v@.len(),
            entries_view(r@) == entries_view(v@.take(i as int)),
        decreases v@.len() - i,
    {
        let e = &v[i].1;
        let entities = match &e.entities {
            Some(c) => {
                proof {
                    assert(decreases_to!(*v => v@));
                    assert(decreases_to!(v@ => v@[i as int]));
                    assert(decreases_to!(v@[i as int] => v@[i as int].1));
                    assert(decreases_to!(v@[i as int].1 => v@[i as int].1.entities));
                    assert(decreases_to!(v@[i as int].1.entities => *c));
                }
                Some(copy_entries(c))
            },
            None => None,
        };
        let copy = Entity {
            role: e.role,
            goals: copy_opt_list(&e.goals),
            vulnerabilities: copy_opt_list(&e.vulnerabilities),
            entities,
        };
        let ghost before = r@;
        r.push((v[i].0.clone(), copy));
        proof {
            assert(r@.drop_last() =~= before);
            assert(v@.take(i + 1).drop_last() =~= v@.take(i as int));
            assert(v@.take(i + 1)[i as int] == v@[i as int]);
        }
        i = i + 1;
    }
    proof {
        assert(v@.take(i as int) =~= v@);
    }
    r
}

/// A copy of an entity, nested entities included.
pub fn copy_entity(e: &Entity) -> (f: Entity)
    ensures
        entity_view(f) == entity_view(*e),
{
    let entities = match &e.entities {
        Some(c) => Some(copy_entries(c)),
        None => None,
    };
    Entity {
        role: e.role,
        goals: copy_opt_list(&e.goals),
        vulnerabilities: copy_opt_list(&e.vulnerabilities),
        entities,
    }
}

/// The name of a nested entity: its parent's name, a dot, and its own name.
pub open spec fn dotted(parent: Seq<char>, child: Seq<char>) -> Seq<char> {
    parent + seq!['.'] + child
}

/// The entries of `m` under dotted names below `parent`.
pub open spec fn prefixed(parent: Seq<char>, m: Map<Seq<char>, EntityFacts>) -> Map<Seq<char>, EntityFacts> {
    Map::new(
        |k: Seq<char>|
            k.len() > parent.len() && k.take(parent.len() + 1int) == parent + seq!['.'] && m.dom().contains(
                k.skip(parent.len() + 1int),
            ),
        |k: Seq<char>| m[k.skip(parent.len() + 1int)],
    )
}

/// The entities of a level, each under its own name.
pub open spec fn level_facts(entries: Seq<(String, Entity)>) -> Map<Seq<char>, EntityFacts> {
    entries_map(entries).map_values(|e: Entity| entity_facts(e))
}

/// All entities of a tree under their dotted names. The entities of a level come
/// first; the nested entities of the first `n` entries of the level are added in
/// order, a later one replacing an earlier one under the same name.
pub open spec fn flatten_spec(entries: Seq<(String, Entity)>) -> Map<Seq<char>, EntityFacts>
    decreases entries, entries.len() + 1,
{
    level_facts(entries).union_prefer_right(nested_facts(entries, entries.len() as int))
}

pub open spec fn nested_facts(entries: Seq<(String, Entity)>, n: int) -> Map<Seq<char>, EntityFacts>
    decreases entries, n,
{
    if n <= 0 || n > entries.len() {
        Map::empty()
    } else {
        let before = nested_facts(entries, n - 1);
        match entries[n - 1].1.entities {
            Some(children) => {
                proof {
                    assert(decreases_to!(entries => entries[n - 1]));
                    assert(decreases_to!(entries[n - 1] => entries[n - 1].1));
                    assert(decreases_to!(entries[n - 1].1 => entries[n - 1].1.entities));
                    assert(decreases_to!(entries[n - 1].1.entities => children));
                    assert(decreases_to!(children => children@));
                }
                before.union_prefer_right(prefixed(entries[n - 1].0@, flatten_spec(children@)))
            },
            None => before,
        }
    }
}

pub proof fn lemma_prefixed_insert(
    parent: Seq<char>,
    m: Map<Seq<char>, EntityFacts>,
    child: Seq<char>,
    x: EntityFacts,
)
    ensures
        prefixed(parent, m.insert(child, x)) == prefixed(parent, m).insert(dotted(parent, child), x),
{
    let l = parent.len() + 1int;
    let d = dotted(parent, child);
    assert(d.take(l) =~= parent + seq!['.']);
    assert(d.skip(l) =~= child);
    let a = prefixed(parent, m.insert(child, x));
    let b = prefixed(parent, m).insert(d, x);
    assert forall|k: Seq<char>| a.dom().contains(k) <==> b.dom().contains(k) by {
        if k.len() > parent.len() && k.take(l) == parent + seq!['.'] && k.skip(l) == child {
            assert(k =~= k.take(l) + k.skip(l));
            assert(k =~= d);
        }
    }
    assert forall|k: Seq<char>| #[trigger] a.dom().contains(k) implies a[k] == b[k] by {
        if k.skip(l) == child {
            assert(k =~= k.take(l) + k.skip(l));
            assert(k =~= d);
        } else {
            if k == d {
                assert(k.skip(l) =~= child);
            }
        }
    }
    assert(a =~= b);
}

fn dotted_name(parent: &String, child: &String) -> (r: String)
    ensures
        r@ == dotted(parent@, child@),
{
    let mut r = parent.clone();
    r.append(".");
    r.append(child.as_str());
    proof {
        reveal_strlit(".");
        assert(r@ =~= dotted(parent@, child@));
    }
    r
}

fn insert_facts(m: &mut NamedMap<Entity>, key: String, f: Entity)
    requires
        old(m).wf(),
    ensures
        final(m).wf(),
        facts_view(*final(m)) == facts_view(*old(m)).insert(key@, entity_view(f)),
{
    let ghost k = key@;
    let ghost x = entity_view(f);
    m.insert(key, f);
    proof {
        assert(facts_view(*m) =~= facts_view(*old(m)).insert(k, x));
    }
}

/// The entities of one level, each under its own name.
fn level_map(entries: &Vec<(String, Entity)>) -> (r: NamedMap<Entity>)
    ensures
        r.wf(),
        facts_view(r) == level_facts(entries@),
{
    let mut r: NamedMap<Entity> = NamedMap::new();
    proof {
        assert(facts_view(r) =~= level_facts(entries@.take(0)));
    }
    let mut i: usize = 0;
    while i < entries.len()
        invariant
            r.wf(),
            i <= entries@.len(),
            facts_view(r) == level_facts(entries@.take(i as int)),
        decreases entries@.len() - i,
    {
        insert_facts(&mut r, entries[i].0.clone(), copy_entity(&entries[i].1));
        proof {
            let t1 = entries@.take(i + 1);
            assert(t1.drop_last() =~= entries@.take(i as int));
            assert(t1.last() == entries@[i as int]);
            assert(level_facts(t1) =~= level_facts(entries@.take(i as int)).insert(
                entries@[i as int].0@,
                entity_facts(entries@[i as int].1),
            ));
        }
        i = i + 1;
    }
    proof {
        assert(entries@.take(i as int) =~= entries@);
    }
    r
}

/// Adds the entries of `sub` to `result` under dotted names below `parent`.
fn add_prefixed(result: &mut NamedMap<Entity>, parent: &String, sub: &NamedMap<Entity>)
    requires
        old(result).wf(),
        sub.wf(),
    ensures
        final(result).wf(),
        facts_view(*final(result)) == facts_view(*old(result)).union_prefer_right(
            prefixed(parent@, facts_view(*sub)),
        ),
{
    let ghost start = facts_view(*result);
    let ghost v = facts_view(*sub);
    let keys = sub.keys();
    let mut j: usize = 0;
    proof {
        assert(v.restrict(name_set(keys@.take(0))) =~= Map::empty());
        assert(prefixed(parent@, Map::empty()) =~= Map::empty());
        assert(start.union_prefer_right(Map::empty()) =~= start);
    }
    while j < keys.len()
        invariant
            result.wf(),
            sub.wf(),
            v == facts_view(*sub),
            j <= keys@.len(),
            name_set(keys@) == sub@.dom(),
            facts_view(*result) == start.union_prefer_right(
                prefixed(parent@, v.restrict(name_set(keys@.take(j as int)))),
            ),
        decreases keys@.len() - j,
    {
        let ck = &keys[j];
        proof {
            lemma_name_set(keys@);
            assert(sub@.dom().contains(ck@));
        }
        let f = sub.get(ck).unwrap();
        let name = dotted_name(parent, ck);
        insert_facts(result, name, copy_entity(f));
        proof {
            let w = v.restrict(name_set(keys@.take(j as int)));
            crate::names::lemma_name_set_take(keys@, j as int);
            assert(v.restrict(name_set(keys@.take(j + 1))) =~= w.insert(ck@, v[ck@]));
            lemma_prefixed_insert(parent@, w, ck@, v[ck@]);
            assert(start.union_prefer_right(prefixed(parent@, w).insert(dotted(parent@, ck@), v[ck@]))
                =~= start.union_prefer_right(prefixed(parent@, w)).insert(dotted(parent@, ck@), v[ck@]));
        }
        j = j + 1;
    }
    proof {
        assert(keys@.take(j as int) =~= keys@);
        assert(v.restrict(name_set(keys@)) =~= v);
    }
}

/// All entities of a tree under their dotted names.
pub fn flatten_entries(entries: &Vec<(String, Entity)>) -> (r: NamedMap<Entity>)
    ensures
        r.wf(),
        facts_view(r) == flatten_spec(entries@),
    decreases entries@,
{
    let mut r = level_map(entries);
    let ghost level = level_facts(entries@);
    proof {
        assert(level.union_prefer_right(nested_facts(entries@, 0)) =~= level);
    }
    let mut i: usize = 0;
    while i < entries.len()
        invariant
            r.wf(),
            i <= entries@.len(),
            level == level_facts(entries@),
            facts_view(r) == level.union_prefer_right(nested_facts(entries@, i as int)),
        decreases entries@.len() - i,
    {
        match &entries[i].1.entities {
            Some(children) => {
                proof {
                    assert(decreases_to!(entries@ => entries@[i as int]));
                    assert(decreases_to!(entries@[i as int] => entries@[i as int].1));
                    assert(decreases_to!(entries@[i as int].1 => entries@[i as int].1.entities));
                    assert(decreases_to!(entries@[i as int].1.entities => *children));
                    assert(decreases_to!(*children => children@));
                }
                let sub = flatten_entries(children);
                let ghost before = facts_view(r);
                add_prefixed(&mut r, &entries[i].0, &sub);
                proof {
                    let p = prefixed(entries@[i as int].0@, flatten_spec(children@));
                    assert(nested_facts(entries@, i + 1) == nested_facts(entries@, i as int).union_prefer_right(p));
                    assert(level.union_prefer_right(nested_facts(entries@, i as int).union_prefer_right(p))
                        =~= level.union_prefer_right(nested_facts(entries@, i as int)).union_prefer_right(p));
                }
            },
            None => {
                proof {
                    assert(nested_facts(entries@, i + 1) == nested_facts(entries@, i as int));
                }
            },
        }
        i = i + 1;
    }
    r
}

/// The names in `m` of the entities that have the given role.
pub open spec fn with_role(m: Map<Seq<char>, EntityFacts>, role: ExerciseRole) -> Set<Seq<char>> {
    Set::new(|k: Seq<char>| m.dom().contains(k) && m[k].role == Some(role))
}

/// The entities that have the given role; the others are dropped.
pub fn filter_entities_by_role(entities: NamedMap<Entity>, role: ExerciseRole) -> (r: NamedMap<Entity>)
    requires
        entities.wf(),
    ensures
        r.wf(),
        facts_view(r) == facts_view(entities).restrict(with_role(facts_view(entities), role)),
{
    let keys = entities.keys();
    let mut chosen: Vec<String> = Vec::new();
    let mut i: usize = 0;
    while i < keys.len()
        invariant
            entities.wf(),
            i <= keys@.len(),
            name_set(keys@) == entities@.dom(),
            name_set(chosen@) == with_role(facts_view(entities), role).intersect(name_set(keys@.take(i as int))),
        decreases keys@.len() - i,
    {
        let key = &keys[i];
        proof {
            lemma_name_set(keys@);
            assert(entities@.dom().contains(key@));
        }
        let e = entities.get(key).unwrap();
        let ghost before = chosen@;
        let has_role = match e.role {
            Some(r) => r == role,
            None => false,
        };
        if has_role {
            chosen.push(key.clone());
            proof {
                crate::names::lemma_name_set_push(before, *key);
            }
        }
        proof {
            crate::names::lemma_name_set_take(keys@, i as int);
            assert(name_set(chosen@) =~= with_role(facts_view(entities), role).intersect(
                name_set(keys@.take(i + 1)),
            ));
        }
        i = i + 1;
    }
    proof {
        assert(keys@.take(i as int) =~= keys@);
        assert(with_role(facts_view(entities), role).intersect(name_set(keys@)) =~= with_role(
            facts_view(entities),
            role,
        ));
    }
    let ghost before = facts_view(entities);
    let r = entities.restrict(&chosen);
    proof {
        assert(facts_view(r) =~= before.restrict(with_role(before, role)));
    }
    r
}

/// All entities of a scenario's entity tree under their dotted names.
pub fn flatten_entities(entities: &NamedMap<Entity>) -> (r: NamedMap<Entity>)
    ensures
        r.wf(),
        facts_view(r) == flatten_spec(entities.spec_entries()),
{
    flatten_entries(entities.entries())
}

/// The entities of one level of a tree, each under its own name.
pub fn level_map_of(entries: &Vec<(String, Entity)>) -> (r: NamedMap<Entity>)
    ensures
        r.wf(),
        facts_view(r) == level_facts(entries@),
{
    level_map(entries)
}

/// Every name that flattening adds below a parent holds a dot.
proof fn lemma_nested_names_are_dotted(entries: Seq<(String, Entity)>, n: int, k: Seq<char>)
    requires
        nested_facts(entries, n).dom().contains(k),
    ensures
        k.contains('.'),
    decreases n,
{
    if 0 < n <= entries.len() {
        let parent = entries[n - 1].0@;
        match entries[n - 1].1.entities {
            Some(children) => {
                let p = prefixed(parent, flatten_spec(children@));
                if p.dom().contains(k) {
                    assert(k.take(parent.len() + 1int)[parent.len() as int] == '.');
                    assert(k[parent.len() as int] == '.');
                } else {
                    lemma_nested_names_are_dotted(entries, n - 1, k);
                }
            },
            None => {
                lemma_nested_names_are_dotted(entries, n - 1, k);
            },
        }
    }
}

/// Flattening keeps each entity of the top level, nested entities included,
/// under its own name when that name holds no dot: the dotted names of nested
/// entities never take its place.
pub proof fn lemma_flatten_keeps_top_level(entries: Seq<(String, Entity)>, k: Seq<char>)
    requires
        entries_map(entries).dom().contains(k),
        !k.contains('.'),
    ensures
        flatten_spec(entries).dom().contains(k),
        flatten_spec(entries)[k] == entity_view(entries_map(entries)[k]),
{
    if nested_facts(entries, entries.len() as int).dom().contains(k) {
        lemma_nested_names_are_dotted(entries, entries.len() as int, k);
    }
}

} // verus!
