//! Names that scenario elements refer to, and the elements that refer to given names.

use crate::names::{lemma_name_set, lemma_name_set_push, lemma_name_set_take, name_set, NamedMap};
use vstd::prelude::*;

verus! {

/// Names referred to by the selected elements of `refs`.
pub open spec fn referenced(refs: Map<Seq<char>, Set<Seq<char>>>, selected: Set<Seq<char>>) -> Set<Seq<char>> {
    Set::new(
        |x: Seq<char>|
            exists|k: Seq<char>|
                #![trigger refs[k].contains(x)]
                selected.contains(k) && refs.dom().contains(k) && refs[k].contains(x),
    )
}

/// Keys of `refs` whose element refers to at least one selected name.
pub open spec fn referring(refs: Map<Seq<char>, Set<Seq<char>>>, selected: Set<Seq<char>>) -> Set<Seq<char>> {
    Set::new(
        |k: Seq<char>|
            refs.dom().contains(k) && exists|x: Seq<char>|
                #![trigger refs[k].contains(x)]
                selected.contains(x) && refs[k].contains(x),
    )
}

/// The names an optional list holds; no list holds none.
pub open spec fn opt_names(names: Option<Vec<String>>) -> Set<Seq<char>> {
    match names {
        Some(v) => name_set(v@),
        None => Set::empty(),
    }
}

/// The keys an optional map holds; no map holds none.
pub open spec fn opt_keys<V>(m: Option<NamedMap<V>>) -> Set<Seq<char>> {
    match m {
        Some(m) => m@.dom(),
        None => Set::empty(),
    }
}

/// The map an optional map denotes; no map denotes the empty one.
pub open spec fn opt_map<V>(m: Option<NamedMap<V>>) -> Map<Seq<char>, V> {
    match m {
        Some(m) => m@,
        None => Map::empty(),
    }
}

/// The reference sets that a projection holds.
pub open spec fn refs_view(p: NamedMap<Vec<String>>) -> Map<Seq<char>, Set<Seq<char>>> {
    p@.map_values(|v: Vec<String>| name_set(v@))
}

/// Appends the names of `more` to `names`.
pub fn extend_names(names: &mut Vec<String>, more: &Vec<String>)
    ensures
        final(names)@ == old(names)@ + more@,
{
    let ghost start = names@;
    let mut i: usize = 0;
    while i < more.len()
        invariant
            i <= more@.len(),
            names@ == start + more@.take(i as int),
        decreases more@.len() - i,
    {
        names.push(more[i].clone());
        proof {
            assert(more@.take(i + 1) == more@.take(i as int).push(more@[i as int]));
        }
        i = i + 1;
    }
    proof {
        assert(more@.take(i as int) == more@);
    }
}

/// A copy of a list of names.
pub fn copy_names(names: &Vec<String>) -> (r: Vec<String>)
    ensures
        r@ == names@,
{
    let mut r = Vec::new();
    extend_names(&mut r, names);
    proof {
        assert(Seq::<String>::empty() + names@ == names@);
    }
    r
}

/// A copy of an optional list of names.
pub fn copy_opt_names(names: &Option<Vec<String>>) -> (r: Vec<String>)
    ensures
        name_set(r@) == opt_names(*names),
{
    match names {
        Some(v) => copy_names(v),
        None => {
            let r = Vec::new();
            proof {
                assert(name_set(r@) =~= Set::<Seq<char>>::empty());
            }
            r
        },
    }
}

pub proof fn lemma_name_set_concat(a: Seq<String>, b: Seq<String>)
    ensures
        name_set(a + b) == name_set(a).union(name_set(b)),
{
    lemma_name_set(a);
    lemma_name_set(b);
    lemma_name_set(a + b);
    assert forall|x| name_set(a + b).contains(x) <==> name_set(a).union(name_set(b)).contains(x) by {
        if name_set(a + b).contains(x) {
            let j = choose|j: int| 0 <= j < (a + b).len() && (a + b)[j]@ == x;
            if j < a.len() {
                assert(a[j]@ == x);
            } else {
                assert(b[j - a.len()]@ == x);
            }
        }
        if name_set(a).contains(x) {
            let j = choose|j: int| 0 <= j < a.len() && a[j]@ == x;
            assert((a + b)[j]@ == x);
        }
        if name_set(b).contains(x) {
            let j = choose|j: int| 0 <= j < b.len() && b[j]@ == x;
            assert((a + b)[j + a.len()]@ == x);
        }
    }
    assert(name_set(a + b) =~= name_set(a).union(name_set(b)));
}

/// A projection of a map of elements onto the names each element refers to.
pub trait RefField<T> {
    spec fn refs(t: T) -> Set<Seq<char>>;

    fn ref_names(t: &T) -> (r: Vec<String>)
        ensures
            name_set(r@) == Self::refs(*t),
    ;
}

/// For every element of `m`, the names it refers to through the field `F`.
pub fn project<T, F: RefField<T>>(m: &NamedMap<T>) -> (p: NamedMap<Vec<String>>)
    requires
        m.wf(),
    ensures
        p.wf(),
        refs_view(p) == m@.map_values(|t: T| F::refs(t)),
{
    let keys = m.keys();
    let mut p: NamedMap<Vec<String>> = NamedMap::new();
    let mut i: usize = 0;
    while i < keys.len()
        invariant
            m.wf(),
            p.wf(),
            i <= keys@.len(),
            name_set(keys@) == m@.dom(),
            p@.dom() == name_set(keys@.take(i as int)),
            forall|k| #[trigger] p@.dom().contains(k) ==> name_set(p@[k]@) == F::refs(m@[k]),
        decreases keys@.len() - i,
    {
        let key = &keys[i];
        proof {
            lemma_name_set(keys@);
            assert(m@.dom().contains(key@));
        }
        let element = m.get(key).unwrap();
        let names = F::ref_names(element);
        p.insert(key.clone(), names);
        proof {
            lemma_name_set_take(keys@, i as int);
            assert(p@.dom() =~= name_set(keys@.take(i + 1)));
        }
        i = i + 1;
    }
    proof {
        assert(keys@.take(i as int) == keys@);
        assert(refs_view(p) =~= m@.map_values(|t: T| F::refs(t)));
    }
    p
}

/// The names that the selected elements refer to.
pub fn referenced_names(p: &NamedMap<Vec<String>>, selected: &Vec<String>) -> (r: Vec<String>)
    requires
        p.wf(),
    ensures
        name_set(r@) == referenced(refs_view(*p), name_set(selected@)),
{
    let mut r: Vec<String> = Vec::new();
    let mut i: usize = 0;
    while i < selected.len()
        invariant
            p.wf(),
            i <= selected@.len(),
            name_set(r@) == referenced(refs_view(*p), name_set(selected@.take(i as int))),
        decreases selected@.len() - i,
    {
        let ghost before = r@;
        let ghost found = p@.dom().contains(selected@[i as int]@);
        match p.get(&selected[i]) {
            Some(names) => {
                extend_names(&mut r, names);
                proof {
                    lemma_name_set_concat(before, names@);
                }
            },
            None => {},
        }
        proof {
            let s0 = name_set(selected@.take(i as int));
            let s1 = name_set(selected@.take(i + 1));
            let k0 = selected@[i as int]@;
            let refs = refs_view(*p);
            lemma_name_set_take(selected@, i as int);
            assert(s1 == s0.insert(k0));
            if found {
                assert(name_set(r@) == referenced(refs, s0).union(refs[k0]));
            } else {
                assert(name_set(r@) == referenced(refs, s0));
            }
            assert forall|x| name_set(r@).contains(x) <==> #[trigger] referenced(refs, s1).contains(x) by {
                if referenced(refs, s1).contains(x) {
                    let k = choose|k: Seq<char>|
                        s1.contains(k) && refs.dom().contains(k) && #[trigger] refs[k].contains(x);
                    if k != k0 {
                        assert(s0.contains(k));
                        assert(referenced(refs, s0).contains(x));
                    }
                }
                if referenced(refs, s0).contains(x) {
                    let k = choose|k: Seq<char>|
                        s0.contains(k) && refs.dom().contains(k) && #[trigger] refs[k].contains(x);
                    assert(s1.contains(k));
                }
                if found && refs[k0].contains(x) {
                    assert(s1.contains(k0));
                }
            }
            assert(name_set(r@) =~= referenced(refs, s1));
        }
        i = i + 1;
    }
    proof {
        assert(selected@.take(i as int) == selected@);
    }
    r
}

/// The keys of `p` whose element refers to at least one selected name.
pub fn referring_names(p: &NamedMap<Vec<String>>, selected: &Vec<String>) -> (r: Vec<String>)
    requires
        p.wf(),
    ensures
        name_set(r@) == referring(refs_view(*p), name_set(selected@)),
{
    let keys = p.keys();
    let mut r: Vec<String> = Vec::new();
    let mut i: usize = 0;
    while i < keys.len()
        invariant
            p.wf(),
            i <= keys@.len(),
            name_set(keys@) == p@.dom(),
            name_set(r@) == referring(refs_view(*p), name_set(selected@)).intersect(
                name_set(keys@.take(i as int)),
            ),
        decreases keys@.len() - i,
    {
        let key = &keys[i];
        proof {
            lemma_name_set(keys@);
            assert(p@.dom().contains(key@));
        }
        let names = p.get(key).unwrap();
        let hit = any_selected(names, selected);
        let ghost before = r@;
        if hit {
            r.push(key.clone());
        }
        proof {
            let refs = refs_view(*p);
            let sel = name_set(selected@);
            let t0 = name_set(keys@.take(i as int));
            let t1 = name_set(keys@.take(i + 1));
            lemma_name_set_take(keys@, i as int);
            assert(refs[key@] == name_set(names@));
            if hit {
                lemma_name_set_push(before, *key);
            }
            assert(name_set(r@) =~= referring(refs, sel).intersect(t1));
        }
        i = i + 1;
    }
    proof {
        assert(keys@.take(i as int) == keys@);
        assert(name_set(r@) =~= referring(refs_view(*p), name_set(selected@)));
    }
    r
}

/// Whether some name of `names` is among `selected`.
pub fn any_selected(names: &Vec<String>, selected: &Vec<String>) -> (b: bool)
    ensures
        b == exists|x: Seq<char>| name_set(selected@).contains(x) && name_set(names@).contains(x),
{
    let mut i: usize = 0;
    while i < names.len()
        invariant
            i <= names@.len(),
            forall|j: int| 0 <= j < i ==> !#[trigger] name_set(selected@).contains(names@[j]@),
        decreases names@.len() - i,
    {
        if crate::distribution::contains_name(selected, &names[i]) {
            proof {
                lemma_name_set(names@);
                assert(name_set(names@).contains(names@[i as int]@));
            }
            return true;
        }
        i = i + 1;
    }
    proof {
        lemma_name_set(names@);
    }
    false
}

/// The names of `names` that are keys of `m`.
pub fn known_names<V>(names: &Vec<String>, m: &NamedMap<V>) -> (r: Vec<String>)
    requires
        m.wf(),
    ensures
        name_set(r@) == name_set(names@).intersect(m@.dom()),
{
    let mut r: Vec<String> = Vec::new();
    let mut i: usize = 0;
    while i < names.len()
        invariant
            m.wf(),
            i <= names@.len(),
            name_set(r@) == name_set(names@.take(i as int)).intersect(m@.dom()),
        decreases names@.len() - i,
    {
        let ghost before = r@;
        if m.contains_key(&names[i]) {
            r.push(names[i].clone());
            proof {
                lemma_name_set_push(before, names@[i as int]);
            }
        }
        proof {
            lemma_name_set_take(names@, i as int);
            assert(name_set(r@) =~= name_set(names@.take(i + 1)).intersect(m@.dom()));
        }
        i = i + 1;
    }
    proof {
        assert(names@.take(i as int) == names@);
    }
    r
}

} // verus!
