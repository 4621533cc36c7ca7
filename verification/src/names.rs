//! Named collections: maps keyed by names, and sets of names.

use vstd::prelude::*;

verus! {

/// The names held in a sequence of strings, as a set of character sequences.
pub open spec fn name_set(names: Seq<String>) -> Set<Seq<char>> {
    view_names(names).to_set()
}

/// The views of a sequence of strings.
pub open spec fn view_names(names: Seq<String>) -> Seq<Seq<char>> {
    names.map_values(|s: String| s@)
}

/// Membership in a name set is membership of some element's view.
pub proof fn lemma_name_set(names: Seq<String>)
    ensures
        forall|k: Seq<char>|
            #![trigger name_set(names).contains(k)]
            name_set(names).contains(k) <==> exists|j: int| 0 <= j < names.len() && names[j]@ == k,
{
    assert forall|k: Seq<char>| name_set(names).contains(k) <==> exists|j: int|
        0 <= j < names.len() && names[j]@ == k by {
        if name_set(names).contains(k) {
            let j = choose|j: int| 0 <= j < view_names(names).len() && #[trigger] view_names(names)[j] == k;
            assert(names[j]@ == k);
        }
        if exists|j: int| 0 <= j < names.len() && names[j]@ == k {
            let j = choose|j: int| 0 <= j < names.len() && names[j]@ == k;
            assert(view_names(names)[j] == k);
        }
    }
}

pub proof fn lemma_name_set_push(names: Seq<String>, x: String)
    ensures
        name_set(names.push(x)) == name_set(names).insert(x@),
{
    lemma_name_set(names);
    lemma_name_set(names.push(x));
    assert forall|k| name_set(names.push(x)).contains(k) <==> name_set(names).insert(x@).contains(k) by {
        if name_set(names).contains(k) {
            let j = choose|j: int| 0 <= j < names.len() && names[j]@ == k;
            assert(names.push(x)[j]@ == k);
        }
        if k == x@ {
            assert(names.push(x)[names.len() as int]@ == k);
        }
        if name_set(names.push(x)).contains(k) {
            let j = choose|j: int| 0 <= j < names.push(x).len() && names.push(x)[j]@ == k;
            if j < names.len() {
                assert(names[j]@ == k);
            }
        }
    }
    assert(name_set(names.push(x)) =~= name_set(names).insert(x@));
}

/// The prefix of one more element holds one more name.
pub proof fn lemma_name_set_take(names: Seq<String>, i: int)
    requires
        0 <= i < names.len(),
    ensures
        name_set(names.take(i + 1)) == name_set(names.take(i)).insert(names[i]@),
{
    assert(names.take(i + 1) == names.take(i).push(names[i]));
    lemma_name_set_push(names.take(i), names[i]);
}

/// The keys of a sequence of entries, in order.
pub open spec fn entry_keys<V>(entries: Seq<(String, V)>) -> Seq<Seq<char>> {
    entries.map_values(|e: (String, V)| e.0@)
}

/// The map that a sequence of entries denotes when they are inserted in order:
/// a later entry replaces an earlier one with the same key.
pub open spec fn entries_map<V>(entries: Seq<(String, V)>) -> Map<Seq<char>, V>
    decreases entries.len(),
{
    if entries.len() == 0 {
        Map::empty()
    } else {
        entries_map(entries.drop_last()).insert(entries.last().0@, entries.last().1)
    }
}

pub proof fn lemma_entries_map_dom<V>(entries: Seq<(String, V)>)
    ensures
        entries_map(entries).dom() == entry_keys(entries).to_set(),
    decreases entries.len(),
{
    if entries.len() > 0 {
        lemma_entries_map_dom(entries.drop_last());
        assert(entry_keys(entries.drop_last()) == entry_keys(entries).drop_last());
        assert(entries_map(entries).dom() =~= entry_keys(entries).to_set()) by {
            assert forall|k| entry_keys(entries).to_set().contains(k) implies entries_map(
                entries,
            ).dom().contains(k) by {
                let i = choose|i: int| 0 <= i < entry_keys(entries).len() && entry_keys(entries)[i] == k;
                if i < entries.len() - 1 {
                    assert(entry_keys(entries.drop_last())[i] == k);
                }
            }
            assert forall|k| entries_map(entries).dom().contains(k) implies entry_keys(
                entries,
            ).to_set().contains(k) by {
                if k != entries.last().0@ {
                    let i = choose|i: int|
                        0 <= i < entry_keys(entries.drop_last()).len() && entry_keys(
                            entries.drop_last(),
                        )[i] == k;
                    assert(entry_keys(entries)[i] == k);
                } else {
                    assert(entry_keys(entries)[entries.len() - 1] == k);
                }
            }
        }
    }
}

pub proof fn lemma_entries_map_index<V>(entries: Seq<(String, V)>, i: int)
    requires
        entry_keys(entries).no_duplicates(),
        0 <= i < entries.len(),
    ensures
        entries_map(entries).dom().contains(entries[i].0@),
        entries_map(entries)[entries[i].0@] == entries[i].1,
    decreases entries.len(),
{
    lemma_entries_map_dom(entries);
    assert(entry_keys(entries)[i] == entries[i].0@);
    if i < entries.len() - 1 {
        let rest = entries.drop_last();
        assert(entry_keys(rest) =~= entry_keys(entries).drop_last());
        assert(entry_keys(rest).no_duplicates());
        lemma_entries_map_index(rest, i);
        assert(entry_keys(entries)[entries.len() - 1] == entries.last().0@);
        assert(entries[i].0@ != entries.last().0@);
    }
}

pub proof fn lemma_entries_map_update<V>(entries: Seq<(String, V)>, i: int, k: String, v: V)
    requires
        entry_keys(entries).no_duplicates(),
        0 <= i < entries.len(),
        entries[i].0@ == k@,
    ensures
        entries_map(entries.update(i, (k, v))) == entries_map(entries).insert(k@, v),
        entry_keys(entries.update(i, (k, v))) == entry_keys(entries),
{
    let new_entries = entries.update(i, (k, v));
    assert(entry_keys(new_entries) =~= entry_keys(entries));
    lemma_entries_map_dom(entries);
    lemma_entries_map_dom(new_entries);
    let target = entries_map(entries).insert(k@, v);
    assert(entry_keys(entries)[i] == k@);
    assert(entries_map(new_entries).dom() =~= target.dom());
    assert forall|key| #[trigger] entries_map(new_entries).dom().contains(key) implies entries_map(
        new_entries,
    )[key] == target[key] by {
        let j = choose|j: int| 0 <= j < entry_keys(new_entries).len() && entry_keys(new_entries)[j] == key;
        assert(entry_keys(new_entries)[j] == new_entries[j].0@);
        lemma_entries_map_index(new_entries, j);
        if j != i {
            assert(entry_keys(entries)[j] == entries[j].0@);
            lemma_entries_map_index(entries, j);
            assert(key != k@);
        }
    }
    assert(entries_map(new_entries) =~= target);
}

pub proof fn lemma_entries_map_remove<V>(entries: Seq<(String, V)>, i: int)
    requires
        entry_keys(entries).no_duplicates(),
        0 <= i < entries.len(),
    ensures
        entries_map(entries.remove(i)) == entries_map(entries).remove(entries[i].0@),
        entry_keys(entries.remove(i)) == entry_keys(entries).remove(i),
        entry_keys(entries.remove(i)).no_duplicates(),
{
    let new_entries = entries.remove(i);
    assert(entry_keys(new_entries) =~= entry_keys(entries).remove(i));
    assert(entry_keys(new_entries).no_duplicates()) by {
        assert forall|a: int, b: int|
            0 <= a < entry_keys(new_entries).len() && 0 <= b < entry_keys(new_entries).len() && a
                != b implies entry_keys(new_entries)[a] != entry_keys(new_entries)[b] by {
            let a2 = if a < i { a } else { a + 1 };
            let b2 = if b < i { b } else { b + 1 };
            assert(entry_keys(new_entries)[a] == entry_keys(entries)[a2]);
            assert(entry_keys(new_entries)[b] == entry_keys(entries)[b2]);
        }
    }
    lemma_entries_map_dom(entries);
    lemma_entries_map_dom(new_entries);
    let target = entries_map(entries).remove(entries[i].0@);
    assert(entries_map(new_entries) =~= target) by {
        assert forall|key| entries_map(new_entries).dom().contains(key) <==> target.dom().contains(key) by {
            if entries_map(new_entries).dom().contains(key) {
                let j = choose|j: int| 0 <= j < entry_keys(new_entries).len() && entry_keys(new_entries)[j] == key;
                let j2 = if j < i { j } else { j + 1 };
                assert(entry_keys(entries)[j2] == key);
                assert(entry_keys(entries)[i] == entries[i].0@);
            }
            if target.dom().contains(key) {
                let j = choose|j: int| 0 <= j < entry_keys(entries).len() && entry_keys(entries)[j] == key;
                assert(j != i);
                let j2 = if j < i { j } else { j - 1 };
                assert(entry_keys(new_entries)[j2] == key);
            }
        }
        assert forall|key| #[trigger] entries_map(new_entries).dom().contains(key) implies entries_map(
            new_entries,
        )[key] == target[key] by {
            let j = choose|j: int| 0 <= j < entry_keys(new_entries).len() && entry_keys(new_entries)[j] == key;
            let j2 = if j < i { j } else { j + 1 };
            assert(entry_keys(new_entries)[j] == new_entries[j].0@);
            assert(new_entries[j] == entries[j2]);
            assert(entry_keys(entries)[j2] == entries[j2].0@);
            lemma_entries_map_index(new_entries, j);
            lemma_entries_map_index(entries, j2);
            assert(entry_keys(entries)[i] == entries[i].0@);
        }
    }
}

/// A map from names to values, kept as a list of entries whose keys are distinct.
pub struct NamedMap<V> {
    entries: Vec<(String, V)>,
}

impl<V> View for NamedMap<V> {
    type V = Map<Seq<char>, V>;

    open spec fn view(&self) -> Map<Seq<char>, V> {
        entries_map(self.spec_entries())
    }
}

impl<V> NamedMap<V> {
    pub closed spec fn spec_entries(&self) -> Seq<(String, V)> {
        self.entries@
    }

    /// The keys are distinct.
    pub open spec fn wf(&self) -> bool {
        entry_keys(self.spec_entries()).no_duplicates()
    }

    pub fn new() -> (m: Self)
        ensures
            m.wf(),
            m@ == Map::<Seq<char>, V>::empty(),
    {
        let m = NamedMap { entries: Vec::new() };
        assert(entry_keys(m.spec_entries()) =~= Seq::<Seq<char>>::empty());
        m
    }

    /// The entries, in the order in which they are kept.
    pub fn entries(&self) -> (r: &Vec<(String, V)>)
        ensures
            r@ == self.spec_entries(),
    {
        &self.entries
    }

    /// The entries, given up in the order in which they are kept.
    pub fn into_entries(self) -> (r: Vec<(String, V)>)
        ensures
            r@ == self.spec_entries(),
    {
        self.entries
    }

    /// The entries of `self` whose keys are among `keys`; the others are dropped.
    pub fn restrict(self, keys: &Vec<String>) -> (r: Self)
        requires
            self.wf(),
        ensures
            r.wf(),
            r@ == self@.restrict(name_set(keys@)),
    {
        let ghost orig = self.entries@;
        let ghost orig_map = self@;
        let mut rest = self.entries;
        let mut kept: NamedMap<V> = NamedMap::new();
        proof {
            lemma_entries_map_dom(orig);
        }
        while rest.len() > 0
            invariant
                kept.wf(),
                entry_keys(orig).no_duplicates(),
                orig_map == entries_map(orig),
                rest@ == orig.take(rest@.len() as int),
                rest@.len() <= orig.len(),
                forall|k| #[trigger]
                    kept@.dom().contains(k) <==> (name_set(keys@).contains(k) && exists|j: int|
                        rest@.len() <= j < orig.len() && orig[j].0@ == k),
                forall|k| #[trigger] kept@.dom().contains(k) ==> kept@[k] == orig_map[k],
            decreases rest@.len(),
        {
            let ghost n = rest@.len() as int;
            let (k, v) = rest.pop().unwrap();
            proof {
                assert(orig[n - 1] == (k, v));
                lemma_entries_map_index(orig, n - 1);
                assert(rest@ == orig.take(n - 1));
            }
            if crate::distribution::contains_name(keys, &k) {
                kept.insert(k, v);
            }
            proof {
                assert forall|key| #[trigger]
                    kept@.dom().contains(key) <==> (name_set(keys@).contains(key) && exists|j: int|
                        n - 1 <= j < orig.len() && orig[j].0@ == key) by {
                    if exists|j: int| n - 1 <= j < orig.len() && orig[j].0@ == key {
                        let j = choose|j: int| n - 1 <= j < orig.len() && orig[j].0@ == key;
                        if j != n - 1 {
                            assert(n <= j < orig.len() && orig[j].0@ == key);
                        }
                    }
                }
            }
        }
        proof {
            assert(kept@ =~= orig_map.restrict(name_set(keys@))) by {
                assert forall|k| kept@.dom().contains(k) <==> orig_map.restrict(name_set(keys@)).dom().contains(k) by {
                    if orig_map.dom().contains(k) {
                        assert(entry_keys(orig).to_set().contains(k));
                        let j = choose|j: int| 0 <= j < entry_keys(orig).len() && entry_keys(orig)[j] == k;
                        assert(orig[j].0@ == k);
                    }
                    if exists|j: int| 0 <= j < orig.len() && orig[j].0@ == k {
                        let j = choose|j: int| 0 <= j < orig.len() && orig[j].0@ == k;
                        lemma_entries_map_index(orig, j);
                    }
                }
            }
        }
        kept
    }

    pub fn len(&self) -> (n: usize)
        requires
            self.wf(),
        ensures
            n == self@.len(),
            n == self.spec_entries().len(),
    {
        proof {
            lemma_entries_map_dom(self.spec_entries());
            entry_keys(self.spec_entries()).unique_seq_to_set();
        }
        self.entries.len()
    }

    pub fn is_empty(&self) -> (b: bool)
        requires
            self.wf(),
        ensures
            b == (self@ == Map::<Seq<char>, V>::empty()),
    {
        proof {
            lemma_entries_map_dom(self.spec_entries());
            if self.entries.len() > 0 {
                assert(entry_keys(self.spec_entries()).to_set().contains(self.spec_entries()[0].0@)) by {
                    assert(entry_keys(self.spec_entries())[0] == self.spec_entries()[0].0@);
                }
            } else {
                assert(self@ =~= Map::<Seq<char>, V>::empty());
            }
        }
        self.entries.len() == 0
    }

    /// Position of the entry with the given key.
    fn find(&self, key: &String) -> (r: Option<usize>)
        ensures
            r matches Some(i) ==> i < self.spec_entries().len() && self.spec_entries()[i as int].0@
                == key@,
            r is None ==> !entry_keys(self.spec_entries()).contains(key@),
    {
        let mut i: usize = 0;
        while i < self.entries.len()
            invariant
                i <= self.entries@.len(),
                forall|j: int| 0 <= j < i ==> self.entries@[j].0@ != key@,
            decreases self.entries@.len() - i,
        {
            if self.entries[i].0 == *key {
                return Some(i);
            }
            i = i + 1;
        }
        proof {
            if entry_keys(self.spec_entries()).contains(key@) {
                let j = choose|j: int|
                    0 <= j < entry_keys(self.spec_entries()).len() && entry_keys(self.spec_entries())[j] == key@;
                assert(self.entries@[j].0@ == key@);
            }
        }
        None
    }

    pub fn contains_key(&self, key: &String) -> (b: bool)
        requires
            self.wf(),
        ensures
            b == self@.dom().contains(key@),
    {
        proof {
            lemma_entries_map_dom(self.spec_entries());
        }
        let r = self.find(key);
        proof {
            if let Some(i) = r {
                assert(entry_keys(self.spec_entries())[i as int] == key@);
            }
        }
        r.is_some()
    }

    pub fn get(&self, key: &String) -> (r: Option<&V>)
        requires
            self.wf(),
        ensures
            r is Some == self@.dom().contains(key@),
            r matches Some(v) ==> *v == self@[key@],
    {
        proof {
            lemma_entries_map_dom(self.spec_entries());
        }
        match self.find(key) {
            Some(i) => {
                proof {
                    lemma_entries_map_index(self.spec_entries(), i as int);
                }
                Some(&self.entries[i].1)
            },
            None => None,
        }
    }

    /// Inserts a value under a key, replacing the value held there before.
    pub fn insert(&mut self, key: String, value: V)
        requires
            old(self).wf(),
        ensures
            final(self).wf(),
            final(self)@ == old(self)@.insert(key@, value),
    {
        match self.find(&key) {
            Some(i) => {
                proof {
                    lemma_entries_map_update(self.spec_entries(), i as int, key, value);
                }
                self.entries.set(i, (key, value));
            },
            None => {
                let ghost old_entries = self.entries@;
                self.entries.push((key, value));
                proof {
                    assert(self.entries@.drop_last() == old_entries);
                    assert(entry_keys(self.entries@) =~= entry_keys(old_entries).push(key@));
                    assert(entry_keys(self.entries@).no_duplicates()) by {
                        assert forall|a: int, b: int|
                            0 <= a < entry_keys(self.entries@).len() && 0 <= b < entry_keys(
                                self.entries@,
                            ).len() && a != b implies entry_keys(self.entries@)[a] != entry_keys(
                            self.entries@,
                        )[b] by {
                            if a < old_entries.len() && b < old_entries.len() {
                            } else if a < old_entries.len() {
                                assert(entry_keys(old_entries)[a] == entry_keys(self.entries@)[a]);
                            } else {
                                assert(entry_keys(old_entries)[b] == entry_keys(self.entries@)[b]);
                            }
                        }
                    }
                }
            },
        }
    }

    /// Removes the entry under a key and hands back its value.
    pub fn remove(&mut self, key: &String) -> (r: Option<V>)
        requires
            old(self).wf(),
        ensures
            final(self).wf(),
            final(self)@ == old(self)@.remove(key@),
            r is Some == old(self)@.dom().contains(key@),
            r matches Some(v) ==> v == old(self)@[key@],
    {
        proof {
            lemma_entries_map_dom(self.spec_entries());
        }
        match self.find(key) {
            Some(i) => {
                proof {
                    lemma_entries_map_index(self.spec_entries(), i as int);
                    lemma_entries_map_remove(self.spec_entries(), i as int);
                }
                let (_, v) = self.entries.remove(i);
                Some(v)
            },
            None => {
                proof {
                    assert(self@.remove(key@) =~= self@);
                }
                None
            },
        }
    }

    /// The keys, in the order in which the entries are kept.
    pub fn keys(&self) -> (ks: Vec<String>)
        ensures
            name_set(ks@) == self@.dom(),
            self.wf() ==> ks@.map_values(|s: String| s@).no_duplicates(),
    {
        let mut ks: Vec<String> = Vec::new();
        let mut i: usize = 0;
        while i < self.entries.len()
            invariant
                i <= self.entries@.len(),
                ks@.len() == i,
                forall|j: int| 0 <= j < i ==> #[trigger] ks@[j]@ == self.entries@[j].0@,
            decreases self.entries@.len() - i,
        {
            ks.push(self.entries[i].0.clone());
            i = i + 1;
        }
        proof {
            assert(ks@.map_values(|s: String| s@) =~= entry_keys(self.spec_entries()));
            lemma_entries_map_dom(self.spec_entries());
        }
        ks
    }
}

} // verus!
