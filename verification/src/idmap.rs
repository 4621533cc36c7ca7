//! Maps keyed by record identifiers.

use vstd::prelude::*;

verus! {

/// The keys of a sequence of entries, in order.
pub open spec fn id_keys<V>(entries: Seq<(u128, V)>) -> Seq<u128> {
    entries.map_values(|e: (u128, V)| e.0)
}

/// The map that a sequence of identified entries denotes when they are inserted in order:
/// a later entry replaces an earlier one with the same key.
pub open spec fn id_entries_map<V>(entries: Seq<(u128, V)>) -> Map<u128, V>
    decreases entries.len(),
{
    if entries.len() == 0 {
        Map::empty()
    } else {
        id_entries_map(entries.drop_last()).insert(entries.last().0, entries.last().1)
    }
}

pub proof fn lemma_id_map_dom<V>(entries: Seq<(u128, V)>)
    ensures
        id_entries_map(entries).dom() == id_keys(entries).to_set(),
    decreases entries.len(),
{
    if entries.len() > 0 {
        lemma_id_map_dom(entries.drop_last());
        assert(id_keys(entries.drop_last()) == id_keys(entries).drop_last());
        assert(id_entries_map(entries).dom() =~= id_keys(entries).to_set()) by {
            assert forall|k| id_keys(entries).to_set().contains(k) implies id_entries_map(
                entries,
            ).dom().contains(k) by {
                let i = choose|i: int| 0 <= i < id_keys(entries).len() && id_keys(entries)[i] == k;
                if i < entries.len() - 1 {
                    assert(id_keys(entries.drop_last())[i] == k);
                }
            }
            assert forall|k| id_entries_map(entries).dom().contains(k) implies id_keys(
                entries,
            ).to_set().contains(k) by {
                if k != entries.last().0 {
                    let i = choose|i: int|
                        0 <= i < id_keys(entries.drop_last()).len() && id_keys(
                            entries.drop_last(),
                        )[i] == k;
                    assert(id_keys(entries)[i] == k);
                } else {
                    assert(id_keys(entries)[entries.len() - 1] == k);
                }
            }
        }
    }
}

pub proof fn lemma_id_map_index<V>(entries: Seq<(u128, V)>, i: int)
    requires
        id_keys(entries).no_duplicates(),
        0 <= i < entries.len(),
    ensures
        id_entries_map(entries).dom().contains(entries[i].0),
        id_entries_map(entries)[entries[i].0] == entries[i].1,
    decreases entries.len(),
{
    lemma_id_map_dom(entries);
    assert(id_keys(entries)[i] == entries[i].0);
    if i < entries.len() - 1 {
        let rest = entries.drop_last();
        assert(id_keys(rest) =~= id_keys(entries).drop_last());
        assert(id_keys(rest).no_duplicates());
        lemma_id_map_index(rest, i);
        assert(id_keys(entries)[entries.len() - 1] == entries.last().0);
        assert(entries[i].0 != entries.last().0);
    }
}

pub proof fn lemma_id_map_update<V>(entries: Seq<(u128, V)>, i: int, k: u128, v: V)
    requires
        id_keys(entries).no_duplicates(),
        0 <= i < entries.len(),
        entries[i].0 == k,
    ensures
        id_entries_map(entries.update(i, (k, v))) == id_entries_map(entries).insert(k, v),
        id_keys(entries.update(i, (k, v))) == id_keys(entries),
{
    let new_entries = entries.update(i, (k, v));
    assert(id_keys(new_entries) =~= id_keys(entries));
    lemma_id_map_dom(entries);
    lemma_id_map_dom(new_entries);
    let target = id_entries_map(entries).insert(k, v);
    assert(id_keys(entries)[i] == k);
    assert(id_entries_map(new_entries).dom() =~= target.dom());
    assert forall|key| #[trigger] id_entries_map(new_entries).dom().contains(key) implies id_entries_map(
        new_entries,
    )[key] == target[key] by {
        let j = choose|j: int| 0 <= j < id_keys(new_entries).len() && id_keys(new_entries)[j] == key;
        assert(id_keys(new_entries)[j] == new_entries[j].0);
        lemma_id_map_index(new_entries, j);
        if j != i {
            assert(id_keys(entries)[j] == entries[j].0);
            lemma_id_map_index(entries, j);
            assert(key != k);
        }
    }
    assert(id_entries_map(new_entries) =~= target);
}

pub proof fn lemma_id_map_remove<V>(entries: Seq<(u128, V)>, i: int)
    requires
        id_keys(entries).no_duplicates(),
        0 <= i < entries.len(),
    ensures
        id_entries_map(entries.remove(i)) == id_entries_map(entries).remove(entries[i].0),
        id_keys(entries.remove(i)) == id_keys(entries).remove(i),
        id_keys(entries.remove(i)).no_duplicates(),
{
    let new_entries = entries.remove(i);
    assert(id_keys(new_entries) =~= id_keys(entries).remove(i));
    assert(id_keys(new_entries).no_duplicates()) by {
        assert forall|a: int, b: int|
            0 <= a < id_keys(new_entries).len() && 0 <= b < id_keys(new_entries).len() && a
                != b implies id_keys(new_entries)[a] != id_keys(new_entries)[b] by {
            let a2 = if a < i { a } else { a + 1 };
            let b2 = if b < i { b } else { b + 1 };
            assert(id_keys(new_entries)[a] == id_keys(entries)[a2]);
            assert(id_keys(new_entries)[b] == id_keys(entries)[b2]);
        }
    }
    lemma_id_map_dom(entries);
    lemma_id_map_dom(new_entries);
    let target = id_entries_map(entries).remove(entries[i].0);
    assert(id_entries_map(new_entries) =~= target) by {
        assert forall|key| id_entries_map(new_entries).dom().contains(key) <==> target.dom().contains(key) by {
            if id_entries_map(new_entries).dom().contains(key) {
                let j = choose|j: int| 0 <= j < id_keys(new_entries).len() && id_keys(new_entries)[j] == key;
                let j2 = if j < i { j } else { j + 1 };
                assert(id_keys(entries)[j2] == key);
                assert(id_keys(entries)[i] == entries[i].0);
            }
            if target.dom().contains(key) {
                let j = choose|j: int| 0 <= j < id_keys(entries).len() && id_keys(entries)[j] == key;
                assert(j != i);
                let j2 = if j < i { j } else { j - 1 };
                assert(id_keys(new_entries)[j2] == key);
            }
        }
        assert forall|key| #[trigger] id_entries_map(new_entries).dom().contains(key) implies id_entries_map(
            new_entries,
        )[key] == target[key] by {
            let j = choose|j: int| 0 <= j < id_keys(new_entries).len() && id_keys(new_entries)[j] == key;
            let j2 = if j < i { j } else { j + 1 };
            assert(id_keys(new_entries)[j] == new_entries[j].0);
            assert(new_entries[j] == entries[j2]);
            assert(id_keys(entries)[j2] == entries[j2].0);
            lemma_id_map_index(new_entries, j);
            lemma_id_map_index(entries, j2);
            assert(id_keys(entries)[i] == entries[i].0);
        }
    }
}

/// A map from identifiers to values, kept as a list of entries whose keys are distinct.
pub struct IdMap<V> {
    entries: Vec<(u128, V)>,
}

impl<V> View for IdMap<V> {
    type V = Map<u128, V>;

    open spec fn view(&self) -> Map<u128, V> {
        id_entries_map(self.spec_entries())
    }
}

impl<V> IdMap<V> {
    pub closed spec fn spec_entries(&self) -> Seq<(u128, V)> {
        self.entries@
    }

    /// The keys are distinct.
    pub open spec fn wf(&self) -> bool {
        id_keys(self.spec_entries()).no_duplicates()
    }

    pub fn new() -> (m: Self)
        ensures
            m.wf(),
            m@ == Map::<u128, V>::empty(),
    {
        let m = IdMap { entries: Vec::new() };
        assert(id_keys(m.spec_entries()) =~= Seq::<u128>::empty());
        m
    }

    /// The entries, in the order in which they are kept.
    pub fn entries(&self) -> (r: &Vec<(u128, V)>)
        ensures
            r@ == self.spec_entries(),
    {
        &self.entries
    }

    pub fn len(&self) -> (n: usize)
        requires
            self.wf(),
        ensures
            n == self@.len(),
            n == self.spec_entries().len(),
    {
        proof {
            lemma_id_map_dom(self.spec_entries());
            id_keys(self.spec_entries()).unique_seq_to_set();
        }
        self.entries.len()
    }

    pub fn is_empty(&self) -> (b: bool)
        requires
            self.wf(),
        ensures
            b == (self@ == Map::<u128, V>::empty()),
    {
        proof {
            lemma_id_map_dom(self.spec_entries());
            if self.entries.len() > 0 {
                assert(id_keys(self.spec_entries()).to_set().contains(self.spec_entries()[0].0)) by {
                    assert(id_keys(self.spec_entries())[0] == self.spec_entries()[0].0);
                }
            } else {
                assert(self@ =~= Map::<u128, V>::empty());
            }
        }
        self.entries.len() == 0
    }

    /// Position of the entry with the given key.
    fn find(&self, key: u128) -> (r: Option<usize>)
        ensures
            r matches Some(i) ==> i < self.spec_entries().len() && self.spec_entries()[i as int].0
                == key,
            r is None ==> !id_keys(self.spec_entries()).contains(key),
    {
        let mut i: usize = 0;
        while i < self.entries.len()
            invariant
                i <= self.entries@.len(),
                forall|j: int| 0 <= j < i ==> self.entries@[j].0 != key,
            decreases self.entries@.len() - i,
        {
            if self.entries[i].0 == key {
                return Some(i);
            }
            i = i + 1;
        }
        proof {
            if id_keys(self.spec_entries()).contains(key) {
                let j = choose|j: int|
                    0 <= j < id_keys(self.spec_entries()).len() && id_keys(self.spec_entries())[j] == key;
                assert(self.entries@[j].0 == key);
            }
        }
        None
    }

    pub fn contains_key(&self, key: u128) -> (b: bool)
        requires
            self.wf(),
        ensures
            b == self@.dom().contains(key),
    {
        proof {
            lemma_id_map_dom(self.spec_entries());
        }
        let r = self.find(key);
        proof {
            if let Some(i) = r {
                assert(id_keys(self.spec_entries())[i as int] == key);
            }
        }
        r.is_some()
    }

    pub fn get(&self, key: u128) -> (r: Option<&V>)
        requires
            self.wf(),
        ensures
            r is Some == self@.dom().contains(key),
            r matches Some(v) ==> *v == self@[key],
    {
        proof {
            lemma_id_map_dom(self.spec_entries());
        }
        match self.find(key) {
            Some(i) => {
                proof {
                    lemma_id_map_index(self.spec_entries(), i as int);
                }
                Some(&self.entries[i].1)
            },
            None => None,
        }
    }

    /// Inserts a value under a key, replacing the value held there before.
    pub fn insert(&mut self, key: u128, value: V)
        requires
            old(self).wf(),
        ensures
            final(self).wf(),
            final(self)@ == old(self)@.insert(key, value),
    {
        match self.find(key) {
            Some(i) => {
                proof {
                    lemma_id_map_update(self.spec_entries(), i as int, key, value);
                }
                self.entries.set(i, (key, value));
            },
            None => {
                let ghost old_entries = self.entries@;
                self.entries.push((key, value));
                proof {
                    assert(self.entries@.drop_last() == old_entries);
                    assert(id_keys(self.entries@) =~= id_keys(old_entries).push(key));
                    assert(id_keys(self.entries@).no_duplicates()) by {
                        assert forall|a: int, b: int|
                            0 <= a < id_keys(self.entries@).len() && 0 <= b < id_keys(
                                self.entries@,
                            ).len() && a != b implies id_keys(self.entries@)[a] != id_keys(
                            self.entries@,
                        )[b] by {
                            if a < old_entries.len() && b < old_entries.len() {
                            } else if a < old_entries.len() {
                                assert(id_keys(old_entries)[a] == id_keys(self.entries@)[a]);
                            } else {
                                assert(id_keys(old_entries)[b] == id_keys(self.entries@)[b]);
                            }
                        }
                    }
                }
            },
        }
    }

    /// Removes the entry under a key and hands back its value.
    pub fn remove(&mut self, key: u128) -> (r: Option<V>)
        requires
            old(self).wf(),
        ensures
            final(self).wf(),
            final(self)@ == old(self)@.remove(key),
            r is Some == old(self)@.dom().contains(key),
            r matches Some(v) ==> v == old(self)@[key],
    {
        proof {
            lemma_id_map_dom(self.spec_entries());
        }
        match self.find(key) {
            Some(i) => {
                proof {
                    lemma_id_map_index(self.spec_entries(), i as int);
                    lemma_id_map_remove(self.spec_entries(), i as int);
                }
                let (_, v) = self.entries.remove(i);
                Some(v)
            },
            None => {
                proof {
                    assert(self@.remove(key) =~= self@);
                }
                None
            },
        }
    }

    /// The keys, in the order in which the entries are kept.
    pub fn keys(&self) -> (ks: Vec<u128>)
        ensures
            ks@.to_set() == self@.dom(),
            self.wf() ==> ks@.no_duplicates(),
    {
        let mut ks: Vec<u128> = Vec::new();
        let mut i: usize = 0;
        while i < self.entries.len()
            invariant
                i <= self.entries@.len(),
                ks@ == id_keys(self.spec_entries()).take(i as int),
            decreases self.entries@.len() - i,
        {
            ks.push(self.entries[i].0);
            proof {
                assert(id_keys(self.spec_entries()).take(i + 1) =~= id_keys(self.spec_entries()).take(i as int).push(self.entries@[i as int].0));
            }
            i = i + 1;
        }
        proof {
            assert(id_keys(self.spec_entries()).take(i as int) =~= id_keys(self.spec_entries()));
            lemma_id_map_dom(self.spec_entries());
        }
        ks
    }
}


} // verus!
