//! The ledger: remembers under which identifier a package or name was deployed.

use crate::model::Source;
use crate::names::NamedMap;
use vstd::prelude::*;

verus! {

/// A value that can be recorded in the ledger under a textual key.
pub trait LedgerKey {
    spec fn spec_key(&self) -> Seq<char>;

    fn get_key(&self) -> (key: String)
        ensures
            key@ == self.spec_key(),
    ;
}

impl LedgerKey for Source {
    /// A package is recorded as `name-version`.
    open spec fn spec_key(&self) -> Seq<char> {
        self.name@ + seq!['-'] + self.version@
    }

    fn get_key(&self) -> (key: String) {
        let mut key = self.name.clone();
        key.append("-");
        key.append(self.version.as_str());
        proof {
            reveal_strlit("-");
            assert(key@ =~= self.name@ + seq!['-'] + self.version@);
        }
        key
    }
}

impl LedgerKey for String {
    open spec fn spec_key(&self) -> Seq<char> {
        self@
    }

    fn get_key(&self) -> (key: String) {
        self.clone()
    }
}

/// Why a ledger request was refused.
#[derive(PartialEq, Eq, Structural, Clone, Copy, Debug)]
pub enum LedgerError {
    KeyNotFound,
}

/// Records a deployment identifier under a key.
pub struct CreateEntry<K>(pub K, pub String);

/// Asks for the identifier recorded under a key.
pub struct GetEntry<K>(pub K);

pub struct Ledger {
    id_map: NamedMap<String>,
}

/// What a lookup in the ledger gives back for a key.
pub open spec fn spec_lookup(entries: Map<Seq<char>, String>, key: Seq<char>) -> Result<String, LedgerError> {
    if entries.dom().contains(key) {
        Ok(entries[key])
    } else {
        Err(LedgerError::KeyNotFound)
    }
}

impl View for Ledger {
    type V = Map<Seq<char>, String>;

    closed spec fn view(&self) -> Map<Seq<char>, String> {
        self.id_map@
    }
}

impl Ledger {
    pub closed spec fn wf(&self) -> bool {
        self.id_map.wf()
    }

    pub fn new() -> (ledger: Self)
        ensures
            ledger.wf(),
            ledger@ == Map::<Seq<char>, String>::empty(),
    {
        Ledger { id_map: NamedMap::new() }
    }

    /// Records `id` under the key of the message; a key recorded before is overwritten.
    pub fn handle_create_entry<K: LedgerKey>(&mut self, msg: CreateEntry<K>) -> (r: Result<(), LedgerError>)
        requires
            old(self).wf(),
        ensures
            final(self).wf(),
            r is Ok,
            final(self)@ == old(self)@.insert(msg.0.spec_key(), msg.1),
    {
        let CreateEntry(key, id) = msg;
        let k = key.get_key();
        self.id_map.insert(k, id);
        Ok(())
    }

    /// The identifier recorded under the key of the message, or `KeyNotFound`.
    pub fn handle_get_entry<K: LedgerKey>(&self, msg: GetEntry<K>) -> (r: Result<String, LedgerError>)
        requires
            self.wf(),
        ensures
            r == spec_lookup(self@, msg.0.spec_key()),
    {
        let k = msg.0.get_key();
        match self.id_map.get(&k) {
            Some(id) => Ok(id.clone()),
            None => Err(LedgerError::KeyNotFound),
        }
    }
}

/// A lookup gives back the identifier recorded last under the same key, and a
/// recording leaves the answers for every other key as they were.
pub proof fn lemma_ledger_read_after_write(
    entries: Map<Seq<char>, String>,
    key: Seq<char>,
    id: String,
    other: Seq<char>,
)
    requires
        other != key,
    ensures
        spec_lookup(entries.insert(key, id), key) == Ok::<String, LedgerError>(id),
        spec_lookup(entries.insert(key, id), other) == spec_lookup(entries, other),
{
}

} // verus!
