//! The server registry: which identifiers are monitored, and under which name.

use crate::id::{parse_uuid, uuid_parse, ServerId};
use crate::keys::keys_of;
use std::collections::HashMap;
use vstd::prelude::*;
use vstd::std_specs::hash::*;

verus! {

broadcast use vstd::std_specs::hash::group_hash_axioms;

/// One server of the configured roster, as it was read: either field may be
/// missing, and the identifier is still text.
pub struct RosterEntry {
    pub name: Option<String>,
    pub id: Option<String>,
}

/// Why a roster cannot be loaded.  `index` is the place of the offending entry
/// in the roster.
#[derive(Clone, Copy, PartialEq, Eq, Structural, Debug)]
pub enum ConfigError {
    /// The entry has no name.
    MissingName { index: usize },
    /// The entry has no identifier.
    MissingId { index: usize },
    /// The entry's identifier cannot be parsed.
    MalformedId { index: usize },
}

/// What is wrong with the entry at `index`, if anything.  The name is looked at
/// first, then the identifier.
pub open spec fn fault(entry: RosterEntry, index: int) -> Option<ConfigError> {
    if entry.name is None {
        Some(ConfigError::MissingName { index: index as usize })
    } else if entry.id is None {
        Some(ConfigError::MissingId { index: index as usize })
    } else if uuid_parse(entry.id->0@) is None {
        Some(ConfigError::MalformedId { index: index as usize })
    } else {
        None
    }
}

/// The identifier of an entry without fault.
pub open spec fn entry_id(entry: RosterEntry) -> ServerId {
    uuid_parse(entry.id->0@)->0
}

/// The name of an entry without fault.
pub open spec fn entry_name(entry: RosterEntry) -> Seq<char> {
    entry.name->0@
}

/// The registry that a roster without faults describes.  Where two entries
/// share an identifier, the later one's name stands.
pub open spec fn roster_map(roster: Seq<RosterEntry>) -> Map<ServerId, Seq<char>>
    decreases roster.len(),
{
    if roster.len() == 0 {
        Map::empty()
    } else {
        roster_map(roster.drop_last()).insert(entry_id(roster.last()), entry_name(roster.last()))
    }
}

/// Display name of every monitored server.  Filled once at startup and only
/// read afterwards.
pub struct Registry {
    names: HashMap<ServerId, String>,
}

impl View for Registry {
    type V = Map<ServerId, Seq<char>>;

    closed spec fn view(&self) -> Map<ServerId, Seq<char>> {
        Map::new(|id: ServerId| self.names@.contains_key(id), |id: ServerId| self.names@[id]@)
    }
}

impl Registry {
    /// A registry without servers.
    pub fn new() -> (registry: Registry)
        ensures
            registry@ == Map::<ServerId, Seq<char>>::empty(),
    {
        let registry = Registry { names: HashMap::new() };
        assert(registry@ =~= Map::<ServerId, Seq<char>>::empty());
        registry
    }

    /// Builds the registry from the configured roster.  Fails on the first
    /// entry, in roster order, that lacks a name or an identifier or whose
    /// identifier cannot be parsed; succeeds on every other roster.
    pub fn load(roster: &Vec<RosterEntry>) -> (r: Result<Registry, ConfigError>)
        ensures
            match r {
                Ok(registry) => {
                    &&& forall|i: int| 0 <= i < roster@.len() ==> fault(roster@[i], i) is None
                    &&& registry@ == roster_map(roster@)
                },
                Err(e) => exists|i: int|
                    {
                        &&& 0 <= i < roster@.len()
                        &&& fault(roster@[i], i) == Some(e)
                        &&& forall|j: int| 0 <= j < i ==> fault(roster@[j], j) is None
                    },
            },
    {
        let mut registry = Registry::new();
        let mut i: usize = 0;
        while i < roster.len()
            invariant
                i <= roster@.len(),
                forall|j: int| 0 <= j < i ==> fault(roster@[j], j) is None,
                registry@ == roster_map(roster@.take(i as int)),
            decreases roster.len() - i,
        {
            let entry = &roster[i];
            let name = match &entry.name {
                Some(name) => name.clone(),
                None => {
                    return Err(ConfigError::MissingName { index: i });
                },
            };
            let id = match &entry.id {
                Some(text) => match parse_uuid(text.as_str()) {
                    Some(id) => id,
                    None => {
                        return Err(ConfigError::MalformedId { index: i });
                    },
                },
                None => {
                    return Err(ConfigError::MissingId { index: i });
                },
            };
            registry.insert(id, name);
            proof {
                let next = roster@.take(i + 1);
                assert(next.drop_last() =~= roster@.take(i as int));
                assert(next.last() == roster@[i as int]);
            }
            i += 1;
        }
        assert(roster@.take(i as int) =~= roster@);
        Ok(registry)
    }

    /// Registers `id` under `name`.  An identifier that is registered already
    /// takes the new name.
    pub fn insert(&mut self, id: ServerId, name: String)
        ensures
            final(self)@ == old(self)@.insert(id, name@),
    {
        self.names.insert(id, name);
        assert(self@ =~= old(self)@.insert(id, name@));
    }

    /// Whether `id` is registered.
    pub fn contains(&self, id: ServerId) -> (r: bool)
        ensures
            r == self@.contains_key(id),
    {
        self.names.contains_key(&id)
    }

    /// The name of `id`, if `id` is registered.
    pub fn name_of(&self, id: ServerId) -> (r: Option<&String>)
        ensures
            r is Some == self@.contains_key(id),
            r matches Some(name) ==> name@ == self@[id],
    {
        self.names.get(&id)
    }

    /// Number of registered servers.
    pub fn len(&self) -> (n: usize)
        ensures
            n == self@.len(),
    {
        assert(self@.dom() =~= self.names@.dom());
        self.names.len()
    }

    /// The registered identifiers, each once, in no particular order.
    pub fn ids(&self) -> (ids: Vec<ServerId>)
        ensures
            ids@.no_duplicates(),
            ids@.to_set() == self@.dom(),
    {
        assert(self@.dom() =~= self.names@.dom());
        keys_of(&self.names)
    }
}

} // verus!
