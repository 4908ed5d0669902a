//! Walking the keys of a hash map.

use crate::id::ServerId;
use std::collections::HashMap;
use vstd::prelude::*;
use vstd::std_specs::hash::*;
use vstd::std_specs::iter::IteratorSpec;

verus! {

broadcast use vstd::std_specs::hash::group_hash_axioms;

/// The keys of `map`, each once, in the order in which the map hands them out.
pub fn keys_of<V>(map: &HashMap<ServerId, V>) -> (keys: Vec<ServerId>)
    ensures
        keys@.no_duplicates(),
        keys@.to_set() == map@.dom(),
{
    let mut keys: Vec<ServerId> = Vec::new();
    for key in it: map.keys()
        invariant
            keys@.len() == it.index(),
            forall|j: int| 0 <= j < keys@.len() ==> keys@[j] == *it.seq()[j],
            it.seq() == spec_keys_iter(map).remaining(),
    {
        keys.push(*key);
    }
    assert(keys@ =~= spec_keys_iter(map).remaining().unref());
    keys
}

} // verus!
