//! The keys of hash maps keyed by integers, as vectors.

use vstd::prelude::*;
use std::collections::{HashMap, HashSet};

verus! {

broadcast use vstd::std_specs::hash::group_hash_axioms;

/// The keys of `m`, each once, in the map's order.
pub fn map_keys<V>(m: &HashMap<u128, V>) -> (ks: Vec<u128>)
    ensures
        ks@.no_duplicates(),
        ks@.to_set() == m@.dom(),
{
    let mut ks: Vec<u128> = Vec::new();
    for k in it: m.keys()
        invariant
            ks@ == it.seq().take(it.index@ as int).map_values(|r: &u128| *r),
            forall|j: int| 0 <= j < it.index@ ==> ks@.contains(*#[trigger] it.seq()[j]),
            forall|i: int| 0 <= i < ks@.len() ==> m@.dom().contains(#[trigger] ks@[i]),
    {
        proof {
            assert(m@.dom().contains(*k));
        }
        ks.push(*k);
        proof {
            assert forall|j: int| 0 <= j < it.index@ + 1 implies ks@.contains(*#[trigger] it.seq()[j]) by {
                assert(ks@[j] == *it.seq()[j]);
            }
        }
    }
    assert(ks@.to_set() =~= m@.dom());
    ks
}

/// The items of `s`, each once, in the set's order.
pub fn set_items(s: &HashSet<u128>) -> (v: Vec<u128>)
    ensures
        v@.no_duplicates(),
        v@.to_set() == s@,
{
    let mut v: Vec<u128> = Vec::new();
    for k in it: s.iter()
        invariant
            v@ == it.seq().take(it.index@ as int).map_values(|r: &u128| *r),
            forall|j: int| 0 <= j < it.index@ ==> v@.contains(*#[trigger] it.seq()[j]),
            forall|i: int| 0 <= i < v@.len() ==> s@.contains(#[trigger] v@[i]),
    {
        proof {
            assert(s@.contains(*k));
        }
        v.push(*k);
        proof {
            assert forall|j: int| 0 <= j < it.index@ + 1 implies v@.contains(*#[trigger] it.seq()[j]) by {
                assert(v@[j] == *it.seq()[j]);
            }
        }
    }
    assert(v@.to_set() =~= s@);
    v
}

} // verus!
