//! Ordered enumeration of the addresses of a sparse address space.

use std::collections::BTreeMap;
use vstd::prelude::*;
use vstd::std_specs::btree::*;
use vstd::std_specs::cmp::OrdSpec;
use vstd::std_specs::iter::IteratorSpec;
use vstd::laws_cmp::group_laws_cmp;

verus! {

/// The addresses of a map, in ascending order.
pub fn sorted_keys<V>(map: &BTreeMap<u16, V>) -> (keys: Vec<u16>)
    ensures
        forall|i: int, j: int| 0 <= i < j < keys.len() ==> keys[i] < keys[j],
        forall|a: u16| keys@.contains(a) <==> map@.contains_key(a),
{
    broadcast use group_btree_axioms, group_laws_cmp;
    let mut keys: Vec<u16> = Vec::new();
    for k in it: map.keys()
        invariant
            keys@.len() == it.index(),
            forall|j: int| 0 <= j < keys.len() ==> keys@[j] == *it.seq()[j],
            it.seq() == spec_keys_iter(map).remaining(),
    {
        keys.push(*k);
    }
    proof {
        let rem = spec_keys_iter(map).remaining();
        axiom_spec_keys_iter(map);
        axiom_increasing_seq_meaning::<&u16>(rem);
        assert(keys@ =~= rem.unref());
        assert forall|i: int, j: int| 0 <= i < j < keys.len() implies keys[i] < keys[j] by {
            assert((&rem[i]).cmp_spec(&rem[j]) is Less);
        }
        assert forall|a: u16| keys@.contains(a) <==> map@.contains_key(a) by {
            assert(keys@.to_set().contains(a) <==> keys@.contains(a));
        }
    }
    keys
}

} // verus!
