//! Collections of client numbers.

use std::collections::{BTreeMap, HashSet};
use vstd::prelude::*;
use vstd::std_specs::btree::{increasing_seq, spec_keys_iter};
use vstd::std_specs::cmp::OrdSpec;
use vstd::std_specs::hash::spec_hash_keys_iter;
use vstd::std_specs::iter::IteratorSpec;

verus! {

/// Whether the numbers come in strictly ascending order.
pub open spec fn rising(ids: Seq<u64>) -> bool {
    forall|i: int, j: int| 0 <= i < j < ids.len() ==> #[trigger] ids[i] < #[trigger] ids[j]
}

/// The numbers of a set, each once, in some order.
pub fn list_ids(set: &HashSet<u64>) -> (r: Vec<u64>)
    ensures
        r@.no_duplicates(),
        r@.to_set() == set@,
{
    let mut out: Vec<u64> = Vec::new();
    for id in it: set.iter()
        invariant
            it.seq() == spec_hash_keys_iter(set).remaining(),
            out@ == it.seq().unref().take(it.index() as int),
    {
        out.push(*id);
        assert(out@ =~= it.seq().unref().take(it.index() + 1));
    }
    assert(out@ =~= spec_hash_keys_iter(set).remaining().unref());
    out
}

proof fn lemma_rising(ids: Seq<&u64>)
    requires
        increasing_seq(ids),
    ensures
        rising(ids.unref()),
{
    broadcast use vstd::laws_cmp::group_laws_cmp;

    assert forall|i: int, j: int| 0 <= i < j < ids.len() implies #[trigger] ids.unref()[i]
        < #[trigger] ids.unref()[j] by {
        assert(OrdSpec::cmp_spec(&ids[i], &ids[j]) is Less);
    }
}

/// The keys of a map in ascending order.
pub fn list_keys<V>(map: &BTreeMap<u64, V>) -> (r: Vec<u64>)
    ensures
        rising(r@),
        r@.to_set() == map@.dom(),
{
    let mut out: Vec<u64> = Vec::new();
    for id in it: map.keys()
        invariant
            it.seq() == spec_keys_iter(map).remaining(),
            out@ == it.seq().unref().take(it.index() as int),
    {
        out.push(*id);
        assert(out@ =~= it.seq().unref().take(it.index() + 1));
    }
    let ghost keys = spec_keys_iter(map).remaining();
    assert(out@ =~= keys.unref());
    proof {
        lemma_rising(keys);
    }
    out
}

} // verus!
