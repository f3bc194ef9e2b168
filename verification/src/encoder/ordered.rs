//! Walking the entries of a directory in the order in which they are written.

use std::collections::BTreeMap;
use vstd::prelude::*;
use vstd::std_specs::cmp::OrdSpec;
use vstd::std_specs::iter::IteratorSpec;
use crate::encoder::directory::lemma_ascending_is_tags_from;
use crate::encoder::directory::ordered_tags;
use crate::encoder::directory::strictly_ascending;
use crate::encoder::directory::DirectoryEntry;

verus! {

/// Stores `entry` under `tag`, in the place of any entry that was there.
pub fn insert_entry(ifd: &mut BTreeMap<u16, DirectoryEntry>, tag: u16, entry: DirectoryEntry)
    ensures
        final(ifd)@ == old(ifd)@.insert(tag, entry),
{
    broadcast use vstd::laws_cmp::group_laws_cmp;

    ifd.insert(tag, entry);
}

/// The entries of `ifd` with their tags, in ascending tag order.
pub fn ordered_entries<'a>(ifd: &'a BTreeMap<u16, DirectoryEntry>) -> (r: Vec<
    (u16, &'a DirectoryEntry),
>)
    ensures
        r@.len() == ordered_tags(ifd@.dom()).len(),
        forall|i: int|
            0 <= i < r@.len() ==> (#[trigger] r@[i]).0 == ordered_tags(ifd@.dom())[i]
                && ifd@.contains_key(r@[i].0) && *r@[i].1 == ifd@[r@[i].0],
{
    broadcast use vstd::std_specs::btree::group_btree_axioms;
    broadcast use vstd::laws_cmp::group_laws_cmp;

    let mut out: Vec<(u16, &'a DirectoryEntry)> = Vec::new();
    for kv in it: ifd.iter()
        invariant
            out@.len() == it.index(),
            forall|i: int|
                0 <= i < out@.len() ==> (#[trigger] out@[i]).0 == *it.seq()[i].0 && *out@[i].1
                    == *it.seq()[i].1,
            vstd::std_specs::btree::increasing_seq(
                it.seq().map_values(|kv: (&u16, &DirectoryEntry)| *kv.0),
            ),
            it.seq() == vstd::std_specs::btree::spec_btree_map_iter(ifd).remaining(),
    {
        out.push((*kv.0, kv.1));
    }
    proof {
        let walked = vstd::std_specs::btree::spec_btree_map_iter(ifd).remaining();
        let keys = walked.map_values(|kv: (&u16, &DirectoryEntry)| *kv.0);
        vstd::std_specs::btree::axiom_increasing_seq_meaning::<u16>(keys);
        assert forall|i: int, j: int| 0 <= i < j < keys.len() implies keys[i] < keys[j] by {
            assert(keys[i].cmp_spec(&keys[j]) is Less);
        }
        assert(strictly_ascending(keys));
        assert forall|i: int| 0 <= i < keys.len() implies ifd@.dom().contains(#[trigger] keys[i])
            && keys[i] >= 0 by {
            assert(ifd@.contains_key(*walked[i].0));
        }
        assert forall|t: u16| ifd@.dom().contains(t) && t >= 0 implies keys.contains(t) by {
            assert(ifd@.contains_key(t));
            assert(walked.contains((&t, &ifd@[t])));
            let k = choose|k: int| 0 <= k < walked.len() && walked[k] == (&t, &ifd@[t]);
            assert(keys[k] == t);
        }
        lemma_ascending_is_tags_from(keys, ifd@.dom(), 0);
        assert forall|i: int| 0 <= i < out@.len() implies (#[trigger] out@[i]).0 == ordered_tags(
            ifd@.dom(),
        )[i] && ifd@.contains_key(out@[i].0) && *out@[i].1 == ifd@[out@[i].0] by {
            assert(keys[i] == *walked[i].0);
            assert(ifd@.contains_key(*walked[i].0));
        }
    }
    out
}

} // verus!
