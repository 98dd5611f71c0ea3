//! Sorting a directory listing with the standard library's stable sort.

use vstd::prelude::*;
use std::cmp::Ordering;
use crate::order::{name_order, names_sign};
use crate::treewalk::{entry_views, is_sorted, DirEntry};

verus! {

/// Compares two entries by their names.
pub fn compare_entries(a: &DirEntry, b: &DirEntry) -> (o: Ordering)
    ensures
        o is Less <==> name_order(a@.name, b@.name) < 0,
        o is Equal <==> name_order(a@.name, b@.name) == 0,
        o is Greater <==> name_order(a@.name, b@.name) > 0,
{
    let sign = names_sign(a.name.as_str(), b.name.as_str());
    if sign < 0 {
        Ordering::Less
    } else if sign > 0 {
        Ordering::Greater
    } else {
        Ordering::Equal
    }
}

/// `<[T]>::sort_by` with `compare_entries`: the same entries, in the order
/// of their names. The order of names is total, so the sort has nothing to
/// object to.
#[verifier::external_body]
pub(crate) fn sort_entries(entries: &mut Vec<DirEntry>)
    ensures
        entry_views(final(entries)@).to_multiset() == entry_views(old(entries)@).to_multiset(),
        is_sorted(entry_views(final(entries)@)),
{
    entries.sort_by(|a, b| compare_entries(a, b));
}

} // verus!
