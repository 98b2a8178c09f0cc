//! Finds the rows that stand for a deleted object.

use crate::listing::{ListingPage, VersionEntry, VersionEntryView};
use vstd::prelude::*;

verus! {

/// A row stands for a deleted object when it is a delete marker and the latest
/// version of its key.
pub open spec fn is_latest_delete_marker(entry: VersionEntryView) -> bool {
    entry.is_delete_marker && entry.is_latest
}

/// The rows of `entries` that are latest delete markers, in their order.
pub open spec fn latest_delete_markers(entries: Seq<VersionEntryView>) -> Seq<VersionEntryView> {
    entries.filter(|entry: VersionEntryView| is_latest_delete_marker(entry))
}

/// Returns the rows of `page` that are delete markers and the latest version
/// of their key, in the order of the page.
pub fn filter_latest_delete_markers(page: &ListingPage) -> (markers: Vec<VersionEntry>)
    ensures
        markers.deep_view() == latest_delete_markers(page@.entries),
{
    let ghost rows = page@.entries;
    let mut markers: Vec<VersionEntry> = Vec::new();
    let mut i: usize = 0;
    assert(rows.take(0) =~= Seq::empty());
    proof {
        reveal(Seq::filter);
    }
    while i < page.entries.len()
        invariant
            i <= page.entries.len(),
            rows == page.entries.deep_view(),
            markers.deep_view() == latest_delete_markers(rows.take(i as int)),
        decreases page.entries.len() - i,
    {
        let entry = &page.entries[i];
        let ghost before = markers.deep_view();
        proof {
            assert(rows.take(i + 1) =~= rows.take(i as int).push(entry@));
            rows.take(i as int).lemma_filter_push(
                entry@,
                |e: VersionEntryView| is_latest_delete_marker(e),
            );
        }
        if entry.is_delete_marker && entry.is_latest {
            markers.push(entry.clone());
            assert(markers.deep_view() =~= before.push(entry@));
        }
        i += 1;
    }
    assert(rows.take(i as int) =~= rows);
    markers
}

} // verus!
