use s3_undelete::listing::{ListingPage, VersionEntry};
use s3_undelete::scanner::filter_latest_delete_markers;

fn entry(key: &str, version_id: &str, is_latest: bool, is_delete_marker: bool) -> VersionEntry {
    VersionEntry {
        key: key.to_string(),
        version_id: version_id.to_string(),
        is_latest,
        is_delete_marker,
    }
}

fn page(entries: Vec<VersionEntry>) -> ListingPage {
    ListingPage { entries, is_truncated: false, next_key_marker: String::new() }
}

#[test]
fn keeps_only_entries_with_both_flags() {
    let listed = page(vec![
        entry("a", "1", true, true),
        entry("b", "2", true, false),
        entry("c", "3", false, true),
        entry("d", "4", false, false),
    ]);
    let markers = filter_latest_delete_markers(&listed);
    assert_eq!(markers, vec![entry("a", "1", true, true)]);
}

#[test]
fn keeps_the_order_of_the_page() {
    let listed = page(vec![
        entry("z", "9", true, true),
        entry("m", "5", false, true),
        entry("a", "1", true, true),
        entry("k", "3", true, true),
    ]);
    let markers = filter_latest_delete_markers(&listed);
    assert_eq!(
        markers,
        vec![entry("z", "9", true, true), entry("a", "1", true, true), entry("k", "3", true, true)]
    );
}

#[test]
fn an_empty_page_has_no_markers() {
    assert!(filter_latest_delete_markers(&page(Vec::new())).is_empty());
}

#[test]
fn a_page_without_markers_gives_an_empty_result() {
    let listed = page(vec![entry("a", "1", true, false), entry("a", "0", false, true)]);
    assert!(filter_latest_delete_markers(&listed).is_empty());
}

#[test]
fn the_page_is_left_as_it_was() {
    let listed = page(vec![entry("a", "1", true, true), entry("b", "2", true, false)]);
    let _ = filter_latest_delete_markers(&listed);
    assert_eq!(listed.entries.len(), 2);
    assert_eq!(listed.entries[0], entry("a", "1", true, true));
    assert_eq!(listed.entries[1], entry("b", "2", true, false));
}
