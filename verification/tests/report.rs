use s3_undelete::listing::{ListingPage, VersionEntry};
use s3_undelete::report::{Report, RestoreOutcome, VerificationFinding};

fn marker(key: &str, version_id: &str) -> VersionEntry {
    VersionEntry {
        key: key.to_string(),
        version_id: version_id.to_string(),
        is_latest: true,
        is_delete_marker: true,
    }
}

#[test]
fn a_restored_object_is_announced_by_its_key() {
    let outcome = RestoreOutcome::of(&marker("photos/cat.jpg", "v42"), true);
    assert_eq!(outcome.key, "photos/cat.jpg");
    assert_eq!(outcome.version_id, "v42");
    assert!(outcome.restored);
    assert_eq!(outcome.notice(), Some("Restored object: photos/cat.jpg".to_string()));
    assert_eq!(
        Report::Restore(outcome).notice(),
        Some("Restored object: photos/cat.jpg".to_string())
    );
}

#[test]
fn a_failed_restore_has_no_notice() {
    let outcome = RestoreOutcome::of(&marker("photos/cat.jpg", "v42"), false);
    assert!(!outcome.restored);
    assert_eq!(outcome.notice(), None);
    assert_eq!(Report::Restore(outcome).notice(), None);
}

#[test]
fn a_finding_names_the_key_that_is_still_deleted() {
    let finding = VerificationFinding::of(&marker("photos/dog.jpg", "v7"));
    assert_eq!(finding.key, "photos/dog.jpg");
    assert_eq!(
        finding.notice(),
        "Object which delete maker is still the lastest version: photos/dog.jpg"
    );
    assert_eq!(
        Report::Finding(finding).notice(),
        Some("Object which delete maker is still the lastest version: photos/dog.jpg".to_string())
    );
}

#[test]
fn a_notice_for_an_empty_key_ends_after_the_colon() {
    let outcome = RestoreOutcome::of(&marker("", ""), true);
    assert_eq!(outcome.notice(), Some("Restored object: ".to_string()));
}

#[test]
fn a_row_is_built_from_the_fields_of_a_listing() {
    let entry =
        VersionEntry::from_listing(Some("k".to_string()), Some("v".to_string()), Some(true), true);
    assert_eq!(entry, marker("k", "v"));
    let entry = VersionEntry::from_listing(Some("k".to_string()), Some("v".to_string()), Some(false), false);
    assert_eq!(
        entry,
        VersionEntry {
            key: "k".to_string(),
            version_id: "v".to_string(),
            is_latest: false,
            is_delete_marker: false,
        }
    );
}

#[test]
fn missing_fields_of_a_row_are_read_as_empty() {
    let entry = VersionEntry::from_listing(None, None, None, true);
    assert_eq!(
        entry,
        VersionEntry {
            key: String::new(),
            version_id: String::new(),
            is_latest: false,
            is_delete_marker: true,
        }
    );
}

#[test]
fn a_copy_of_a_row_equals_the_row() {
    let entry = marker("k", "v");
    assert_eq!(entry.clone(), entry);
}

#[test]
fn a_page_is_built_from_the_fields_of_a_listing() {
    let page = ListingPage::from_listing(vec![marker("k", "v")], Some(true), Some("k".to_string()));
    assert_eq!(page.entries, vec![marker("k", "v")]);
    assert!(page.is_truncated);
    assert_eq!(page.next_key_marker, "k");
    assert_eq!(page.continuation(), Some("k".to_string()));
}

#[test]
fn a_page_without_flags_is_the_last_one() {
    let page = ListingPage::from_listing(Vec::new(), None, None);
    assert!(!page.is_truncated);
    assert_eq!(page.next_key_marker, "");
    assert_eq!(page.continuation(), None);
    let page = ListingPage::from_listing(Vec::new(), Some(false), Some("stale".to_string()));
    assert_eq!(page.continuation(), None);
}
