use s3_undelete::listing::{ListingPage, VersionEntry};
use s3_undelete::pass::{Action, Event, Pass, PassKind};
use s3_undelete::report::{Report, RestoreOutcome, VerificationFinding};

fn entry(key: &str, version_id: &str, is_latest: bool, is_delete_marker: bool) -> VersionEntry {
    VersionEntry {
        key: key.to_string(),
        version_id: version_id.to_string(),
        is_latest,
        is_delete_marker,
    }
}

fn marker(key: &str, version_id: &str) -> VersionEntry {
    entry(key, version_id, true, true)
}

fn truncated(entries: Vec<VersionEntry>, next_key_marker: &str) -> ListingPage {
    ListingPage { entries, is_truncated: true, next_key_marker: next_key_marker.to_string() }
}

fn last(entries: Vec<VersionEntry>) -> ListingPage {
    ListingPage { entries, is_truncated: false, next_key_marker: String::new() }
}

fn restored(key: &str, version_id: &str) -> Report {
    Report::Restore(RestoreOutcome {
        key: key.to_string(),
        version_id: version_id.to_string(),
        restored: true,
    })
}

fn not_restored(key: &str, version_id: &str) -> Report {
    Report::Restore(RestoreOutcome {
        key: key.to_string(),
        version_id: version_id.to_string(),
        restored: false,
    })
}

fn found(key: &str) -> Report {
    Report::Finding(VerificationFinding { key: key.to_string() })
}

/// A store that serves a fixed listing and records every call. A page of
/// `None` is a listing call that fails.
struct FakeStore {
    pages: Vec<Option<ListingPage>>,
    failing_delete: Option<String>,
    list_calls: Vec<(String, Option<String>, Option<String>)>,
    delete_calls: Vec<(String, String, String)>,
}

impl FakeStore {
    fn serving(pages: Vec<Option<ListingPage>>) -> FakeStore {
        let mut pages = pages;
        pages.reverse();
        FakeStore { pages, failing_delete: None, list_calls: Vec::new(), delete_calls: Vec::new() }
    }

    fn list(&mut self, bucket: String, prefix: Option<String>, key_marker: Option<String>) -> Event {
        self.list_calls.push((bucket, prefix, key_marker));
        match self.pages.pop() {
            Some(Some(page)) => Event::Page(page),
            _ => Event::ListFailed,
        }
    }

    fn delete(&mut self, bucket: String, key: String, version_id: String) -> Event {
        let fails = self.failing_delete.as_deref() == Some(key.as_str());
        self.delete_calls.push((bucket, key, version_id));
        if fails {
            Event::DeleteFailed
        } else {
            Event::Deleted
        }
    }

    fn cursors(&self) -> Vec<Option<String>> {
        self.list_calls.iter().map(|call| call.2.clone()).collect()
    }

    fn deleted(&self) -> Vec<(String, String)> {
        self.delete_calls.iter().map(|call| (call.1.clone(), call.2.clone())).collect()
    }
}

struct Walk {
    pass: Pass,
    reports: Vec<Report>,
    finished: bool,
}

fn walk(kind: PassKind, prefix: Option<&str>, store: &mut FakeStore) -> Walk {
    let (mut pass, mut step) =
        Pass::begin(kind, "bucket".to_string(), prefix.map(|p| p.to_string()));
    let mut reports = Vec::new();
    loop {
        reports.append(&mut step.reports);
        let event = match step.action {
            Action::List { bucket, prefix, key_marker } => store.list(bucket, prefix, key_marker),
            Action::Delete { bucket, key, version_id } => store.delete(bucket, key, version_id),
            Action::Finish => return Walk { pass, reports, finished: true },
            Action::Abort => return Walk { pass, reports, finished: false },
        };
        let next = pass.step(event);
        pass = next.0;
        step = next.1;
    }
}

fn pair(key: &str, version_id: &str) -> (String, String) {
    (key.to_string(), version_id.to_string())
}

#[test]
fn the_first_request_lists_without_a_cursor() {
    let (pass, step) = Pass::begin(PassKind::Restore, "bucket".to_string(), Some("p/".to_string()));
    assert!(step.reports.is_empty());
    assert_eq!(
        step.action,
        Action::List {
            bucket: "bucket".to_string(),
            prefix: Some("p/".to_string()),
            key_marker: None,
        }
    );
    assert_eq!(pass.kind(), PassKind::Restore);
    assert_eq!(pass.bucket(), "bucket");
    assert_eq!(pass.prefix(), &Some("p/".to_string()));
    assert!(!pass.is_done());
    assert!(!pass.has_failed());
}

#[test]
fn a_pass_over_the_whole_bucket_lists_without_a_prefix() {
    let (_, step) = Pass::begin(PassKind::Verify, "bucket".to_string(), None);
    assert_eq!(
        step.action,
        Action::List { bucket: "bucket".to_string(), prefix: None, key_marker: None }
    );
}

#[test]
fn restore_visits_every_page_once_and_in_order() {
    let mut store = FakeStore::serving(vec![
        Some(truncated(vec![marker("a", "a2"), entry("a", "a1", false, false)], "a")),
        Some(truncated(vec![entry("b", "b1", true, false)], "b")),
        Some(truncated(vec![marker("c", "c3"), marker("d", "d9")], "d")),
        Some(last(vec![entry("e", "e2", false, true), marker("f", "f1")])),
    ]);
    let done = walk(PassKind::Restore, Some("p/"), &mut store);
    assert!(done.finished);
    assert!(done.pass.is_done());
    assert_eq!(
        store.cursors(),
        vec![None, Some("a".to_string()), Some("b".to_string()), Some("d".to_string())]
    );
    for call in &store.list_calls {
        assert_eq!(call.0, "bucket");
        assert_eq!(call.1, Some("p/".to_string()));
    }
    assert_eq!(
        store.deleted(),
        vec![pair("a", "a2"), pair("c", "c3"), pair("d", "d9"), pair("f", "f1")]
    );
    for call in &store.delete_calls {
        assert_eq!(call.0, "bucket");
    }
    assert_eq!(
        done.reports,
        vec![restored("a", "a2"), restored("c", "c3"), restored("d", "d9"), restored("f", "f1")]
    );
    assert!(store.pages.is_empty());
}

#[test]
fn verification_visits_every_page_once_and_in_order() {
    let mut store = FakeStore::serving(vec![
        Some(truncated(vec![marker("a", "a2"), entry("a", "a1", false, false)], "a")),
        Some(truncated(Vec::new(), "b")),
        Some(last(vec![marker("c", "c3"), marker("d", "d9")])),
    ]);
    let done = walk(PassKind::Verify, None, &mut store);
    assert!(done.finished);
    assert!(done.pass.is_done());
    assert_eq!(store.cursors(), vec![None, Some("a".to_string()), Some("b".to_string())]);
    assert!(store.delete_calls.is_empty());
    assert_eq!(done.reports, vec![found("a"), found("c"), found("d")]);
}

#[test]
fn the_last_page_is_processed_before_the_pass_ends() {
    let mut store = FakeStore::serving(vec![Some(last(vec![marker("only", "v1")]))]);
    let done = walk(PassKind::Restore, None, &mut store);
    assert!(done.finished);
    assert_eq!(store.cursors(), vec![None]);
    assert_eq!(store.deleted(), vec![pair("only", "v1")]);
    assert_eq!(done.reports, vec![restored("only", "v1")]);
}

#[test]
fn an_empty_listing_ends_the_pass_at_once() {
    let mut store = FakeStore::serving(vec![Some(last(Vec::new()))]);
    let done = walk(PassKind::Restore, None, &mut store);
    assert!(done.finished);
    assert!(done.reports.is_empty());
    assert!(store.delete_calls.is_empty());
    assert_eq!(store.list_calls.len(), 1);
}

#[test]
fn restore_deletes_exactly_the_latest_delete_marker() {
    let mut store = FakeStore::serving(vec![Some(last(vec![
        entry("k1", "v1", true, true),
        entry("k2", "v2", true, false),
        entry("k3", "v3", false, true),
    ]))]);
    let done = walk(PassKind::Restore, None, &mut store);
    assert!(done.finished);
    assert_eq!(
        store.delete_calls,
        vec![("bucket".to_string(), "k1".to_string(), "v1".to_string())]
    );
    assert_eq!(done.reports, vec![restored("k1", "v1")]);
}

#[test]
fn verification_reports_a_residual_marker_and_changes_nothing() {
    let mut store = FakeStore::serving(vec![Some(last(vec![
        entry("k1", "v0", true, false),
        entry("k4", "v7", true, true),
    ]))]);
    let done = walk(PassKind::Verify, None, &mut store);
    assert!(done.finished);
    assert_eq!(done.reports, vec![found("k4")]);
    assert!(store.delete_calls.is_empty());
}

#[test]
fn verification_twice_gives_the_same_findings() {
    let listing = || {
        vec![
            Some(truncated(vec![marker("a", "1"), entry("b", "2", true, false)], "b")),
            Some(last(vec![marker("c", "3")])),
        ]
    };
    let mut first_store = FakeStore::serving(listing());
    let first = walk(PassKind::Verify, Some("x"), &mut first_store);
    let mut second_store = FakeStore::serving(listing());
    let second = walk(PassKind::Verify, Some("x"), &mut second_store);
    assert_eq!(first.reports, vec![found("a"), found("c")]);
    assert_eq!(first.reports, second.reports);
    assert_eq!(first_store.list_calls, second_store.list_calls);
    assert!(first_store.delete_calls.is_empty());
    assert!(second_store.delete_calls.is_empty());
}

#[test]
fn a_failed_second_listing_aborts_the_pass() {
    let mut store = FakeStore::serving(vec![
        Some(truncated(vec![marker("a", "a1"), marker("b", "b1")], "b")),
        None,
        Some(last(vec![marker("c", "c1")])),
    ]);
    let stopped = walk(PassKind::Restore, None, &mut store);
    assert!(!stopped.finished);
    assert!(stopped.pass.has_failed());
    assert!(!stopped.pass.is_done());
    assert_eq!(store.cursors(), vec![None, Some("b".to_string())]);
    assert_eq!(store.deleted(), vec![pair("a", "a1"), pair("b", "b1")]);
    assert_eq!(stopped.reports, vec![restored("a", "a1"), restored("b", "b1")]);
    assert_eq!(store.pages.len(), 1);
}

#[test]
fn a_failed_first_listing_aborts_the_pass() {
    let mut store = FakeStore::serving(vec![None]);
    let stopped = walk(PassKind::Verify, None, &mut store);
    assert!(!stopped.finished);
    assert!(stopped.pass.has_failed());
    assert!(stopped.reports.is_empty());
    assert_eq!(store.list_calls.len(), 1);
}

#[test]
fn a_failed_delete_aborts_the_rest_of_the_traversal() {
    let mut store = FakeStore::serving(vec![
        Some(truncated(vec![marker("a", "a1"), marker("b", "b1"), marker("c", "c1")], "c")),
        Some(last(vec![marker("d", "d1")])),
    ]);
    store.failing_delete = Some("b".to_string());
    let stopped = walk(PassKind::Restore, None, &mut store);
    assert!(!stopped.finished);
    assert!(stopped.pass.has_failed());
    assert_eq!(store.deleted(), vec![pair("a", "a1"), pair("b", "b1")]);
    assert_eq!(store.cursors(), vec![None]);
    assert_eq!(stopped.reports, vec![restored("a", "a1"), not_restored("b", "b1")]);
}

#[test]
fn one_delete_is_out_at_a_time() {
    let (pass, _) = Pass::begin(PassKind::Restore, "bucket".to_string(), None);
    let (pass, step) =
        pass.step(Event::Page(last(vec![marker("a", "a1"), marker("b", "b1")])));
    assert!(step.reports.is_empty());
    assert_eq!(
        step.action,
        Action::Delete {
            bucket: "bucket".to_string(),
            key: "a".to_string(),
            version_id: "a1".to_string(),
        }
    );
    let (pass, step) = pass.step(Event::Deleted);
    assert_eq!(step.reports, vec![restored("a", "a1")]);
    assert_eq!(
        step.action,
        Action::Delete {
            bucket: "bucket".to_string(),
            key: "b".to_string(),
            version_id: "b1".to_string(),
        }
    );
    let (pass, step) = pass.step(Event::Deleted);
    assert_eq!(step.reports, vec![restored("b", "b1")]);
    assert_eq!(step.action, Action::Finish);
    assert!(pass.is_done());
}

#[test]
fn a_truncated_page_without_a_marker_resumes_with_an_empty_cursor() {
    let page = ListingPage::from_listing(Vec::new(), Some(true), None);
    let (pass, _) = Pass::begin(PassKind::Verify, "bucket".to_string(), None);
    let (pass, step) = pass.step(Event::Page(page));
    assert_eq!(
        step.action,
        Action::List {
            bucket: "bucket".to_string(),
            prefix: None,
            key_marker: Some(String::new()),
        }
    );
    assert!(!pass.is_done());
}

#[test]
fn the_marker_of_the_last_page_is_not_followed() {
    let page = ListingPage {
        entries: Vec::new(),
        is_truncated: false,
        next_key_marker: "stale".to_string(),
    };
    let (pass, _) = Pass::begin(PassKind::Restore, "bucket".to_string(), None);
    let (pass, step) = pass.step(Event::Page(page));
    assert_eq!(step.action, Action::Finish);
    assert!(pass.is_done());
}

#[test]
fn a_marker_without_key_and_version_is_deleted_by_empty_strings() {
    let nameless = VersionEntry::from_listing(None, None, Some(true), true);
    let mut store = FakeStore::serving(vec![Some(last(vec![nameless]))]);
    let done = walk(PassKind::Restore, None, &mut store);
    assert!(done.finished);
    assert_eq!(store.deleted(), vec![pair("", "")]);
    assert_eq!(done.reports, vec![restored("", "")]);
}

#[test]
fn an_event_that_answers_no_request_aborts_the_pass() {
    let (pass, _) = Pass::begin(PassKind::Restore, "bucket".to_string(), None);
    let (pass, step) = pass.step(Event::Deleted);
    assert_eq!(step.action, Action::Abort);
    assert!(step.reports.is_empty());
    assert!(pass.has_failed());

    let (pass, _) = Pass::begin(PassKind::Restore, "bucket".to_string(), None);
    let (pass, _) = pass.step(Event::Page(last(vec![marker("a", "a1")])));
    let (pass, step) = pass.step(Event::Page(last(Vec::new())));
    assert_eq!(step.action, Action::Abort);
    assert!(step.reports.is_empty());
    assert!(pass.has_failed());
}

#[test]
fn a_complete_pass_stays_complete() {
    let (pass, _) = Pass::begin(PassKind::Verify, "bucket".to_string(), None);
    let (pass, _) = pass.step(Event::Page(last(Vec::new())));
    assert!(pass.is_done());
    let (pass, step) = pass.step(Event::Page(last(vec![marker("a", "a1")])));
    assert_eq!(step.action, Action::Finish);
    assert!(step.reports.is_empty());
    let (pass, step) = pass.step(Event::ListFailed);
    assert_eq!(step.action, Action::Finish);
    assert!(pass.is_done());
    assert!(!pass.has_failed());
}

#[test]
fn a_failed_pass_stays_failed() {
    let (pass, _) = Pass::begin(PassKind::Restore, "bucket".to_string(), None);
    let (pass, _) = pass.step(Event::ListFailed);
    assert!(pass.has_failed());
    let (pass, step) = pass.step(Event::Page(last(vec![marker("a", "a1")])));
    assert_eq!(step.action, Action::Abort);
    assert!(step.reports.is_empty());
    let (pass, step) = pass.step(Event::Deleted);
    assert_eq!(step.action, Action::Abort);
    assert!(pass.has_failed());
}

#[test]
fn no_key_is_restored_twice() {
    let mut store = FakeStore::serving(vec![
        Some(truncated(
            vec![marker("a", "a3"), entry("a", "a2", false, true), entry("a", "a1", false, false)],
            "a",
        )),
        Some(last(vec![entry("a", "a0", false, true), marker("b", "b2")])),
    ]);
    let done = walk(PassKind::Restore, None, &mut store);
    assert!(done.finished);
    assert_eq!(store.deleted(), vec![pair("a", "a3"), pair("b", "b2")]);
    let mut keys: Vec<&str> = Vec::new();
    for report in &done.reports {
        match report {
            Report::Restore(outcome) => keys.push(outcome.key.as_str()),
            Report::Finding(_) => panic!("a restore pass reported a finding"),
        }
    }
    assert_eq!(keys, vec!["a", "b"]);
}
