//! What a pass has to tell about a key.

use crate::listing::{VersionEntry, VersionEntryView};
use vstd::prelude::*;

verus! {

/// A [`RestoreOutcome`] as a mathematical value.
pub struct RestoreOutcomeView {
    pub key: Seq<char>,
    pub version_id: Seq<char>,
    pub restored: bool,
}

/// The result of one attempt to remove a delete marker.
#[derive(Debug, PartialEq, Eq)]
pub struct RestoreOutcome {
    /// The object the marker stood for.
    pub key: String,
    /// The version id of the marker.
    pub version_id: String,
    /// Whether the store removed the marker.
    pub restored: bool,
}

impl View for RestoreOutcome {
    type V = RestoreOutcomeView;

    open spec fn view(&self) -> RestoreOutcomeView {
        RestoreOutcomeView {
            key: self.key@,
            version_id: self.version_id@,
            restored: self.restored,
        }
    }
}

impl DeepView for RestoreOutcome {
    type V = RestoreOutcomeView;

    open spec fn deep_view(&self) -> RestoreOutcomeView {
        self@
    }
}

/// The line that announces a restored object.
pub open spec fn restored_notice(key: Seq<char>) -> Seq<char> {
    "Restored object: "@ + key
}

impl RestoreOutcomeView {
    /// The outcome of an attempt on `marker`.
    pub open spec fn of(marker: VersionEntryView, restored: bool) -> RestoreOutcomeView {
        RestoreOutcomeView { key: marker.key, version_id: marker.version_id, restored }
    }

    /// The line to print: one for a restored object, none for a failed attempt.
    pub open spec fn notice(self) -> Option<Seq<char>> {
        if self.restored {
            Some(restored_notice(self.key))
        } else {
            None
        }
    }
}

impl RestoreOutcome {
    /// The outcome of an attempt to remove `marker`.
    pub fn of(marker: &VersionEntry, restored: bool) -> (outcome: RestoreOutcome)
        ensures
            outcome@ == RestoreOutcomeView::of(marker@, restored),
    {
        RestoreOutcome {
            key: marker.key.clone(),
            version_id: marker.version_id.clone(),
            restored,
        }
    }

    /// The line to print for this outcome, if it has one.
    pub fn notice(&self) -> (line: Option<String>)
        ensures
            line.deep_view() == self@.notice(),
    {
        if self.restored {
            Some(String::from_str("Restored object: ").concat(self.key.as_str()))
        } else {
            None
        }
    }
}

/// A [`VerificationFinding`] as a mathematical value.
pub struct VerificationFindingView {
    pub key: Seq<char>,
}

/// A key whose latest version is still a delete marker.
#[derive(Debug, PartialEq, Eq)]
pub struct VerificationFinding {
    /// The object that still reads as deleted.
    pub key: String,
}

impl View for VerificationFinding {
    type V = VerificationFindingView;

    open spec fn view(&self) -> VerificationFindingView {
        VerificationFindingView { key: self.key@ }
    }
}

impl DeepView for VerificationFinding {
    type V = VerificationFindingView;

    open spec fn deep_view(&self) -> VerificationFindingView {
        self@
    }
}

/// The line that names an object still marked as deleted.
pub open spec fn still_deleted_notice(key: Seq<char>) -> Seq<char> {
    "Object which delete maker is still the lastest version: "@ + key
}

impl VerificationFindingView {
    /// The finding for `marker`.
    pub open spec fn of(marker: VersionEntryView) -> VerificationFindingView {
        VerificationFindingView { key: marker.key }
    }

    /// The line to print.
    pub open spec fn notice(self) -> Seq<char> {
        still_deleted_notice(self.key)
    }
}

impl VerificationFinding {
    /// The finding for `marker`.
    pub fn of(marker: &VersionEntry) -> (finding: VerificationFinding)
        ensures
            finding@ == VerificationFindingView::of(marker@),
    {
        VerificationFinding { key: marker.key.clone() }
    }

    /// The line to print for this finding.
    pub fn notice(&self) -> (line: String)
        ensures
            line@ == self@.notice(),
    {
        String::from_str("Object which delete maker is still the lastest version: ").concat(
            self.key.as_str(),
        )
    }
}

/// A [`Report`] as a mathematical value.
pub enum ReportView {
    Restore(RestoreOutcomeView),
    Finding(VerificationFindingView),
}

impl ReportView {
    /// The line to print, if the report has one.
    pub open spec fn notice(self) -> Option<Seq<char>> {
        match self {
            ReportView::Restore(outcome) => outcome.notice(),
            ReportView::Finding(finding) => Some(finding.notice()),
        }
    }

    /// The key the report is about.
    pub open spec fn key(self) -> Seq<char> {
        match self {
            ReportView::Restore(outcome) => outcome.key,
            ReportView::Finding(finding) => finding.key,
        }
    }
}

/// What a pass reports about one key.
#[derive(Debug, PartialEq, Eq)]
pub enum Report {
    /// The restore pass tried to remove the key's delete marker.
    Restore(RestoreOutcome),
    /// The verification pass found the key still marked as deleted.
    Finding(VerificationFinding),
}

impl View for Report {
    type V = ReportView;

    open spec fn view(&self) -> ReportView {
        match self {
            Report::Restore(outcome) => ReportView::Restore(outcome@),
            Report::Finding(finding) => ReportView::Finding(finding@),
        }
    }
}

impl DeepView for Report {
    type V = ReportView;

    open spec fn deep_view(&self) -> ReportView {
        self@
    }
}

impl Report {
    /// The line to print for this report, if it has one.
    pub fn notice(&self) -> (line: Option<String>)
        ensures
            line.deep_view() == self@.notice(),
    {
        match self {
            Report::Restore(outcome) => outcome.notice(),
            Report::Finding(finding) => Some(finding.notice()),
        }
    }
}

} // verus!
