//! One walk over the version listing of a bucket.
//!
//! A [`Pass`] decides; it performs nothing. It hands out the next request as
//! an [`Action`], the caller performs it against the store and hands back what
//! happened as an [`Event`]. The restore pass removes each latest delete marker
//! it meets, one request at a time; the verification pass only reports them.

use crate::listing::{ListingPage, ListingPageView, VersionEntry, VersionEntryView};
use crate::report::{
    Report, ReportView, RestoreOutcome, RestoreOutcomeView, VerificationFinding,
    VerificationFindingView,
};
use crate::scanner::{
    filter_latest_delete_markers, is_latest_delete_marker, latest_delete_markers,
};
use vstd::prelude::*;

verus! {

/// Which of the two walks a pass is.
#[derive(Clone, Copy, Debug, PartialEq, Eq)]
pub enum PassKind {
    /// Removes every latest delete marker.
    Restore,
    /// Reports every latest delete marker and changes nothing.
    Verify,
}

/// An [`Action`] as a mathematical value.
pub enum ActionView {
    List { bucket: Seq<char>, prefix: Option<Seq<char>>, key_marker: Option<Seq<char>> },
    Delete { bucket: Seq<char>, key: Seq<char>, version_id: Seq<char> },
    Finish,
    Abort,
}

/// The request a pass wants made next, or the end of the pass.
#[derive(Debug, PartialEq, Eq)]
pub enum Action {
    /// List one page of object versions. The first page of a pass is asked
    /// without a `key_marker`, every later one with the marker of the page
    /// before it.
    List { bucket: String, prefix: Option<String>, key_marker: Option<String> },
    /// Delete exactly this version of this key.
    Delete { bucket: String, key: String, version_id: String },
    /// The pass is complete: there is nothing more to request.
    Finish,
    /// The pass has failed: stop, and surface the error of the failed request.
    Abort,
}

impl View for Action {
    type V = ActionView;

    open spec fn view(&self) -> ActionView {
        match self {
            Action::List { bucket, prefix, key_marker } => ActionView::List {
                bucket: bucket@,
                prefix: prefix.deep_view(),
                key_marker: key_marker.deep_view(),
            },
            Action::Delete { bucket, key, version_id } => ActionView::Delete {
                bucket: bucket@,
                key: key@,
                version_id: version_id@,
            },
            Action::Finish => ActionView::Finish,
            Action::Abort => ActionView::Abort,
        }
    }
}

impl DeepView for Action {
    type V = ActionView;

    open spec fn deep_view(&self) -> ActionView {
        self@
    }
}

/// An [`Event`] as a mathematical value.
pub enum EventView {
    Page(ListingPageView),
    ListFailed,
    Deleted,
    DeleteFailed,
}

/// What the store answered to the last request.
#[derive(Debug, PartialEq, Eq)]
pub enum Event {
    /// The listing request returned this page.
    Page(ListingPage),
    /// The listing request failed.
    ListFailed,
    /// The delete request succeeded.
    Deleted,
    /// The delete request failed.
    DeleteFailed,
}

impl View for Event {
    type V = EventView;

    open spec fn view(&self) -> EventView {
        match self {
            Event::Page(page) => EventView::Page(page@),
            Event::ListFailed => EventView::ListFailed,
            Event::Deleted => EventView::Deleted,
            Event::DeleteFailed => EventView::DeleteFailed,
        }
    }
}

impl DeepView for Event {
    type V = EventView;

    open spec fn deep_view(&self) -> EventView {
        self@
    }
}

/// A [`Step`] as a mathematical value.
pub struct StepView {
    pub reports: Seq<ReportView>,
    pub action: ActionView,
}

/// What a pass answers to an event: the reports that the event gave rise to,
/// in order, and then the next request.
#[derive(Debug, PartialEq, Eq)]
pub struct Step {
    pub reports: Vec<Report>,
    pub action: Action,
}

impl View for Step {
    type V = StepView;

    open spec fn view(&self) -> StepView {
        StepView { reports: self.reports.deep_view(), action: self.action@ }
    }
}

impl DeepView for Step {
    type V = StepView;

    open spec fn deep_view(&self) -> StepView {
        self@
    }
}

/// Where a pass stands.
pub enum PhaseView {
    /// A listing request is out.
    Listing,
    /// The delete request for `markers[next]` is out. The markers before it
    /// are removed, those after it are still to come, and `resume` is the
    /// cursor of the page after this one, if there is one.
    Deleting { markers: Seq<VersionEntryView>, next: int, resume: Option<Seq<char>> },
    /// The last page has been processed.
    Done,
    /// A request failed, or an event came that answers no request.
    Failed,
}

/// A [`Pass`] as a mathematical value.
pub struct PassView {
    pub kind: PassKind,
    pub bucket: Seq<char>,
    pub prefix: Option<Seq<char>>,
    pub phase: PhaseView,
}

/// The report of the verification pass on `marker`.
pub open spec fn finding_report(marker: VersionEntryView) -> ReportView {
    ReportView::Finding(VerificationFindingView::of(marker))
}

/// The report of the restore pass on `marker`.
pub open spec fn restore_report(marker: VersionEntryView, restored: bool) -> ReportView {
    ReportView::Restore(RestoreOutcomeView::of(marker, restored))
}

/// The findings for `markers`, one for each, in order.
pub open spec fn findings(markers: Seq<VersionEntryView>) -> Seq<ReportView> {
    Seq::new(markers.len(), |i: int| finding_report(markers[i]))
}

impl PassView {
    /// A pass is well formed when only a restore pass ever waits for a delete
    /// request, and then for one of a marker it holds, and when it holds
    /// nothing but latest delete markers.
    pub open spec fn wf(self) -> bool {
        match self.phase {
            PhaseView::Deleting { markers, next, resume } => {
                &&& self.kind == PassKind::Restore
                &&& 0 <= next < markers.len()
                &&& forall|i: int|
                    0 <= i < markers.len() ==> is_latest_delete_marker(#[trigger] markers[i])
            },
            _ => true,
        }
    }

    /// This pass in another phase.
    pub open spec fn at(self, phase: PhaseView) -> PassView {
        PassView { kind: self.kind, bucket: self.bucket, prefix: self.prefix, phase }
    }

    /// The request for the page at `key_marker`.
    pub open spec fn list(self, key_marker: Option<Seq<char>>) -> ActionView {
        ActionView::List { bucket: self.bucket, prefix: self.prefix, key_marker }
    }

    /// The request that removes `marker`.
    pub open spec fn delete(self, marker: VersionEntryView) -> ActionView {
        ActionView::Delete {
            bucket: self.bucket,
            key: marker.key,
            version_id: marker.version_id,
        }
    }

    /// A new pass and its first request: the first page, asked without a
    /// cursor.
    pub open spec fn begin(kind: PassKind, bucket: Seq<char>, prefix: Option<Seq<char>>) -> (
        PassView,
        StepView,
    ) {
        let pass = PassView { kind, bucket, prefix, phase: PhaseView::Listing };
        (pass, StepView { reports: Seq::empty(), action: pass.list(None) })
    }

    /// What follows a page that is fully processed: the next page where
    /// `resume` holds its cursor, the end of the pass where it does not.
    pub open spec fn proceed(self, reports: Seq<ReportView>, resume: Option<Seq<char>>) -> (
        PassView,
        StepView,
    ) {
        match resume {
            Some(cursor) => (
                self.at(PhaseView::Listing),
                StepView { reports, action: self.list(Some(cursor)) },
            ),
            None => (self.at(PhaseView::Done), StepView { reports, action: ActionView::Finish }),
        }
    }

    /// The pass gives up.
    pub open spec fn fail(self, reports: Seq<ReportView>) -> (PassView, StepView) {
        (self.at(PhaseView::Failed), StepView { reports, action: ActionView::Abort })
    }

    /// What a listed page leads to. The restore pass starts on the first
    /// latest delete marker of the page; the verification pass reports them
    /// all at once. A page without such markers is done with at once.
    pub open spec fn on_page(self, page: ListingPageView) -> (PassView, StepView) {
        let markers = latest_delete_markers(page.entries);
        match self.kind {
            PassKind::Restore => if markers.len() > 0 {
                (
                    self.at(
                        PhaseView::Deleting { markers, next: 0, resume: page.continuation() },
                    ),
                    StepView { reports: Seq::empty(), action: self.delete(markers[0]) },
                )
            } else {
                self.proceed(Seq::empty(), page.continuation())
            },
            PassKind::Verify => self.proceed(findings(markers), page.continuation()),
        }
    }

    /// What a successful delete of `markers[next]` leads to: its outcome, and
    /// the next marker of the page or, after the last, what follows the page.
    pub open spec fn on_deleted(
        self,
        markers: Seq<VersionEntryView>,
        next: int,
        resume: Option<Seq<char>>,
    ) -> (PassView, StepView) {
        let reports = seq![restore_report(markers[next], true)];
        if next + 1 < markers.len() {
            (
                self.at(PhaseView::Deleting { markers, next: next + 1, resume }),
                StepView { reports, action: self.delete(markers[next + 1]) },
            )
        } else {
            self.proceed(reports, resume)
        }
    }

    /// The transition function of a pass: the state after `event` and the
    /// answer to it.
    ///
    /// A failed request ends the pass at once. So does an event that answers
    /// no request that is out. A pass that has ended stays as it is and
    /// repeats its last word.
    pub open spec fn step(self, event: EventView) -> (PassView, StepView) {
        match self.phase {
            PhaseView::Listing => match event {
                EventView::Page(page) => self.on_page(page),
                _ => self.fail(Seq::empty()),
            },
            PhaseView::Deleting { markers, next, resume } => match event {
                EventView::Deleted => self.on_deleted(markers, next, resume),
                EventView::DeleteFailed => self.fail(seq![restore_report(markers[next], false)]),
                _ => self.fail(Seq::empty()),
            },
            PhaseView::Done => (self, StepView { reports: Seq::empty(), action: ActionView::Finish }),
            PhaseView::Failed => (self, StepView { reports: Seq::empty(), action: ActionView::Abort }),
        }
    }
}

enum Phase {
    Listing,
    Deleting { markers: Vec<VersionEntry>, next: usize, resume: Option<String> },
    Done,
    Failed,
}

impl Phase {
    spec fn model(self) -> PhaseView {
        match self {
            Phase::Listing => PhaseView::Listing,
            Phase::Deleting { markers, next, resume } => PhaseView::Deleting {
                markers: markers.deep_view(),
                next: next as int,
                resume: resume.deep_view(),
            },
            Phase::Done => PhaseView::Done,
            Phase::Failed => PhaseView::Failed,
        }
    }
}

/// One walk over the version listing of a bucket, between two requests.
pub struct Pass {
    kind: PassKind,
    bucket: String,
    prefix: Option<String>,
    phase: Phase,
}

impl View for Pass {
    type V = PassView;

    closed spec fn view(&self) -> PassView {
        PassView {
            kind: self.kind,
            bucket: self.bucket@,
            prefix: self.prefix.deep_view(),
            phase: self.phase.model(),
        }
    }
}

/// Returns a copy of an optional string.
fn copy_of(text: &Option<String>) -> (copy: Option<String>)
    ensures
        copy == *text,
{
    match text {
        Some(t) => Some(t.clone()),
        None => None,
    }
}

/// Returns an empty list of reports.
fn no_reports() -> (reports: Vec<Report>)
    ensures
        reports.deep_view() == Seq::<ReportView>::empty(),
{
    let reports: Vec<Report> = Vec::new();
    assert(reports.deep_view() =~= Seq::empty());
    reports
}

/// Returns the findings for `markers`, one for each, in order.
fn findings_of(markers: &Vec<VersionEntry>) -> (reports: Vec<Report>)
    ensures
        reports.deep_view() == findings(markers.deep_view()),
{
    let mut reports: Vec<Report> = Vec::new();
    let mut i: usize = 0;
    while i < markers.len()
        invariant
            i <= markers.len(),
            reports.len() == i,
            forall|j: int|
                0 <= j < i ==> (#[trigger] reports[j])@ == finding_report(markers[j]@),
        decreases markers.len() - i,
    {
        reports.push(Report::Finding(VerificationFinding::of(&markers[i])));
        i += 1;
    }
    assert(reports.deep_view() =~= findings(markers.deep_view()));
    reports
}

impl Pass {
    #[verifier::type_invariant]
    spec fn valid(self) -> bool {
        self@.wf()
    }

    /// Starts a pass over `bucket`, on the keys that begin with `prefix` or on
    /// all keys where there is no prefix. Returns the pass and its first
    /// request.
    pub fn begin(kind: PassKind, bucket: String, prefix: Option<String>) -> (started: (Pass, Step))
        ensures
            (started.0@, started.1@) == PassView::begin(kind, bucket@, prefix.deep_view()),
            started.0@.wf(),
    {
        let action = Action::List {
            bucket: bucket.clone(),
            prefix: copy_of(&prefix),
            key_marker: None,
        };
        let pass = Pass { kind, bucket, prefix, phase: Phase::Listing };
        (pass, Step { reports: no_reports(), action })
    }

    /// Which of the two walks this is.
    pub fn kind(&self) -> (kind: PassKind)
        ensures
            kind == self@.kind,
    {
        self.kind
    }

    /// The bucket this pass walks.
    pub fn bucket(&self) -> (bucket: &String)
        ensures
            bucket@ == self@.bucket,
    {
        &self.bucket
    }

    /// The key prefix this pass is limited to, if any.
    pub fn prefix(&self) -> (prefix: &Option<String>)
        ensures
            prefix.deep_view() == self@.prefix,
    {
        &self.prefix
    }

    /// Whether the pass has processed its last page.
    pub fn is_done(&self) -> (done: bool)
        ensures
            done == (self@.phase is Done),
    {
        matches!(self.phase, Phase::Done)
    }

    /// Whether the pass has given up.
    pub fn has_failed(&self) -> (failed: bool)
        ensures
            failed == (self@.phase is Failed),
    {
        matches!(self.phase, Phase::Failed)
    }

    /// Takes the answer of the store to the request that is out and returns
    /// the pass after it, with the reports the answer gave rise to and the next
    /// request.
    pub fn step(self, event: Event) -> (next: (Pass, Step))
        ensures
            (next.0@, next.1@) == self@.step(event@),
            next.0@.wf(),
    {
        proof {
            use_type_invariant(&self);
        }
        let ghost before = self@;
        let Pass { kind, bucket, prefix, phase } = self;
        assert(before.phase == phase.model());
        match phase {
            Phase::Listing => match event {
                Event::Page(page) => {
                    let markers = filter_latest_delete_markers(&page);
                    let resume = page.continuation();
                    match kind {
                        PassKind::Restore => {
                            if markers.len() > 0 {
                                let action = Action::Delete {
                                    bucket: bucket.clone(),
                                    key: markers[0].key.clone(),
                                    version_id: markers[0].version_id.clone(),
                                };
                                let phase = Phase::Deleting { markers, next: 0, resume };
                                (
                                    Pass { kind, bucket, prefix, phase },
                                    Step { reports: no_reports(), action },
                                )
                            } else {
                                Pass::proceed(kind, bucket, prefix, no_reports(), resume)
                            }
                        },
                        PassKind::Verify => {
                            let reports = findings_of(&markers);
                            Pass::proceed(kind, bucket, prefix, reports, resume)
                        },
                    }
                },
                _ => Pass::fail(kind, bucket, prefix, no_reports()),
            },
            Phase::Deleting { markers, next, resume } => match event {
                Event::Deleted => {
                    let mut reports: Vec<Report> = Vec::new();
                    reports.push(Report::Restore(RestoreOutcome::of(&markers[next], true)));
                    assert(reports.deep_view() =~= seq![
                        restore_report(markers.deep_view()[next as int], true),
                    ]);
                    let count: usize = markers.len();
                    let following: usize = next + 1;
                    if following < count {
                        let action = Action::Delete {
                            bucket: bucket.clone(),
                            key: markers[following].key.clone(),
                            version_id: markers[following].version_id.clone(),
                        };
                        let phase = Phase::Deleting { markers, next: following, resume };
                        (Pass { kind, bucket, prefix, phase }, Step { reports, action })
                    } else {
                        Pass::proceed(kind, bucket, prefix, reports, resume)
                    }
                },
                Event::DeleteFailed => {
                    let mut reports: Vec<Report> = Vec::new();
                    reports.push(Report::Restore(RestoreOutcome::of(&markers[next], false)));
                    assert(reports.deep_view() =~= seq![
                        restore_report(markers.deep_view()[next as int], false),
                    ]);
                    Pass::fail(kind, bucket, prefix, reports)
                },
                _ => Pass::fail(kind, bucket, prefix, no_reports()),
            },
            Phase::Done => (
                Pass { kind, bucket, prefix, phase: Phase::Done },
                Step { reports: no_reports(), action: Action::Finish },
            ),
            Phase::Failed => (
                Pass { kind, bucket, prefix, phase: Phase::Failed },
                Step { reports: no_reports(), action: Action::Abort },
            ),
        }
    }

    fn proceed(
        kind: PassKind,
        bucket: String,
        prefix: Option<String>,
        reports: Vec<Report>,
        resume: Option<String>,
    ) -> (next: (Pass, Step))
        ensures
            (next.0@, next.1@) == (PassView {
                kind,
                bucket: bucket@,
                prefix: prefix.deep_view(),
                phase: PhaseView::Listing,
            }).proceed(reports.deep_view(), resume.deep_view()),
            next.0@.wf(),
    {
        match resume {
            Some(cursor) => {
                let action = Action::List {
                    bucket: bucket.clone(),
                    prefix: copy_of(&prefix),
                    key_marker: Some(cursor),
                };
                (Pass { kind, bucket, prefix, phase: Phase::Listing }, Step { reports, action })
            },
            None => (
                Pass { kind, bucket, prefix, phase: Phase::Done },
                Step { reports, action: Action::Finish },
            ),
        }
    }

    fn fail(kind: PassKind, bucket: String, prefix: Option<String>, reports: Vec<Report>) -> (next: (
        Pass,
        Step,
    ))
        ensures
            (next.0@, next.1@) == (PassView {
                kind,
                bucket: bucket@,
                prefix: prefix.deep_view(),
                phase: PhaseView::Listing,
            }).fail(reports.deep_view()),
            next.0@.wf(),
    {
        (
            Pass { kind, bucket, prefix, phase: Phase::Failed },
            Step { reports, action: Action::Abort },
        )
    }
}

} // verus!
