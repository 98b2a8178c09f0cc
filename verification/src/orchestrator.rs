//! A whole run: the restore pass, then the verification pass.

use crate::pass::{Action, ActionView, Event, EventView, Pass, PassKind, PassView, Step, StepView};
use vstd::prelude::*;

verus! {

/// A [`Run`] as a mathematical value: the pass that is under way.
pub struct RunView {
    pub pass: PassView,
}

impl RunView {
    /// A new run and its first request: the first request of a restore pass.
    pub open spec fn begin(bucket: Seq<char>, prefix: Option<Seq<char>>) -> (RunView, StepView) {
        let (pass, first) = PassView::begin(PassKind::Restore, bucket, prefix);
        (RunView { pass }, first)
    }

    /// The transition function of a run. Every event goes to the pass that is
    /// under way. Where the restore pass answers that it is complete, the
    /// verification pass starts in its place, on the same bucket and prefix
    /// and from the first page, and its first request is the answer. The
    /// verification pass ends the run, and so does a pass that fails.
    pub open spec fn step(self, event: EventView) -> (RunView, StepView) {
        let (pass, answer) = self.pass.step(event);
        if self.pass.kind == PassKind::Restore && answer.action is Finish {
            let (verify, first) = PassView::begin(PassKind::Verify, pass.bucket, pass.prefix);
            (RunView { pass: verify }, StepView { reports: answer.reports, action: first.action })
        } else {
            (RunView { pass }, answer)
        }
    }
}

/// A run over one bucket and prefix, between two requests.
pub struct Run {
    pass: Pass,
}

impl View for Run {
    type V = RunView;

    closed spec fn view(&self) -> RunView {
        RunView { pass: self.pass@ }
    }
}

impl Run {
    /// Starts a run over `bucket`, on the keys that begin with `prefix` or on
    /// all keys where there is no prefix. Returns the run and its first
    /// request.
    pub fn begin(bucket: String, prefix: Option<String>) -> (started: (Run, Step))
        ensures
            (started.0@, started.1@) == RunView::begin(bucket@, prefix.deep_view()),
            started.0@.pass.wf(),
    {
        let (pass, first) = Pass::begin(PassKind::Restore, bucket, prefix);
        (Run { pass }, first)
    }

    /// The pass that is under way.
    pub fn stage(&self) -> (kind: PassKind)
        ensures
            kind == self@.pass.kind,
    {
        self.pass.kind()
    }

    /// Whether the run is complete: both passes have processed their last
    /// page.
    pub fn is_done(&self) -> (done: bool)
        ensures
            done == (self@.pass.kind == PassKind::Verify && self@.pass.phase is Done),
    {
        match self.pass.kind() {
            PassKind::Verify => self.pass.is_done(),
            PassKind::Restore => false,
        }
    }

    /// Whether the run has given up.
    pub fn has_failed(&self) -> (failed: bool)
        ensures
            failed == (self@.pass.phase is Failed),
    {
        self.pass.has_failed()
    }

    /// Takes the answer of the store to the request that is out and returns
    /// the run after it, with the reports the answer gave rise to and the next
    /// request.
    pub fn step(self, event: Event) -> (next: (Run, Step))
        ensures
            (next.0@, next.1@) == self@.step(event@),
            next.0@.pass.wf(),
    {
        let restoring = match self.pass.kind() {
            PassKind::Restore => true,
            PassKind::Verify => false,
        };
        let (pass, answer) = self.pass.step(event);
        let complete = match answer.action {
            Action::Finish => true,
            _ => false,
        };
        if restoring && complete {
            let bucket = pass.bucket().clone();
            let prefix = match pass.prefix() {
                Some(p) => Some(p.clone()),
                None => None,
            };
            let (verify, first) = Pass::begin(PassKind::Verify, bucket, prefix);
            (Run { pass: verify }, Step { reports: answer.reports, action: first.action })
        } else {
            (Run { pass }, answer)
        }
    }
}

} // verus!
