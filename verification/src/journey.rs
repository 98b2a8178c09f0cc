//! Whole runs, as the sequence of answers a store gives, and what holds of
//! them.

use crate::laws::verification_never_deletes;
use crate::listing::ListingPageView;
use crate::orchestrator::RunView;
use crate::pass::{ActionView, EventView, PassKind, PassView, PhaseView};
use crate::report::ReportView;
use crate::scanner::latest_delete_markers;
use crate::trace::{
    replay, replay_answers_each_event, replay_keeps_the_pass, replay_one, replay_splits,
};
use crate::walk::{
    answers, deletes_in, entries_of, is_listing, listing_is_walked_to_its_end,
    pass_ends_with_its_last_word, reports_on, requests, unfinished,
};
use vstd::prelude::*;

verus! {

/// What a run did over a sequence of events: where it ended, what it
/// reported and what it asked for, each in order.
pub struct RunTrace {
    pub end: RunView,
    pub reports: Seq<ReportView>,
    pub actions: Seq<ActionView>,
}

/// The run `run` fed with `events`, one after the other.
pub open spec fn replay_run(run: RunView, events: Seq<EventView>) -> RunTrace
    decreases events.len(),
{
    if events.len() == 0 {
        RunTrace { end: run, reports: Seq::empty(), actions: Seq::empty() }
    } else {
        let (next, answer) = run.step(events.first());
        let rest = replay_run(next, events.drop_first());
        RunTrace {
            end: rest.end,
            reports: answer.reports + rest.reports,
            actions: seq![answer.action] + rest.actions,
        }
    }
}

/// Feeding a run two sequences of events in a row is feeding it the first
/// and then, from where that ended, the second.
pub proof fn replay_run_splits(run: RunView, first: Seq<EventView>, second: Seq<EventView>)
    ensures
        replay_run(run, first + second) == ({
            let head = replay_run(run, first);
            let tail = replay_run(head.end, second);
            RunTrace {
                end: tail.end,
                reports: head.reports + tail.reports,
                actions: head.actions + tail.actions,
            }
        }),
    decreases first.len(),
{
    let head = replay_run(run, first);
    let tail = replay_run(head.end, second);
    if first.len() == 0 {
        assert(first + second =~= second);
        assert(head.reports + tail.reports =~= tail.reports);
        assert(head.actions + tail.actions =~= tail.actions);
    } else {
        let (next, answer) = run.step(first.first());
        assert((first + second).first() == first.first());
        assert((first + second).drop_first() =~= first.drop_first() + second);
        replay_run_splits(next, first.drop_first(), second);
        let inner = replay_run(next, first.drop_first());
        assert(answer.reports + (inner.reports + tail.reports) =~= (answer.reports + inner.reports)
            + tail.reports);
        assert(seq![answer.action] + (inner.actions + tail.actions) =~= (seq![answer.action]
            + inner.actions) + tail.actions);
    }
}

/// Feeding a run one event is one step of it.
pub proof fn replay_run_one(run: RunView, event: EventView)
    ensures
        replay_run(run, seq![event]) == (RunTrace {
            end: run.step(event).0,
            reports: run.step(event).1.reports,
            actions: seq![run.step(event).1.action],
        }),
{
    let (next, answer) = run.step(event);
    let rest = replay_run(next, seq![event].drop_first());
    assert(seq![event].drop_first() =~= Seq::<EventView>::empty());
    assert(answer.reports + rest.reports =~= answer.reports);
    assert(seq![answer.action] + rest.actions =~= seq![answer.action]);
}

/// While its pass does not say that it is complete, a run does what its pass
/// does.
proof fn lemma_run_follows_pass(pass: PassView, events: Seq<EventView>)
    requires
        pass.kind == PassKind::Verify || unfinished(replay(pass, events).actions),
    ensures
        replay_run(RunView { pass }, events) == (RunTrace {
            end: RunView { pass: replay(pass, events).end },
            reports: replay(pass, events).reports,
            actions: replay(pass, events).actions,
        }),
    decreases events.len(),
{
    if events.len() > 0 {
        let (next, answer) = pass.step(events.first());
        let rest = replay(next, events.drop_first());
        let whole = replay(pass, events);
        assert(whole.actions[0] == answer.action);
        assert(next.kind == pass.kind);
        if pass.kind != PassKind::Verify {
            assert forall|i: int| 0 <= i < rest.actions.len() implies !(
            #[trigger] rest.actions[i] is Finish) by {
                assert(whole.actions[i + 1] == rest.actions[i]);
            }
        }
        lemma_run_follows_pass(next, events.drop_first());
    }
}

/// Once it verifies, a run is read-only: from the moment the verification
/// pass is under way, the run asks for no delete, whatever the store
/// answers and in whatever order.
pub proof fn verifying_run_never_deletes(run: RunView, events: Seq<EventView>)
    requires
        run.pass.kind == PassKind::Verify,
        run.pass.wf(),
    ensures
        deletes_in(replay_run(run, events).actions) == Seq::<ActionView>::empty(),
{
    lemma_run_follows_pass(run.pass, events);
    verification_never_deletes(run.pass, events);
}

/// The restore stage of a run. Over a listing, answered by a store that never
/// fails, a run that has just begun does what a restore pass does, save for
/// the last word: where the pass would say that it is complete, the run asks
/// for the first page of the verification pass.
proof fn lemma_restore_stage(bucket: Seq<char>, prefix: Option<Seq<char>>, pages: Seq<ListingPageView>)
    requires
        is_listing(pages),
    ensures
        ({
            let restore = PassView::begin(PassKind::Restore, bucket, prefix).0;
            let verify = PassView::begin(PassKind::Verify, bucket, prefix).0;
            replay_run(RunView { pass: restore }, answers(PassKind::Restore, pages)) == (RunTrace {
                end: RunView { pass: verify },
                reports: reports_on(PassKind::Restore, latest_delete_markers(entries_of(pages))),
                actions: requests(restore, pages).drop_last().push(verify.list(None)),
            })
        }),
{
    let restore = PassView::begin(PassKind::Restore, bucket, prefix).0;
    let verify = PassView::begin(PassKind::Verify, bucket, prefix).0;
    let events = answers(PassKind::Restore, pages);
    let whole = replay(restore, events);
    listing_is_walked_to_its_end(restore, pages);
    pass_ends_with_its_last_word(restore, pages);
    replay_answers_each_event(restore, events);

    let early = events.drop_last();
    let last = events.last();
    let head = replay(restore, early);
    assert(events =~= early + seq![last]);
    replay_splits(restore, early, seq![last]);
    replay_one(head.end, last);
    replay_answers_each_event(restore, early);
    replay_keeps_the_pass(restore, early);
    let (after, answer) = head.end.step(last);
    assert(whole.actions == head.actions + seq![answer.action]);
    assert(head.actions =~= whole.actions.drop_last());
    assert(answer.action == whole.actions.last());

    lemma_run_follows_pass(restore, early);
    replay_run_splits(RunView { pass: restore }, early, seq![last]);
    replay_run_one(RunView { pass: head.end }, last);
    assert(head.actions + seq![verify.list(None)] =~= head.actions.push(verify.list(None)));
}

/// A run restores, then verifies. A run over a bucket and prefix, answered by
/// a store that never fails, first walks the whole listing as it is `before`
/// as a restore pass and then, from the first page again, the whole listing
/// as it is `after` as a verification pass, on the same bucket and prefix.
/// Its reports are those of the restore pass and then those of the
/// verification pass. Its requests are those of the restore pass without the
/// last word, then the first page of the verification pass, asked without a
/// cursor, then the requests of the verification pass, which end the run.
pub proof fn run_restores_then_verifies(
    bucket: Seq<char>,
    prefix: Option<Seq<char>>,
    before: Seq<ListingPageView>,
    after: Seq<ListingPageView>,
)
    requires
        is_listing(before),
        is_listing(after),
    ensures
        ({
            let (run, first) = RunView::begin(bucket, prefix);
            let restore = PassView::begin(PassKind::Restore, bucket, prefix).0;
            let verify = PassView::begin(PassKind::Verify, bucket, prefix).0;
            let trace = replay_run(
                run,
                answers(PassKind::Restore, before) + answers(PassKind::Verify, after),
            );
            &&& first.action == restore.list(None)
            &&& first.reports == Seq::<ReportView>::empty()
            &&& trace.end == RunView { pass: verify.at(PhaseView::Done) }
            &&& trace.reports == reports_on(
                PassKind::Restore,
                latest_delete_markers(entries_of(before)),
            ) + reports_on(PassKind::Verify, latest_delete_markers(entries_of(after)))
            &&& trace.actions == requests(restore, before).drop_last().push(verify.list(None))
                + requests(verify, after)
        }),
{
    let (run, first) = RunView::begin(bucket, prefix);
    let verify = PassView::begin(PassKind::Verify, bucket, prefix).0;
    lemma_restore_stage(bucket, prefix, before);
    listing_is_walked_to_its_end(verify, after);
    lemma_run_follows_pass(verify, answers(PassKind::Verify, after));
    replay_run_splits(run, answers(PassKind::Restore, before), answers(PassKind::Verify, after));
}

} // verus!
