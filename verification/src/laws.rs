//! What holds of every pass, whatever the store answers.

use crate::listing::{ListingPageView, VersionEntryView};
use crate::pass::{restore_report, ActionView, EventView, PassKind, PassView, PhaseView};
use crate::report::ReportView;
use crate::scanner::{is_latest_delete_marker, latest_delete_markers};
use crate::trace::{
    replay, replay_keeps_the_pass, replay_one, replay_splits, step_keeps_the_pass, Trace,
};
use crate::walk::{
    answers, deletes_in, entries_of, is_listing, listing_is_walked_to_its_end, reports_on,
};
use vstd::prelude::*;

verus! {

/// No answer of a verification pass is a delete request, whatever the event.
proof fn lemma_verification_step(pass: PassView, event: EventView)
    requires
        pass.kind == PassKind::Verify,
        pass.wf(),
    ensures
        !(pass.step(event).1.action is Delete),
{
}

/// Verification is read-only: a verification pass never asks for a delete,
/// whatever the store answers and in whatever order.
pub proof fn verification_never_deletes(pass: PassView, events: Seq<EventView>)
    requires
        pass.kind == PassKind::Verify,
        pass.wf(),
    ensures
        deletes_in(replay(pass, events).actions) == Seq::<ActionView>::empty(),
    decreases events.len(),
{
    reveal(Seq::filter);
    if events.len() > 0 {
        let (next, answer) = pass.step(events.first());
        let rest = replay(next, events.drop_first());
        lemma_verification_step(pass, events.first());
        step_keeps_the_pass(pass, events.first());
        verification_never_deletes(next, events.drop_first());
        let deleting = |action: ActionView| action is Delete;
        Seq::filter_distributes_over_add(seq![answer.action], rest.actions, deleting);
        assert(seq![answer.action].filter(deleting) =~= Seq::<ActionView>::empty()) by {
            assert(seq![answer.action].drop_last() =~= Seq::<ActionView>::empty());
        }
    }
}

/// The rows of all pages among `events`, in the order they were served.
pub open spec fn served(events: Seq<EventView>) -> Seq<VersionEntryView>
    decreases events.len(),
{
    if events.len() == 0 {
        Seq::empty()
    } else {
        let rows = match events.first() {
            EventView::Page(page) => page.entries,
            _ => Seq::empty(),
        };
        rows + served(events.drop_first())
    }
}

/// If `action` is a delete request, it is for `bucket` and for a row of
/// `rows` that is a latest delete marker.
pub open spec fn deletes_a_marker_of(
    action: ActionView,
    bucket: Seq<char>,
    rows: Seq<VersionEntryView>,
) -> bool {
    action matches ActionView::Delete { bucket: asked, key, version_id } ==> {
        &&& asked == bucket
        &&& exists|row: VersionEntryView|
            {
                &&& #[trigger] rows.contains(row)
                &&& is_latest_delete_marker(row)
                &&& row.key == key
                &&& row.version_id == version_id
            }
    }
}

/// The markers whose deletes a pass still has before it.
spec fn held(pass: PassView) -> Seq<VersionEntryView> {
    match pass.phase {
        PhaseView::Deleting { markers, next, resume } => markers,
        _ => Seq::empty(),
    }
}

/// A row is among two runs of rows in a row when it is in one of them.
proof fn lemma_contains_in_sum(
    first: Seq<VersionEntryView>,
    second: Seq<VersionEntryView>,
    row: VersionEntryView,
)
    ensures
        (first + second).contains(row) <==> first.contains(row) || second.contains(row),
{
    if first.contains(row) {
        let i = choose|i: int| 0 <= i < first.len() && first[i] == row;
        assert((first + second)[i] == row);
    }
    if second.contains(row) {
        let i = choose|i: int| 0 <= i < second.len() && second[i] == row;
        assert((first + second)[first.len() + i] == row);
    }
    if (first + second).contains(row) {
        let i = choose|i: int| 0 <= i < (first + second).len() && (first + second)[i] == row;
        if i < first.len() {
            assert(first[i] == row);
        } else {
            assert(second[i - first.len()] == row);
        }
    }
}

/// What a pass holds after a step was held before or came with the event.
proof fn lemma_held_after_step(pass: PassView, event: EventView, row: VersionEntryView)
    requires
        held(pass.step(event).0).contains(row),
    ensures
        held(pass).contains(row) || served(seq![event]).contains(row),
{
    let later = seq![event].drop_first();
    assert(later =~= Seq::<EventView>::empty());
    assert(served(later) =~= Seq::<VersionEntryView>::empty());
    if pass.phase is Listing {
        if let EventView::Page(page) = event {
            assert(served(seq![event]) =~= page.entries);
            page.entries.lemma_filter_contains_rev(
                |entry: VersionEntryView| is_latest_delete_marker(entry),
                row,
            );
        }
    }
}

/// The rows served by a sequence of events are those of the first event and
/// then those of the events after it.
proof fn lemma_served_by_event(events: Seq<EventView>)
    requires
        events.len() > 0,
    ensures
        served(events) == served(seq![events.first()]) + served(events.drop_first()),
{
    let one = seq![events.first()];
    assert(one.drop_first() =~= Seq::<EventView>::empty());
    assert(served(one.drop_first()) =~= Seq::<VersionEntryView>::empty());
    assert(served(one) + served(events.drop_first()) =~= served(events));
}

/// Every delete request of a pass is for a latest delete marker that the
/// pass holds or that one of the events brings.
proof fn lemma_deletes_are_of_markers(pass: PassView, events: Seq<EventView>, i: int)
    requires
        pass.wf(),
        0 <= i < replay(pass, events).actions.len(),
    ensures
        deletes_a_marker_of(
            replay(pass, events).actions[i],
            pass.bucket,
            held(pass) + served(events),
        ),
    decreases events.len(),
{
    let event = events.first();
    let (next, answer) = pass.step(event);
    let rest = replay(next, events.drop_first());
    let action = replay(pass, events).actions[i];
    let within = held(pass) + served(events);
    step_keeps_the_pass(pass, event);
    lemma_served_by_event(events);
    if let ActionView::Delete { bucket, key, version_id } = action {
        if i == 0 {
            let row = if pass.phase is Listing {
                held(next)[0]
            } else {
                held(pass)[pass.phase->next + 1]
            };
            assert(held(next).contains(row));
            assert(is_latest_delete_marker(row));
            lemma_held_after_step(pass, event, row);
            lemma_contains_in_sum(served(seq![event]), served(events.drop_first()), row);
            lemma_contains_in_sum(held(pass), served(events), row);
            assert(within.contains(row));
        } else {
            assert(action == rest.actions[i - 1]);
            lemma_deletes_are_of_markers(next, events.drop_first(), i - 1);
            let beyond = held(next) + served(events.drop_first());
            let row = choose|row: VersionEntryView|
                {
                    &&& #[trigger] beyond.contains(row)
                    &&& is_latest_delete_marker(row)
                    &&& row.key == key
                    &&& row.version_id == version_id
                };
            lemma_contains_in_sum(held(next), served(events.drop_first()), row);
            if held(next).contains(row) {
                lemma_held_after_step(pass, event, row);
            }
            lemma_contains_in_sum(served(seq![event]), served(events.drop_first()), row);
            lemma_contains_in_sum(held(pass), served(events), row);
            assert(within.contains(row));
        }
    }
}

/// Nothing but listed markers is ever deleted. Whatever the store answers,
/// and in whatever order, every delete request of a pass is for the bucket
/// of the pass and for the key and version of a row that the store has
/// served to it as a delete marker and as the latest version of its key.
pub proof fn only_listed_markers_are_deleted(
    kind: PassKind,
    bucket: Seq<char>,
    prefix: Option<Seq<char>>,
    events: Seq<EventView>,
)
    ensures
        ({
            let pass = PassView::begin(kind, bucket, prefix).0;
            let asked = replay(pass, events).actions;
            forall|i: int|
                0 <= i < asked.len() ==> deletes_a_marker_of(
                    #[trigger] asked[i],
                    bucket,
                    served(events),
                )
        }),
{
    let pass = PassView::begin(kind, bucket, prefix).0;
    let asked = replay(pass, events).actions;
    assert(held(pass) + served(events) =~= served(events));
    assert forall|i: int| 0 <= i < asked.len() implies deletes_a_marker_of(
        #[trigger] asked[i],
        bucket,
        served(events),
    ) by {
        lemma_deletes_are_of_markers(pass, events, i);
    }
}

/// `count` times the word that a failed pass has left.
pub open spec fn aborts(count: nat) -> Seq<ActionView> {
    Seq::new(count, |i: int| ActionView::Abort)
}

/// A failed pass stays failed: whatever comes, it reports nothing and asks
/// for nothing more.
pub proof fn failed_pass_stays_failed(pass: PassView, events: Seq<EventView>)
    requires
        pass.phase is Failed,
    ensures
        replay(pass, events) == (Trace {
            end: pass,
            reports: Seq::empty(),
            actions: aborts(events.len()),
        }),
    decreases events.len(),
{
    if events.len() > 0 {
        failed_pass_stays_failed(pass, events.drop_first());
        let rest = replay(pass, events.drop_first());
        assert(Seq::<ReportView>::empty() + rest.reports =~= Seq::<ReportView>::empty());
        assert(seq![ActionView::Abort] + rest.actions =~= aborts(events.len()));
    } else {
        assert(aborts(0) =~= Seq::<ActionView>::empty());
    }
}

/// `count` times the word that a complete pass has left.
pub open spec fn finishes(count: nat) -> Seq<ActionView> {
    Seq::new(count, |i: int| ActionView::Finish)
}

/// A complete pass stays complete: whatever comes, it reports nothing and
/// asks for nothing more.
pub proof fn done_pass_stays_done(pass: PassView, events: Seq<EventView>)
    requires
        pass.phase is Done,
    ensures
        replay(pass, events) == (Trace {
            end: pass,
            reports: Seq::empty(),
            actions: finishes(events.len()),
        }),
    decreases events.len(),
{
    if events.len() > 0 {
        done_pass_stays_done(pass, events.drop_first());
        let rest = replay(pass, events.drop_first());
        assert(Seq::<ReportView>::empty() + rest.reports =~= Seq::<ReportView>::empty());
        assert(seq![ActionView::Finish] + rest.actions =~= finishes(events.len()));
    } else {
        assert(finishes(0) =~= Seq::<ActionView>::empty());
    }
}

/// A failed listing is fatal. Where a pass waits for a page after `earlier`
/// and the listing fails, the pass ends failed at once: it reports nothing
/// more, and it asks for no further page and no further delete, whatever
/// comes `later`. What it did before stands.
pub proof fn listing_failure_is_fatal(
    pass: PassView,
    earlier: Seq<EventView>,
    later: Seq<EventView>,
)
    requires
        replay(pass, earlier).end.phase is Listing,
    ensures
        replay(pass, earlier + seq![EventView::ListFailed] + later) == ({
            let head = replay(pass, earlier);
            Trace {
                end: head.end.at(PhaseView::Failed),
                reports: head.reports,
                actions: head.actions + aborts(later.len() + 1),
            }
        }),
{
    let head = replay(pass, earlier);
    let failed = head.end.at(PhaseView::Failed);
    let blow = seq![EventView::ListFailed];
    replay_splits(pass, earlier, blow + later);
    replay_splits(head.end, blow, later);
    failed_pass_stays_failed(failed, later);
    assert(earlier + blow + later =~= earlier + (blow + later));
    replay_one(head.end, EventView::ListFailed);
    assert(seq![ActionView::Abort] + aborts(later.len()) =~= aborts(later.len() + 1));
    assert(head.reports + (Seq::<ReportView>::empty() + Seq::<ReportView>::empty())
        =~= head.reports);
}

/// A failed delete is fatal. Where a restore pass waits for the delete of a
/// marker after `earlier` and the delete fails, the pass reports that one
/// marker as not restored and ends failed at once: it asks for no further
/// delete and no further page, whatever comes `later`. What it did before
/// stands.
pub proof fn delete_failure_is_fatal(
    pass: PassView,
    earlier: Seq<EventView>,
    later: Seq<EventView>,
)
    requires
        pass.wf(),
        replay(pass, earlier).end.phase is Deleting,
    ensures
        replay(pass, earlier + seq![EventView::DeleteFailed] + later) == ({
            let head = replay(pass, earlier);
            let markers = head.end.phase->markers;
            let next = head.end.phase->next;
            Trace {
                end: head.end.at(PhaseView::Failed),
                reports: head.reports.push(restore_report(markers[next], false)),
                actions: head.actions + aborts(later.len() + 1),
            }
        }),
{
    let head = replay(pass, earlier);
    let failed = head.end.at(PhaseView::Failed);
    let blow = seq![EventView::DeleteFailed];
    let outcome = restore_report(head.end.phase->markers[head.end.phase->next], false);
    replay_splits(pass, earlier, blow + later);
    replay_splits(head.end, blow, later);
    failed_pass_stays_failed(failed, later);
    assert(earlier + blow + later =~= earlier + (blow + later));
    replay_keeps_the_pass(pass, earlier);
    replay_one(head.end, EventView::DeleteFailed);
    assert(seq![ActionView::Abort] + aborts(later.len()) =~= aborts(later.len() + 1));
    assert(head.reports + (seq![outcome] + Seq::<ReportView>::empty()) =~= head.reports.push(
        outcome,
    ));
}

/// Verification is idempotent. A verification pass leaves nothing behind
/// that a second one could see: it asks for no delete, it ends about the
/// bucket and prefix it began with, and a second pass begun from where the
/// first one ended, against the same listing, asks and reports exactly what
/// the first one did.
pub proof fn verification_is_repeatable(
    bucket: Seq<char>,
    prefix: Option<Seq<char>>,
    pages: Seq<ListingPageView>,
)
    ensures
        ({
            let (first_pass, first_word) = PassView::begin(PassKind::Verify, bucket, prefix);
            let first = replay(first_pass, answers(PassKind::Verify, pages));
            let (second_pass, second_word) = PassView::begin(
                PassKind::Verify,
                first.end.bucket,
                first.end.prefix,
            );
            let second = replay(second_pass, answers(PassKind::Verify, pages));
            &&& deletes_in(first.actions) == Seq::<ActionView>::empty()
            &&& second_word == first_word
            &&& second.reports == first.reports
            &&& second.actions == first.actions
        }),
{
    let (first_pass, first_word) = PassView::begin(PassKind::Verify, bucket, prefix);
    replay_keeps_the_pass(first_pass, answers(PassKind::Verify, pages));
    verification_never_deletes(first_pass, answers(PassKind::Verify, pages));
}

/// No two rows of `entries` that are the latest version are of one key.
pub open spec fn one_latest_per_key(entries: Seq<VersionEntryView>) -> bool {
    forall|i: int, j: int|
        0 <= i < j < entries.len() && (#[trigger] entries[i]).is_latest && (
        #[trigger] entries[j]).is_latest ==> entries[i].key != entries[j].key
}

/// No two of `reports` are about one key.
pub open spec fn one_report_per_key(reports: Seq<ReportView>) -> bool {
    forall|i: int, j: int|
        0 <= i < j < reports.len() ==> (#[trigger] reports[i]).key() != (
        #[trigger] reports[j]).key()
}

/// No two of `markers` are of one key.
spec fn one_marker_per_key(markers: Seq<VersionEntryView>) -> bool {
    forall|i: int, j: int|
        0 <= i < j < markers.len() ==> (#[trigger] markers[i]).key != (#[trigger] markers[j]).key
}

/// Where no key has two latest versions, no key has two latest delete
/// markers.
proof fn lemma_one_marker_per_key(entries: Seq<VersionEntryView>)
    requires
        one_latest_per_key(entries),
    ensures
        one_marker_per_key(latest_delete_markers(entries)),
    decreases entries.len(),
{
    let marked = |entry: VersionEntryView| is_latest_delete_marker(entry);
    reveal(Seq::filter);
    if entries.len() > 0 {
        let before = entries.drop_last();
        let last = entries.last();
        let found = before.filter(marked);
        assert(one_latest_per_key(before)) by {
            assert forall|i: int, j: int|
                0 <= i < j < before.len() && (#[trigger] before[i]).is_latest && (
                #[trigger] before[j]).is_latest implies before[i].key != before[j].key by {
                assert(before[i] == entries[i] && before[j] == entries[j]);
            }
        }
        lemma_one_marker_per_key(before);
        if marked(last) {
            assert forall|i: int| 0 <= i < found.len() implies (#[trigger] found[i]).key
                != last.key by {
                before.lemma_filter_pred(marked, i);
                assert(found.contains(found[i]));
                before.lemma_filter_contains_rev(marked, found[i]);
                let at = choose|at: int| 0 <= at < before.len() && before[at] == found[i];
                assert(entries[at] == found[i]);
                assert(entries[entries.len() - 1] == last);
            }
        }
    }
}

/// At most one report per key. Where the listing holds no key with two
/// latest versions, a pass over it, answered by a store that never fails,
/// reports on no key twice: no object is restored twice in a pass, and none
/// is found twice.
pub proof fn each_key_is_reported_once(pass: PassView, pages: Seq<ListingPageView>)
    requires
        pass.phase is Listing,
        is_listing(pages),
        one_latest_per_key(entries_of(pages)),
    ensures
        one_report_per_key(replay(pass, answers(pass.kind, pages)).reports),
{
    let markers = latest_delete_markers(entries_of(pages));
    let reports = reports_on(pass.kind, markers);
    listing_is_walked_to_its_end(pass, pages);
    lemma_one_marker_per_key(entries_of(pages));
    assert forall|i: int, j: int| 0 <= i < j < reports.len() implies (#[trigger] reports[i]).key()
        != (#[trigger] reports[j]).key() by {
        assert(reports[i].key() == markers[i].key);
        assert(reports[j].key() == markers[j].key);
    }
}

} // verus!
