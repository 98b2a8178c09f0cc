//! A pass over a whole listing, answered by a store that never fails.
//!
//! This is where pagination is shown to be complete: every page is asked for
//! once, by the cursor of the page before it, and every latest delete marker
//! on every page is acted on once, in page order.

use crate::listing::{ListingPageView, VersionEntryView};
use crate::pass::{
    findings, restore_report, ActionView, EventView, PassKind, PassView, PhaseView,
};
use crate::report::ReportView;
use crate::scanner::{is_latest_delete_marker, latest_delete_markers};
use crate::trace::{replay, replay_splits, Trace};
use vstd::prelude::*;

verus! {

/// A listing as a store serves it: at least one page, and every page but
/// the last one truncated.
pub open spec fn is_listing(pages: Seq<ListingPageView>) -> bool {
    &&& pages.len() > 0
    &&& forall|i: int| 0 <= i < pages.len() - 1 ==> (#[trigger] pages[i]).is_truncated
    &&& !pages.last().is_truncated
}

/// The rows of all `pages`, in page order.
pub open spec fn entries_of(pages: Seq<ListingPageView>) -> Seq<VersionEntryView>
    decreases pages.len(),
{
    if pages.len() == 0 {
        Seq::empty()
    } else {
        pages.first().entries + entries_of(pages.drop_first())
    }
}

/// `count` successful deletes in a row.
pub open spec fn deleted_times(count: nat) -> Seq<EventView> {
    Seq::new(count, |i: int| EventView::Deleted)
}

/// What a store that never fails answers while a pass of kind `kind` is on
/// `page`: the page itself and then, to the restore pass, one success for
/// each latest delete marker on it.
pub open spec fn page_answers(kind: PassKind, page: ListingPageView) -> Seq<EventView> {
    match kind {
        PassKind::Restore => seq![EventView::Page(page)] + deleted_times(
            latest_delete_markers(page.entries).len(),
        ),
        PassKind::Verify => seq![EventView::Page(page)],
    }
}

/// What a store that never fails answers over a whole pass of kind `kind`
/// when its listing is `pages`.
pub open spec fn answers(kind: PassKind, pages: Seq<ListingPageView>) -> Seq<EventView>
    decreases pages.len(),
{
    if pages.len() == 0 {
        Seq::empty()
    } else {
        page_answers(kind, pages.first()) + answers(kind, pages.drop_first())
    }
}

/// The successful outcomes for `markers`, one for each, in order.
pub open spec fn restorations(markers: Seq<VersionEntryView>) -> Seq<ReportView> {
    Seq::new(markers.len(), |i: int| restore_report(markers[i], true))
}

/// What a pass of kind `kind` reports on `markers` where nothing fails.
pub open spec fn reports_on(kind: PassKind, markers: Seq<VersionEntryView>) -> Seq<ReportView> {
    match kind {
        PassKind::Restore => restorations(markers),
        PassKind::Verify => findings(markers),
    }
}

/// The delete requests for `markers` in `bucket`, one for each, in order.
pub open spec fn removals(bucket: Seq<char>, markers: Seq<VersionEntryView>) -> Seq<ActionView> {
    Seq::new(
        markers.len(),
        |i: int|
            ActionView::Delete {
                bucket,
                key: markers[i].key,
                version_id: markers[i].version_id,
            },
    )
}

/// The delete requests of a pass of kind `kind` that meets `markers`: one for
/// each in a restore pass, none in a verification pass.
pub open spec fn mutations(kind: PassKind, bucket: Seq<char>, markers: Seq<VersionEntryView>) -> Seq<
    ActionView,
> {
    match kind {
        PassKind::Restore => removals(bucket, markers),
        PassKind::Verify => Seq::empty(),
    }
}

/// What a pass asks for while it is on `page`: its delete requests for the
/// latest delete markers of the page, and then the next page or the end.
pub open spec fn page_requests(pass: PassView, page: ListingPageView) -> Seq<ActionView> {
    mutations(pass.kind, pass.bucket, latest_delete_markers(page.entries)).push(
        pass.proceed(Seq::empty(), page.continuation()).1.action,
    )
}

/// What a pass asks for after its first request, over the listing `pages`.
pub open spec fn requests(pass: PassView, pages: Seq<ListingPageView>) -> Seq<ActionView>
    decreases pages.len(),
{
    if pages.len() == 0 {
        Seq::empty()
    } else {
        page_requests(pass, pages.first()) + requests(pass, pages.drop_first())
    }
}

/// The delete requests among `actions`, in order.
pub open spec fn deletes_in(actions: Seq<ActionView>) -> Seq<ActionView> {
    actions.filter(|action: ActionView| action is Delete)
}

/// The listing requests among `actions`, in order.
pub open spec fn listings_in(actions: Seq<ActionView>) -> Seq<ActionView> {
    actions.filter(|action: ActionView| action is List)
}

/// The requests of `pass` for the pages after the first: one for each page
/// but the last, by the cursor that the page gave.
pub open spec fn later_pages(pass: PassView, pages: Seq<ListingPageView>) -> Seq<ActionView> {
    Seq::new(
        (pages.len() - 1) as nat,
        |i: int| pass.list(Some(pages[i].next_key_marker)),
    )
}

/// None of `actions` is the end of a pass.
pub open spec fn unfinished(actions: Seq<ActionView>) -> bool {
    forall|i: int| 0 <= i < actions.len() ==> !(#[trigger] actions[i] is Finish)
}

/// A restore pass that waits for the delete of `markers[next]` and gets one
/// success after the other removes the rest of the page's markers, each once
/// and in order, and then goes on as the page says.
proof fn lemma_rest_of_page(
    pass: PassView,
    markers: Seq<VersionEntryView>,
    next: int,
    resume: Option<Seq<char>>,
)
    requires
        0 <= next < markers.len(),
        pass.phase == (PhaseView::Deleting { markers, next, resume }),
    ensures
        replay(pass, deleted_times((markers.len() - next) as nat)) == (Trace {
            end: pass.proceed(Seq::empty(), resume).0,
            reports: restorations(markers).skip(next),
            actions: removals(pass.bucket, markers).skip(next + 1).push(
                pass.proceed(Seq::empty(), resume).1.action,
            ),
        }),
    decreases markers.len() - next,
{
    let events = deleted_times((markers.len() - next) as nat);
    let (after, answer) = pass.step(events.first());
    let rest = replay(after, events.drop_first());
    let onward = pass.proceed(Seq::empty(), resume).1.action;
    if next + 1 < markers.len() {
        assert(events.drop_first() =~= deleted_times((markers.len() - (next + 1)) as nat));
        lemma_rest_of_page(after, markers, next + 1, resume);
    } else {
        assert(events.drop_first() =~= Seq::<EventView>::empty());
    }
    assert(answer.reports + rest.reports =~= restorations(markers).skip(next));
    assert(seq![answer.action] + rest.actions =~= removals(pass.bucket, markers).skip(
        next + 1,
    ).push(onward));
}

/// One page is processed in order. A pass that waits for a page, gets it
/// and is then answered by a store that never fails acts on each latest
/// delete marker of the page once, in the order of the page, and then goes
/// on as the page says: to the next page where it is truncated, to the end
/// where it is not.
pub proof fn page_is_processed_in_order(pass: PassView, page: ListingPageView)
    requires
        pass.phase is Listing,
    ensures
        replay(pass, page_answers(pass.kind, page)) == (Trace {
            end: pass.proceed(Seq::empty(), page.continuation()).0,
            reports: reports_on(pass.kind, latest_delete_markers(page.entries)),
            actions: page_requests(pass, page),
        }),
{
    let markers = latest_delete_markers(page.entries);
    let events = page_answers(pass.kind, page);
    let (after, answer) = pass.step(events.first());
    let rest = replay(after, events.drop_first());
    let onward = pass.proceed(Seq::empty(), page.continuation()).1.action;
    match pass.kind {
        PassKind::Restore => {
            assert(events.drop_first() =~= deleted_times(markers.len()));
            if markers.len() > 0 {
                lemma_rest_of_page(after, markers, 0, page.continuation());
            }
            assert(answer.reports + rest.reports =~= restorations(markers));
            assert(seq![answer.action] + rest.actions =~= removals(pass.bucket, markers).push(
                onward,
            ));
        },
        PassKind::Verify => {
            assert(events.drop_first() =~= Seq::<EventView>::empty());
            assert(answer.reports + rest.reports =~= findings(markers));
            assert(seq![answer.action] + rest.actions =~= Seq::<ActionView>::empty().push(onward));
        },
    }
}

/// [`is_listing`], told page by page.
spec fn is_chain(pages: Seq<ListingPageView>) -> bool
    decreases pages.len(),
{
    if pages.len() == 0 {
        false
    } else if pages.len() == 1 {
        !pages.first().is_truncated
    } else {
        pages.first().is_truncated && is_chain(pages.drop_first())
    }
}

proof fn lemma_listing_is_chain(pages: Seq<ListingPageView>)
    requires
        is_listing(pages),
    ensures
        is_chain(pages),
    decreases pages.len(),
{
    if pages.len() == 1 {
        assert(pages.first() == pages.last());
    } else {
        let later = pages.drop_first();
        assert(pages.first() == pages[0]);
        assert(later.last() == pages.last());
        assert forall|i: int| 0 <= i < later.len() - 1 implies (#[trigger] later[i]).is_truncated by {
            assert(later[i] == pages[i + 1]);
        }
        lemma_listing_is_chain(later);
    }
}

/// Over no pages at all nothing is answered, nothing is asked for and
/// nothing is met.
proof fn lemma_no_pages(pass: PassView, pages: Seq<ListingPageView>)
    requires
        pages.len() == 0,
    ensures
        answers(pass.kind, pages) == Seq::<EventView>::empty(),
        requests(pass, pages) == Seq::<ActionView>::empty(),
        entries_of(pages) == Seq::<VersionEntryView>::empty(),
        latest_delete_markers(entries_of(pages)) == Seq::<VersionEntryView>::empty(),
{
    reveal(Seq::filter);
}

/// Over a listing of one page, what is answered, asked for and met is what
/// is answered, asked for and met on that page.
proof fn lemma_single_page(pass: PassView, pages: Seq<ListingPageView>)
    requires
        pages.len() == 1,
    ensures
        answers(pass.kind, pages) == page_answers(pass.kind, pages.first()),
        requests(pass, pages) == page_requests(pass, pages.first()),
        entries_of(pages) == pages.first().entries,
{
    lemma_no_pages(pass, pages.drop_first());
    assert(answers(pass.kind, pages) =~= page_answers(pass.kind, pages.first()));
    assert(requests(pass, pages) =~= page_requests(pass, pages.first()));
    assert(entries_of(pages) =~= pages.first().entries);
}

/// The latest delete markers of a listing are those of its first page and
/// then those of the pages after it.
proof fn lemma_markers_by_page(pages: Seq<ListingPageView>)
    requires
        pages.len() > 0,
    ensures
        latest_delete_markers(entries_of(pages)) == latest_delete_markers(pages.first().entries)
            + latest_delete_markers(entries_of(pages.drop_first())),
{
    Seq::filter_distributes_over_add(
        pages.first().entries,
        entries_of(pages.drop_first()),
        |entry: VersionEntryView| is_latest_delete_marker(entry),
    );
}

/// What a pass reports on two runs of markers in a row is what it reports on
/// the first and then on the second.
proof fn lemma_reports_join(
    kind: PassKind,
    first: Seq<VersionEntryView>,
    second: Seq<VersionEntryView>,
)
    ensures
        reports_on(kind, first + second) == reports_on(kind, first) + reports_on(kind, second),
{
    assert(reports_on(kind, first + second) =~= reports_on(kind, first) + reports_on(
        kind,
        second,
    ));
}

/// The delete requests for two runs of markers in a row are those for the
/// first and then those for the second.
proof fn lemma_mutations_join(
    kind: PassKind,
    bucket: Seq<char>,
    first: Seq<VersionEntryView>,
    second: Seq<VersionEntryView>,
)
    ensures
        mutations(kind, bucket, first + second) == mutations(kind, bucket, first) + mutations(
            kind,
            bucket,
            second,
        ),
{
    assert(mutations(kind, bucket, first + second) =~= mutations(kind, bucket, first) + mutations(
        kind,
        bucket,
        second,
    ));
}

proof fn lemma_walk(pass: PassView, pages: Seq<ListingPageView>)
    requires
        pass.phase is Listing,
        is_chain(pages),
    ensures
        replay(pass, answers(pass.kind, pages)) == (Trace {
            end: pass.at(PhaseView::Done),
            reports: reports_on(pass.kind, latest_delete_markers(entries_of(pages))),
            actions: requests(pass, pages),
        }),
    decreases pages.len(),
{
    let page = pages.first();
    let later = pages.drop_first();
    page_is_processed_in_order(pass, page);
    if pages.len() == 1 {
        lemma_single_page(pass, pages);
    } else {
        replay_splits(pass, page_answers(pass.kind, page), answers(pass.kind, later));
        lemma_markers_by_page(pages);
        lemma_reports_join(
            pass.kind,
            latest_delete_markers(page.entries),
            latest_delete_markers(entries_of(later)),
        );
        assert(pass.proceed(Seq::empty(), page.continuation()).0 == pass);
        lemma_walk(pass, later);
    }
}

/// A listing is walked to its end. A pass that waits for a page walks the
/// whole listing that begins with that page when the store never fails: it
/// ends done, it has reported on every latest delete marker of every page,
/// each exactly once and in page order, and it has asked, page after page,
/// for the deletes of that page and then for the page after it, by the
/// cursor that the page gave, or for nothing more after the last page.
pub proof fn listing_is_walked_to_its_end(pass: PassView, pages: Seq<ListingPageView>)
    requires
        pass.phase is Listing,
        is_listing(pages),
    ensures
        replay(pass, answers(pass.kind, pages)) == (Trace {
            end: pass.at(PhaseView::Done),
            reports: reports_on(pass.kind, latest_delete_markers(entries_of(pages))),
            actions: requests(pass, pages),
        }),
{
    lemma_listing_is_chain(pages);
    lemma_walk(pass, pages);
}

/// Pagination is complete. A pass over a listing, answered by a store that
/// never fails, asks for the first page without a cursor and ends done after
/// it has reported on every latest delete marker of every page, each exactly
/// once and in page order. After the first request it asks, page after page,
/// for the deletes of that page, where it is a restore pass, and then for
/// the page after it, by the cursor that the page gave, or for nothing more
/// after the last page.
pub proof fn pass_walks_the_whole_listing(
    kind: PassKind,
    bucket: Seq<char>,
    prefix: Option<Seq<char>>,
    pages: Seq<ListingPageView>,
)
    requires
        is_listing(pages),
    ensures
        ({
            let (pass, first) = PassView::begin(kind, bucket, prefix);
            let trace = replay(pass, answers(kind, pages));
            &&& first.action == pass.list(None)
            &&& first.reports == Seq::<ReportView>::empty()
            &&& trace.end == pass.at(PhaseView::Done)
            &&& trace.reports == reports_on(kind, latest_delete_markers(entries_of(pages)))
            &&& trace.actions == requests(pass, pages)
        }),
{
    listing_is_walked_to_its_end(PassView::begin(kind, bucket, prefix).0, pages);
}

/// A filter keeps a sequence whose items all pass it.
proof fn lemma_filter_keeps_all<A>(items: Seq<A>, pred: spec_fn(A) -> bool)
    requires
        forall|i: int| 0 <= i < items.len() ==> pred(#[trigger] items[i]),
    ensures
        items.filter(pred) == items,
    decreases items.len(),
{
    reveal(Seq::filter);
    if items.len() > 0 {
        lemma_filter_keeps_all(items.drop_last(), pred);
        assert(items.drop_last().push(items.last()) =~= items);
    }
}

/// A filter empties a sequence none of whose items passes it.
proof fn lemma_filter_drops_all<A>(items: Seq<A>, pred: spec_fn(A) -> bool)
    requires
        forall|i: int| 0 <= i < items.len() ==> !pred(#[trigger] items[i]),
    ensures
        items.filter(pred) == Seq::<A>::empty(),
    decreases items.len(),
{
    reveal(Seq::filter);
    if items.len() > 0 {
        lemma_filter_drops_all(items.drop_last(), pred);
    }
}

/// Among what a pass asks for while it is on a page, the delete requests are
/// those for the page's latest delete markers, and the only listing request
/// is the one for the next page, if the page has one.
proof fn lemma_page_requests_by_kind(pass: PassView, page: ListingPageView)
    ensures
        deletes_in(page_requests(pass, page)) == mutations(
            pass.kind,
            pass.bucket,
            latest_delete_markers(page.entries),
        ),
        listings_in(page_requests(pass, page)) == match page.continuation() {
            Some(cursor) => seq![pass.list(Some(cursor))],
            None => Seq::empty(),
        },
{
    let asked = mutations(pass.kind, pass.bucket, latest_delete_markers(page.entries));
    let onward = pass.proceed(Seq::empty(), page.continuation()).1.action;
    let deleting = |action: ActionView| action is Delete;
    let listing = |action: ActionView| action is List;
    asked.lemma_filter_push(onward, deleting);
    asked.lemma_filter_push(onward, listing);
    lemma_filter_keeps_all(asked, deleting);
    lemma_filter_drops_all(asked, listing);
    assert(Seq::<ActionView>::empty().push(onward) =~= seq![onward]);
}

/// The delete requests of a pass over a listing are those for the latest
/// delete markers of all its pages.
proof fn lemma_deletes_over(pass: PassView, pages: Seq<ListingPageView>)
    requires
        is_chain(pages),
    ensures
        deletes_in(requests(pass, pages)) == mutations(
            pass.kind,
            pass.bucket,
            latest_delete_markers(entries_of(pages)),
        ),
    decreases pages.len(),
{
    let page = pages.first();
    let later = pages.drop_first();
    lemma_page_requests_by_kind(pass, page);
    if pages.len() == 1 {
        lemma_single_page(pass, pages);
    } else {
        lemma_deletes_over(pass, later);
        Seq::filter_distributes_over_add(
            page_requests(pass, page),
            requests(pass, later),
            |action: ActionView| action is Delete,
        );
        lemma_markers_by_page(pages);
        lemma_mutations_join(
            pass.kind,
            pass.bucket,
            latest_delete_markers(page.entries),
            latest_delete_markers(entries_of(later)),
        );
    }
}

/// The requests for the pages after the first are the one for the second
/// page and then those for the pages after the second.
proof fn lemma_later_pages(pass: PassView, pages: Seq<ListingPageView>)
    requires
        pages.len() > 1,
    ensures
        later_pages(pass, pages) == seq![pass.list(Some(pages.first().next_key_marker))]
            + later_pages(pass, pages.drop_first()),
{
    let later = pages.drop_first();
    assert forall|i: int| 0 <= i < later.len() implies later[i] == pages[i + 1] by {}
    assert(later_pages(pass, pages) =~= seq![pass.list(Some(pages.first().next_key_marker))]
        + later_pages(pass, later));
}

/// The listing requests of a pass over a listing are one for each page
/// after the first.
proof fn lemma_listings_over(pass: PassView, pages: Seq<ListingPageView>)
    requires
        is_chain(pages),
    ensures
        listings_in(requests(pass, pages)) == later_pages(pass, pages),
    decreases pages.len(),
{
    let page = pages.first();
    lemma_page_requests_by_kind(pass, page);
    if pages.len() == 1 {
        lemma_single_page(pass, pages);
        assert(later_pages(pass, pages) =~= Seq::<ActionView>::empty());
    } else {
        lemma_listings_over(pass, pages.drop_first());
        lemma_later_pages(pass, pages);
        Seq::filter_distributes_over_add(
            page_requests(pass, page),
            requests(pass, pages.drop_first()),
            |action: ActionView| action is List,
        );
    }
}

/// Each page and each marker is asked for once. Among the requests of a pass
/// over a listing, the delete requests are exactly those for the latest
/// delete markers of all pages, one for each and in page order, in a restore
/// pass, and none in a verification pass. The listing requests are exactly
/// one for each page after the first, by the cursor of the page before it.
pub proof fn each_page_and_marker_is_asked_for_once(pass: PassView, pages: Seq<ListingPageView>)
    requires
        is_listing(pages),
    ensures
        deletes_in(requests(pass, pages)) == mutations(
            pass.kind,
            pass.bucket,
            latest_delete_markers(entries_of(pages)),
        ),
        listings_in(requests(pass, pages)) == later_pages(pass, pages),
{
    lemma_listing_is_chain(pages);
    lemma_deletes_over(pass, pages);
    lemma_listings_over(pass, pages);
}

/// The last word of a pass over a listing is the end of the pass.
proof fn lemma_last_word(pass: PassView, pages: Seq<ListingPageView>)
    requires
        is_chain(pages),
    ensures
        requests(pass, pages).len() > 0,
        requests(pass, pages).last() == ActionView::Finish,
    decreases pages.len(),
{
    if pages.len() == 1 {
        lemma_single_page(pass, pages);
    } else {
        lemma_last_word(pass, pages.drop_first());
    }
}

/// No word of a pass over a listing but the last is the end of the pass.
proof fn lemma_unfinished_before_the_end(pass: PassView, pages: Seq<ListingPageView>)
    requires
        is_chain(pages),
    ensures
        requests(pass, pages).len() > 0,
        unfinished(requests(pass, pages).drop_last()),
    decreases pages.len(),
{
    let here = page_requests(pass, pages.first());
    let asked = mutations(
        pass.kind,
        pass.bucket,
        latest_delete_markers(pages.first().entries),
    );
    assert(here.drop_last() =~= asked);
    if pages.len() == 1 {
        lemma_single_page(pass, pages);
    } else {
        let there = requests(pass, pages.drop_first());
        lemma_unfinished_before_the_end(pass, pages.drop_first());
        assert((here + there).drop_last() =~= here + there.drop_last());
    }
}

/// The end comes once, and last. Among what a pass asks for over a listing,
/// the last word is the end of the pass and no other word is.
pub proof fn pass_ends_with_its_last_word(pass: PassView, pages: Seq<ListingPageView>)
    requires
        is_listing(pages),
    ensures
        requests(pass, pages).len() > 0,
        requests(pass, pages).last() == ActionView::Finish,
        unfinished(requests(pass, pages).drop_last()),
{
    lemma_listing_is_chain(pages);
    lemma_unfinished_before_the_end(pass, pages);
    lemma_last_word(pass, pages);
}

} // verus!
