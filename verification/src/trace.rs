//! A pass as a function of the answers it gets.
//!
//! [`replay`] feeds a pass a sequence of events and collects what it reports
//! and what it asks for. What holds of every pass is stated over it.

use crate::pass::{ActionView, EventView, PassView};
use crate::report::ReportView;
use vstd::prelude::*;

verus! {

/// What a pass did over a sequence of events: where it ended, what it
/// reported and what it asked for, each in order.
pub struct Trace {
    pub end: PassView,
    pub reports: Seq<ReportView>,
    pub actions: Seq<ActionView>,
}

/// The pass `pass` fed with `events`, one after the other.
pub open spec fn replay(pass: PassView, events: Seq<EventView>) -> Trace
    decreases events.len(),
{
    if events.len() == 0 {
        Trace { end: pass, reports: Seq::empty(), actions: Seq::empty() }
    } else {
        let (next, answer) = pass.step(events.first());
        let rest = replay(next, events.drop_first());
        Trace {
            end: rest.end,
            reports: answer.reports + rest.reports,
            actions: seq![answer.action] + rest.actions,
        }
    }
}

/// Feeding a pass one event is one step of it.
pub proof fn replay_one(pass: PassView, event: EventView)
    ensures
        replay(pass, seq![event]) == (Trace {
            end: pass.step(event).0,
            reports: pass.step(event).1.reports,
            actions: seq![pass.step(event).1.action],
        }),
{
    let (next, answer) = pass.step(event);
    let rest = replay(next, seq![event].drop_first());
    assert(seq![event].drop_first() =~= Seq::<EventView>::empty());
    assert(answer.reports + rest.reports =~= answer.reports);
    assert(seq![answer.action] + rest.actions =~= seq![answer.action]);
}

/// Feeding a pass two sequences of events in a row is feeding it the first
/// and then, from where that ended, the second.
pub proof fn replay_splits(pass: PassView, first: Seq<EventView>, second: Seq<EventView>)
    ensures
        replay(pass, first + second) == ({
            let head = replay(pass, first);
            let tail = replay(head.end, second);
            Trace {
                end: tail.end,
                reports: head.reports + tail.reports,
                actions: head.actions + tail.actions,
            }
        }),
    decreases first.len(),
{
    let head = replay(pass, first);
    let tail = replay(head.end, second);
    if first.len() == 0 {
        assert(first + second =~= second);
        assert(head.reports + tail.reports =~= tail.reports);
        assert(head.actions + tail.actions =~= tail.actions);
    } else {
        let (next, answer) = pass.step(first.first());
        let inner = replay(next, first.drop_first());
        assert((first + second).drop_first() =~= first.drop_first() + second);
        replay_splits(next, first.drop_first(), second);
        assert(answer.reports + (inner.reports + tail.reports) =~= (answer.reports + inner.reports)
            + tail.reports);
        assert(seq![answer.action] + (inner.actions + tail.actions) =~= (seq![answer.action]
            + inner.actions) + tail.actions);
    }
}

/// A pass answers each event with one word.
pub proof fn replay_answers_each_event(pass: PassView, events: Seq<EventView>)
    ensures
        replay(pass, events).actions.len() == events.len(),
    decreases events.len(),
{
    if events.len() > 0 {
        replay_answers_each_event(pass.step(events.first()).0, events.drop_first());
    }
}

/// A step changes neither the kind of a pass nor what it is about, and it
/// leaves a well-formed pass well formed.
pub proof fn step_keeps_the_pass(pass: PassView, event: EventView)
    ensures
        pass.step(event).0.kind == pass.kind,
        pass.step(event).0.bucket == pass.bucket,
        pass.step(event).0.prefix == pass.prefix,
        pass.wf() ==> pass.step(event).0.wf(),
{
}

/// Whatever a pass is fed, it stays of its kind and about its bucket and
/// prefix, and a well-formed pass stays well formed.
pub proof fn replay_keeps_the_pass(pass: PassView, events: Seq<EventView>)
    ensures
        replay(pass, events).end.kind == pass.kind,
        replay(pass, events).end.bucket == pass.bucket,
        replay(pass, events).end.prefix == pass.prefix,
        pass.wf() ==> replay(pass, events).end.wf(),
    decreases events.len(),
{
    if events.len() > 0 {
        step_keeps_the_pass(pass, events.first());
        replay_keeps_the_pass(pass.step(events.first()).0, events.drop_first());
    }
}

} // verus!
