//! The consumer side: one event at a time is taken from the queue and turned
//! into the call that its handler asks for.
//!
//! The executor runs a call to completion before the next step is taken. A
//! call that traps changes nothing here: handlers and pending events stay as
//! they are, and the next step goes on with the next event.

use crate::applet::{purged, Applet};
use crate::board::Api;
use crate::event::{dispatch, process, Call, CallView, EventView, HandlerView, KeyView};
use vstd::prelude::*;

verus! {

/// What one turn of the scheduler loop decided.
pub enum Step {
    /// No event is pending: wait for the next interrupt.
    Wait,
    /// The oldest event had no handler and was dropped.
    Missing,
    /// The oldest event has a handler: make this call.
    Invoke(Call),
}

/// A step as plain values.
pub ghost enum StepView {
    /// No event is pending.
    Wait,
    /// The oldest event had no handler.
    Missing,
    /// The call to make.
    Invoke(CallView),
}

impl View for Step {
    type V = StepView;

    open spec fn view(&self) -> StepView {
        match self {
            Step::Wait => StepView::Wait,
            Step::Missing => StepView::Missing,
            Step::Invoke(call) => StepView::Invoke(call@),
        }
    }
}

/// What a step decides with the handlers `handlers` when `pending` waits.
pub open spec fn step_spec(handlers: Map<KeyView, HandlerView>, pending: Seq<EventView>)
    -> StepView {
    if pending.len() == 0 {
        StepView::Wait
    } else {
        match dispatch(handlers, pending.first()) {
            Some(call) => StepView::Invoke(call),
            None => StepView::Missing,
        }
    }
}

/// The steps decided while `pending` is drained with the handlers
/// `handlers`, one per event and in the order of the events.
pub open spec fn steps_spec(handlers: Map<KeyView, HandlerView>, pending: Seq<EventView>) -> Seq<
    StepView,
>
    decreases pending.len(),
{
    if pending.len() == 0 {
        Seq::empty()
    } else {
        seq![step_spec(handlers, pending)] + steps_spec(handlers, pending.drop_first())
    }
}

/// Takes the oldest pending event, if any, and resolves it. Exactly one
/// event leaves the queue when one is pending; the handlers stay.
pub fn step<B: Api>(applet: &mut Applet<B>) -> (r: Step)
    ensures
        old(applet).inv() ==> final(applet).inv(),
        final(applet).capacity() == old(applet).capacity(),
        final(applet).handlers() == old(applet).handlers(),
        r@ == step_spec(old(applet).handlers(), old(applet).pending()),
        final(applet).pending() == if old(applet).pending().len() == 0 {
            old(applet).pending()
        } else {
            old(applet).pending().drop_first()
        },
{
    match applet.pop() {
        None => Step::Wait,
        Some(event) => match process(applet, event) {
            Some(call) => Step::Invoke(call),
            None => Step::Missing,
        },
    }
}

/// Events that differ in their payload only are resolved to the same
/// handler.
pub proof fn lemma_same_key_same_handler(
    handlers: Map<KeyView, HandlerView>,
    a: EventView,
    b: EventView,
)
    requires
        a.key() == b.key(),
    ensures
        dispatch(handlers, a) is Some <==> dispatch(handlers, b) is Some,
        dispatch(handlers, a) is Some ==> {
            &&& dispatch(handlers, a)->0.inst == dispatch(handlers, b)->0.inst
            &&& dispatch(handlers, a)->0.func == dispatch(handlers, b)->0.func
            &&& dispatch(handlers, a)->0.args[0] == dispatch(handlers, b)->0.args[0]
        },
{
}

/// After a key is unregistered, no pending event is dispatched under it,
/// no later event with that key leads to a call, and events with other keys
/// are resolved as before.
pub proof fn lemma_unregistered_is_not_invoked(
    handlers: Map<KeyView, HandlerView>,
    pending: Seq<EventView>,
    key: KeyView,
)
    ensures
        forall|i: int|
            0 <= i < purged(pending, key).len() ==> (#[trigger] purged(pending, key)[i]).key()
                != key,
        forall|event: EventView|
            event.key() == key ==> (#[trigger] dispatch(handlers.remove(key), event)) is None,
        forall|event: EventView|
            event.key() != key ==> (#[trigger] dispatch(handlers.remove(key), event)) == dispatch(
                handlers,
                event,
            ),
{
    let keep = |event: EventView| event.key() != key;
    assert forall|i: int| 0 <= i < purged(pending, key).len() implies (#[trigger] purged(
        pending,
        key,
    )[i]).key() != key by {
        pending.lemma_filter_pred(keep, i);
    }
}

/// Purging a key keeps every other pending event, in the order it had.
pub proof fn lemma_purge_keeps_others(pending: Seq<EventView>, key: KeyView)
    requires
        forall|i: int| 0 <= i < pending.len() ==> (#[trigger] pending[i]).key() != key,
    ensures
        purged(pending, key) == pending,
    decreases pending.len(),
{
    reveal(Seq::filter);
    if pending.len() > 0 {
        lemma_purge_keeps_others(pending.drop_last(), key);
        assert(pending.drop_last().push(pending.last()) =~= pending);
    }
}

/// Draining the queue resolves the events in the order in which they
/// entered it: step `i` is the one that event `i` alone would lead to.
pub proof fn lemma_steps_in_order(handlers: Map<KeyView, HandlerView>, pending: Seq<EventView>)
    ensures
        steps_spec(handlers, pending).len() == pending.len(),
        forall|i: int|
            0 <= i < pending.len() ==> (#[trigger] steps_spec(handlers, pending)[i]) == step_spec(
                handlers,
                seq![pending[i]],
            ),
    decreases pending.len(),
{
    if pending.len() > 0 {
        let rest = pending.drop_first();
        lemma_steps_in_order(handlers, rest);
        assert forall|i: int| 0 <= i < pending.len() implies (#[trigger] steps_spec(
            handlers,
            pending,
        )[i]) == step_spec(handlers, seq![pending[i]]) by {
            if i > 0 {
                assert(steps_spec(handlers, pending)[i] == steps_spec(handlers, rest)[i - 1]);
                assert(rest[i - 1] == pending[i]);
            } else {
                assert(seq![pending[0]].first() == pending.first());
            }
        }
    }
}

} // verus!
