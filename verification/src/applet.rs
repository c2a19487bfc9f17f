//! The state that the scheduler keeps for an applet: the handlers it
//! registered and the events that wait to be dispatched to them.

use crate::board::Api;
use crate::event::{Event, EventView, Handler, HandlerView, InstId, Key, KeyView};
use crate::queue::{push_spec, Bounded};
use vstd::prelude::*;

verus! {

/// The handler that a list of registrations leaves for each key: a later
/// registration replaces an earlier one for the same key.
spec fn table<B: Api>(handlers: Seq<Handler<B>>) -> Map<KeyView, HandlerView>
    decreases handlers.len(),
{
    if handlers.len() == 0 {
        Map::empty()
    } else {
        table(handlers.drop_last()).insert(handlers.last()@.key, handlers.last()@)
    }
}

/// The events of `pending` that are not dispatched under `key`, in their
/// order.
pub open spec fn purged(pending: Seq<EventView>, key: KeyView) -> Seq<EventView> {
    pending.filter(|event: EventView| event.key() != key)
}

/// The keys whose handlers in `handlers` belong to the instance `inst`.
pub open spec fn owned(handlers: Map<KeyView, HandlerView>, inst: InstId) -> Set<KeyView> {
    Set::new(|key: KeyView| handlers.contains_key(key) && handlers[key].inst == inst)
}

/// The events of `pending` that are not dispatched to a handler of the
/// instance `inst`, in their order.
pub open spec fn purged_of(
    pending: Seq<EventView>,
    handlers: Map<KeyView, HandlerView>,
    inst: InstId,
) -> Seq<EventView> {
    pending.filter(|event: EventView| !owned(handlers, inst).contains(event.key()))
}

/// The plain values of a sequence of events.
spec fn views<B: Api>(events: Seq<Event<B>>) -> Seq<EventView> {
    events.map_values(|event: Event<B>| event@)
}

proof fn lemma_table_push<B: Api>(handlers: Seq<Handler<B>>, handler: Handler<B>)
    ensures
        table(handlers.push(handler)) == table(handlers).insert(handler@.key, handler@),
{
    assert(handlers.push(handler).drop_last() =~= handlers);
}

proof fn lemma_table_found<B: Api>(handlers: Seq<Handler<B>>, key: KeyView, i: int)
    requires
        0 <= i < handlers.len(),
        handlers[i]@.key == key,
        forall|j: int| i < j < handlers.len() ==> (#[trigger] handlers[j])@.key != key,
    ensures
        table(handlers).contains_key(key),
        table(handlers)[key] == handlers[i]@,
    decreases handlers.len(),
{
    if i < handlers.len() - 1 {
        let front = handlers.drop_last();
        assert(front[i] == handlers[i]);
        assert forall|j: int| i < j < front.len() implies (#[trigger] front[j])@.key != key by {
            assert(front[j] == handlers[j]);
        }
        lemma_table_found(front, key, i);
    }
}

proof fn lemma_table_absent<B: Api>(handlers: Seq<Handler<B>>, key: KeyView)
    requires
        forall|j: int| 0 <= j < handlers.len() ==> (#[trigger] handlers[j])@.key != key,
    ensures
        !table(handlers).contains_key(key),
    decreases handlers.len(),
{
    if handlers.len() > 0 {
        let front = handlers.drop_last();
        assert forall|j: int| 0 <= j < front.len() implies (#[trigger] front[j])@.key != key by {
            assert(front[j] == handlers[j]);
        }
        lemma_table_absent(front, key);
    }
}

/// The handlers of an applet and its pending events.
pub struct Applet<B: Api> {
    handlers: Vec<Handler<B>>,
    events: Bounded<Event<B>>,
}

impl<B: Api> Applet<B> {
    /// The handler registered for each key. A key has at most one.
    pub closed spec fn handlers(self) -> Map<KeyView, HandlerView> {
        table(self.handlers@)
    }

    /// The events that wait to be dispatched, oldest first.
    pub closed spec fn pending(self) -> Seq<EventView> {
        views(self.events@)
    }

    /// The most events that wait at once.
    pub closed spec fn capacity(self) -> nat {
        self.events.capacity()
    }

    /// No more events wait than the capacity allows.
    pub closed spec fn inv(self) -> bool {
        self.events.inv()
    }

    /// The pending events are within the capacity.
    pub proof fn lemma_pending_within_capacity(self)
        requires
            self.inv(),
        ensures
            self.pending().len() <= self.capacity(),
    {
        self.events.lemma_within_capacity();
    }

    /// An applet without handlers or events, whose queue takes `capacity`
    /// events.
    pub fn new(capacity: usize) -> (applet: Self)
        ensures
            applet.inv(),
            applet.handlers() == Map::<KeyView, HandlerView>::empty(),
            applet.pending() == Seq::<EventView>::empty(),
            applet.capacity() == capacity as nat,
    {
        let applet = Applet { handlers: Vec::new(), events: Bounded::new(capacity) };
        assert(applet.pending() =~= Seq::<EventView>::empty());
        applet
    }

    /// The handler registered for `key`, if there is one.
    pub fn get(&self, key: &Key<B>) -> (r: Option<&Handler<B>>)
        ensures
            r is Some <==> self.handlers().contains_key(key@),
            r matches Some(handler) ==> handler@ == self.handlers()[key@],
    {
        let mut i: usize = self.handlers.len();
        while i > 0
            invariant
                i <= self.handlers.len(),
                forall|j: int|
                    i <= j < self.handlers.len() ==> (#[trigger] self.handlers@[j])@.key != key@,
            decreases i,
        {
            i -= 1;
            if self.handlers[i].key.same(key) {
                proof {
                    lemma_table_found(self.handlers@, key@, i as int);
                }
                return Some(&self.handlers[i]);
            }
        }
        proof {
            lemma_table_absent(self.handlers@, key@);
        }
        None
    }

    /// Installs `handler` for its key, in place of the handler that the key
    /// had, if any. Pending events stay.
    pub fn register(&mut self, handler: Handler<B>)
        ensures
            old(self).inv() ==> final(self).inv(),
            final(self).capacity() == old(self).capacity(),
            final(self).pending() == old(self).pending(),
            final(self).handlers() == old(self).handlers().insert(handler@.key, handler@),
    {
        let kept = self.without(&Scope::Key(&handler.key));
        self.handlers = kept;
        proof {
            let gone = Scope::Key(&handler.key).keys(old(self).handlers());
            lemma_table_push(self.handlers@, handler);
            assert(old(self).handlers().remove_keys(gone).insert(handler@.key, handler@)
                =~= old(self).handlers().insert(handler@.key, handler@));
        }
        self.handlers.push(handler);
    }

    /// Removes the handler of `key` together with the pending events that
    /// would have been dispatched to it. Says whether there was a handler.
    pub fn unregister(&mut self, key: &Key<B>) -> (removed: bool)
        requires
            old(self).inv(),
        ensures
            final(self).inv(),
            final(self).capacity() == old(self).capacity(),
            final(self).handlers() == old(self).handlers().remove(key@),
            final(self).pending() == purged(old(self).pending(), key@),
            removed == old(self).handlers().contains_key(key@),
    {
        let removed = self.get(key).is_some();
        let scope = Scope::Key(key);
        self.purge(&scope, Ghost(|event: EventView| event.key() != key@));
        let kept = self.without(&scope);
        self.handlers = kept;
        proof {
            assert(old(self).handlers().remove_keys(scope.keys(old(self).handlers()))
                =~= old(self).handlers().remove(key@));
        }
        removed
    }

    /// Removes every handler of the instance `inst` together with the
    /// pending events that would have been dispatched to them. Handlers and
    /// events of other instances stay, the events in their order.
    pub fn unregister_all(&mut self, inst: InstId)
        requires
            old(self).inv(),
        ensures
            final(self).inv(),
            final(self).capacity() == old(self).capacity(),
            final(self).handlers() == old(self).handlers().remove_keys(
                owned(old(self).handlers(), inst),
            ),
            final(self).pending() == purged_of(old(self).pending(), old(self).handlers(), inst),
    {
        let scope = Scope::Instance(inst);
        self.purge(
            &scope,
            Ghost(|event: EventView| !owned(old(self).handlers(), inst).contains(event.key())),
        );
        let kept = self.without(&scope);
        self.handlers = kept;
        proof {
            assert(scope.keys(old(self).handlers()) =~= owned(old(self).handlers(), inst));
        }
    }

    /// Adds `event` behind the pending ones if the queue has room. A full
    /// queue keeps what it holds and hands the event back.
    pub fn push(&mut self, event: Event<B>) -> (r: Result<(), Event<B>>)
        ensures
            old(self).inv() ==> final(self).inv(),
            final(self).capacity() == old(self).capacity(),
            final(self).handlers() == old(self).handlers(),
            final(self).pending() == push_spec(old(self).pending(), old(self).capacity(), event@),
            r is Ok <==> old(self).pending().len() < old(self).capacity(),
            r matches Err(dropped) ==> dropped@ == event@,
    {
        let r = self.events.push(event);
        proof {
            if old(self).events@.len() < old(self).events.capacity() {
                assert(views(old(self).events@.push(event)) =~= views(old(self).events@).push(
                    event@,
                ));
            }
        }
        r
    }

    /// Takes the oldest pending event, if any.
    pub fn pop(&mut self) -> (r: Option<Event<B>>)
        ensures
            old(self).inv() ==> final(self).inv(),
            final(self).capacity() == old(self).capacity(),
            final(self).handlers() == old(self).handlers(),
            old(self).pending().len() == 0 ==> r is None && final(self).pending() == old(self).pending(),
            old(self).pending().len() > 0 ==> r is Some && r->0@ == old(self).pending().first()
                && final(self).pending() == old(self).pending().drop_first(),
    {
        let r = self.events.pop();
        proof {
            if old(self).events@.len() > 0 {
                assert(views(old(self).events@.drop_first()) =~= views(
                    old(self).events@,
                ).drop_first());
            }
        }
        r
    }

    /// The number of pending events.
    pub fn len(&self) -> (n: usize)
        ensures
            n == self.pending().len(),
    {
        self.events.len()
    }

    /// Whether no event is pending.
    pub fn is_empty(&self) -> (r: bool)
        ensures
            r == (self.pending().len() == 0),
    {
        self.events.is_empty()
    }

    /// Whether `scope` covers `key` with the handlers as they are.
    fn covered(&self, scope: &Scope<'_, B>, key: &Key<B>) -> (r: bool)
        ensures
            r == scope.covers(self.handlers(), key@),
    {
        match scope {
            Scope::Key(given) => key.same(given),
            Scope::Instance(inst) => match self.get(key) {
                Some(handler) => handler.inst.id == inst.id,
                None => false,
            },
        }
    }

    /// The registrations for the keys that `scope` does not cover.
    fn without(&self, scope: &Scope<'_, B>) -> (kept: Vec<Handler<B>>)
        ensures
            table(kept@) == self.handlers().remove_keys(scope.keys(self.handlers())),
    {
        let ghost gone = scope.keys(self.handlers());
        let mut kept: Vec<Handler<B>> = Vec::new();
        let mut i: usize = 0;
        proof {
            assert(table(self.handlers@.take(0)).remove_keys(gone) =~= table(kept@));
        }
        while i < self.handlers.len()
            invariant
                i <= self.handlers.len(),
                gone == scope.keys(self.handlers()),
                table(kept@) == table(self.handlers@.take(i as int)).remove_keys(gone),
            decreases self.handlers.len() - i,
        {
            let ghost front = table(self.handlers@.take(i as int));
            let ghost next = self.handlers@[i as int];
            proof {
                assert(self.handlers@.take(i + 1) =~= self.handlers@.take(i as int).push(next));
                lemma_table_push(self.handlers@.take(i as int), next);
            }
            if !self.covered(scope, &self.handlers[i].key) {
                let handler = self.handlers[i].duplicate();
                proof {
                    lemma_table_push(kept@, handler);
                    assert(front.remove_keys(gone).insert(next@.key, next@) =~= front.insert(
                        next@.key,
                        next@,
                    ).remove_keys(gone));
                }
                kept.push(handler);
            } else {
                proof {
                    assert(front.remove_keys(gone) =~= front.insert(next@.key, next@).remove_keys(
                        gone,
                    ));
                }
            }
            i += 1;
        }
        proof {
            assert(self.handlers@.take(i as int) =~= self.handlers@);
        }
        kept
    }

    /// Drops the pending events whose keys `scope` covers. `keep` is the
    /// test that the events that stay pass.
    fn purge(&mut self, scope: &Scope<'_, B>, Ghost(keep): Ghost<spec_fn(EventView) -> bool>)
        requires
            old(self).inv(),
            forall|event: EventView|
                #[trigger] keep(event) == !scope.covers(old(self).handlers(), event.key()),
        ensures
            final(self).inv(),
            final(self).capacity() == old(self).capacity(),
            final(self).handlers() == old(self).handlers(),
            final(self).pending() == old(self).pending().filter(keep),
    {
        let n = self.events.len();
        let ghost before = self.events@;
        let mut i: usize = 0;
        proof {
            reveal(Seq::filter);
            assert(views(before).take(0).filter(keep) =~= Seq::<EventView>::empty());
            assert(before.skip(0) =~= before);
            assert(views(before) =~= Seq::<EventView>::empty() + views(before));
        }
        while i < n
            invariant
                i <= n,
                n == before.len(),
                n <= self.events.capacity(),
                self.events.inv(),
                self.events.capacity() == old(self).events.capacity(),
                self.handlers == old(self).handlers,
                forall|event: EventView|
                    #[trigger] keep(event) == !scope.covers(old(self).handlers(), event.key()),
                self.events@.len() <= n,
                views(self.events@) == views(before.skip(i as int)) + views(before).take(
                    i as int,
                ).filter(keep),
            decreases n - i,
        {
            let ghost waiting = self.events@;
            let ghost done = views(before).take(i as int).filter(keep);
            proof {
                assert(views(before.skip(i as int)).len() == n - i);
                assert(views(waiting).len() == waiting.len());
                assert(waiting.len() > 0);
                assert(views(waiting)[0] == views(before.skip(i as int))[0]);
                assert(views(before).take(i + 1) =~= views(before).take(i as int).push(
                    before[i as int]@,
                ));
                reveal(Seq::filter);
                assert(views(before).take(i + 1).drop_last() =~= views(before).take(i as int));
                views(before).take(i as int).lemma_filter_len(keep);
            }
            let event = self.events.pop().unwrap();
            proof {
                assert(event@ == before[i as int]@);
                assert(views(self.events@) =~= views(waiting).drop_first());
                assert(views(self.events@) =~= views(before.skip(i + 1)) + done);
            }
            let key = Key::from(&event);
            if !self.covered(scope, &key) {
                let ghost rest = self.events@;
                let r = self.events.push(event);
                proof {
                    assert(keep(event@));
                    assert(rest.len() < n);
                    assert(self.events@ == rest.push(event));
                    assert(views(rest.push(event)) =~= views(rest).push(event@));
                    assert(views(self.events@) =~= views(before.skip(i + 1)) + done.push(event@));
                }
            } else {
                proof {
                    assert(!keep(event@));
                }
            }
            i += 1;
        }
        proof {
            assert(views(before.skip(n as int)) =~= Seq::<EventView>::empty());
            assert(views(before).take(n as int) =~= views(before));
            assert(views(self.events@) =~= views(before).filter(keep));
        }
    }
}

/// What is given up at once: the handler of one key, or every handler of one
/// instance.
enum Scope<'a, B: Api> {
    Key(&'a Key<B>),
    Instance(InstId),
}

impl<'a, B: Api> Scope<'a, B> {
    /// Whether the handler of `key` is given up.
    spec fn covers(self, handlers: Map<KeyView, HandlerView>, key: KeyView) -> bool {
        match self {
            Scope::Key(given) => key == given@,
            Scope::Instance(inst) => owned(handlers, inst).contains(key),
        }
    }

    /// The keys whose handlers are given up.
    spec fn keys(self, handlers: Map<KeyView, HandlerView>) -> Set<KeyView> {
        Set::new(|key: KeyView| self.covers(handlers, key))
    }
}

} // verus!
