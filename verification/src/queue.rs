//! A first-in first-out queue of bounded length that refuses what does not
//! fit.

use std::collections::VecDeque;
use vstd::prelude::*;

verus! {

/// What `push` does to the contents of a queue of capacity `capacity`: the
/// item goes to the back if there is room, and is dropped otherwise.
pub open spec fn push_spec<T>(items: Seq<T>, capacity: nat, item: T) -> Seq<T> {
    if items.len() < capacity {
        items.push(item)
    } else {
        items
    }
}

/// The contents after pushing each of `more` in order.
pub open spec fn push_all_spec<T>(items: Seq<T>, capacity: nat, more: Seq<T>) -> Seq<T>
    decreases more.len(),
{
    if more.len() == 0 {
        items
    } else {
        push_all_spec(push_spec(items, capacity, more.first()), capacity, more.drop_first())
    }
}

/// The contents after popping `n` times.
pub open spec fn pop_n_spec<T>(items: Seq<T>, n: nat) -> Seq<T>
    decreases n,
{
    if n == 0 || items.len() == 0 {
        items
    } else {
        pop_n_spec(items.drop_first(), (n - 1) as nat)
    }
}

/// A queue that holds at most `capacity()` items, oldest first.
pub struct Bounded<T> {
    items: VecDeque<T>,
    capacity: usize,
}

impl<T> View for Bounded<T> {
    type V = Seq<T>;

    closed spec fn view(&self) -> Seq<T> {
        self.items@
    }
}

impl<T> Bounded<T> {
    /// The queue never holds more than its capacity.
    pub closed spec fn inv(self) -> bool {
        self.items@.len() <= self.capacity
    }

    /// The most items that the queue holds at once.
    pub closed spec fn capacity(self) -> nat {
        self.capacity as nat
    }

    /// The contents are within the capacity.
    pub proof fn lemma_within_capacity(self)
        requires
            self.inv(),
        ensures
            self@.len() <= self.capacity(),
    {
    }

    /// An empty queue for at most `capacity` items.
    pub fn new(capacity: usize) -> (queue: Self)
        ensures
            queue.inv(),
            queue@ == Seq::<T>::empty(),
            queue.capacity() == capacity as nat,
    {
        Bounded { items: VecDeque::new(), capacity }
    }

    /// The number of items waiting.
    pub fn len(&self) -> (n: usize)
        ensures
            n == self@.len(),
            self.inv() ==> n <= self.capacity(),
    {
        self.items.len()
    }

    /// Whether nothing is waiting.
    pub fn is_empty(&self) -> (r: bool)
        ensures
            r == (self@.len() == 0),
    {
        self.items.len() == 0
    }

    /// Whether the next `push` would drop its item.
    pub fn is_full(&self) -> (r: bool)
        ensures
            r == (self@.len() >= self.capacity()),
    {
        self.items.len() >= self.capacity
    }

    /// Appends `item` if there is room. A full queue keeps its items and
    /// their order, and hands the new item back.
    pub fn push(&mut self, item: T) -> (r: Result<(), T>)
        ensures
            old(self).inv() ==> final(self).inv(),
            final(self).capacity() == old(self).capacity(),
            final(self)@ == push_spec(old(self)@, old(self).capacity(), item),
            r is Ok <==> old(self)@.len() < old(self).capacity(),
            r matches Err(dropped) ==> dropped == item,
    {
        if self.items.len() < self.capacity {
            self.items.push_back(item);
            Ok(())
        } else {
            Err(item)
        }
    }

    /// Removes the oldest item, if there is one.
    pub fn pop(&mut self) -> (r: Option<T>)
        ensures
            old(self).inv() ==> final(self).inv(),
            final(self).capacity() == old(self).capacity(),
            old(self)@.len() == 0 ==> r is None && final(self)@ == old(self)@,
            old(self)@.len() > 0 ==> r == Some(old(self)@.first()) && final(self)@ == old(self)@.drop_first(),
    {
        let r = self.items.pop_front();
        proof {
            if old(self)@.len() > 0 {
                assert(self.items@ =~= old(self)@.drop_first());
            }
        }
        r
    }

    /// The item at position `i`, counted from the oldest.
    pub fn get(&self, i: usize) -> (r: &T)
        requires
            i < self@.len(),
        ensures
            *r == self@[i as int],
    {
        &self.items[i]
    }
}

/// Pushing a run of items and then one more is pushing the longer run.
pub proof fn lemma_push_all_then_push<T>(items: Seq<T>, capacity: nat, more: Seq<T>, item: T)
    ensures
        push_all_spec(items, capacity, more.push(item)) == push_spec(
            push_all_spec(items, capacity, more),
            capacity,
            item,
        ),
    decreases more.len(),
{
    if more.len() == 0 {
        assert(more.push(item).drop_first() =~= Seq::<T>::empty());
        assert(push_all_spec(push_spec(items, capacity, item), capacity, Seq::<T>::empty())
            == push_spec(items, capacity, item));
    } else {
        assert(more.push(item).drop_first() =~= more.drop_first().push(item));
        lemma_push_all_then_push(
            push_spec(items, capacity, more.first()),
            capacity,
            more.drop_first(),
            item,
        );
    }
}

/// Pushing items one by one fills the queue up to its capacity with the
/// oldest of them, in the order given, and drops the rest.
pub proof fn lemma_push_all_keeps_oldest<T>(items: Seq<T>, capacity: nat, more: Seq<T>)
    requires
        items.len() <= capacity,
    ensures
        push_all_spec(items, capacity, more).len() == if items.len() + more.len() <= capacity {
            items.len() + more.len()
        } else {
            capacity
        },
        push_all_spec(items, capacity, more) == (items + more).take(
            push_all_spec(items, capacity, more).len() as int,
        ),
    decreases more.len(),
{
    if more.len() == 0 {
        assert((items + more).take(items.len() as int) =~= items);
    } else {
        let next = push_spec(items, capacity, more.first());
        let rest = more.drop_first();
        lemma_push_all_keeps_oldest(next, capacity, rest);
        let n = push_all_spec(next, capacity, rest).len() as int;
        if items.len() < capacity {
            assert(next + rest =~= items + more);
        } else {
            assert(n == capacity);
            assert((next + rest).take(n) =~= (items + more).take(n));
        }
    }
}

/// Filling an empty queue of capacity `capacity` with one item too many
/// keeps the first `capacity` items in their order and drops the last.
pub proof fn lemma_overflow_drops_newest<T>(capacity: nat, more: Seq<T>)
    requires
        more.len() == capacity + 1,
    ensures
        push_all_spec(Seq::<T>::empty(), capacity, more) == more.take(capacity as int),
        push_all_spec(Seq::<T>::empty(), capacity, more) == more.drop_last(),
{
    lemma_push_all_keeps_oldest(Seq::<T>::empty(), capacity, more);
    assert(Seq::<T>::empty() + more =~= more);
    assert(more.take(capacity as int) =~= more.drop_last());
}

/// Popping as many items as a sequence starts with leaves what followed.
pub proof fn lemma_pop_n_skips<T>(items: Seq<T>, n: nat)
    requires
        n <= items.len(),
    ensures
        pop_n_spec(items, n) == items.skip(n as int),
    decreases n,
{
    if n == 0 {
        assert(items.skip(0) =~= items);
    } else {
        lemma_pop_n_skips(items.drop_first(), (n - 1) as nat);
        assert(items.drop_first().skip(n - 1) =~= items.skip(n as int));
    }
}

/// Two items that both enter the queue leave it in the order in which they
/// entered, after everything that was waiting before them.
pub proof fn lemma_first_in_first_out<T>(items: Seq<T>, capacity: nat, first: T, second: T)
    requires
        items.len() + 2 <= capacity,
    ensures
        push_spec(push_spec(items, capacity, first), capacity, second) == items.push(first).push(
            second,
        ),
        pop_n_spec(
            push_spec(push_spec(items, capacity, first), capacity, second),
            items.len(),
        ) == seq![first, second],
{
    let both = items.push(first).push(second);
    lemma_pop_n_skips(both, items.len());
    assert(both.skip(items.len() as int) =~= seq![first, second]);
}

} // verus!
