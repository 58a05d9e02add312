//! A bounded queue for one reader that may fall behind. The writer never
//! waits: when the queue is full, the oldest pending item gives way to the
//! new one, so a slow reader skips what it missed and sees the latest items.

use std::collections::VecDeque;
use vstd::prelude::*;

verus! {

/// The last `capacity` items of `items`.
pub open spec fn latest<T>(items: Seq<T>, capacity: nat) -> Seq<T> {
    if items.len() <= capacity {
        items
    } else {
        items.skip(items.len() - capacity)
    }
}

/// What is pending after `item` was pushed onto `pending`.
pub open spec fn pushed<T>(pending: Seq<T>, capacity: nat, item: T) -> Seq<T> {
    latest(pending.push(item), capacity)
}

/// What is pending after each of `items` was pushed in turn.
pub open spec fn pushed_all<T>(pending: Seq<T>, capacity: nat, items: Seq<T>) -> Seq<T>
    decreases items.len(),
{
    if items.len() == 0 {
        pending
    } else {
        pushed_all(pushed(pending, capacity, items.first()), capacity, items.drop_first())
    }
}

/// The items waiting for one reader, oldest first.
pub struct Outbox<T> {
    items: VecDeque<T>,
    capacity: usize,
}

/// An outbox as contracts see it.
pub struct OutboxView<T> {
    /// The pending items, oldest first.
    pub pending: Seq<T>,
    /// The most items that can be pending.
    pub capacity: nat,
}

impl<T> View for Outbox<T> {
    type V = OutboxView<T>;

    closed spec fn view(&self) -> OutboxView<T> {
        OutboxView { pending: self.items@, capacity: self.capacity as nat }
    }
}

impl<T> Outbox<T> {
    /// An empty outbox that holds up to `capacity` items.
    pub fn new(capacity: usize) -> (outbox: Outbox<T>)
        ensures
            outbox@.pending == Seq::<T>::empty(),
            outbox@.capacity == capacity,
    {
        Outbox { items: VecDeque::new(), capacity }
    }

    /// The number of pending items.
    pub fn len(&self) -> (n: usize)
        ensures
            n == self@.pending.len(),
    {
        self.items.len()
    }

    /// Whether nothing is pending.
    pub fn is_empty(&self) -> (empty: bool)
        ensures
            empty == (self@.pending.len() == 0),
    {
        self.items.len() == 0
    }

    /// Adds `item` as the newest. A full outbox loses its oldest item, so
    /// that never more than the capacity is pending.
    pub fn push(&mut self, item: T)
        ensures
            final(self)@.pending == pushed(old(self)@.pending, old(self)@.capacity, item),
            final(self)@.pending.len() <= old(self)@.capacity,
            final(self)@.capacity == old(self)@.capacity,
    {
        if self.capacity == 0 {
            self.items.clear();
            assert(self@.pending =~= pushed(old(self)@.pending, 0, item));
            return ;
        }
        while self.items.len() >= self.capacity
            invariant
                self.capacity == old(self).capacity,
                self.capacity > 0,
                self.items@.len() <= old(self)@.pending.len(),
                self.items@.len() == old(self)@.pending.len() || self.items@.len() + 1 >= self.capacity,
                self.items@ == old(self)@.pending.skip(old(self)@.pending.len() - self.items@.len()),
            decreases self.items@.len(),
        {
            let _ = self.items.pop_front();
            assert(self.items@ =~= old(self)@.pending.skip(old(self)@.pending.len() - self.items@.len()));
        }
        self.items.push_back(item);
        assert(self@.pending =~= pushed(old(self)@.pending, old(self)@.capacity, item));
    }

    /// Takes the oldest pending item, if there is one.
    pub fn pop(&mut self) -> (item: Option<T>)
        ensures
            final(self)@.capacity == old(self)@.capacity,
            match item {
                Some(oldest) => old(self)@.pending.len() > 0 && oldest == old(self)@.pending[0] && final(self)@.pending
                    == old(self)@.pending.skip(1),
                None => old(self)@.pending.len() == 0 && final(self)@.pending == old(self)@.pending,
            },
    {
        let item = self.items.pop_front();
        assert(item.is_some() ==> self@.pending =~= old(self)@.pending.skip(1));
        item
    }

    /// Drops everything that is pending.
    pub fn clear(&mut self)
        ensures
            final(self)@.pending == Seq::<T>::empty(),
            final(self)@.capacity == old(self)@.capacity,
    {
        self.items.clear();
    }
}

/// However many items are pushed, what is pending is the latest of all that
/// was ever pending or pushed: a reader that fell behind finds the newest
/// items and none of the backlog beyond the capacity.
pub proof fn lemma_pushed_all_keeps_latest<T>(pending: Seq<T>, capacity: nat, items: Seq<T>)
    requires
        pending.len() <= capacity,
    ensures
        pushed_all(pending, capacity, items) == latest(pending + items, capacity),
    decreases items.len(),
{
    if items.len() == 0 {
        assert(pending + items =~= pending);
    } else {
        let next = pushed(pending, capacity, items.first());
        lemma_pushed_all_keeps_latest(next, capacity, items.drop_first());
        assert(latest(next + items.drop_first(), capacity) =~= latest(pending + items, capacity));
    }
}

} // verus!
