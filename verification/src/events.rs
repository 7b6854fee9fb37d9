//! Frame-scoped typed event queues. Producers append during a frame; the
//! designated consumer drains the queue and clears it exactly once per
//! frame, so insertion order is the order consumers observe.

use vstd::prelude::*;

verus! {

/// A FIFO mailbox of events of one type, scoped to a single frame.
pub struct EventQueue<T> {
    items: Vec<T>,
}

impl<T> View for EventQueue<T> {
    type V = Seq<T>;

    closed spec fn view(&self) -> Seq<T> {
        self.items@
    }
}

impl<T> EventQueue<T> {
    /// An empty queue.
    pub fn new() -> (r: EventQueue<T>)
        ensures
            r@ == Seq::<T>::empty(),
    {
        EventQueue { items: Vec::new() }
    }

    /// Append one event at the back of the queue.
    pub fn push(&mut self, e: T)
        ensures
            final(self)@ == old(self)@.push(e),
    {
        self.items.push(e);
    }

    /// Discard every event. Done exactly once per frame, by the queue's
    /// designated consumer, after the queue has been drained.
    pub fn clear(&mut self)
        ensures
            final(self)@ == Seq::<T>::empty(),
    {
        self.items.clear();
    }

    pub fn len(&self) -> (n: usize)
        ensures
            n == self@.len(),
    {
        self.items.len()
    }

    pub fn get(&self, i: usize) -> (r: &T)
        requires
            i < self@.len(),
        ensures
            *r == self@[i as int],
    {
        &self.items[i]
    }

    /// Borrow the queued events, oldest first.
    pub fn entries(&self) -> (r: &Vec<T>)
        ensures
            r@ == self@,
    {
        &self.items
    }

    /// Replace the whole contents of the queue, clearing what was there.
    pub fn replace(&mut self, items: Vec<T>)
        ensures
            final(self)@ == items@,
    {
        self.items = items;
    }
}

impl<T> Default for EventQueue<T> {
    fn default() -> (r: EventQueue<T>)
        ensures
            r@ == Seq::<T>::empty(),
    {
        EventQueue { items: Vec::new() }
    }
}

} // verus!
