//! The inbound buffer of unprocessed orders.

use vstd::prelude::*;
use crate::order::Order;

verus! {

/// A FIFO buffer of orders awaiting processing.
///
/// Producers append at the tail; the queue drainer consumes from the head or
/// takes a snapshot of everything at once. The mutual exclusion that
/// serializes concurrent producers is the embedder's concern; the queue
/// itself is a plain sequence.
pub struct Queue {
    orders: Vec<Order>,
}

impl View for Queue {
    type V = Seq<Order>;

    closed spec fn view(&self) -> Seq<Order> {
        self.orders@
    }
}

impl Queue {
    /// An empty queue.
    pub fn new() -> (r: Queue)
        ensures
            r@ == Seq::<Order>::empty(),
    {
        Queue { orders: Vec::new() }
    }

    /// Appends an order at the tail.
    pub fn push(&mut self, order: Order)
        ensures
            final(self)@ == old(self)@.push(order),
    {
        self.orders.push(order);
    }

    /// Removes and returns the order at the head, oldest first.
    pub fn pop(&mut self) -> (r: Option<Order>)
        ensures
            old(self)@.len() == 0 ==> r is None && final(self)@ == old(self)@,
            old(self)@.len() > 0 ==> r == Some(old(self)@[0]) && final(self)@ == old(self)@.drop_first(),
    {
        if self.orders.len() == 0 {
            None
        } else {
            let r = self.orders.remove(0);
            proof {
                assert(self.orders@ =~= old(self)@.drop_first());
            }
            Some(r)
        }
    }

    /// Drains the queue: returns every enqueued order, in insertion order,
    /// leaving the queue empty.
    pub fn pop_all(&mut self) -> (r: Vec<Order>)
        ensures
            r@ == old(self)@,
            final(self)@ == Seq::<Order>::empty(),
    {
        let mut drained: Vec<Order> = Vec::new();
        core::mem::swap(&mut self.orders, &mut drained);
        drained
    }

    /// The number of orders waiting.
    pub fn len(&self) -> (r: usize)
        ensures
            r == self@.len(),
    {
        self.orders.len()
    }
}

} // verus!
