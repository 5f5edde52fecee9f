//! The outbound queue: the single consumer's view of everything that
//! waits to be written to the output stream.
//!
//! Handlers and the server loop enqueue whole messages; one writer
//! drains them, so that two frames can never interleave on the wire.
//! The queue is first-in first-out: what one producer enqueues in some
//! order leaves in that order.

use vstd::prelude::*;
use crate::message::Message;

verus! {

/// An ordered queue of outbound messages.
pub struct OutboundQueue {
    items: Vec<Message>,
}

impl View for OutboundQueue {
    type V = Seq<Message>;

    closed spec fn view(&self) -> Seq<Message> {
        self.items@
    }
}

impl OutboundQueue {
    /// An empty queue.
    pub fn new() -> (r: OutboundQueue)
        ensures
            r@ == Seq::<Message>::empty(),
    {
        let r = OutboundQueue { items: Vec::new() };
        proof {
            assert(r@ =~= Seq::<Message>::empty());
        }
        r
    }

    /// Put a message at the back.
    pub fn enqueue(&mut self, m: Message)
        ensures
            final(self)@ == old(self)@.push(m),
    {
        self.items.push(m);
    }

    /// Take the oldest message, if any.
    pub fn dequeue(&mut self) -> (r: Option<Message>)
        ensures
            match r {
                Some(m) => old(self)@.len() > 0 && m == old(self)@[0] && final(self)@ == old(
                    self,
                )@.skip(1),
                None => old(self)@.len() == 0 && final(self)@ == old(self)@,
            },
    {
        if self.items.len() == 0 {
            None
        } else {
            let m = self.items.remove(0);
            proof {
                assert(self@ =~= old(self)@.skip(1));
            }
            Some(m)
        }
    }

    /// How many messages wait.
    pub fn len(&self) -> (r: usize)
        ensures
            r == self@.len(),
    {
        self.items.len()
    }
}

} // verus!
