//! A bounded FIFO of undelivered messages, one per subscription.
//!
//! When a push would exceed the capacity the queue discards its own oldest
//! entry to make room, so a subscriber that stops draining loses old messages
//! instead of stalling anyone: the policy behind the hub's lossy fan-out.

use vstd::prelude::*;

use crate::msg::Message;
use crate::msg::MsgV;

verus! {

/// What a bounded push leaves in a queue: the message appended, with the
/// oldest entry dropped first when the queue already holds `cap` messages.
pub open spec fn bounded_push(q: Seq<MsgV>, m: MsgV, cap: nat) -> Seq<MsgV> {
    if q.len() < cap {
        q.push(m)
    } else {
        q.skip(1).push(m)
    }
}

/// A FIFO holding at most `cap` messages, dropping its oldest on overflow.
pub struct BoundedQueue {
    pub items: Vec<Message>,
    pub cap: usize,
}

impl BoundedQueue {
    /// The queued messages, oldest first.
    pub open spec fn contents(self) -> Seq<MsgV> {
        self.items@.map_values(|m: Message| m@)
    }

    /// The holding capacity the queue was made with.
    pub open spec fn cap_spec(self) -> nat {
        self.cap as nat
    }

    /// A queue is well formed when it has room for at least one message and
    /// holds no more than its capacity.
    pub open spec fn wf(self) -> bool {
        1 <= self.cap && self.items@.len() <= self.cap
    }

    /// An empty queue with capacity `cap`.
    pub fn new(cap: usize) -> (q: BoundedQueue)
        requires
            1 <= cap,
        ensures
            q.wf(),
            q.cap_spec() == cap as nat,
            q.contents() == Seq::<MsgV>::empty(),
    {
        let q = BoundedQueue { items: Vec::new(), cap };
        proof {
            assert(q.contents() =~= Seq::<MsgV>::empty());
        }
        q
    }

    /// Enqueues `m`, discarding this queue's oldest entry if it is full.
    pub fn push_drop_oldest(&mut self, m: Message)
        requires
            old(self).wf(),
        ensures
            final(self).wf(),
            final(self).cap_spec() == old(self).cap_spec(),
            final(self).contents() == bounded_push(old(self).contents(), m@, old(self).cap_spec()),
    {
        if self.items.len() == self.cap {
            self.items.remove(0);
        }
        self.items.push(m);
        proof {
            assert(self.contents() =~= bounded_push(
                old(self).contents(),
                m@,
                old(self).cap_spec(),
            ));
        }
    }

    /// Dequeues the oldest message, if any.
    pub fn pop_front(&mut self) -> (r: Option<Message>)
        requires
            old(self).wf(),
        ensures
            final(self).wf(),
            final(self).cap_spec() == old(self).cap_spec(),
            old(self).contents().len() == 0 ==> r is None && final(self).contents()
                == old(self).contents(),
            old(self).contents().len() > 0 ==> (r matches Some(m) && m@ == old(
                self,
            ).contents()[0] && final(self).contents() == old(self).contents().skip(1)),
    {
        if self.items.len() == 0 {
            None
        } else {
            let m = self.items.remove(0);
            proof {
                assert(self.contents() =~= old(self).contents().skip(1));
            }
            Some(m)
        }
    }

    /// How many messages wait in the queue.
    pub fn len(&self) -> (n: usize)
        ensures
            n == self.contents().len(),
    {
        self.items.len()
    }
}

} // verus!
