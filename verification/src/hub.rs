//! The fan-out hub: a set of subscriptions, each with its own bounded queue.
//!
//! A published message is offered to exactly the subscriptions present at the
//! moment of publishing, except the publisher's own; a subscription created
//! later never sees it (no replay). Each subscription's queue is bounded and
//! drops its own oldest entry on overflow, so a slow consumer never blocks
//! publishing or delivery to anyone else.
//!
//! The exec methods are specified against the spec-level transitions
//! [`spec_subscribe`], [`spec_publish`], [`spec_unsubscribe`] and [`spec_pop`],
//! so laws about whole runs are stated and proved over those alone.

use vstd::prelude::*;

use crate::msg::Message;
use crate::msg::MsgV;
use crate::queue::BoundedQueue;
use crate::queue::bounded_push;

verus! {

/// The mathematical value of one subscription: its id and its pending queue.
#[verifier::ext_equal]
pub ghost struct SubV {
    pub id: u64,
    pub queue: Seq<MsgV>,
}

/// The mathematical value of the hub.
#[verifier::ext_equal]
pub ghost struct HubV {
    pub subs: Seq<SubV>,
    pub next_id: int,
    pub cap: nat,
}

impl HubV {
    /// Well-formed: positive capacity, ids strictly increasing (hence unique)
    /// and below the next id to hand out, queues within capacity.
    pub open spec fn wf(self) -> bool {
        &&& 1 <= self.cap
        &&& 0 <= self.next_id <= u64::MAX
        &&& forall|k: int|
            0 <= k < self.subs.len() ==> (#[trigger] self.subs[k]).queue.len() <= self.cap
        &&& forall|k: int| 0 <= k < self.subs.len() ==> (#[trigger] self.subs[k]).id < self.next_id
        &&& forall|k1: int, k2: int|
            0 <= k1 < k2 < self.subs.len() ==> (#[trigger] self.subs[k1]).id < (
            #[trigger] self.subs[k2]).id
    }

    /// Whether a subscription with this id is registered.
    pub open spec fn has(self, id: u64) -> bool {
        exists|k: int| 0 <= k < self.subs.len() && (#[trigger] self.subs[k]).id == id
    }

    /// The position of the subscription with this id (meaningful under `has`).
    pub open spec fn index_of(self, id: u64) -> int {
        choose|k: int| 0 <= k < self.subs.len() && (#[trigger] self.subs[k]).id == id
    }

    /// The pending queue of the subscription with this id.
    pub open spec fn queue_of(self, id: u64) -> Seq<MsgV> {
        self.subs[self.index_of(id)].queue
    }
}

/// In a well-formed hub an id resolves to exactly one position.
pub proof fn lemma_index_of(h: HubV, id: u64)
    requires
        h.wf(),
        h.has(id),
    ensures
        0 <= h.index_of(id) < h.subs.len(),
        h.subs[h.index_of(id)].id == id,
        forall|k: int| 0 <= k < h.subs.len() && (#[trigger] h.subs[k]).id == id ==> k == h.index_of(
            id,
        ),
{
    let k0 = h.index_of(id);
    assert(0 <= k0 < h.subs.len() && h.subs[k0].id == id);
    assert forall|k: int| 0 <= k < h.subs.len() && (#[trigger] h.subs[k]).id == id implies k
        == k0 by {
        if k < k0 {
            assert(h.subs[k].id < h.subs[k0].id);
        }
        if k0 < k {
            assert(h.subs[k0].id < h.subs[k].id);
        }
    }
}

/// Registering a new subscription: a fresh id, an empty queue, no replay of
/// anything published before.
pub open spec fn spec_subscribe(h: HubV) -> HubV {
    HubV {
        subs: h.subs.push(SubV { id: h.next_id as u64, queue: Seq::empty() }),
        next_id: h.next_id + 1,
        cap: h.cap,
    }
}

/// What publishing does to one subscription: the publisher's own queue is
/// untouched, every other queue takes the message by a bounded push.
pub open spec fn pub_sub(s: SubV, from: u64, m: MsgV, cap: nat) -> SubV {
    if s.id == from {
        s
    } else {
        SubV { id: s.id, queue: bounded_push(s.queue, m, cap) }
    }
}

/// Offering a message to every current subscription except the publisher's.
pub open spec fn spec_publish(h: HubV, from: u64, m: MsgV) -> HubV {
    HubV {
        subs: h.subs.map_values(|s: SubV| pub_sub(s, from, m, h.cap)),
        next_id: h.next_id,
        cap: h.cap,
    }
}

/// Removing a subscription; a hub without that id is left as it is.
pub open spec fn spec_unsubscribe(h: HubV, id: u64) -> HubV {
    if h.has(id) {
        HubV { subs: h.subs.remove(h.index_of(id)), next_id: h.next_id, cap: h.cap }
    } else {
        h
    }
}

/// Taking the oldest pending message of one subscription, if any.
pub open spec fn spec_pop(h: HubV, id: u64) -> (HubV, Option<MsgV>) {
    if h.has(id) && h.queue_of(id).len() > 0 {
        let k = h.index_of(id);
        (
            HubV {
                subs: h.subs.update(k, SubV { id: id, queue: h.subs[k].queue.skip(1) }),
                next_id: h.next_id,
                cap: h.cap,
            },
            Some(h.subs[k].queue[0]),
        )
    } else {
        (h, None)
    }
}

/// What registering a subscription does: the old subscriptions are kept as
/// they are, the new one starts with an empty queue under an id nobody has
/// carried before.
pub proof fn lemma_subscribe_effects(h: HubV)
    requires
        h.wf(),
        h.next_id < u64::MAX,
    ensures
        spec_subscribe(h).wf(),
        spec_subscribe(h).subs.len() == h.subs.len() + 1,
        forall|k: int| 0 <= k < h.subs.len() ==> spec_subscribe(h).subs[k] == #[trigger] h.subs[k],
        !h.has(h.next_id as u64),
        spec_subscribe(h).has(h.next_id as u64),
        spec_subscribe(h).queue_of(h.next_id as u64) == Seq::<MsgV>::empty(),
        forall|id: u64| h.has(id) ==> #[trigger] spec_subscribe(h).has(id),
        forall|id: u64|
            h.has(id) ==> #[trigger] spec_subscribe(h).index_of(id) == h.index_of(id)
                && spec_subscribe(h).queue_of(id) == h.queue_of(id),
{
    let nid = h.next_id as u64;
    assert(spec_subscribe(h).subs[h.subs.len() as int].id == nid);
    assert(spec_subscribe(h).wf());
    lemma_index_of(spec_subscribe(h), nid);
    assert(spec_subscribe(h).queue_of(nid) == Seq::<MsgV>::empty());
    assert forall|id: u64| h.has(id) implies #[trigger] spec_subscribe(h).has(id) by {
        lemma_index_of(h, id);
        assert(spec_subscribe(h).subs[h.index_of(id)].id == id);
    }
    assert forall|id: u64| h.has(id) implies #[trigger] spec_subscribe(h).index_of(id)
        == h.index_of(id) && spec_subscribe(h).queue_of(id) == h.queue_of(id) by {
        lemma_index_of(h, id);
        let k = h.index_of(id);
        assert(spec_subscribe(h).subs[k].id == id);
        lemma_index_of(spec_subscribe(h), id);
    }
}

/// What publishing does: nobody joins or leaves, the publisher's own queue
/// is untouched, and every other queue takes the message by a bounded push
/// of its own, regardless of how full any other queue is.
pub proof fn lemma_publish_effects(h: HubV, from: u64, m: MsgV)
    requires
        h.wf(),
    ensures
        spec_publish(h, from, m).wf(),
        spec_publish(h, from, m).subs.len() == h.subs.len(),
        forall|k: int|
            0 <= k < h.subs.len() ==> #[trigger] spec_publish(h, from, m).subs[k].id
                == h.subs[k].id,
        forall|id: u64| #[trigger] spec_publish(h, from, m).has(id) <==> h.has(id),
        forall|id: u64|
            h.has(id) ==> #[trigger] spec_publish(h, from, m).index_of(id) == h.index_of(id),
        forall|id: u64|
            h.has(id) && id != from ==> #[trigger] spec_publish(h, from, m).queue_of(id)
                == bounded_push(h.queue_of(id), m, h.cap),
        h.has(from) ==> spec_publish(h, from, m).queue_of(from) == h.queue_of(from),
{
    assert forall|k: int|
        0 <= k < h.subs.len() implies #[trigger] spec_publish(h, from, m).subs[k].id
        == h.subs[k].id && spec_publish(h, from, m).subs[k].queue.len() <= h.cap by {
        assert(spec_publish(h, from, m).subs[k] == pub_sub(h.subs[k], from, m, h.cap));
    }
    assert(spec_publish(h, from, m).wf());
    assert forall|id: u64| #[trigger] spec_publish(h, from, m).has(id) implies h.has(id) by {
        let k = choose|k: int|
            0 <= k < spec_publish(h, from, m).subs.len() && spec_publish(h, from, m).subs[k].id
                == id;
        assert(h.subs[k].id == id);
    }
    assert forall|id: u64| h.has(id) implies #[trigger] spec_publish(h, from, m).has(id) by {
        lemma_index_of(h, id);
        assert(spec_publish(h, from, m).subs[h.index_of(id)].id == id);
    }
    assert forall|id: u64| h.has(id) implies #[trigger] spec_publish(h, from, m).index_of(id)
        == h.index_of(id) by {
        lemma_index_of(h, id);
        let k = h.index_of(id);
        assert(spec_publish(h, from, m).subs[k].id == id);
        lemma_index_of(spec_publish(h, from, m), id);
    }
    assert forall|id: u64| h.has(id) && id != from implies #[trigger] spec_publish(
        h,
        from,
        m,
    ).queue_of(id) == bounded_push(h.queue_of(id), m, h.cap) by {
        lemma_index_of(h, id);
        let k = h.index_of(id);
        assert(spec_publish(h, from, m).subs[k].id == id);
        lemma_index_of(spec_publish(h, from, m), id);
        assert(spec_publish(h, from, m).subs[k] == pub_sub(h.subs[k], from, m, h.cap));
    }
    if h.has(from) {
        lemma_index_of(h, from);
        let k = h.index_of(from);
        assert(spec_publish(h, from, m).subs[k].id == from);
        lemma_index_of(spec_publish(h, from, m), from);
        assert(spec_publish(h, from, m).subs[k] == pub_sub(h.subs[k], from, m, h.cap));
    }
}

/// What dropping a subscription does: that id is gone, everyone else keeps
/// their place in line and their pending queue.
pub proof fn lemma_unsubscribe_effects(h: HubV, id: u64)
    requires
        h.wf(),
    ensures
        spec_unsubscribe(h, id).wf(),
        !spec_unsubscribe(h, id).has(id),
        forall|id2: u64|
            id2 != id ==> (#[trigger] spec_unsubscribe(h, id).has(id2) <==> h.has(id2)),
        forall|id2: u64|
            id2 != id && h.has(id2) ==> #[trigger] spec_unsubscribe(h, id).queue_of(id2)
                == h.queue_of(id2),
{
    if h.has(id) {
        lemma_index_of(h, id);
        let j = h.index_of(id);
        assert forall|k: int|
            0 <= k < spec_unsubscribe(h, id).subs.len() implies #[trigger] spec_unsubscribe(
            h,
            id,
        ).subs[k] == (if k < j {
            h.subs[k]
        } else {
            h.subs[k + 1]
        }) by {}
        assert(spec_unsubscribe(h, id).wf());
        assert forall|k: int|
            0 <= k < spec_unsubscribe(h, id).subs.len() implies (#[trigger] spec_unsubscribe(
            h,
            id,
        ).subs[k]).id != id by {}
        assert forall|id2: u64| id2 != id && h.has(id2) implies #[trigger] spec_unsubscribe(
            h,
            id,
        ).has(id2) by {
            lemma_index_of(h, id2);
            let k = h.index_of(id2);
            if k < j {
                assert(spec_unsubscribe(h, id).subs[k].id == id2);
            } else {
                assert(spec_unsubscribe(h, id).subs[k - 1].id == id2);
            }
        }
        assert forall|id2: u64| id2 != id && h.has(id2) implies #[trigger] spec_unsubscribe(
            h,
            id,
        ).queue_of(id2) == h.queue_of(id2) by {
            lemma_index_of(h, id2);
            let k = h.index_of(id2);
            if k < j {
                assert(spec_unsubscribe(h, id).subs[k].id == id2);
            } else {
                assert(spec_unsubscribe(h, id).subs[k - 1].id == id2);
            }
            lemma_index_of(spec_unsubscribe(h, id), id2);
        }
        assert forall|id2: u64|
            id2 != id && #[trigger] spec_unsubscribe(h, id).has(id2) implies h.has(id2) by {
            lemma_index_of(spec_unsubscribe(h, id), id2);
            let k = spec_unsubscribe(h, id).index_of(id2);
            if k < j {
                assert(h.subs[k].id == id2);
            } else {
                assert(h.subs[k + 1].id == id2);
            }
        }
    }
}

/// What taking a delivery does: only that subscription's queue advances, by
/// exactly its oldest message; everyone stays registered.
pub proof fn lemma_pop_effects(h: HubV, id: u64)
    requires
        h.wf(),
    ensures
        spec_pop(h, id).0.wf(),
        forall|id2: u64| #[trigger] spec_pop(h, id).0.has(id2) <==> h.has(id2),
        forall|id2: u64|
            id2 != id && h.has(id2) ==> #[trigger] spec_pop(h, id).0.queue_of(id2) == h.queue_of(
                id2,
            ),
        h.has(id) && h.queue_of(id).len() > 0 ==> spec_pop(h, id).0.queue_of(id) == h.queue_of(
            id,
        ).skip(1) && spec_pop(h, id).1 == Some(h.queue_of(id)[0]),
        !(h.has(id) && h.queue_of(id).len() > 0) ==> spec_pop(h, id).0 == h && spec_pop(h, id).1
            is None,
{
    if h.has(id) && h.queue_of(id).len() > 0 {
        lemma_index_of(h, id);
        let j = h.index_of(id);
        assert forall|k: int|
            0 <= k < spec_pop(h, id).0.subs.len() implies (#[trigger] spec_pop(h, id).0.subs[k]).id
            == h.subs[k].id by {}
        assert(spec_pop(h, id).0.wf());
        assert forall|id2: u64| #[trigger] spec_pop(h, id).0.has(id2) implies h.has(id2) by {
            let k = choose|k: int|
                0 <= k < spec_pop(h, id).0.subs.len() && spec_pop(h, id).0.subs[k].id == id2;
            assert(h.subs[k].id == id2);
        }
        assert forall|id2: u64| h.has(id2) implies #[trigger] spec_pop(h, id).0.has(id2)
            && spec_pop(h, id).0.index_of(id2) == h.index_of(id2) by {
            lemma_index_of(h, id2);
            let k = h.index_of(id2);
            assert(spec_pop(h, id).0.subs[k].id == id2);
            lemma_index_of(spec_pop(h, id).0, id2);
        }
        assert forall|id2: u64| id2 != id && h.has(id2) implies #[trigger] spec_pop(
            h,
            id,
        ).0.queue_of(id2) == h.queue_of(id2) by {
            lemma_index_of(h, id2);
            let k = h.index_of(id2);
            assert(spec_pop(h, id).0.subs[k].id == id2);
            lemma_index_of(spec_pop(h, id).0, id2);
            assert(k != j);
            assert(spec_pop(h, id).0.subs[k] == h.subs[k]);
        }
        assert(spec_pop(h, id).0.subs[j].id == id);
        lemma_index_of(spec_pop(h, id).0, id);
        assert(spec_pop(h, id).0.index_of(id) == j);
        assert(spec_pop(h, id).0.queue_of(id) == h.queue_of(id).skip(1));
    }
}

/// One registered subscription of the running hub.
pub struct Sub {
    pub id: u64,
    pub queue: BoundedQueue,
}

impl View for Sub {
    type V = SubV;

    open spec fn view(&self) -> SubV {
        SubV { id: self.id, queue: self.queue.contents() }
    }
}

/// The running hub: the one shared fan-out relay.
pub struct Hub {
    pub subs: Vec<Sub>,
    pub next_id: u64,
    pub cap: usize,
}

impl View for Hub {
    type V = HubV;

    open spec fn view(&self) -> HubV {
        HubV {
            subs: self.subs@.map_values(|s: Sub| s@),
            next_id: self.next_id as int,
            cap: self.cap as nat,
        }
    }
}

impl Hub {
    /// Well-formed: the view is, and every queue was made with the hub's
    /// capacity.
    pub open spec fn wf(self) -> bool {
        &&& self@.wf()
        &&& forall|k: int|
            0 <= k < self.subs@.len() ==> (#[trigger] self.subs@[k]).queue.cap_spec()
                == self.cap as nat
    }

    /// A hub with no subscriptions, handing each new one a queue of capacity
    /// `cap`.
    pub fn new(cap: usize) -> (h: Hub)
        requires
            1 <= cap,
        ensures
            h.wf(),
            h@ == (HubV { subs: Seq::empty(), next_id: 0, cap: cap as nat }),
    {
        let h = Hub { subs: Vec::new(), next_id: 0, cap };
        proof {
            assert(h@ =~~= HubV { subs: Seq::empty(), next_id: 0, cap: cap as nat });
        }
        h
    }

    /// Whether a fresh id can still be handed out.
    pub fn can_subscribe(&self) -> (r: bool)
        ensures
            r == (self@.next_id < u64::MAX),
    {
        self.next_id < u64::MAX
    }

    /// Registers a new subscription and returns its id, which no current or
    /// past subscription carries.
    pub fn subscribe(&mut self) -> (id: u64)
        requires
            old(self).wf(),
            old(self)@.next_id < u64::MAX,
        ensures
            final(self).wf(),
            final(self)@ == spec_subscribe(old(self)@),
            id == old(self)@.next_id,
            !old(self)@.has(id),
            final(self)@.has(id),
    {
        let id = self.next_id;
        self.next_id = self.next_id + 1;
        let q = BoundedQueue::new(self.cap);
        self.subs.push(Sub { id, queue: q });
        proof {
            assert(self@.subs =~~= spec_subscribe(old(self)@).subs);
            assert(self@ =~~= spec_subscribe(old(self)@));
            assert(self@.subs[self@.subs.len() - 1].id == id);
        }
        id
    }

    /// Offers `m` to every current subscription but `from`'s own; never
    /// blocks, never fails, and touches each queue independently of all the
    /// others.
    pub fn publish(&mut self, from: u64, m: &Message)
        requires
            old(self).wf(),
        ensures
            final(self).wf(),
            final(self)@ == spec_publish(old(self)@, from, m@),
    {
        let n = self.subs.len();
        proof {
            assert forall|k: int| 0 <= k < n implies (#[trigger] self.subs@[k]).queue.cap_spec()
                == self.cap as nat && self.subs@[k].queue.wf() by {
                assert(self@.subs[k] == self.subs@[k]@);
            }
        }
        let mut i: usize = 0;
        while i < n
            invariant
                old(self).wf(),
                n == self.subs.len(),
                i <= n,
                self.cap == old(self).cap,
                self.next_id == old(self).next_id,
                forall|k: int|
                    0 <= k < n ==> (#[trigger] self.subs@[k]).queue.cap_spec() == self.cap as nat
                        && self.subs@[k].queue.wf(),
                forall|k: int| i <= k < n ==> (#[trigger] self.subs@[k])@ == old(self).subs@[k]@,
                forall|k: int|
                    0 <= k < i ==> (#[trigger] self.subs@[k])@ == pub_sub(
                        old(self).subs@[k]@,
                        from,
                        m@,
                        old(self)@.cap,
                    ),
            decreases n - i,
        {
            let ghost prev = self.subs@;
            let mut s = self.subs.remove(i);
            if s.id != from {
                s.queue.push_drop_oldest(m.duplicate());
            }
            self.subs.insert(i, s);
            proof {
                assert(self.subs@ =~= prev.update(i as int, self.subs@[i as int]));
            }
            i = i + 1;
        }
        proof {
            assert(self@.subs =~~= spec_publish(old(self)@, from, m@).subs);
            assert(self@ =~~= spec_publish(old(self)@, from, m@));
        }
    }

    /// The position of the subscription with `id`, if it is registered.
    fn find(&self, id: u64) -> (r: Option<usize>)
        requires
            self.wf(),
        ensures
            match r {
                Some(j) => self@.has(id) && j == self@.index_of(id),
                None => !self@.has(id),
            },
    {
        let n = self.subs.len();
        let mut i: usize = 0;
        while i < n
            invariant
                self.wf(),
                n == self.subs.len(),
                i <= n,
                forall|k: int| 0 <= k < i ==> (#[trigger] self.subs@[k]).id != id,
            decreases n - i,
        {
            if self.subs[i].id == id {
                proof {
                    assert(self@.subs[i as int].id == id);
                    lemma_index_of(self@, id);
                }
                return Some(i);
            }
            i = i + 1;
        }
        proof {
            assert forall|k: int| 0 <= k < self@.subs.len() implies (#[trigger] self@.subs[k]).id
                != id by {
                assert(self.subs@[k].id != id);
            }
        }
        None
    }

    /// Drops the subscription with `id`; delivery to it stops for good.
    pub fn unsubscribe(&mut self, id: u64)
        requires
            old(self).wf(),
        ensures
            final(self).wf(),
            final(self)@ == spec_unsubscribe(old(self)@, id),
            !final(self)@.has(id),
    {
        match self.find(id) {
            Some(j) => {
                proof {
                    lemma_index_of(self@, id);
                }
                self.subs.remove(j);
                proof {
                    assert(self@.subs =~~= spec_unsubscribe(old(self)@, id).subs);
                    assert(self@ =~~= spec_unsubscribe(old(self)@, id));
                    assert forall|k: int|
                        0 <= k < self@.subs.len() implies (#[trigger] self@.subs[k]).id != id by {
                        if k < j {
                            assert(self@.subs[k] == old(self)@.subs[k]);
                        } else {
                            assert(self@.subs[k] == old(self)@.subs[k + 1]);
                        }
                        lemma_index_of(old(self)@, id);
                    }
                }
            },
            None => {
                proof {
                    assert(self@ =~~= spec_unsubscribe(old(self)@, id));
                }
            },
        }
    }

    /// Hands out the oldest message pending for `id`, if there is one.
    pub fn pop(&mut self, id: u64) -> (r: Option<Message>)
        requires
            old(self).wf(),
        ensures
            final(self).wf(),
            final(self)@ == spec_pop(old(self)@, id).0,
            match r {
                Some(msg) => spec_pop(old(self)@, id).1 matches Some(mv) && msg@ == mv,
                None => spec_pop(old(self)@, id).1 is None,
            },
    {
        match self.find(id) {
            Some(j) => {
                proof {
                    lemma_index_of(self@, id);
                }
                let ghost prev = self.subs@;
                let mut s = self.subs.remove(j);
                let r = s.queue.pop_front();
                self.subs.insert(j, s);
                proof {
                    assert(self.subs@ =~= prev.update(j as int, self.subs@[j as int]));
                    if old(self)@.queue_of(id).len() > 0 {
                        assert(self@.subs =~~= spec_pop(old(self)@, id).0.subs);
                        assert(self@ =~~= spec_pop(old(self)@, id).0);
                    } else {
                        assert(self@ =~~= old(self)@);
                        assert(self@ =~~= spec_pop(old(self)@, id).0);
                    }
                }
                r
            },
            None => {
                proof {
                    assert(self@ =~~= spec_pop(old(self)@, id).0);
                }
                None
            },
        }
    }

    /// How many subscriptions are registered.
    pub fn subscriber_count(&self) -> (n: usize)
        ensures
            n == self@.subs.len(),
    {
        self.subs.len()
    }
}

} // verus!
