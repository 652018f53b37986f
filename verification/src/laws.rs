//! The relay's guarantees, stated and proved over the spec-level transitions
//! that the hub's and session's contracts are written in.

use vstd::prelude::*;

use crate::hub::HubV;
use crate::hub::lemma_publish_effects;
use crate::hub::lemma_pop_effects;
use crate::hub::spec_pop;
use crate::hub::spec_publish;
use crate::hub::lemma_subscribe_effects;
use crate::hub::lemma_unsubscribe_effects;
use crate::msg::MsgV;
use crate::msg::joined_msg;
use crate::msg::left_msg;
use crate::queue::bounded_push;
use crate::session::SessV;
use crate::session::SessionState;
use crate::session::spec_activate;
use crate::session::spec_announce;
use crate::session::spec_close;

verus! {

/// Messages one session publishes arrive in its publish order: after it
/// publishes `m1` and then `m2`, every other subscription with room for both
/// holds them adjacent, `m1` first, behind whatever was already pending.
pub proof fn lemma_publish_order(h: HubV, from: u64, m1: MsgV, m2: MsgV, id: u64)
    requires
        h.wf(),
        h.has(id),
        id != from,
        h.queue_of(id).len() + 2 <= h.cap,
    ensures
        spec_publish(spec_publish(h, from, m1), from, m2).queue_of(id) == h.queue_of(id).push(
            m1,
        ).push(m2),
{
    lemma_publish_effects(h, from, m1);
    let h1 = spec_publish(h, from, m1);
    lemma_publish_effects(h1, from, m2);
    assert(h1.queue_of(id) == h.queue_of(id).push(m1));
    assert(spec_publish(h1, from, m2).queue_of(id) == h1.queue_of(id).push(m2));
}

/// Deliveries come out in publish order: a session that publishes `m1` and
/// then `m2` to a subscriber with an empty queue sees that subscriber take
/// delivery of `m1` first and `m2` second, and nothing else.
pub proof fn lemma_delivery_in_publish_order(h: HubV, from: u64, m1: MsgV, m2: MsgV, id: u64)
    requires
        h.wf(),
        h.has(id),
        id != from,
        h.queue_of(id).len() == 0,
        2 <= h.cap,
    ensures
        ({
            let h2 = spec_publish(spec_publish(h, from, m1), from, m2);
            let (h3, first) = spec_pop(h2, id);
            let (h4, second) = spec_pop(h3, id);
            &&& first == Some(m1)
            &&& second == Some(m2)
            &&& spec_pop(h4, id).1 is None
        }),
{
    lemma_publish_order(h, from, m1, m2, id);
    let h2 = spec_publish(spec_publish(h, from, m1), from, m2);
    lemma_publish_effects(h, from, m1);
    lemma_publish_effects(spec_publish(h, from, m1), from, m2);
    assert(h2.queue_of(id) =~= seq![m1, m2]);
    lemma_pop_effects(h2, id);
    let h3 = spec_pop(h2, id).0;
    assert(h3.queue_of(id) =~= seq![m2]);
    lemma_pop_effects(h3, id);
    let h4 = spec_pop(h3, id).0;
    assert(h4.queue_of(id) =~= Seq::<MsgV>::empty());
    lemma_pop_effects(h4, id);
}

/// A subscription that never drains exerts no backpressure: however full the
/// slow subscriber's queue is, publishing still succeeds, every other
/// subscriber receives the message with nothing lost, and the overflow costs
/// the slow subscriber exactly its own oldest pending message.
pub proof fn lemma_no_cross_backpressure(h: HubV, from: u64, m: MsgV, slow: u64, other: u64)
    requires
        h.wf(),
        h.has(slow),
        h.has(other),
        slow != from,
        other != from,
        other != slow,
        h.queue_of(slow).len() == h.cap,
        h.queue_of(other).len() < h.cap,
    ensures
        spec_publish(h, from, m).queue_of(other) == h.queue_of(other).push(m),
        spec_publish(h, from, m).queue_of(slow) == h.queue_of(slow).skip(1).push(m),
{
    lemma_publish_effects(h, from, m);
}

/// Closing an active session emits exactly one departure notice: every other
/// subscription takes `left` behind everything that session had already
/// published to it, the closing session's own subscription is gone, and a
/// second close of the now-closed session changes nothing at all.
pub proof fn lemma_single_departure(s: SessV, h: HubV, id2: u64)
    requires
        s.wf(),
        s.state == SessionState::Active,
        h.wf(),
        h.has(id2),
        id2 != s.sub.unwrap(),
        h.queue_of(id2).len() < h.cap,
    ensures
        spec_close(s, h).0.state == SessionState::Closed,
        spec_close(s, h).1.queue_of(id2) == h.queue_of(id2).push(left_msg(s.peer)),
        !spec_close(s, h).1.has(s.sub.unwrap()),
        spec_close(spec_close(s, h).0, spec_close(s, h).1) == spec_close(s, h),
{
    let id = s.sub.unwrap();
    lemma_publish_effects(h, id, left_msg(s.peer));
    let h1 = spec_publish(h, id, left_msg(s.peer));
    lemma_unsubscribe_effects(h1, id);
    assert(h1.queue_of(id2) == bounded_push(h.queue_of(id2), left_msg(s.peer), h.cap));
    assert(h1.queue_of(id2) == h.queue_of(id2).push(left_msg(s.peer)));
}

/// Two sessions becoming active concurrently — both subscribing before
/// either announces — each receive exactly the other's arrival notice and
/// never their own.
pub proof fn lemma_mutual_arrival(sa: SessV, sb: SessV, h: HubV)
    requires
        sa.wf(),
        sb.wf(),
        sa.state == SessionState::Joining,
        sb.state == SessionState::Joining,
        h.wf(),
        h.next_id + 2 <= u64::MAX,
    ensures
        ({
            let (sa1, h1) = spec_activate(sa, h);
            let (sb1, h2) = spec_activate(sb, h1);
            let h3 = spec_announce(sa1, h2);
            let h4 = spec_announce(sb1, h3);
            &&& h4.queue_of(sa1.sub.unwrap()) == seq![joined_msg(sb.peer)]
            &&& h4.queue_of(sb1.sub.unwrap()) == seq![joined_msg(sa.peer)]
        }),
{
    let (sa1, h1) = spec_activate(sa, h);
    let (sb1, h2) = spec_activate(sb, h1);
    let ia = sa1.sub.unwrap();
    let ib = sb1.sub.unwrap();
    lemma_subscribe_effects(h);
    lemma_subscribe_effects(h1);
    assert(ia != ib);
    assert(h2.queue_of(ia) == Seq::<MsgV>::empty());
    assert(h2.queue_of(ib) == Seq::<MsgV>::empty());
    lemma_publish_effects(h2, ia, joined_msg(sa1.peer));
    let h3 = spec_announce(sa1, h2);
    assert(h3.queue_of(ia) == Seq::<MsgV>::empty());
    assert(h3.queue_of(ib) == bounded_push(
        Seq::<MsgV>::empty(),
        joined_msg(sa.peer),
        h2.cap,
    ));
    lemma_publish_effects(h3, ib, joined_msg(sb1.peer));
    let h4 = spec_announce(sb1, h3);
    assert(h4.queue_of(ia) == bounded_push(
        Seq::<MsgV>::empty(),
        joined_msg(sb.peer),
        h3.cap,
    ));
    assert(h4.queue_of(ib) == h3.queue_of(ib));
    assert(h4.queue_of(ia) =~= seq![joined_msg(sb.peer)]);
    assert(h4.queue_of(ib) =~= seq![joined_msg(sa.peer)]);
}

} // verus!
