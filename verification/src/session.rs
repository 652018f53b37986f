//! The per-connection session state machine.
//!
//! A session starts `Joining` right after accept. A successful handshake
//! takes it to `Active`, in two hub steps that may interleave with other
//! sessions': registering its subscription, then publishing its arrival
//! notice. While `Active` its two loops feed events in: every complete
//! inbound line is published as chat, every hub delivery is encoded and
//! written out. The first failing direction (peer close, read or write error)
//! closes the session: exactly one departure notice is published and the
//! subscription is dropped, and a session already `Closed` stays silent.
//!
//! Exactly the `Active` sessions hold a subscription: see [`Session::wf`].

use vstd::prelude::*;

use crate::hub::Hub;
use crate::hub::HubV;
use crate::hub::spec_publish;
use crate::hub::spec_subscribe;
use crate::hub::spec_unsubscribe;
use crate::hub::spec_pop;
use crate::msg::Message;
use crate::msg::MsgKind;
use crate::msg::chat_msg;
use crate::msg::copy_bytes;
use crate::msg::encode_line;
use crate::msg::encoded;
use crate::msg::joined_msg;
use crate::msg::left_msg;
use crate::msg::strip_line_terminator;
use crate::msg::stripped;

verus! {

/// The lifecycle of one connection.
#[derive(Clone, Copy, PartialEq, Eq, Structural, Debug)]
pub enum SessionState {
    Joining,
    Active,
    Closed,
}

/// One connection's session: its peer address, lifecycle state, and — while
/// active — its subscription id with the hub.
pub struct Session {
    pub peer: Vec<u8>,
    pub state: SessionState,
    pub sub: Option<u64>,
}

/// The mathematical value of a [`Session`].
#[verifier::ext_equal]
pub ghost struct SessV {
    pub peer: Seq<u8>,
    pub state: SessionState,
    pub sub: Option<u64>,
}

impl View for Session {
    type V = SessV;

    open spec fn view(&self) -> SessV {
        SessV { peer: self.peer@, state: self.state, sub: self.sub }
    }
}

impl SessV {
    /// Exactly the active sessions hold a subscription.
    pub open spec fn wf(self) -> bool {
        self.sub is Some <==> self.state == SessionState::Active
    }
}

/// The `Joining -> Active` step on the hub side: the session takes the hub's
/// next id as its subscription.
pub open spec fn spec_activate(s: SessV, h: HubV) -> (SessV, HubV) {
    (
        SessV { peer: s.peer, state: SessionState::Active, sub: Some(h.next_id as u64) },
        spec_subscribe(h),
    )
}

/// Publishing the arrival notice of an active session.
pub open spec fn spec_announce(s: SessV, h: HubV) -> HubV {
    spec_publish(h, s.sub.unwrap(), joined_msg(s.peer))
}

/// Publishing one inbound line, its terminator stripped, as chat.
pub open spec fn spec_chat(s: SessV, h: HubV, line: Seq<u8>) -> HubV {
    spec_publish(h, s.sub.unwrap(), chat_msg(s.peer, stripped(line)))
}

/// The transition to `Closed`. An active session publishes its departure
/// notice once and gives up its subscription; a joining one (failed
/// handshake) closes silently; a closed one is left as it is, so the notice
/// can never be produced twice.
pub open spec fn spec_close(s: SessV, h: HubV) -> (SessV, HubV) {
    if s.state == SessionState::Active {
        let id = s.sub.unwrap();
        (
            SessV { peer: s.peer, state: SessionState::Closed, sub: None },
            spec_unsubscribe(spec_publish(h, id, left_msg(s.peer)), id),
        )
    } else if s.state == SessionState::Joining {
        (SessV { peer: s.peer, state: SessionState::Closed, sub: None }, h)
    } else {
        (s, h)
    }
}

impl Session {
    /// Exactly the active sessions hold a subscription.
    pub open spec fn wf(self) -> bool {
        self@.wf()
    }

    /// A freshly accepted connection, not yet through its handshake.
    pub fn new(peer: Vec<u8>) -> (s: Session)
        ensures
            s.wf(),
            s@ == (SessV {
                peer: peer@,
                state: SessionState::Joining,
                sub: None::<u64>,
            }),
    {
        Session { peer, state: SessionState::Joining, sub: None }
    }

    /// The handshake succeeded: subscribe with the hub and become active.
    /// The new subscription starts empty — nothing published earlier is
    /// replayed to it.
    pub fn activate(&mut self, hub: &mut Hub)
        requires
            old(self).wf(),
            old(self)@.state == SessionState::Joining,
            old(hub).wf(),
            old(hub)@.next_id < u64::MAX,
        ensures
            final(self).wf(),
            final(hub).wf(),
            (final(self)@, final(hub)@) == spec_activate(old(self)@, old(hub)@),
            final(hub)@.has(final(self)@.sub.unwrap()),
            !old(hub)@.has(final(self)@.sub.unwrap()),
    {
        let id = hub.subscribe();
        self.sub = Some(id);
        self.state = SessionState::Active;
    }

    /// Publish this session's arrival notice to everyone else. Its own queue
    /// is never offered the notice.
    pub fn announce_join(&self, hub: &mut Hub)
        requires
            self.wf(),
            self@.state == SessionState::Active,
            old(hub).wf(),
        ensures
            final(hub).wf(),
            final(hub)@ == spec_announce(self@, old(hub)@),
    {
        let m = Message { origin: copy_bytes(&self.peer), kind: MsgKind::Joined, text: Vec::new() };
        proof {
            assert(m@ =~= joined_msg(self@.peer));
        }
        match self.sub {
            Some(id) => hub.publish(id, &m),
            None => proof {
                assert(false);
            },
        }
    }

    /// One complete inbound line: strip its terminator and publish it as
    /// chat from this session's peer.
    pub fn on_line(&self, hub: &mut Hub, line: Vec<u8>)
        requires
            self.wf(),
            self@.state == SessionState::Active,
            old(hub).wf(),
        ensures
            final(hub).wf(),
            final(hub)@ == spec_chat(self@, old(hub)@, line@),
    {
        let payload = strip_line_terminator(line);
        let m = Message { origin: copy_bytes(&self.peer), kind: MsgKind::Chat, text: payload };
        proof {
            assert(m@ =~= chat_msg(self@.peer, stripped(line@)));
        }
        match self.sub {
            Some(id) => hub.publish(id, &m),
            None => proof {
                assert(false);
            },
        }
    }

    /// The next hub delivery for this session, already serialized as the
    /// wire line to write, or `None` when its queue is empty.
    pub fn next_delivery(&self, hub: &mut Hub) -> (r: Option<Vec<u8>>)
        requires
            self.wf(),
            self@.state == SessionState::Active,
            old(hub).wf(),
        ensures
            final(hub).wf(),
            final(hub)@ == spec_pop(old(hub)@, self@.sub.unwrap()).0,
            match r {
                Some(v) => spec_pop(old(hub)@, self@.sub.unwrap()).1 matches Some(mv) && v@
                    == encoded(mv),
                None => spec_pop(old(hub)@, self@.sub.unwrap()).1 is None,
            },
    {
        match self.sub {
            Some(id) => {
                match hub.pop(id) {
                    Some(m) => Some(encode_line(&m)),
                    None => None,
                }
            },
            None => {
                proof {
                    assert(false);
                }
                None
            },
        }
    }

    /// Either direction ended: close the session. Done once, from `Active`,
    /// it publishes exactly one departure notice and drops the subscription;
    /// from `Joining` it closes silently; done again it changes nothing.
    pub fn close(&mut self, hub: &mut Hub)
        requires
            old(self).wf(),
            old(hub).wf(),
        ensures
            final(self).wf(),
            final(hub).wf(),
            (final(self)@, final(hub)@) == spec_close(old(self)@, old(hub)@),
    {
        match self.state {
            SessionState::Active => {
                let m = Message {
                    origin: copy_bytes(&self.peer),
                    kind: MsgKind::Left,
                    text: Vec::new(),
                };
                proof {
                    assert(m@ =~= left_msg(self@.peer));
                }
                match self.sub {
                    Some(id) => {
                        hub.publish(id, &m);
                        hub.unsubscribe(id);
                        self.sub = None;
                        self.state = SessionState::Closed;
                    },
                    None => proof {
                        assert(false);
                    },
                }
            },
            SessionState::Joining => {
                self.state = SessionState::Closed;
                self.sub = None;
            },
            SessionState::Closed => {},
        }
    }

    /// Whether the session is in its active state.
    pub fn is_active(&self) -> (r: bool)
        ensures
            r == (self@.state == SessionState::Active),
    {
        match self.state {
            SessionState::Active => true,
            _ => false,
        }
    }
}

} // verus!
